//! The sizing sweep of the reference inverter: which PMOS widths are tried
//! around the analytical seed, and the commands that measure each
//! candidate's switching threshold.

use vstd::prelude::*;

verus! {

/// The number of candidate PMOS widths swept when the configuration does
/// not say.
pub const DEFAULT_SWEEP_SAMPLE_COUNT: u32 = 11;

/// The command that measures the switching threshold of the loaded deck:
/// the input voltage at which the output first falls through it.
pub const MEASURE_VTH_COMMAND: &'static str = "meas dc vth_meas WHEN v(net_out)=v(net_in) FALL=1";

/// The vector in which the measured switching threshold lands.
pub const VTH_VECTOR: &'static str = "vth_meas";

/// The number of candidate widths the sweep measures: the configured
/// sample count, or the default when the configuration does not say.
pub open spec fn sample_count_spec(sample_count: Option<u32>) -> nat {
    match sample_count {
        Some(n) => n as nat,
        None => DEFAULT_SWEEP_SAMPLE_COUNT as nat,
    }
}

/// The offset, in steps from the seed, of candidate `k` of a sweep of `n`:
/// the candidates run `-(n / 2)`, ..., `n - 1 - n / 2`.
pub open spec fn sweep_offset_spec(n: nat, k: int) -> int {
    k - n as int / 2
}

/// The sweep's offsets from the seed, in whole steps, in increasing order:
/// exactly as many as the sample count (eleven when not configured),
/// consecutive, and centred on the seed as far as the count allows (an odd
/// count is symmetric about the seed; an even one has one more candidate
/// below it than above).
pub fn sweep_offsets(sample_count: Option<u32>) -> (offsets: Vec<i32>)
    ensures
        offsets@.len() == sample_count_spec(sample_count),
        forall|k: int|
            0 <= k < offsets@.len() ==> offsets@[k] == sweep_offset_spec(
                sample_count_spec(sample_count),
                k,
            ),
{
    let n: u32 = match sample_count {
        Some(n) => n,
        None => DEFAULT_SWEEP_SAMPLE_COUNT,
    };
    let half: u32 = n / 2;
    let mut offsets: Vec<i32> = Vec::new();
    let mut k: u32 = 0;
    while k < n
        invariant
            n == sample_count_spec(sample_count),
            half == n / 2,
            k <= n,
            offsets@.len() == k,
            forall|j: int| 0 <= j < k ==> offsets@[j] == sweep_offset_spec(n as nat, j),
        decreases n - k,
    {
        let offset: i32 = if k >= half {
            (k - half) as i32
        } else {
            -((half - k) as i32)
        };
        offsets.push(offset);
        k = k + 1;
    }
    offsets
}

/// The sweep is centred on the seed: with `n > 0` candidates it measures the
/// seed itself, its offsets are consecutive, it reaches `n / 2` steps below
/// the seed and `n - 1 - n / 2` above, and with an odd `n` the offsets are
/// symmetric about the seed.
pub proof fn lemma_sweep_centred(n: nat)
    ensures
        n > 0 ==> sweep_offset_spec(n, n as int / 2) == 0,
        forall|k: int| 0 <= k < n - 1 ==> #[trigger] sweep_offset_spec(n, k + 1) == sweep_offset_spec(n, k) + 1,
        n > 0 ==> sweep_offset_spec(n, 0) == -(n as int / 2),
        n > 0 ==> sweep_offset_spec(n, n - 1) == n - 1 - n as int / 2,
        n % 2 == 1 ==> forall|k: int|
            0 <= k < n ==> #[trigger] sweep_offset_spec(n, k) == -sweep_offset_spec(n, n - 1 - k),
{
}

/// The DC sweep of the input from 0 to the supply in 10 mV steps; `vdd` is
/// the supply as the command writes it.
pub fn dc_sweep_command(vdd: &str) -> (cmd: String)
    ensures
        cmd@ == "dc Vin 0 "@ + vdd@ + " 0.01"@,
{
    let mut cmd = String::from_str("dc Vin 0 ");
    cmd.append(vdd);
    cmd.append(" 0.01");
    cmd
}

} // verus!

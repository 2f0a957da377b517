//! Device parameters read back from the simulator: the commands that ask for
//! them, the `showmod` text in which model parameters come back, and the
//! check that every model parameter came back.

use vstd::prelude::*;

use crate::characterization::ngspice_ffi::FfiError;
use crate::text::{
    skip_chars, split_whitespace, str_eq, split_whitespace_seq, starts_with, starts_with_seq,
    string_views,
};
use crate::text::is_blank_seq;
use crate::validator::str_views;

pub use crate::characterization::symbols::{symbol_key, SymbolTable};

verus! {

/// Why device parameters could not be extracted.
#[derive(Debug, Clone, PartialEq, Eq)]
pub enum ExtractError {
    Ffi(FfiError),
    /// The `showmod` output of this instance lacked these model parameters.
    MissingShowmodParams(String, Vec<&'static str>),
}

/// The parameters of one device at the characterization bias: its
/// operating-point outputs and model parameters, each a value of `V`.
#[derive(Debug, Clone, Copy)]
pub struct DeviceParams<V> {
    pub vth: V,
    /// Drain current at the characterization bias.
    pub id: V,
    /// Raw per-bin BSIM fit parameter, not the true effective mobility
    /// (BSIM applies further degradation terms internally). Prefer `id`
    /// or `gm` over `u0` for sizing calculations.
    pub u0: V,
    pub vsat: V,
    pub toxe: V,
    pub epsrox: V,
    /// Derived: epsrox * EPS0 / toxe.
    pub cox: V,
    /// Derived: vsat / u0.
    pub ec: V,
    pub gm: V,
    pub cgg: V,
    pub cgs: V,
    pub cgd: V,
    pub cdb: V,
    pub csb: V,
    pub vgsteff: V,
    pub weff: V,
    pub leff: V,
}

/// `p` with the operating-point output `name` set to `value`; `p` itself
/// for any other name.
pub open spec fn with_vector_param<V>(p: DeviceParams<V>, name: Seq<char>, value: V) -> DeviceParams<V> {
    if name == "vth"@ {
        DeviceParams { vth: value, ..p }
    } else if name == "id"@ {
        DeviceParams { id: value, ..p }
    } else if name == "gm"@ {
        DeviceParams { gm: value, ..p }
    } else if name == "cgg"@ {
        DeviceParams { cgg: value, ..p }
    } else if name == "cgs"@ {
        DeviceParams { cgs: value, ..p }
    } else if name == "cgd"@ {
        DeviceParams { cgd: value, ..p }
    } else if name == "cdb"@ {
        DeviceParams { cdb: value, ..p }
    } else if name == "csb"@ {
        DeviceParams { csb: value, ..p }
    } else if name == "vgsteff"@ {
        DeviceParams { vgsteff: value, ..p }
    } else if name == "weff"@ {
        DeviceParams { weff: value, ..p }
    } else if name == "leff"@ {
        DeviceParams { leff: value, ..p }
    } else {
        p
    }
}

impl<V: Copy> DeviceParams<V> {
    /// A record with every parameter set to `v`.
    pub fn filled(v: V) -> (p: Self)
        ensures
            p.vth == v,
            p.id == v,
            p.u0 == v,
            p.vsat == v,
            p.toxe == v,
            p.epsrox == v,
            p.cox == v,
            p.ec == v,
            p.gm == v,
            p.cgg == v,
            p.cgs == v,
            p.cgd == v,
            p.cdb == v,
            p.csb == v,
            p.vgsteff == v,
            p.weff == v,
            p.leff == v,
    {
        DeviceParams {
            vth: v,
            id: v,
            u0: v,
            vsat: v,
            toxe: v,
            epsrox: v,
            cox: v,
            ec: v,
            gm: v,
            cgg: v,
            cgs: v,
            cgd: v,
            cdb: v,
            csb: v,
            vgsteff: v,
            weff: v,
            leff: v,
        }
    }

    /// (name, value) pairs in a stable order, for CSV output and for the
    /// symbol table.
    pub fn as_named_fields(&self) -> (v: Vec<(&'static str, V)>)
        ensures
            v@ == named_fields_spec(*self),
            v@ == seq![
                ("vth", self.vth),
                ("id", self.id),
                ("u0", self.u0),
                ("vsat", self.vsat),
                ("toxe", self.toxe),
                ("epsrox", self.epsrox),
                ("cox", self.cox),
                ("ec", self.ec),
                ("gm", self.gm),
                ("cgg", self.cgg),
                ("cgs", self.cgs),
                ("cgd", self.cgd),
                ("cdb", self.cdb),
                ("csb", self.csb),
                ("vgsteff", self.vgsteff),
                ("weff", self.weff),
                ("leff", self.leff),
            ],
    {
        let v = vec![
            ("vth", self.vth),
            ("id", self.id),
            ("u0", self.u0),
            ("vsat", self.vsat),
            ("toxe", self.toxe),
            ("epsrox", self.epsrox),
            ("cox", self.cox),
            ("ec", self.ec),
            ("gm", self.gm),
            ("cgg", self.cgg),
            ("cgs", self.cgs),
            ("cgd", self.cgd),
            ("cdb", self.cdb),
            ("csb", self.csb),
            ("vgsteff", self.vgsteff),
            ("weff", self.weff),
            ("leff", self.leff),
        ];
        assert(v@ =~= seq![
            ("vth", self.vth),
            ("id", self.id),
            ("u0", self.u0),
            ("vsat", self.vsat),
            ("toxe", self.toxe),
            ("epsrox", self.epsrox),
            ("cox", self.cox),
            ("ec", self.ec),
            ("gm", self.gm),
            ("cgg", self.cgg),
            ("cgs", self.cgs),
            ("cgd", self.cgd),
            ("cdb", self.cdb),
            ("csb", self.csb),
            ("vgsteff", self.vgsteff),
            ("weff", self.weff),
            ("leff", self.leff),
        ]);
        v
    }
}

/// Stores the value read for operating-point output `name`; only that
/// field changes.
pub fn assign_vector_param<V: Copy>(params: &mut DeviceParams<V>, name: &str, value: V)
    requires
        vector_params_spec().contains(name@),
    ensures
        *final(params) == with_vector_param(*old(params), name@, value),
{
    if str_eq(name, "vth") {
        params.vth = value;
    } else if str_eq(name, "id") {
        params.id = value;
    } else if str_eq(name, "gm") {
        params.gm = value;
    } else if str_eq(name, "cgg") {
        params.cgg = value;
    } else if str_eq(name, "cgs") {
        params.cgs = value;
    } else if str_eq(name, "cgd") {
        params.cgd = value;
    } else if str_eq(name, "cdb") {
        params.cdb = value;
    } else if str_eq(name, "csb") {
        params.csb = value;
    } else if str_eq(name, "vgsteff") {
        params.vgsteff = value;
    } else if str_eq(name, "weff") {
        params.weff = value;
    } else if str_eq(name, "leff") {
        params.leff = value;
    }
}

/// The `(name, value)` pairs of a record, in report order.
pub open spec fn named_fields_spec<V>(p: DeviceParams<V>) -> Seq<(&'static str, V)> {
    seq![
        ("vth", p.vth),
        ("id", p.id),
        ("u0", p.u0),
        ("vsat", p.vsat),
        ("toxe", p.toxe),
        ("epsrox", p.epsrox),
        ("cox", p.cox),
        ("ec", p.ec),
        ("gm", p.gm),
        ("cgg", p.cgg),
        ("cgs", p.cgs),
        ("cgd", p.cgd),
        ("cdb", p.cdb),
        ("csb", p.csb),
        ("vgsteff", p.vgsteff),
        ("weff", p.weff),
        ("leff", p.leff),
    ]
}

/// The names of all parameters of the record are pairwise different.
proof fn lemma_param_names_distinct()
    ensures
        "id"@ != "vth"@,
        "u0"@ != "vth"@,
        "u0"@ != "id"@,
        "vsat"@ != "vth"@,
        "vsat"@ != "id"@,
        "vsat"@ != "u0"@,
        "toxe"@ != "vth"@,
        "toxe"@ != "id"@,
        "toxe"@ != "u0"@,
        "toxe"@ != "vsat"@,
        "epsrox"@ != "vth"@,
        "epsrox"@ != "id"@,
        "epsrox"@ != "u0"@,
        "epsrox"@ != "vsat"@,
        "epsrox"@ != "toxe"@,
        "cox"@ != "vth"@,
        "cox"@ != "id"@,
        "cox"@ != "u0"@,
        "cox"@ != "vsat"@,
        "cox"@ != "toxe"@,
        "cox"@ != "epsrox"@,
        "ec"@ != "vth"@,
        "ec"@ != "id"@,
        "ec"@ != "u0"@,
        "ec"@ != "vsat"@,
        "ec"@ != "toxe"@,
        "ec"@ != "epsrox"@,
        "ec"@ != "cox"@,
        "gm"@ != "vth"@,
        "gm"@ != "id"@,
        "gm"@ != "u0"@,
        "gm"@ != "vsat"@,
        "gm"@ != "toxe"@,
        "gm"@ != "epsrox"@,
        "gm"@ != "cox"@,
        "gm"@ != "ec"@,
        "cgg"@ != "vth"@,
        "cgg"@ != "id"@,
        "cgg"@ != "u0"@,
        "cgg"@ != "vsat"@,
        "cgg"@ != "toxe"@,
        "cgg"@ != "epsrox"@,
        "cgg"@ != "cox"@,
        "cgg"@ != "ec"@,
        "cgg"@ != "gm"@,
        "cgs"@ != "vth"@,
        "cgs"@ != "id"@,
        "cgs"@ != "u0"@,
        "cgs"@ != "vsat"@,
        "cgs"@ != "toxe"@,
        "cgs"@ != "epsrox"@,
        "cgs"@ != "cox"@,
        "cgs"@ != "ec"@,
        "cgs"@ != "gm"@,
        "cgs"@ != "cgg"@,
        "cgd"@ != "vth"@,
        "cgd"@ != "id"@,
        "cgd"@ != "u0"@,
        "cgd"@ != "vsat"@,
        "cgd"@ != "toxe"@,
        "cgd"@ != "epsrox"@,
        "cgd"@ != "cox"@,
        "cgd"@ != "ec"@,
        "cgd"@ != "gm"@,
        "cgd"@ != "cgg"@,
        "cgd"@ != "cgs"@,
        "cdb"@ != "vth"@,
        "cdb"@ != "id"@,
        "cdb"@ != "u0"@,
        "cdb"@ != "vsat"@,
        "cdb"@ != "toxe"@,
        "cdb"@ != "epsrox"@,
        "cdb"@ != "cox"@,
        "cdb"@ != "ec"@,
        "cdb"@ != "gm"@,
        "cdb"@ != "cgg"@,
        "cdb"@ != "cgs"@,
        "cdb"@ != "cgd"@,
        "csb"@ != "vth"@,
        "csb"@ != "id"@,
        "csb"@ != "u0"@,
        "csb"@ != "vsat"@,
        "csb"@ != "toxe"@,
        "csb"@ != "epsrox"@,
        "csb"@ != "cox"@,
        "csb"@ != "ec"@,
        "csb"@ != "gm"@,
        "csb"@ != "cgg"@,
        "csb"@ != "cgs"@,
        "csb"@ != "cgd"@,
        "csb"@ != "cdb"@,
        "vgsteff"@ != "vth"@,
        "vgsteff"@ != "id"@,
        "vgsteff"@ != "u0"@,
        "vgsteff"@ != "vsat"@,
        "vgsteff"@ != "toxe"@,
        "vgsteff"@ != "epsrox"@,
        "vgsteff"@ != "cox"@,
        "vgsteff"@ != "ec"@,
        "vgsteff"@ != "gm"@,
        "vgsteff"@ != "cgg"@,
        "vgsteff"@ != "cgs"@,
        "vgsteff"@ != "cgd"@,
        "vgsteff"@ != "cdb"@,
        "vgsteff"@ != "csb"@,
        "weff"@ != "vth"@,
        "weff"@ != "id"@,
        "weff"@ != "u0"@,
        "weff"@ != "vsat"@,
        "weff"@ != "toxe"@,
        "weff"@ != "epsrox"@,
        "weff"@ != "cox"@,
        "weff"@ != "ec"@,
        "weff"@ != "gm"@,
        "weff"@ != "cgg"@,
        "weff"@ != "cgs"@,
        "weff"@ != "cgd"@,
        "weff"@ != "cdb"@,
        "weff"@ != "csb"@,
        "weff"@ != "vgsteff"@,
        "leff"@ != "vth"@,
        "leff"@ != "id"@,
        "leff"@ != "u0"@,
        "leff"@ != "vsat"@,
        "leff"@ != "toxe"@,
        "leff"@ != "epsrox"@,
        "leff"@ != "cox"@,
        "leff"@ != "ec"@,
        "leff"@ != "gm"@,
        "leff"@ != "cgg"@,
        "leff"@ != "cgs"@,
        "leff"@ != "cgd"@,
        "leff"@ != "cdb"@,
        "leff"@ != "csb"@,
        "leff"@ != "vgsteff"@,
        "leff"@ != "weff"@,
{
    reveal_strlit("vth");
    reveal_strlit("id");
    reveal_strlit("u0");
    reveal_strlit("vsat");
    reveal_strlit("toxe");
    reveal_strlit("epsrox");
    reveal_strlit("cox");
    reveal_strlit("ec");
    reveal_strlit("gm");
    reveal_strlit("cgg");
    reveal_strlit("cgs");
    reveal_strlit("cgd");
    reveal_strlit("cdb");
    reveal_strlit("csb");
    reveal_strlit("vgsteff");
    reveal_strlit("weff");
    reveal_strlit("leff");
    assert("id"@.len() != "vth"@.len());
    assert("u0"@.len() != "vth"@.len());
    assert("u0"@[0] != "id"@[0]);
    assert("vsat"@.len() != "vth"@.len());
    assert("vsat"@.len() != "id"@.len());
    assert("vsat"@.len() != "u0"@.len());
    assert("toxe"@.len() != "vth"@.len());
    assert("toxe"@.len() != "id"@.len());
    assert("toxe"@.len() != "u0"@.len());
    assert("toxe"@[0] != "vsat"@[0]);
    assert("epsrox"@.len() != "vth"@.len());
    assert("epsrox"@.len() != "id"@.len());
    assert("epsrox"@.len() != "u0"@.len());
    assert("epsrox"@.len() != "vsat"@.len());
    assert("epsrox"@.len() != "toxe"@.len());
    assert("cox"@[0] != "vth"@[0]);
    assert("cox"@.len() != "id"@.len());
    assert("cox"@.len() != "u0"@.len());
    assert("cox"@.len() != "vsat"@.len());
    assert("cox"@.len() != "toxe"@.len());
    assert("cox"@.len() != "epsrox"@.len());
    assert("ec"@.len() != "vth"@.len());
    assert("ec"@[0] != "id"@[0]);
    assert("ec"@[0] != "u0"@[0]);
    assert("ec"@.len() != "vsat"@.len());
    assert("ec"@.len() != "toxe"@.len());
    assert("ec"@.len() != "epsrox"@.len());
    assert("ec"@.len() != "cox"@.len());
    assert("gm"@.len() != "vth"@.len());
    assert("gm"@[0] != "id"@[0]);
    assert("gm"@[0] != "u0"@[0]);
    assert("gm"@.len() != "vsat"@.len());
    assert("gm"@.len() != "toxe"@.len());
    assert("gm"@.len() != "epsrox"@.len());
    assert("gm"@.len() != "cox"@.len());
    assert("gm"@[0] != "ec"@[0]);
    assert("cgg"@[0] != "vth"@[0]);
    assert("cgg"@.len() != "id"@.len());
    assert("cgg"@.len() != "u0"@.len());
    assert("cgg"@.len() != "vsat"@.len());
    assert("cgg"@.len() != "toxe"@.len());
    assert("cgg"@.len() != "epsrox"@.len());
    assert("cgg"@[1] != "cox"@[1]);
    assert("cgg"@.len() != "ec"@.len());
    assert("cgg"@.len() != "gm"@.len());
    assert("cgs"@[0] != "vth"@[0]);
    assert("cgs"@.len() != "id"@.len());
    assert("cgs"@.len() != "u0"@.len());
    assert("cgs"@.len() != "vsat"@.len());
    assert("cgs"@.len() != "toxe"@.len());
    assert("cgs"@.len() != "epsrox"@.len());
    assert("cgs"@[1] != "cox"@[1]);
    assert("cgs"@.len() != "ec"@.len());
    assert("cgs"@.len() != "gm"@.len());
    assert("cgs"@[2] != "cgg"@[2]);
    assert("cgd"@[0] != "vth"@[0]);
    assert("cgd"@.len() != "id"@.len());
    assert("cgd"@.len() != "u0"@.len());
    assert("cgd"@.len() != "vsat"@.len());
    assert("cgd"@.len() != "toxe"@.len());
    assert("cgd"@.len() != "epsrox"@.len());
    assert("cgd"@[1] != "cox"@[1]);
    assert("cgd"@.len() != "ec"@.len());
    assert("cgd"@.len() != "gm"@.len());
    assert("cgd"@[2] != "cgg"@[2]);
    assert("cgd"@[2] != "cgs"@[2]);
    assert("cdb"@[0] != "vth"@[0]);
    assert("cdb"@.len() != "id"@.len());
    assert("cdb"@.len() != "u0"@.len());
    assert("cdb"@.len() != "vsat"@.len());
    assert("cdb"@.len() != "toxe"@.len());
    assert("cdb"@.len() != "epsrox"@.len());
    assert("cdb"@[1] != "cox"@[1]);
    assert("cdb"@.len() != "ec"@.len());
    assert("cdb"@.len() != "gm"@.len());
    assert("cdb"@[1] != "cgg"@[1]);
    assert("cdb"@[1] != "cgs"@[1]);
    assert("cdb"@[1] != "cgd"@[1]);
    assert("csb"@[0] != "vth"@[0]);
    assert("csb"@.len() != "id"@.len());
    assert("csb"@.len() != "u0"@.len());
    assert("csb"@.len() != "vsat"@.len());
    assert("csb"@.len() != "toxe"@.len());
    assert("csb"@.len() != "epsrox"@.len());
    assert("csb"@[1] != "cox"@[1]);
    assert("csb"@.len() != "ec"@.len());
    assert("csb"@.len() != "gm"@.len());
    assert("csb"@[1] != "cgg"@[1]);
    assert("csb"@[1] != "cgs"@[1]);
    assert("csb"@[1] != "cgd"@[1]);
    assert("csb"@[1] != "cdb"@[1]);
    assert("vgsteff"@.len() != "vth"@.len());
    assert("vgsteff"@.len() != "id"@.len());
    assert("vgsteff"@.len() != "u0"@.len());
    assert("vgsteff"@.len() != "vsat"@.len());
    assert("vgsteff"@.len() != "toxe"@.len());
    assert("vgsteff"@.len() != "epsrox"@.len());
    assert("vgsteff"@.len() != "cox"@.len());
    assert("vgsteff"@.len() != "ec"@.len());
    assert("vgsteff"@.len() != "gm"@.len());
    assert("vgsteff"@.len() != "cgg"@.len());
    assert("vgsteff"@.len() != "cgs"@.len());
    assert("vgsteff"@.len() != "cgd"@.len());
    assert("vgsteff"@.len() != "cdb"@.len());
    assert("vgsteff"@.len() != "csb"@.len());
    assert("weff"@.len() != "vth"@.len());
    assert("weff"@.len() != "id"@.len());
    assert("weff"@.len() != "u0"@.len());
    assert("weff"@[0] != "vsat"@[0]);
    assert("weff"@[0] != "toxe"@[0]);
    assert("weff"@.len() != "epsrox"@.len());
    assert("weff"@.len() != "cox"@.len());
    assert("weff"@.len() != "ec"@.len());
    assert("weff"@.len() != "gm"@.len());
    assert("weff"@.len() != "cgg"@.len());
    assert("weff"@.len() != "cgs"@.len());
    assert("weff"@.len() != "cgd"@.len());
    assert("weff"@.len() != "cdb"@.len());
    assert("weff"@.len() != "csb"@.len());
    assert("weff"@.len() != "vgsteff"@.len());
    assert("leff"@.len() != "vth"@.len());
    assert("leff"@.len() != "id"@.len());
    assert("leff"@.len() != "u0"@.len());
    assert("leff"@[0] != "vsat"@[0]);
    assert("leff"@[0] != "toxe"@[0]);
    assert("leff"@.len() != "epsrox"@.len());
    assert("leff"@.len() != "cox"@.len());
    assert("leff"@.len() != "ec"@.len());
    assert("leff"@.len() != "gm"@.len());
    assert("leff"@.len() != "cgg"@.len());
    assert("leff"@.len() != "cgs"@.len());
    assert("leff"@.len() != "cgd"@.len());
    assert("leff"@.len() != "cdb"@.len());
    assert("leff"@.len() != "csb"@.len());
    assert("leff"@.len() != "vgsteff"@.len());
    assert("leff"@[0] != "weff"@[0]);
}

/// The report names each parameter once, and agrees with the reads of
/// extraction: after the value read for an operating-point output is
/// stored, the report's entry under that output's name holds that value.
pub proof fn lemma_named_fields_consistent<V>(p: DeviceParams<V>, v: V)
    ensures
        named_fields_spec(p).len() == 17,
        forall|i: int, j: int|
            0 <= i < j < named_fields_spec(p).len() ==> (#[trigger] named_fields_spec(p)[i]).0@
                != (#[trigger] named_fields_spec(p)[j]).0@,
        forall|k: int|
            #![trigger vector_params_spec()[k]]
            0 <= k < vector_params_spec().len() ==> exists|i: int|
                0 <= i < 17 && (#[trigger] named_fields_spec(
                    with_vector_param(p, vector_params_spec()[k], v),
                )[i]).0@ == vector_params_spec()[k] && named_fields_spec(
                    with_vector_param(p, vector_params_spec()[k], v),
                )[i].1 == v,
{
    lemma_param_names_distinct();
    lemma_output_names_distinct();
    assert(named_fields_spec(with_vector_param(p, "vth"@, v))[0int] == ("vth", v));
    assert(named_fields_spec(with_vector_param(p, "id"@, v))[1int] == ("id", v));
    assert(named_fields_spec(with_vector_param(p, "gm"@, v))[8int] == ("gm", v));
    assert(named_fields_spec(with_vector_param(p, "cgg"@, v))[9int] == ("cgg", v));
    assert(named_fields_spec(with_vector_param(p, "cgs"@, v))[10int] == ("cgs", v));
    assert(named_fields_spec(with_vector_param(p, "cgd"@, v))[11int] == ("cgd", v));
    assert(named_fields_spec(with_vector_param(p, "cdb"@, v))[12int] == ("cdb", v));
    assert(named_fields_spec(with_vector_param(p, "csb"@, v))[13int] == ("csb", v));
    assert(named_fields_spec(with_vector_param(p, "vgsteff"@, v))[14int] == ("vgsteff", v));
    assert(named_fields_spec(with_vector_param(p, "weff"@, v))[15int] == ("weff", v));
    assert(named_fields_spec(with_vector_param(p, "leff"@, v))[16int] == ("leff", v));
}

/// The names of the operating-point outputs are pairwise different.
proof fn lemma_output_names_distinct()
    ensures
        "id"@ != "vth"@,
        "gm"@ != "vth"@,
        "gm"@ != "id"@,
        "cgg"@ != "vth"@,
        "cgg"@ != "id"@,
        "cgg"@ != "gm"@,
        "cgs"@ != "vth"@,
        "cgs"@ != "id"@,
        "cgs"@ != "gm"@,
        "cgs"@ != "cgg"@,
        "cgd"@ != "vth"@,
        "cgd"@ != "id"@,
        "cgd"@ != "gm"@,
        "cgd"@ != "cgg"@,
        "cgd"@ != "cgs"@,
        "cdb"@ != "vth"@,
        "cdb"@ != "id"@,
        "cdb"@ != "gm"@,
        "cdb"@ != "cgg"@,
        "cdb"@ != "cgs"@,
        "cdb"@ != "cgd"@,
        "csb"@ != "vth"@,
        "csb"@ != "id"@,
        "csb"@ != "gm"@,
        "csb"@ != "cgg"@,
        "csb"@ != "cgs"@,
        "csb"@ != "cgd"@,
        "csb"@ != "cdb"@,
        "vgsteff"@ != "vth"@,
        "vgsteff"@ != "id"@,
        "vgsteff"@ != "gm"@,
        "vgsteff"@ != "cgg"@,
        "vgsteff"@ != "cgs"@,
        "vgsteff"@ != "cgd"@,
        "vgsteff"@ != "cdb"@,
        "vgsteff"@ != "csb"@,
        "weff"@ != "vth"@,
        "weff"@ != "id"@,
        "weff"@ != "gm"@,
        "weff"@ != "cgg"@,
        "weff"@ != "cgs"@,
        "weff"@ != "cgd"@,
        "weff"@ != "cdb"@,
        "weff"@ != "csb"@,
        "weff"@ != "vgsteff"@,
        "leff"@ != "vth"@,
        "leff"@ != "id"@,
        "leff"@ != "gm"@,
        "leff"@ != "cgg"@,
        "leff"@ != "cgs"@,
        "leff"@ != "cgd"@,
        "leff"@ != "cdb"@,
        "leff"@ != "csb"@,
        "leff"@ != "vgsteff"@,
        "leff"@ != "weff"@,
{
    reveal_strlit("vth");
    reveal_strlit("id");
    reveal_strlit("gm");
    reveal_strlit("cgg");
    reveal_strlit("cgs");
    reveal_strlit("cgd");
    reveal_strlit("cdb");
    reveal_strlit("csb");
    reveal_strlit("vgsteff");
    reveal_strlit("weff");
    reveal_strlit("leff");
    assert("id"@.len() != "vth"@.len());
    assert("gm"@.len() != "vth"@.len());
    assert("gm"@[0] != "id"@[0]);
    assert("cgg"@[0] != "vth"@[0]);
    assert("cgg"@.len() != "id"@.len());
    assert("cgg"@.len() != "gm"@.len());
    assert("cgs"@[0] != "vth"@[0]);
    assert("cgs"@.len() != "id"@.len());
    assert("cgs"@.len() != "gm"@.len());
    assert("cgs"@[2] != "cgg"@[2]);
    assert("cgd"@[0] != "vth"@[0]);
    assert("cgd"@.len() != "id"@.len());
    assert("cgd"@.len() != "gm"@.len());
    assert("cgd"@[2] != "cgg"@[2]);
    assert("cgd"@[2] != "cgs"@[2]);
    assert("cdb"@[0] != "vth"@[0]);
    assert("cdb"@.len() != "id"@.len());
    assert("cdb"@.len() != "gm"@.len());
    assert("cdb"@[1] != "cgg"@[1]);
    assert("cdb"@[1] != "cgs"@[1]);
    assert("cdb"@[1] != "cgd"@[1]);
    assert("csb"@[0] != "vth"@[0]);
    assert("csb"@.len() != "id"@.len());
    assert("csb"@.len() != "gm"@.len());
    assert("csb"@[1] != "cgg"@[1]);
    assert("csb"@[1] != "cgs"@[1]);
    assert("csb"@[1] != "cgd"@[1]);
    assert("csb"@[1] != "cdb"@[1]);
    assert("vgsteff"@.len() != "vth"@.len());
    assert("vgsteff"@.len() != "id"@.len());
    assert("vgsteff"@.len() != "gm"@.len());
    assert("vgsteff"@.len() != "cgg"@.len());
    assert("vgsteff"@.len() != "cgs"@.len());
    assert("vgsteff"@.len() != "cgd"@.len());
    assert("vgsteff"@.len() != "cdb"@.len());
    assert("vgsteff"@.len() != "csb"@.len());
    assert("weff"@.len() != "vth"@.len());
    assert("weff"@.len() != "id"@.len());
    assert("weff"@.len() != "gm"@.len());
    assert("weff"@.len() != "cgg"@.len());
    assert("weff"@.len() != "cgs"@.len());
    assert("weff"@.len() != "cgd"@.len());
    assert("weff"@.len() != "cdb"@.len());
    assert("weff"@.len() != "csb"@.len());
    assert("weff"@.len() != "vgsteff"@.len());
    assert("leff"@.len() != "vth"@.len());
    assert("leff"@.len() != "id"@.len());
    assert("leff"@.len() != "gm"@.len());
    assert("leff"@.len() != "cgg"@.len());
    assert("leff"@.len() != "cgs"@.len());
    assert("leff"@.len() != "cgd"@.len());
    assert("leff"@.len() != "cdb"@.len());
    assert("leff"@.len() != "csb"@.len());
    assert("leff"@.len() != "vgsteff"@.len());
    assert("leff"@[0] != "weff"@[0]);
}

/// The order of extraction: the operating point is computed first; every
/// read of an output comes right after the command that fills that
/// output's vector on the instance; the `showmod` text of the instance is
/// requested, then read, last.
pub proof fn lemma_plan_order(instance: Seq<char>)
    ensures
        extract_plan_spec(instance).len() == 2 * vector_params_spec().len() + 3,
        extract_plan_spec(instance)[0] == Request::Command("op"@),
        extract_plan_spec(instance)[extract_plan_spec(instance).len() - 2] == Request::Command(
            "showmod "@ + instance,
        ),
        extract_plan_spec(instance)[extract_plan_spec(instance).len() - 1] == Request::ReadShowmod,
        forall|j: int|
            0 <= j < extract_plan_spec(instance).len() ==> (#[trigger] extract_plan_spec(instance)[j] matches Request::ReadVector(
                n,
            ) ==> j >= 1 && extract_plan_spec(instance)[j - 1] == Request::Command(
                "let "@ + n + "_val = @"@ + instance + "["@ + n + "]"@,
            )),
{
    let params = vector_params_spec();
    let reads = vector_reads_spec(params, instance);
    lemma_vector_reads_index(params, instance);
    lemma_vector_reads_pairs(params, instance);
    let plan = extract_plan_spec(instance);
    let tail = seq![Request::Command("showmod "@ + instance), Request::ReadShowmod];
    assert(plan == seq![Request::Command("op"@)] + reads + tail);
    assert forall|j: int| 0 <= j < plan.len() implies (#[trigger] plan[j] matches Request::ReadVector(
        n,
    ) ==> j >= 1 && plan[j - 1] == Request::Command(
        "let "@ + n + "_val = @"@ + instance + "["@ + n + "]"@,
    )) by {
        if let Request::ReadVector(n) = plan[j] {
            if 1 <= j < 1 + reads.len() {
                assert(plan[j] == reads[j - 1]);
                assert(reads[j - 1] is ReadVector);
                assert(plan[j - 1] == reads[j - 2]);
            } else if j >= 1 + reads.len() {
                assert(plan[j] == tail[j - 1 - reads.len()]);
            }
        }
    }
}

/// In the reads of a list of outputs, each read follows the command that
/// fills its vector.
proof fn lemma_vector_reads_pairs(params: Seq<Seq<char>>, instance: Seq<char>)
    ensures
        forall|j: int|
            0 <= j < vector_reads_spec(params, instance).len() ==> (#[trigger] vector_reads_spec(
                params,
                instance,
            )[j] matches Request::ReadVector(n) ==> j >= 1 && vector_reads_spec(params, instance)[j
                - 1] == Request::Command(let_vector_spec(n, instance))),
    decreases params.len(),
{
    if params.len() > 0 {
        let pre = params.drop_last();
        lemma_vector_reads_pairs(pre, instance);
        lemma_vector_reads_index(pre, instance);
        let r = vector_reads_spec(params, instance);
        let rp = vector_reads_spec(pre, instance);
        assert forall|j: int| 0 <= j < r.len() implies (#[trigger] r[j] matches Request::ReadVector(
            n,
        ) ==> j >= 1 && r[j - 1] == Request::Command(let_vector_spec(n, instance))) by {
            if j < rp.len() {
                assert(r[j] == rp[j]);
                if rp[j] is ReadVector {
                    assert(r[j - 1] == rp[j - 1]);
                }
            }
        }
    }
}

/// `q` is `p` with exactly one operating-point output set to `v`.
pub open spec fn sets_one_output<V>(p: DeviceParams<V>, q: DeviceParams<V>, v: V) -> bool {
    ||| q == (DeviceParams { vth: v, ..p })
    ||| q == (DeviceParams { id: v, ..p })
    ||| q == (DeviceParams { gm: v, ..p })
    ||| q == (DeviceParams { cgg: v, ..p })
    ||| q == (DeviceParams { cgs: v, ..p })
    ||| q == (DeviceParams { cgd: v, ..p })
    ||| q == (DeviceParams { cdb: v, ..p })
    ||| q == (DeviceParams { csb: v, ..p })
    ||| q == (DeviceParams { vgsteff: v, ..p })
    ||| q == (DeviceParams { weff: v, ..p })
    ||| q == (DeviceParams { leff: v, ..p })
}

/// The reads of a list of outputs: for output `k`, its command at `2k` and
/// its read at `2k + 1`.
proof fn lemma_vector_reads_index(params: Seq<Seq<char>>, instance: Seq<char>)
    ensures
        vector_reads_spec(params, instance).len() == 2 * params.len(),
        forall|k: int|
            0 <= k < params.len() ==> #[trigger] vector_reads_spec(params, instance)[2 * k + 1]
                == Request::ReadVector(params[k]),
        forall|j: int|
            0 <= j < vector_reads_spec(params, instance).len() ==> (#[trigger] vector_reads_spec(
                params,
                instance,
            )[j] matches Request::ReadVector(n) ==> params.contains(n)),
    decreases params.len(),
{
    if params.len() > 0 {
        let pre = params.drop_last();
        lemma_vector_reads_index(pre, instance);
        let r = vector_reads_spec(params, instance);
        let rp = vector_reads_spec(pre, instance);
        assert forall|k: int| 0 <= k < params.len() implies #[trigger] r[2 * k + 1]
            == Request::ReadVector(params[k]) by {
            if k < params.len() - 1 {
                assert(r[2 * k + 1] == rp[2 * k + 1]);
                assert(pre[k] == params[k]);
            }
        }
        assert forall|j: int| 0 <= j < r.len() implies (#[trigger] r[j] matches Request::ReadVector(
            n,
        ) ==> params.contains(n)) by {
            if j < rp.len() {
                assert(r[j] == rp[j]);
                if let Request::ReadVector(n) = rp[j] {
                    let k = choose|k: int| 0 <= k < pre.len() && pre[k] == n;
                    assert(params[k] == n);
                }
            } else if j == rp.len() + 1 {
                assert(params[params.len() - 1] == params.last());
            }
        }
    }
}

/// Extraction reads every operating-point output of the record: for each
/// output there is a read in the plan whose value lands in that output, and
/// every read of the plan sets exactly one output to the value read.
pub proof fn lemma_plan_reads_every_output<V>(p: DeviceParams<V>, v: V, instance: Seq<char>)
    ensures
        exists|j: int|
            0 <= j < extract_plan_spec(instance).len() && (#[trigger] extract_plan_spec(instance)[j] matches Request::ReadVector(
                n,
            ) && with_vector_param(p, n, v).vth == v),
        exists|j: int|
            0 <= j < extract_plan_spec(instance).len() && (#[trigger] extract_plan_spec(instance)[j] matches Request::ReadVector(
                n,
            ) && with_vector_param(p, n, v).id == v),
        exists|j: int|
            0 <= j < extract_plan_spec(instance).len() && (#[trigger] extract_plan_spec(instance)[j] matches Request::ReadVector(
                n,
            ) && with_vector_param(p, n, v).gm == v),
        exists|j: int|
            0 <= j < extract_plan_spec(instance).len() && (#[trigger] extract_plan_spec(instance)[j] matches Request::ReadVector(
                n,
            ) && with_vector_param(p, n, v).cgg == v),
        exists|j: int|
            0 <= j < extract_plan_spec(instance).len() && (#[trigger] extract_plan_spec(instance)[j] matches Request::ReadVector(
                n,
            ) && with_vector_param(p, n, v).cgs == v),
        exists|j: int|
            0 <= j < extract_plan_spec(instance).len() && (#[trigger] extract_plan_spec(instance)[j] matches Request::ReadVector(
                n,
            ) && with_vector_param(p, n, v).cgd == v),
        exists|j: int|
            0 <= j < extract_plan_spec(instance).len() && (#[trigger] extract_plan_spec(instance)[j] matches Request::ReadVector(
                n,
            ) && with_vector_param(p, n, v).cdb == v),
        exists|j: int|
            0 <= j < extract_plan_spec(instance).len() && (#[trigger] extract_plan_spec(instance)[j] matches Request::ReadVector(
                n,
            ) && with_vector_param(p, n, v).csb == v),
        exists|j: int|
            0 <= j < extract_plan_spec(instance).len() && (#[trigger] extract_plan_spec(instance)[j] matches Request::ReadVector(
                n,
            ) && with_vector_param(p, n, v).vgsteff == v),
        exists|j: int|
            0 <= j < extract_plan_spec(instance).len() && (#[trigger] extract_plan_spec(instance)[j] matches Request::ReadVector(
                n,
            ) && with_vector_param(p, n, v).weff == v),
        exists|j: int|
            0 <= j < extract_plan_spec(instance).len() && (#[trigger] extract_plan_spec(instance)[j] matches Request::ReadVector(
                n,
            ) && with_vector_param(p, n, v).leff == v),
        forall|j: int|
            0 <= j < extract_plan_spec(instance).len() ==> (#[trigger] extract_plan_spec(instance)[j] matches Request::ReadVector(
                n,
            ) ==> sets_one_output(p, with_vector_param(p, n, v), v)),
{
    lemma_output_names_distinct();
    let params = vector_params_spec();
    let reads = vector_reads_spec(params, instance);
    lemma_vector_reads_index(params, instance);
    let plan = extract_plan_spec(instance);
    let tail = seq![Request::Command("showmod "@ + instance), Request::ReadShowmod];
    assert(plan == seq![Request::Command("op"@)] + reads + tail);
    assert forall|k: int| 0 <= k < params.len() implies plan[2 + 2 * k] == Request::ReadVector(
        params[k],
    ) by {
        assert(reads[2 * k + 1] == Request::ReadVector(params[k]));
    }
    assert(plan[2 + 2 * 0int] == Request::ReadVector("vth"@));
    assert(with_vector_param(p, "vth"@, v).vth == v);
    assert(plan[2 + 2 * 1int] == Request::ReadVector("id"@));
    assert(with_vector_param(p, "id"@, v).id == v);
    assert(plan[2 + 2 * 2int] == Request::ReadVector("gm"@));
    assert(with_vector_param(p, "gm"@, v).gm == v);
    assert(plan[2 + 2 * 3int] == Request::ReadVector("cgg"@));
    assert(with_vector_param(p, "cgg"@, v).cgg == v);
    assert(plan[2 + 2 * 4int] == Request::ReadVector("cgs"@));
    assert(with_vector_param(p, "cgs"@, v).cgs == v);
    assert(plan[2 + 2 * 5int] == Request::ReadVector("cgd"@));
    assert(with_vector_param(p, "cgd"@, v).cgd == v);
    assert(plan[2 + 2 * 6int] == Request::ReadVector("cdb"@));
    assert(with_vector_param(p, "cdb"@, v).cdb == v);
    assert(plan[2 + 2 * 7int] == Request::ReadVector("csb"@));
    assert(with_vector_param(p, "csb"@, v).csb == v);
    assert(plan[2 + 2 * 8int] == Request::ReadVector("vgsteff"@));
    assert(with_vector_param(p, "vgsteff"@, v).vgsteff == v);
    assert(plan[2 + 2 * 9int] == Request::ReadVector("weff"@));
    assert(with_vector_param(p, "weff"@, v).weff == v);
    assert(plan[2 + 2 * 10int] == Request::ReadVector("leff"@));
    assert(with_vector_param(p, "leff"@, v).leff == v);
    assert forall|j: int| 0 <= j < plan.len() implies (#[trigger] plan[j] matches Request::ReadVector(
        n,
    ) ==> sets_one_output(p, with_vector_param(p, n, v), v)) by {
        if let Request::ReadVector(n) = plan[j] {
            if 1 <= j < 1 + reads.len() {
                assert(plan[j] == reads[j - 1]);
                assert(params.contains(n));
                let k = choose|k: int| 0 <= k < params.len() && params[k] == n;
                assert(sets_one_output(p, with_vector_param(p, params[k], v), v));
            } else if j == 0 {
            } else {
                assert(plan[j] == tail[j - 1 - reads.len()]);
            }
        }
    }
}

/// The operating-point outputs of an instance, read as vectors.
pub open spec fn vector_params_spec() -> Seq<Seq<char>> {
    seq![
        "vth"@,
        "id"@,
        "gm"@,
        "cgg"@,
        "cgs"@,
        "cgd"@,
        "cdb"@,
        "csb"@,
        "vgsteff"@,
        "weff"@,
        "leff"@,
    ]
}

/// The model parameters, read from `showmod` text.
pub open spec fn showmod_params_spec() -> Seq<Seq<char>> {
    seq!["u0"@, "vsat"@, "toxe"@, "epsrox"@]
}

/// The operating-point outputs of an instance, read as vectors, in the
/// order in which they are read.
pub fn vector_params() -> (v: Vec<&'static str>)
    ensures
        str_views(v@) == vector_params_spec(),
{
    let v = vec!["vth", "id", "gm", "cgg", "cgs", "cgd", "cdb", "csb", "vgsteff", "weff", "leff"];
    assert(str_views(v@) =~= vector_params_spec());
    v
}

/// The model parameters that `showmod` must report.
pub fn showmod_params() -> (v: Vec<&'static str>)
    ensures
        str_views(v@) == showmod_params_spec(),
{
    let v = vec!["u0", "vsat", "toxe", "epsrox"];
    assert(str_views(v@) =~= showmod_params_spec());
    v
}

/// The vector that holds parameter `param` once it is read: `<param>_val`.
pub fn vector_name(param: &str) -> (name: String)
    ensures
        name@ == param@ + "_val"@,
        name@ == vector_name_spec(param@),
{
    let mut name = String::from_str(param);
    name.append("_val");
    name
}

/// The command that reads parameter `param` of instance `instance` into
/// its vector: `let <param>_val = @<instance>[<param>]`.
pub fn let_vector_command(param: &str, instance: &str) -> (cmd: String)
    ensures
        cmd@ == let_vector_spec(param@, instance@),
{
    let mut cmd = String::from_str("let ");
    cmd.append(param);
    cmd.append("_val = @");
    cmd.append(instance);
    cmd.append("[");
    cmd.append(param);
    cmd.append("]");
    cmd
}

/// The command that prints the model parameters of `instance`.
pub fn showmod_command(instance: &str) -> (cmd: String)
    ensures
        cmd@ == "showmod "@ + instance@,
{
    let mut cmd = String::from_str("showmod ");
    cmd.append(instance);
    cmd
}

/// One request that extraction makes of the simulator session.
#[derive(Debug, Clone, PartialEq, Eq)]
pub enum ExtractRequest {
    /// Run this command.
    Command(String),
    /// Read the first real value of the vector of this operating-point
    /// output and store it in the record.
    ReadVector(&'static str),
    /// Take the captured `showmod` text and read the model parameters.
    ReadShowmod,
}

/// An `ExtractRequest` taken by value.
pub ghost enum Request {
    Command(Seq<char>),
    ReadVector(Seq<char>),
    ReadShowmod,
}

impl View for ExtractRequest {
    type V = Request;

    open spec fn view(&self) -> Request {
        match self {
            ExtractRequest::Command(c) => Request::Command(c@),
            ExtractRequest::ReadVector(p) => Request::ReadVector(p@),
            ExtractRequest::ReadShowmod => Request::ReadShowmod,
        }
    }
}

/// The command that reads parameter `param` of `instance` into its vector.
pub open spec fn let_vector_spec(param: Seq<char>, instance: Seq<char>) -> Seq<char> {
    "let "@ + param + "_val = @"@ + instance + "["@ + param + "]"@
}

/// For each operating-point output in turn: the command that reads it into
/// its vector, then the read of that vector.
pub open spec fn vector_reads_spec(params: Seq<Seq<char>>, instance: Seq<char>) -> Seq<Request>
    decreases params.len(),
{
    if params.len() == 0 {
        Seq::empty()
    } else {
        vector_reads_spec(params.drop_last(), instance) + seq![
            Request::Command(let_vector_spec(params.last(), instance)),
            Request::ReadVector(params.last()),
        ]
    }
}

/// The requests of extracting the parameters of `instance`, in order: the
/// operating point, every operating-point output, then the model
/// parameters from `showmod`.
pub open spec fn extract_plan_spec(instance: Seq<char>) -> Seq<Request> {
    seq![Request::Command("op"@)] + vector_reads_spec(vector_params_spec(), instance) + seq![
        Request::Command("showmod "@ + instance),
        Request::ReadShowmod,
    ]
}

/// The views of a vector of requests.
pub open spec fn requests_view(v: Seq<ExtractRequest>) -> Seq<Request> {
    v.map_values(|r: ExtractRequest| r@)
}

/// The requests of extracting the parameters of `instance`, in the order
/// in which they are made; extraction stops at the first that fails.
pub fn extract_plan(instance: &str) -> (plan: Vec<ExtractRequest>)
    ensures
        requests_view(plan@) == extract_plan_spec(instance@),
{
    let mut plan: Vec<ExtractRequest> = Vec::new();
    plan.push(ExtractRequest::Command(String::from_str("op")));
    let params = vector_params();
    let mut i: usize = 0;
    while i < params.len()
        invariant
            str_views(params@) == vector_params_spec(),
            i <= params@.len(),
            requests_view(plan@) == seq![Request::Command("op"@)] + vector_reads_spec(
                vector_params_spec().take(i as int),
                instance@,
            ),
        decreases params@.len() - i,
    {
        let p = params[i];
        let ghost before = requests_view(plan@);
        assert(vector_params_spec().take(i + 1).drop_last() == vector_params_spec().take(i as int));
        assert(vector_params_spec().take(i + 1).last() == p@);
        plan.push(ExtractRequest::Command(let_vector_command(p, instance)));
        plan.push(ExtractRequest::ReadVector(p));
        assert(requests_view(plan@) =~= before + seq![
            Request::Command(let_vector_spec(p@, instance@)),
            Request::ReadVector(p@),
        ]);
        i = i + 1;
    }
    assert(vector_params_spec().take(i as int) == vector_params_spec());
    let ghost before = requests_view(plan@);
    plan.push(ExtractRequest::Command(showmod_command(instance)));
    plan.push(ExtractRequest::ReadShowmod);
    assert(requests_view(plan@) =~= before + seq![
        Request::Command("showmod "@ + instance@),
        Request::ReadShowmod,
    ]);
    plan
}

/// The callback's prefix is removed once, whichever stream it names, and a
/// line without it is read as it is.
pub proof fn lemma_strip_output_prefix(rest: Seq<char>, line: Seq<char>)
    ensures
        strip_output_prefix("stdout "@ + rest) == rest,
        strip_output_prefix("stderr "@ + rest) == rest,
        !starts_with_seq(line, "stdout "@) && !starts_with_seq(line, "stderr "@)
            ==> strip_output_prefix(line) == line,
{
    reveal_strlit("stdout ");
    reveal_strlit("stderr ");
    let o = "stdout "@ + rest;
    let e = "stderr "@ + rest;
    assert(o.subrange(0, 7) =~= "stdout "@);
    assert(o.skip(7) =~= rest);
    assert(e.subrange(0, 7) =~= "stderr "@);
    assert(e.skip(7) =~= rest);
    assert(e.subrange(0, 7)[3] != "stdout "@[3]);
}

/// A `showmod` line whose text, after the callback's prefix, is a key word
/// and a value word separated by whitespace (with any whitespace around
/// them) yields exactly that key and value.
pub proof fn lemma_showmod_entry_two_words(
    line: Seq<char>,
    lead: Seq<char>,
    key: Seq<char>,
    c: char,
    gap: Seq<char>,
    value: Seq<char>,
    trail: Seq<char>,
)
    requires
        strip_output_prefix(line) == lead + key + seq![c] + gap + value + trail,
        is_blank_seq(lead),
        is_blank_seq(gap),
        is_blank_seq(trail),
        crate::text::is_unicode_whitespace(c),
        key.len() > 0,
        value.len() > 0,
        !crate::text::contains_whitespace(key),
        !crate::text::contains_whitespace(value),
    ensures
        showmod_entry(line) == Some((key, value)),
{
    let r = gap + value + trail;
    assert(lead + key + seq![c] + gap + value + trail =~= lead + (key + seq![c] + r));
    crate::text::lemma_split_blank_ends(lead, key + seq![c] + r);
    crate::text::lemma_split_whitespace_separates(key, c, r);
    crate::text::lemma_split_word(key);
    assert(r =~= gap + (value + trail));
    crate::text::lemma_split_blank_ends(gap, value + trail);
    crate::text::lemma_split_blank_ends(trail, value);
    crate::text::lemma_split_word(value);
    assert(seq![key] + seq![value] =~= seq![key, value]);
}

/// The vector that holds parameter `param` once it is read.
pub open spec fn vector_name_spec(param: Seq<char>) -> Seq<char> {
    param + "_val"@
}

/// The command that reads an output fills exactly the vector that is then
/// read for it: `let <vector of param> = @<instance>[<param>]`.
pub proof fn lemma_let_fills_read_vector(param: Seq<char>, instance: Seq<char>)
    ensures
        let_vector_spec(param, instance) == "let "@ + vector_name_spec(param) + " = @"@ + instance
            + "["@ + param + "]"@,
{
    reveal_strlit("_val = @");
    reveal_strlit("_val");
    reveal_strlit(" = @");
    assert("_val = @"@ =~= "_val"@ + " = @"@);
    assert("let "@ + param + "_val = @"@ =~= "let "@ + (param + "_val"@) + " = @"@);
}

/// A line whose text, after the callback's prefix, holds three words, or
/// only whitespace, yields no entry.
pub proof fn lemma_showmod_entry_needs_two_words(
    line: Seq<char>,
    w1: Seq<char>,
    c1: char,
    w2: Seq<char>,
    c2: char,
    w3: Seq<char>,
)
    requires
        w1.len() > 0 && w2.len() > 0 && w3.len() > 0,
        !crate::text::contains_whitespace(w1),
        !crate::text::contains_whitespace(w2),
        !crate::text::contains_whitespace(w3),
        crate::text::is_unicode_whitespace(c1),
        crate::text::is_unicode_whitespace(c2),
    ensures
        strip_output_prefix(line) == w1 + seq![c1] + w2 + seq![c2] + w3 ==> showmod_entry(line)
            is None,
        is_blank_seq(strip_output_prefix(line)) ==> showmod_entry(line) is None,
{
    let t = w1 + seq![c1] + w2 + seq![c2] + w3;
    assert(t =~= w1 + seq![c1] + (w2 + seq![c2] + w3));
    crate::text::lemma_split_whitespace_separates(w1, c1, w2 + seq![c2] + w3);
    crate::text::lemma_split_whitespace_separates(w2, c2, w3);
    crate::text::lemma_split_word(w1);
    crate::text::lemma_split_word(w2);
    crate::text::lemma_split_word(w3);
    assert(split_whitespace_seq(t).len() == 3);
    if is_blank_seq(strip_output_prefix(line)) {
        crate::text::lemma_split_blank(strip_output_prefix(line));
    }
}

/// A captured line without the `stdout ` or `stderr ` prefix that the
/// simulator's output callback adds.
pub open spec fn strip_output_prefix(line: Seq<char>) -> Seq<char> {
    if starts_with_seq(line, "stdout "@) {
        line.skip("stdout "@.len() as int)
    } else if starts_with_seq(line, "stderr "@) {
        line.skip("stderr "@.len() as int)
    } else {
        line
    }
}

/// The `(key, value)` of a `showmod` line: present exactly when the line,
/// without its output prefix, holds two whitespace-separated tokens.
pub open spec fn showmod_entry(line: Seq<char>) -> Option<(Seq<char>, Seq<char>)> {
    let tokens = split_whitespace_seq(strip_output_prefix(line));
    if tokens.len() == 2 {
        Some((tokens[0], tokens[1]))
    } else {
        None
    }
}

/// The `(key, value)` entries of the `showmod` lines, in line order.
pub open spec fn showmod_entries_spec(lines: Seq<Seq<char>>) -> Seq<(Seq<char>, Seq<char>)>
    decreases lines.len(),
{
    if lines.len() == 0 {
        Seq::empty()
    } else {
        let rest = showmod_entries_spec(lines.drop_last());
        match showmod_entry(lines.last()) {
            Some(e) => rest.push(e),
            None => rest,
        }
    }
}

/// Parsing the lines of two outputs one after the other gives the entries
/// of the first followed by those of the second: the parse goes line by
/// line.
pub proof fn lemma_showmod_entries_concat(a: Seq<Seq<char>>, b: Seq<Seq<char>>)
    ensures
        showmod_entries_spec(a + b) == showmod_entries_spec(a) + showmod_entries_spec(b),
    decreases b.len(),
{
    if b.len() == 0 {
        assert(a + b =~= a);
        assert(showmod_entries_spec(a) + showmod_entries_spec(b) =~= showmod_entries_spec(a));
    } else {
        assert((a + b).drop_last() =~= a + b.drop_last());
        assert((a + b).last() == b.last());
        lemma_showmod_entries_concat(a, b.drop_last());
        match showmod_entry(b.last()) {
            Some(e) => {
                assert(showmod_entries_spec(a) + showmod_entries_spec(b.drop_last()).push(e)
                    =~= (showmod_entries_spec(a) + showmod_entries_spec(b.drop_last())).push(e));
            },
            None => {},
        }
    }
}

/// A required parameter is reported missing exactly when it is required and
/// no reported name equals it, wherever and however often the reported
/// names occur; so when every required parameter is reported, none is
/// missing.
pub proof fn lemma_missing_params_exact(required: Seq<Seq<char>>, present: Seq<Seq<char>>)
    ensures
        forall|p: Seq<char>|
            #[trigger] missing_params_spec(required, present).contains(p) <==> (required.contains(
                p,
            ) && !present.contains(p)),
        (forall|i: int| 0 <= i < required.len() ==> present.contains(#[trigger] required[i]))
            ==> missing_params_spec(required, present).len() == 0,
{
    broadcast use vstd::seq_lib::group_filter_ensures;

    let pred = |p: Seq<char>| !present.contains(p);
    assert forall|p: Seq<char>|
        #[trigger] missing_params_spec(required, present).contains(p) <==> (required.contains(p)
            && !present.contains(p)) by {
        if missing_params_spec(required, present).contains(p) {
            let i = choose|i: int|
                0 <= i < required.filter(pred).len() && required.filter(pred)[i] == p;
            assert(pred(required.filter(pred)[i]));
            required.lemma_filter_contains_rev(pred, p);
        }
        if required.contains(p) && !present.contains(p) {
            let i = choose|i: int| 0 <= i < required.len() && required[i] == p;
            required.lemma_filter_contains(pred, i);
        }
    }
    if forall|i: int| 0 <= i < required.len() ==> present.contains(#[trigger] required[i]) {
        let m = missing_params_spec(required, present);
        if m.len() > 0 {
            assert(m.contains(m[0]));
            let i = choose|i: int| 0 <= i < required.len() && required[i] == m[0];
            assert(present.contains(required[i]));
        }
    }
}

/// The views of a vector of string pairs.
pub open spec fn pairs_view(v: Seq<(String, String)>) -> Seq<(Seq<char>, Seq<char>)> {
    v.map_values(|p: (String, String)| (p.0@, p.1@))
}

/// The model parameters of `required` that none of `present` names, in
/// the order of `required`.
pub open spec fn missing_params_spec(required: Seq<Seq<char>>, present: Seq<Seq<char>>) -> Seq<
    Seq<char>,
> {
    required.filter(|p: Seq<char>| !present.contains(p))
}

/// `line` without the output prefix the simulator's callback adds.
pub fn strip_prefix_of_line(line: &str) -> (s: String)
    ensures
        s@ == strip_output_prefix(line@),
{
    if starts_with(line, "stdout ") {
        skip_chars(line, "stdout ".unicode_len())
    } else if starts_with(line, "stderr ") {
        skip_chars(line, "stderr ".unicode_len())
    } else {
        line.to_owned()
    }
}

/// The `(key, value)` entries of `showmod` output: for every line that,
/// without its output prefix, holds exactly two whitespace-separated
/// tokens, those two tokens, in line order. Other lines (headers, blank
/// lines) yield nothing.
pub fn showmod_entries(lines: &Vec<String>) -> (entries: Vec<(String, String)>)
    ensures
        pairs_view(entries@) == showmod_entries_spec(string_views(lines@)),
{
    let mut entries: Vec<(String, String)> = Vec::new();
    let mut i: usize = 0;
    while i < lines.len()
        invariant
            i <= lines@.len(),
            pairs_view(entries@) == showmod_entries_spec(string_views(lines@.take(i as int))),
        decreases lines@.len() - i,
    {
        let ghost prefix = string_views(lines@.take(i as int));
        assert(string_views(lines@.take(i + 1)).drop_last() =~= prefix);
        assert(string_views(lines@.take(i + 1)).last() == lines@[i as int]@);
        let stripped = strip_prefix_of_line(lines[i].as_str());
        let tokens = split_whitespace(stripped.as_str());
        if tokens.len() == 2 {
            let key = tokens[0].clone();
            let value = tokens[1].clone();
            assert(string_views(tokens@)[0] == key@);
            assert(string_views(tokens@)[1] == value@);
            entries.push((key, value));
            assert(pairs_view(entries@) =~= pairs_view(entries@.drop_last()).push((key@, value@)));
        }
        i = i + 1;
    }
    assert(lines@.take(i as int) == lines@);
    entries
}

/// The required model parameters that none of `present` names, in the order
/// in which they are required.
pub fn missing_showmod_params(present: &Vec<String>) -> (missing: Vec<&'static str>)
    ensures
        str_views(missing@) == missing_params_spec(showmod_params_spec(), string_views(present@)),
{
    let required = showmod_params();
    let ghost pv = string_views(present@);
    let ghost pred = |p: Seq<char>| !pv.contains(p);
    let mut missing: Vec<&'static str> = Vec::new();
    let mut i: usize = 0;
    while i < required.len()
        invariant
            str_views(required@) == showmod_params_spec(),
            i <= required.len(),
            pv == string_views(present@),
            pred == (|p: Seq<char>| !pv.contains(p)),
            str_views(missing@) == showmod_params_spec().take(i as int).filter(pred),
        decreases required.len() - i,
    {
        let p = required[i];
        assert(showmod_params_spec().take(i + 1).drop_last() == showmod_params_spec().take(
            i as int,
        ));
        assert(showmod_params_spec().take(i + 1).last() == p@);
        reveal_with_fuel(Seq::filter, 1);
        let mut found = false;
        let mut j: usize = 0;
        while j < present.len()
            invariant
                j <= present@.len(),
                pv == string_views(present@),
                found <==> exists|k: int| 0 <= k < j && pv[k] == p@,
            decreases present@.len() - j,
        {
            assert(pv[j as int] == present@[j as int]@);
            if crate::text::str_eq(present[j].as_str(), p) {
                found = true;
            }
            j = j + 1;
        }
        assert(found <==> pv.contains(p@));
        if !found {
            missing.push(p);
            assert(str_views(missing@) =~= str_views(missing@.drop_last()).push(p@));
        }
        i = i + 1;
    }
    assert(showmod_params_spec().take(i as int) == showmod_params_spec());
    missing
}

/// Checks that the `showmod` output of `instance` reported every required
/// model parameter; `present` names the parameters it reported. Fails
/// exactly when some are missing, naming the instance and the missing
/// parameters in the order in which they are required.
pub fn check_showmod_params(instance: &str, present: &Vec<String>) -> (r: Result<(), ExtractError>)
    ensures
        r is Ok <==> missing_params_spec(showmod_params_spec(), string_views(present@)).len()
            == 0,
        r matches Err(e) ==> e matches ExtractError::MissingShowmodParams(i, m) && i@ == instance@
            && str_views(m@) == missing_params_spec(showmod_params_spec(), string_views(present@)),
{
    let missing = missing_showmod_params(present);
    if missing.len() > 0 {
        Err(ExtractError::MissingShowmodParams(instance.to_owned(), missing))
    } else {
        Ok(())
    }
}

} // verus!

//! The normalize stage: the deck that biases the NMOS and the PMOS each into
//! saturation on its own terms, and the instance paths under which the
//! simulator files them.

use vstd::prelude::*;

use crate::config::Models;

verus! {

/// What `str::to_lowercase` returns for a string with these characters.
pub uninterp spec fn spec_to_lowercase(s: Seq<char>) -> Seq<char>;

/// Calls `str::to_lowercase`; its result is named by `spec_to_lowercase`,
/// a function of the characters of `s` alone (the Unicode lowercase
/// mapping, which depends on no locale). Nothing more is stated of it.
#[verifier::external_body]
fn to_lowercase(s: &str) -> (r: String)
    ensures
        r@ == spec_to_lowercase(s@),
{
    s.to_lowercase()
}

/// The simulator's path of the NMOS instance of the characterization deck.
pub open spec fn nmos_instance_spec(nmos_model: Seq<char>) -> Seq<char> {
    "m.xnmos.m"@ + spec_to_lowercase(nmos_model)
}

/// The simulator's path of the PMOS instance of the characterization deck.
pub open spec fn pmos_instance_spec(pmos_model: Seq<char>) -> Seq<char> {
    "m.xpmos.m"@ + spec_to_lowercase(pmos_model)
}

/// The simulator's path of the NMOS instance of the characterization deck:
/// `m.xnmos.m` and the NMOS model name in lower case.
pub fn nmos_instance_path(models: &Models) -> (path: String)
    ensures
        path@ == nmos_instance_spec(models.nmos@),
{
    let lower = to_lowercase(models.nmos.as_str());
    let mut path = String::from_str("m.xnmos.m");
    path.append(lower.as_str());
    path
}

/// The simulator's path of the PMOS instance of the characterization deck:
/// `m.xpmos.m` and the PMOS model name in lower case.
pub fn pmos_instance_path(models: &Models) -> (path: String)
    ensures
        path@ == pmos_instance_spec(models.pmos@),
{
    let lower = to_lowercase(models.pmos.as_str());
    let mut path = String::from_str("m.xpmos.m");
    path.append(lower.as_str());
    path
}

/// The values written into the characterization deck. Quantities arrive as
/// the text in which the deck writes them.
#[derive(Debug, Clone)]
pub struct NetlistValues {
    pub vdd: String,
    pub vdd_half: String,
    pub nmos_model: String,
    pub nmos_w: String,
    pub nmos_l: String,
    pub pmos_model: String,
    pub pmos_w: String,
    pub pmos_l: String,
    pub include_path: String,
    pub corner: String,
}

/// The characterization deck: supplies, gate and drain biases for each
/// device, the two devices, the model library at its corner, and the
/// global ground.
pub open spec fn characterization_netlist_spec(v: NetlistValues) -> Seq<char> {
    "* throwaway deck for device-parameter extraction; not for user inspection\n"@
        + "Vdd VDD GND "@ + v.vdd@ + "\n"@
        + "Vgn gate_n GND "@ + v.vdd@ + "\n"@
        + "Vdn drain_n GND "@ + v.vdd_half@ + "\n"@
        + "XNMOS drain_n gate_n GND GND "@ + v.nmos_model@ + " w="@ + v.nmos_w@ + " l="@
        + v.nmos_l@ + "\n"@
        + "\n"@
        + "Vgp gate_p GND 0\n"@
        + "Vdp drain_p GND "@ + v.vdd_half@ + "\n"@
        + "XPMOS drain_p gate_p VDD VDD "@ + v.pmos_model@ + " w="@ + v.pmos_w@ + " l="@
        + v.pmos_l@ + "\n"@
        + "\n"@
        + ".lib "@ + v.include_path@ + " "@ + v.corner@ + "\n"@
        + ".GLOBAL GND\n"@
        + ".end\n"@
}

/// The text of the characterization deck for these values.
pub fn characterization_netlist(v: &NetlistValues) -> (deck: String)
    ensures
        deck@ == characterization_netlist_spec(*v),
{
    let mut d = String::from_str(
        "* throwaway deck for device-parameter extraction; not for user inspection\n",
    );
    d.append("Vdd VDD GND ");
    d.append(v.vdd.as_str());
    d.append("\n");
    d.append("Vgn gate_n GND ");
    d.append(v.vdd.as_str());
    d.append("\n");
    d.append("Vdn drain_n GND ");
    d.append(v.vdd_half.as_str());
    d.append("\n");
    d.append("XNMOS drain_n gate_n GND GND ");
    d.append(v.nmos_model.as_str());
    d.append(" w=");
    d.append(v.nmos_w.as_str());
    d.append(" l=");
    d.append(v.nmos_l.as_str());
    d.append("\n");
    d.append("\n");
    d.append("Vgp gate_p GND 0\n");
    d.append("Vdp drain_p GND ");
    d.append(v.vdd_half.as_str());
    d.append("\n");
    d.append("XPMOS drain_p gate_p VDD VDD ");
    d.append(v.pmos_model.as_str());
    d.append(" w=");
    d.append(v.pmos_w.as_str());
    d.append(" l=");
    d.append(v.pmos_l.as_str());
    d.append("\n");
    d.append("\n");
    d.append(".lib ");
    d.append(v.include_path.as_str());
    d.append(" ");
    d.append(v.corner.as_str());
    d.append("\n");
    d.append(".GLOBAL GND\n");
    d.append(".end\n");
    d
}

} // verus!

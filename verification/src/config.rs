//! The parts of the PDK-adapter configuration that hold no measurements:
//! device model names and the device-template syntax.

use vstd::prelude::*;

verus! {

/// Names of the NMOS and PMOS device models in the PDK's model library.
#[derive(Debug, Clone, PartialEq, Eq)]
pub struct Models {
    pub nmos: String,
    pub pmos: String,
}

/// How the PDK writes a device instance: a template with `{{...}}`
/// placeholders for the instance name, terminals, model and geometry.
#[derive(Debug, Clone, PartialEq, Eq)]
pub struct Syntax {
    pub device_template: String,
}

/// The value an omitted boolean option of the configuration takes.
pub fn default_false() -> (b: bool)
    ensures
        !b,
{
    false
}

} // verus!

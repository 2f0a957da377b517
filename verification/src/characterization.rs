//! Characterization of devices and cells with the circuit simulator.
//!
//! `ngspice_ffi` holds the simulator session's captured output and the
//! outcomes of its calls, `device_params` the parameters read back from the
//! simulator, `symbols` the table that files them by symbolic name,
//! `normalize` the deck that biases each device for extraction, and
//! `inverter` the sizing sweep of the reference inverter.

pub mod device_params;
pub mod inverter;
pub mod ngspice_ffi;
pub mod normalize;
pub mod symbols;

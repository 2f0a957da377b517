//! Verified core of an automated digital IC macro generator: configuration
//! checks, the command/session protocol spoken to the circuit simulator, the
//! symbol table of extracted device parameters and the text that the
//! simulator prints back.

pub mod text;
pub mod config;
pub mod validator;
pub mod characterization;

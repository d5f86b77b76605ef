//! Stable names for display outputs.
//!
//! The outputs of a machine are listed with their identification blocks; each
//! block yields the serial number of the display behind the output. From these
//! the library builds a catalog from serial number to output name, and
//! reconciles a list of rules, each binding a variable name to a serial
//! number, against it.

pub mod decimal;
pub mod edid;
pub mod name;
pub mod discovery;
pub mod catalog;
pub mod rule;
pub mod report;
pub mod run;

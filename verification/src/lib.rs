//! Configuration and session logic for driving an EBYTE E32 LoRa radio
//! module over a serial port with three GPIO control lines.
//!
//! The crate models the configuration file schema, the requested radio
//! parameters, and the decisions of the interactive send loop as plain
//! data with verified contracts.  All hardware access (serial port, GPIO,
//! the radio driver itself, terminal line editing) lives outside of this
//! library.

pub mod config;
pub mod interface;
pub mod session;
pub mod text;

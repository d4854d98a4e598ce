//! JTAG protocol logic for an MPSSE-style serial bit engine: command
//! encoding, capture decoding, chain discovery and addressed register access.

pub mod bitbuf;
pub mod bits;
pub mod engine;
pub mod chain;
pub mod error;
pub mod probe;
pub mod register;
pub mod tap;

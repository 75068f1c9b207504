//! Small helpers shared by the protocol and session layers.

pub mod config;
pub mod hex;
pub mod text;

pub use hex::hex_to_int;

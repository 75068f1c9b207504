//! The wire protocol: JSON documents, the message shapes of Ethereum
//! Stratum, and line framing.

pub mod codec;
pub mod error;
pub mod framing;
pub mod json;
pub mod message;
pub mod rpc;

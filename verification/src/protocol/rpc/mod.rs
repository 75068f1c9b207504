//! JSON-RPC message shapes, by coin family.

pub mod eth;

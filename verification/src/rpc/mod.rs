//! Talking to Ethereum nodes over JSON-RPC.

pub mod method;
pub mod types;

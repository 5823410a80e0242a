//! Keeping track of the chain's head and of which nodes can serve requests.

pub mod check;
pub mod error;
pub mod head_cache;
pub mod safe_block;

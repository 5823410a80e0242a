//! Finding the cached answer to a request: in the database for final
//! blocks, in the head cache for recent ones.

pub mod error;
pub mod manage;

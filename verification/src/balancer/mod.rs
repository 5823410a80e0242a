//! Handling incoming JSON-RPC requests: what they ask for, whether their
//! answers are cached, and which node serves them.

pub mod accept_http;
pub mod cache_helper;
pub mod format;
pub mod processing;
pub mod selection;

//! Deciding what may be cached and which node serves a request.

pub mod cache_rules;
pub mod selection;

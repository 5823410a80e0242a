//! The cache database: the requests sent to it and the batches it applies.

pub mod types;

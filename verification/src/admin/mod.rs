//! The admin namespace and the liveness and readiness probes.

pub mod error;
pub mod execute;
pub mod liveready;
pub mod methods;

//! Configuration of the balancer.

pub mod cli_args;
pub mod system;
pub mod table;
pub mod types;

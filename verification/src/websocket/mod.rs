//! Subscriptions over WebSocket: who is subscribed to what, on which node.

pub mod client;
pub mod error;
pub mod subscription_manager;
pub mod table;
pub mod types;

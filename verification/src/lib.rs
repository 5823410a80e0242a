//! Verified core of the Blutgang JSON-RPC load balancer and cache.

pub mod text;

pub mod json;
pub mod rpc;
pub mod health;
pub mod admin;
pub mod balancer;
pub mod config;
pub mod database;
pub mod websocket;

//! Errors of the health checks.

use vstd::prelude::*;

verus! {

/// Why a health check failed.
#[derive(Debug)]
pub enum HealthError {
    Unresponsive,
    TimedOut,
    GetSafeBlockError(String),
    OutOfBounds,
    InvalidResponse(String),
}

impl HealthError {
    /// The message of the error (its `Display` text).
    pub fn message(&self) -> (r: String)
        ensures
            r@ == match self {
                HealthError::Unresponsive => "RPC is unresponsive"@,
                HealthError::TimedOut => "Health check timed out!"@,
                HealthError::GetSafeBlockError(m) => "Could not get safe block: "@ + m@,
                HealthError::OutOfBounds => "Request out of bounds. Most likeley a bad response from the current RPC node."@,
                HealthError::InvalidResponse(m) => "Invalid RPC response: "@ + m@,
            },
    {
        match self {
            HealthError::Unresponsive => "RPC is unresponsive".to_string(),
            HealthError::TimedOut => "Health check timed out!".to_string(),
            HealthError::GetSafeBlockError(m) => {
                let mut out = "Could not get safe block: ".to_string();
                out.append(m.as_str());
                out
            },
            HealthError::OutOfBounds => "Request out of bounds. Most likeley a bad response from the current RPC node.".to_string(),
            HealthError::InvalidResponse(m) => {
                let mut out = "Invalid RPC response: ".to_string();
                out.append(m.as_str());
                out
            },
        }
    }
}

} // verus!

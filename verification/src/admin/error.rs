//! Errors of the admin namespace.

use vstd::prelude::*;
use crate::admin::methods::Error;

verus! {

/// Why an admin request failed.
#[derive(Debug)]
pub enum AdminError {
    InvalidMethod(Error<Option<String>>),
    InvalidParams,
    InvalidLen,
    ParseError,
    WriteProtectionEnabled,
    Inaccessible,
    OutOfBounds,
}

impl AdminError {
    /// The message of the error (its `Display` text).
    pub fn message(&self) -> (r: &'static str)
        ensures
            match self {
                AdminError::InvalidMethod(_) => r@ == "failed to convert method to `BlutgangRpcMethod`"@,
                AdminError::InvalidParams => r@ == "Invalid params provided"@,
                AdminError::InvalidLen => r@ == "Mismatching params length"@,
                AdminError::ParseError => r@ == "Could not parse supplied params"@,
                AdminError::WriteProtectionEnabled => r@ == "Admin namespace is set to read-only"@,
                AdminError::Inaccessible => r@ == "Could not access shared resource"@,
                AdminError::OutOfBounds => r@ == "Request out of bounds"@,
            },
    {
        match self {
            AdminError::InvalidMethod(_) => "failed to convert method to `BlutgangRpcMethod`",
            AdminError::InvalidParams => "Invalid params provided",
            AdminError::InvalidLen => "Mismatching params length",
            AdminError::ParseError => "Could not parse supplied params",
            AdminError::WriteProtectionEnabled => "Admin namespace is set to read-only",
            AdminError::Inaccessible => "Could not access shared resource",
            AdminError::OutOfBounds => "Request out of bounds",
        }
    }
}

} // verus!

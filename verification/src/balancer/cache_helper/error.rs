//! Errors of the cache lookups.

use vstd::prelude::*;

verus! {

/// Why a cache lookup failed.
#[derive(Debug)]
pub enum CacheManagerError {
    NumberParseError,
    OutOfBounds,
    InvalidResponse(String),
}

} // verus!

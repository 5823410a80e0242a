//! Numbers the balancer uses for itself.

use vstd::prelude::*;

verus! {

/// The user number of the health check's own subscription.
pub const WS_HEALTH_CHECK_USER_ID: u32 = 1;

/// The user number of the subscription manager.
pub const WS_SUB_MANAGER_ID: u32 = 2;

pub const MAGIC: u32 = 0xb153;

/// The fanout of the database's leaves.
pub const FANOUT: usize = 256;

pub const VERSION_STR: &'static str = "0.4.0 Arianrhod";

pub const TAGLINE: &'static str = "`I won't run`";

} // verus!

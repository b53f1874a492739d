//! Grace periods, intervals and well-known names used by the discovery operator.

use vstd::prelude::*;

verus! {

/// Seconds a discovery handler may stay offline before it is deregistered.
pub const DISCOVERY_HANDLER_OFFLINE_GRACE_PERIOD_SECS: u64 = 300;

/// Seconds a shared instance may stay offline before it is removed.
pub const SHARED_INSTANCE_OFFLINE_GRACE_PERIOD_SECS: u64 = 300;

/// Seconds a handler session waits before it tries to connect again.
pub const RECONNECT_BACKOFF_SECS: u64 = 60;

/// Seconds between two sweeps for instances that stayed offline too long.
pub const OFFLINE_SWEEP_PERIOD_SECS: u64 = 30;

/// Seconds elapsed at `now` since `since`; zero when `since` lies ahead of `now`.
pub open spec fn elapsed_secs(now: u64, since: u64) -> nat {
    if now >= since {
        (now - since) as nat
    } else {
        0
    }
}

/// Computes the whole seconds elapsed at `now` since `since`.
pub fn elapsed(now: u64, since: u64) -> (secs: u64)
    ensures
        secs as nat == elapsed_secs(now, since),
{
    if now >= since {
        now - since
    } else {
        0
    }
}

} // verus!

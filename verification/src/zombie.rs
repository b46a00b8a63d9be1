//! The zombie reaper's rule: a job whose worker has stopped pinging
//! is marked not running, so the queue can lease it again.

use vstd::prelude::*;

verus! {

/// How often the reaper sweeps the queue, in seconds.
pub const ZOMBIE_SWEEP_PERIOD_SECS: u64 = 60;

/// A job's ping is stale once older than five timeouts.
pub open spec fn zombie_cutoff_spec(now_ms: int, timeout: int) -> int {
    now_ms - 5000 * timeout
}

/// The instant before which a last ping counts as stale, in
/// milliseconds since the epoch.
pub fn zombie_cutoff_ms(now_ms: i64, timeout: i32) -> (r: i64)
    requires
        0 <= now_ms < 0x4000000000000000,
        0 <= timeout,
    ensures
        r == zombie_cutoff_spec(now_ms as int, timeout as int),
{
    now_ms - 5000 * (timeout as i64)
}

/// Whether a queue row is a zombie to reap: it claims to be running,
/// yet its last ping is older than the cutoff.  A row that never
/// pinged is left alone.
pub open spec fn is_zombie_spec(
    last_ping_ms: Option<i64>,
    running: bool,
    now_ms: int,
    timeout: int,
) -> bool {
    running && match last_ping_ms {
        Option::Some(lp) => (lp as int) < zombie_cutoff_spec(now_ms, timeout),
        Option::None => false,
    }
}

/// Decides whether a queue row is reaped on this sweep.
pub fn should_restart(last_ping_ms: Option<i64>, running: bool, now_ms: i64, timeout: i32) -> (r:
    bool)
    requires
        0 <= now_ms < 0x4000000000000000,
        0 <= timeout,
    ensures
        r == is_zombie_spec(last_ping_ms, running, now_ms as int, timeout as int),
{
    running && match last_ping_ms {
        Option::Some(lp) => lp < zombie_cutoff_ms(now_ms, timeout),
        Option::None => false,
    }
}

} // verus!

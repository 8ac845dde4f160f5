//! One prior observation, for trend detection in `pressure`, and when it
//! may serve as a baseline.
use crate::schema::SCHEMA_VERSION;
use vstd::prelude::*;

verus! {

/// Older than this and the observation is not usable as a trend baseline.
pub const MAX_AGE_S: u64 = 900;

/// What one run stored about memory and swap.
#[derive(Debug, Clone, Copy, PartialEq, Eq, Structural)]
pub struct Observation {
    pub schema_version: u32,
    pub unix_s: u64,
    pub mem_used_mb: u64,
    pub mem_total_mb: u64,
    pub swap_used_mb: u64,
}

/// An observation may serve as the baseline at `now_s`: same schema, not
/// from the future, and at most `MAX_AGE_S` old.
pub open spec fn usable_at(obs: Observation, now_s: u64) -> bool {
    &&& obs.schema_version == SCHEMA_VERSION
    &&& obs.unix_s <= now_s
    &&& now_s - obs.unix_s <= MAX_AGE_S
}

/// The stored observation, if it is usable at `now_s`. `stored` is what
/// reading and parsing the history file gave, `None` when it was absent,
/// unreadable or corrupt.
pub fn usable_baseline(stored: Option<Observation>, now_s: u64) -> (r: Option<Observation>)
    ensures
        r == (match stored {
            Some(o) => if usable_at(o, now_s) {
                Some(o)
            } else {
                None
            },
            None => None,
        }),
{
    let obs = match stored {
        Some(o) => o,
        None => {
            return None;
        },
    };
    if obs.schema_version != SCHEMA_VERSION {
        return None;
    }
    if obs.unix_s > now_s {
        return None;  // clock moved backwards
    }
    if now_s - obs.unix_s > MAX_AGE_S {
        return None;
    }
    Some(obs)
}

/// Seconds since the Unix epoch by the system clock, `None` when the clock
/// reads earlier than the epoch.
#[verifier::external_body]
fn clock_seconds() -> Option<u64> {
    std::time::SystemTime::now().duration_since(std::time::UNIX_EPOCH).ok().map(|d| d.as_secs())
}

/// Seconds since the Unix epoch, or 0 when the clock reads earlier.
pub fn unix_now_s() -> u64 {
    match clock_seconds() {
        Some(s) => s,
        None => 0,
    }
}

} // verus!

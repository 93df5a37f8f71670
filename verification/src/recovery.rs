//! Staleness policy: pure predicates over timestamps (seconds since the Unix
//! epoch) that decide when a session's recorded state disagrees with what the
//! transcript file shows. A short threshold guards the attention-needing
//! states; a longer absolute threshold guards `Running`, which is the common
//! state and expensive to get wrong.

use vstd::prelude::*;

verus! {

/// How often the reconciliation loop wakes, in seconds.
pub const HEALTH_CHECK_INTERVAL_SECS: u64 = 10;

/// Threshold for the attention-needing states: transcript activity this much
/// newer than the last recorded update means the recorded state is wrong.
pub const STALENESS_THRESHOLD_SECS: i64 = 2;

/// Threshold for `Running`: this much wall-clock silence before a running
/// session is even considered stale.
pub const RUNNING_STALENESS_THRESHOLD_SECS: i64 = 30;

/// A running session silent for this long is recovered even without a
/// confirming transcript entry.
pub const RUNNING_ABSOLUTE_TIMEOUT_SECS: i64 = 300;

/// Upper bound on how long a stuck state can go unnoticed: one full check
/// interval plus the staleness threshold.
pub const MAX_RECOVERY_TIME_SECS: u64 = HEALTH_CHECK_INTERVAL_SECS + 2;

/// A waiting session is stale exactly when the transcript was written
/// strictly later than the recorded update plus the threshold; exact
/// equality at the boundary is not stale.
pub fn is_stale(transcript_mtime_secs: i64, last_event_time_secs: i64) -> (r: bool)
    requires
        last_event_time_secs + STALENESS_THRESHOLD_SECS <= i64::MAX,
    ensures
        r == (transcript_mtime_secs > last_event_time_secs + STALENESS_THRESHOLD_SECS),
{
    transcript_mtime_secs > last_event_time_secs + STALENESS_THRESHOLD_SECS
}

/// A running session is stale exactly when more than the running threshold
/// has elapsed since its last observed activity; exactly the threshold is
/// not stale.
pub fn is_running_stale(transcript_mtime_secs: i64, now_secs: i64) -> (r: bool)
    requires
        i64::MIN <= now_secs - transcript_mtime_secs <= i64::MAX,
    ensures
        r == (now_secs - transcript_mtime_secs > RUNNING_STALENESS_THRESHOLD_SECS),
{
    now_secs - transcript_mtime_secs > RUNNING_STALENESS_THRESHOLD_SECS
}

} // verus!

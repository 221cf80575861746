//! Classification of slow task polls.
//!
//! A cooperative executor degrades when one poll holds the thread for
//! long; the running system wraps futures and measures each poll. The
//! measurement is taken outside the library; the judgement — what counts
//! as a slow poll — is made here.

use vstd::prelude::*;

verus! {

/// A poll that held the thread longer than this is reported as slow.
pub const SLOW_POLL_MS: u64 = 1000;

/// One measured poll: how long it ran and whether that counts as slow.
#[derive(Clone, Copy, Debug, PartialEq, Eq, Structural)]
pub struct TimedPoll {
    pub elapsed_ms: u64,
    pub slow: bool,
}

/// Judge one measured poll.
pub fn timed_poll(elapsed_ms: u64) -> (t: TimedPoll)
    ensures
        t.elapsed_ms == elapsed_ms,
        t.slow == (elapsed_ms > SLOW_POLL_MS),
{
    TimedPoll { elapsed_ms, slow: elapsed_ms > SLOW_POLL_MS }
}

} // verus!

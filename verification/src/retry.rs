//! Retry policies for connection establishment.
//!
//! Targets behind freshly provisioned functions may not listen right
//! away, and a first QUIC flight may be lost while the hole is still
//! being punched. Retries are bounded and live at exactly two call
//! sites: the local TCP connect towards a just-started target, and the
//! QUIC connect attempt towards a peer. The clocks and sleeps run
//! outside the library; these functions decide, from the observed state,
//! whether to try again and how long to back off.

use vstd::prelude::*;

verus! {

/// How a failed TCP connect attempt ended.
#[derive(Clone, Copy, Debug, PartialEq, Eq, Structural)]
pub enum ConnectFailure {
    /// The peer refused the connection: it may simply not be up yet.
    Refused,
    /// Any other error: not worth retrying.
    Other,
}

/// What the TCP connect loop does next.
#[derive(Clone, Copy, Debug, PartialEq, Eq, Structural)]
pub enum ConnectStep {
    /// Sleep this long, then try again with the given backoff for the
    /// attempt after that.
    RetryAfterMs { delay_ms: u64, next_backoff_ms: u64 },
    /// Hand the error to the caller.
    GiveUp,
}

/// Decide one step of the TCP connect retry loop.
///
/// Only a refused connection within the time budget is retried, with a
/// linearly growing backoff on top of a 20 ms base delay; any other
/// error, or a budget already spent, ends the loop.
pub fn connect_retry_step(
    elapsed_ms: u64,
    timeout_ms: u64,
    backoff_ms: u64,
    failure: &ConnectFailure,
) -> (step: ConnectStep)
    requires
        backoff_ms <= u64::MAX - 25,
    ensures
        ({
            if failure is Refused && elapsed_ms <= timeout_ms {
                step == (ConnectStep::RetryAfterMs {
                    delay_ms: (20 + backoff_ms) as u64,
                    next_backoff_ms: (backoff_ms + 5) as u64,
                })
            } else {
                step == ConnectStep::GiveUp
            }
        }),
{
    match failure {
        ConnectFailure::Refused => {
            if elapsed_ms <= timeout_ms {
                ConnectStep::RetryAfterMs {
                    delay_ms: 20 + backoff_ms,
                    next_backoff_ms: backoff_ms + 5,
                }
            } else {
                ConnectStep::GiveUp
            }
        },
        ConnectFailure::Other => ConnectStep::GiveUp,
    }
}

/// What the QUIC connect loop does next.
#[derive(Clone, Copy, Debug, PartialEq, Eq, Structural)]
pub enum QuicRetryStep {
    /// The attempt produced a connection: use it.
    Connected,
    /// The attempt timed out and budget remains: dial again.
    RetryAttempt,
    /// The outer deadline has passed: report failure.
    GiveUp,
}

/// Decide one step of the QUIC connect retry loop.
///
/// Each attempt is bounded on its own (500 ms in the running system);
/// an attempt that timed out is repeated until the outer deadline has
/// passed.
pub fn quic_retry_step(elapsed_ms: u64, timeout_ms: u64, attempt_connected: bool) -> (step:
    QuicRetryStep)
    ensures
        attempt_connected ==> step == QuicRetryStep::Connected,
        !attempt_connected && elapsed_ms > timeout_ms ==> step == QuicRetryStep::GiveUp,
        !attempt_connected && elapsed_ms <= timeout_ms ==> step == QuicRetryStep::RetryAttempt,
{
    if attempt_connected {
        QuicRetryStep::Connected
    } else if elapsed_ms > timeout_ms {
        QuicRetryStep::GiveUp
    } else {
        QuicRetryStep::RetryAttempt
    }
}

} // verus!

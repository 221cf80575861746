//! Accounting of task polls.
//!
//! The running system instruments its futures and measures every poll;
//! the counts live here. [`meter`] folds one measured poll into a
//! monitor, [`metrics`] reads the counters back, and [`print_metrics`]
//! renders the report line that the surrounding binary writes to its
//! log on shutdown.

use vstd::prelude::*;

use crate::timed_poll::TimedPoll;

verus! {

/// The counters kept per monitored task set.
#[derive(Clone, Copy, Debug, PartialEq, Eq, Structural)]
pub struct TaskMonitor {
    pub polls: u64,
    pub slow_polls: u64,
    pub total_poll_ms: u64,
}

impl TaskMonitor {
    /// A monitor with all counters at zero.
    pub fn new() -> (r: Self)
        ensures
            r.polls == 0,
            r.slow_polls == 0,
            r.total_poll_ms == 0,
    {
        TaskMonitor { polls: 0, slow_polls: 0, total_poll_ms: 0 }
    }
}

/// `a + b`, stopping at the largest representable value.
fn saturating_add(a: u64, b: u64) -> (r: u64)
    ensures
        r == if a + b <= u64::MAX {
            a + b
        } else {
            u64::MAX as int
        },
{
    if a > u64::MAX - b {
        u64::MAX
    } else {
        a + b
    }
}

/// Fold one measured poll into the monitor. Counters saturate rather
/// than wrap: a monitor is bookkeeping and must never bring a process
/// down.
pub fn meter(monitor: &mut TaskMonitor, poll: TimedPoll)
    ensures
        final(monitor).polls == if old(monitor).polls < u64::MAX {
            old(monitor).polls + 1
        } else {
            u64::MAX as int
        },
        final(monitor).slow_polls == if poll.slow {
            if old(monitor).slow_polls < u64::MAX {
                old(monitor).slow_polls + 1
            } else {
                u64::MAX as int
            }
        } else {
            old(monitor).slow_polls as int
        },
        final(monitor).total_poll_ms == if old(monitor).total_poll_ms + poll.elapsed_ms
            <= u64::MAX {
            old(monitor).total_poll_ms + poll.elapsed_ms
        } else {
            u64::MAX as int
        },
{
    monitor.polls = saturating_add(monitor.polls, 1);
    if poll.slow {
        monitor.slow_polls = saturating_add(monitor.slow_polls, 1);
    }
    monitor.total_poll_ms = saturating_add(monitor.total_poll_ms, poll.elapsed_ms);
}

/// Read the counters back: polls, slow polls, total poll time.
pub fn metrics(monitor: &TaskMonitor) -> (r: (u64, u64, u64))
    ensures
        r.0 == monitor.polls,
        r.1 == monitor.slow_polls,
        r.2 == monitor.total_poll_ms,
{
    (monitor.polls, monitor.slow_polls, monitor.total_poll_ms)
}

/// The decimal digits of `n`, most significant first.
pub open spec fn spec_decimal(n: u64) -> Seq<u8>
    decreases n,
{
    if n < 10 {
        seq![(48 + n) as u8]
    } else {
        spec_decimal((n / 10) as u64) + seq![(48 + n % 10) as u8]
    }
}

/// Append the decimal digits of `n` to `out`.
fn push_decimal(n: u64, out: &mut Vec<u8>)
    ensures
        final(out)@ == old(out)@ + spec_decimal(n),
    decreases n,
{
    if n < 10 {
        out.push(48 + n as u8);
        proof {
            assert(final(out)@ =~= old(out)@ + spec_decimal(n));
        }
    } else {
        push_decimal(n / 10, out);
        out.push(48 + (n % 10) as u8);
        proof {
            assert(final(out)@ =~= old(out)@ + spec_decimal(n));
        }
    }
}

/// The report line for a monitor: its three counters, labelled.
pub open spec fn spec_report(m: TaskMonitor) -> Seq<u8> {
    "polls: "@.map_values(|c: char| c as u8) + spec_decimal(m.polls) + ", slow: "@.map_values(
        |c: char| c as u8,
    ) + spec_decimal(m.slow_polls) + ", busy ms: "@.map_values(|c: char| c as u8) + spec_decimal(
        m.total_poll_ms,
    )
}

/// Render the monitor's report line, ready to be written to a log.
pub fn print_metrics(monitor: &TaskMonitor) -> (line: Vec<u8>)
    ensures
        line@ == spec_report(*monitor),
{
    let mut line: Vec<u8> = Vec::new();
    push_label_polls(&mut line);
    push_decimal(monitor.polls, &mut line);
    push_label_slow(&mut line);
    push_decimal(monitor.slow_polls, &mut line);
    push_label_busy(&mut line);
    push_decimal(monitor.total_poll_ms, &mut line);
    proof {
        assert(line@ =~= spec_report(*monitor));
    }
    line
}

/// Append the bytes of `"polls: "`.
fn push_label_polls(out: &mut Vec<u8>)
    ensures
        final(out)@ == old(out)@ + "polls: "@.map_values(|c: char| c as u8),
{
    out.push(112);
    out.push(111);
    out.push(108);
    out.push(108);
    out.push(115);
    out.push(58);
    out.push(32);
    proof {
        reveal_strlit("polls: ");
        assert(final(out)@ =~= old(out)@ + "polls: "@.map_values(|c: char| c as u8));
    }
}

/// Append the bytes of `", slow: "`.
fn push_label_slow(out: &mut Vec<u8>)
    ensures
        final(out)@ == old(out)@ + ", slow: "@.map_values(|c: char| c as u8),
{
    out.push(44);
    out.push(32);
    out.push(115);
    out.push(108);
    out.push(111);
    out.push(119);
    out.push(58);
    out.push(32);
    proof {
        reveal_strlit(", slow: ");
        assert(final(out)@ =~= old(out)@ + ", slow: "@.map_values(|c: char| c as u8));
    }
}

/// Append the bytes of `", busy ms: "`.
fn push_label_busy(out: &mut Vec<u8>)
    ensures
        final(out)@ == old(out)@ + ", busy ms: "@.map_values(|c: char| c as u8),
{
    out.push(44);
    out.push(32);
    out.push(98);
    out.push(117);
    out.push(115);
    out.push(121);
    out.push(32);
    out.push(109);
    out.push(115);
    out.push(58);
    out.push(32);
    proof {
        reveal_strlit(", busy ms: ");
        assert(final(out)@ =~= old(out)@ + ", busy ms: "@.map_values(|c: char| c as u8));
    }
}

} // verus!

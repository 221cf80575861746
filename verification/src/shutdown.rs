//! Two-phase graceful shutdown.
//!
//! A single sender broadcasts the shutdown signal; every task holds a
//! guard, and the main task waits until all guards are dropped, bounded
//! by a grace period. The watch channel and the timers run outside the
//! library; the state tracked here says what the running system must
//! respect: once the signal is up no new work is accepted, and the wait
//! completes exactly when the last guard is gone.

use vstd::prelude::*;

verus! {

/// Returned by a cancellable task that was cut short by shutdown.
#[derive(Clone, Copy, Debug, PartialEq, Eq, Structural)]
pub struct Cancelled;

/// The shutdown state: whether the signal was broadcast, and how many
/// guards are still held by running tasks.
pub struct Shutdown {
    signaled: bool,
    guards: u64,
}

impl Shutdown {
    /// Whether the shutdown signal has been broadcast.
    pub closed spec fn spec_signaled(&self) -> bool {
        self.signaled
    }

    /// How many guards are outstanding.
    pub closed spec fn spec_guards(&self) -> u64 {
        self.guards
    }

    /// A fresh shutdown: no signal yet, no guards handed out.
    pub fn new() -> (r: Self)
        ensures
            !r.spec_signaled(),
            r.spec_guards() == 0,
    {
        Shutdown { signaled: false, guards: 0 }
    }

    /// Hand out a guard; the wait cannot complete until it is dropped.
    pub fn create_guard(&mut self)
        requires
            old(self).spec_guards() < u64::MAX,
        ensures
            final(self).spec_guards() == old(self).spec_guards() + 1,
            final(self).spec_signaled() == old(self).spec_signaled(),
    {
        self.guards = self.guards + 1;
    }

    /// A task dropped its guard.
    pub fn release_guard(&mut self)
        requires
            old(self).spec_guards() > 0,
        ensures
            final(self).spec_guards() == old(self).spec_guards() - 1,
            final(self).spec_signaled() == old(self).spec_signaled(),
    {
        self.guards = self.guards - 1;
    }

    /// Broadcast the shutdown signal: from here on no new work may be
    /// accepted.
    pub fn signal(&mut self)
        ensures
            final(self).spec_signaled(),
            final(self).spec_guards() == old(self).spec_guards(),
    {
        self.signaled = true;
    }

    /// Whether new work (a punch request, an ingress connection) may
    /// still be accepted: only while no shutdown was signaled.
    pub fn accepting_new_work(&self) -> (r: bool)
        ensures
            r == !self.spec_signaled(),
    {
        !self.signaled
    }

    /// Whether the wait may complete: every guard has been dropped.
    pub fn all_guards_released(&self) -> (r: bool)
        ensures
            r == (self.spec_guards() == 0),
    {
        self.guards == 0
    }
}

/// The verdict of running a cancellable task against the shutdown: the
/// task's own result if it finished within the grace period, otherwise
/// [`Cancelled`].
pub fn run_cancellable_outcome<T>(finished: Option<T>) -> (r: Result<T, Cancelled>)
    ensures
        match finished {
            Some(v) => r == Ok::<T, Cancelled>(v),
            None => r == Err::<T, Cancelled>(Cancelled),
        },
{
    match finished {
        Some(v) => Ok(v),
        None => Err(Cancelled),
    }
}

} // verus!

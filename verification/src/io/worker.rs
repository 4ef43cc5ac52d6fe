//! One worker: its accept loop, its counts, and its drain phase.
use vstd::prelude::*;

use crate::time::Duration;

verus! {

/// Connections of one worker: never more completed than accepted.
#[derive(Debug, Clone, Copy)]
pub struct WorkerCounts {
    accepted: u64,
    completed: u64,
}

impl Default for WorkerCounts {
    fn default() -> (r: WorkerCounts)
        ensures
            r.accepted() == 0,
            r.completed() == 0,
    {
        WorkerCounts { accepted: 0, completed: 0 }
    }
}

impl WorkerCounts {
    #[verifier::type_invariant]
    spec fn inv(self) -> bool {
        self.completed <= self.accepted
    }

    /// Connections accepted.
    pub closed spec fn accepted(self) -> u64 {
        self.accepted
    }

    /// Connections served to their end.
    pub closed spec fn completed(self) -> u64 {
        self.completed
    }

    /// Connections accepted.
    pub fn accepted_count(&self) -> (n: u64)
        ensures
            n == self.accepted(),
    {
        self.accepted
    }

    /// Connections served to their end: no more than were accepted.
    pub fn completed_count(&self) -> (n: u64)
        ensures
            n == self.completed(),
            n <= self.accepted(),
    {
        proof {
            use_type_invariant(self);
        }
        self.completed
    }

    /// Whether every connection has been served to its end.
    pub fn drained(&self) -> (r: bool)
        ensures
            r == (self.accepted() == self.completed()),
    {
        self.accepted == self.completed
    }

    /// Counts one more connection.
    pub fn accept(&mut self)
        requires
            old(self).accepted() < u64::MAX,
        ensures
            final(self).accepted() == old(self).accepted() + 1,
            final(self).completed() == old(self).completed(),
    {
        proof {
            use_type_invariant(&*self);
        }
        self.accepted = self.accepted + 1;
    }

    /// Counts one connection as served to its end.
    pub fn complete(&mut self)
        requires
            old(self).completed() < old(self).accepted(),
        ensures
            final(self).accepted() == old(self).accepted(),
            final(self).completed() == old(self).completed() + 1,
    {
        proof {
            use_type_invariant(&*self);
        }
        self.completed = self.completed + 1;
    }
}

/// What a wait for the next connection came to.
#[derive(Debug, Clone, Copy, PartialEq, Eq, Structural)]
pub enum AcceptEvent {
    /// A connection.
    Connection,
    /// An error of the listener; most of them pass.
    Failed,
    /// Nothing within the poll interval.
    Idle,
    /// The listener is closed for good.
    Closed,
}

/// What an accept loop does next.
#[derive(Debug, Clone, Copy, PartialEq, Eq, Structural)]
pub enum AcceptAction {
    /// Serve the connection in a task of its own.
    Serve {
        /// Set `TCP_NODELAY` on it first.
        nodelay: bool,
    },
    /// Log the error and wait again.
    Report,
    /// Wait again.
    Again,
    /// Leave the loop.
    Stop,
}

/// Whether an accept loop waits for one more connection, or stops because the
/// shutdown flag is set.
pub fn keep_accepting(cancelled: bool) -> (r: bool)
    ensures
        r == !cancelled,
{
    !cancelled
}

/// What an accept loop does after `event`. An error does not end it.
pub fn after_accept(event: AcceptEvent, tcp_nodelay: bool) -> (r: AcceptAction)
    ensures
        r == match event {
            AcceptEvent::Connection => AcceptAction::Serve { nodelay: tcp_nodelay },
            AcceptEvent::Failed => AcceptAction::Report,
            AcceptEvent::Idle => AcceptAction::Again,
            AcceptEvent::Closed => AcceptAction::Stop,
        },
{
    match event {
        AcceptEvent::Connection => AcceptAction::Serve { nodelay: tcp_nodelay },
        AcceptEvent::Failed => AcceptAction::Report,
        AcceptEvent::Idle => AcceptAction::Again,
        AcceptEvent::Closed => AcceptAction::Stop,
    }
}

/// What the drain phase does next.
#[derive(Debug, Clone, Copy, PartialEq, Eq, Structural)]
pub enum DrainStep {
    /// Every connection is through.
    Done,
    /// The deadline has passed; what is left is cut off.
    DeadlineElapsed,
    /// Look again after this span.
    Wait(Duration),
}

/// What the drain phase does where it has run for `elapsed`. That every
/// connection is through goes before the deadline.
pub fn drain_step(
    counts: &WorkerCounts,
    elapsed: Duration,
    deadline: Duration,
    poll_interval: Duration,
) -> (r: DrainStep)
    ensures
        r == if counts.accepted() == counts.completed() {
            DrainStep::Done
        } else if elapsed@ >= deadline@ {
            DrainStep::DeadlineElapsed
        } else {
            DrainStep::Wait(poll_interval)
        },
{
    if counts.drained() {
        DrainStep::Done
    } else if elapsed.as_nanos() >= deadline.as_nanos() {
        DrainStep::DeadlineElapsed
    } else {
        DrainStep::Wait(poll_interval)
    }
}

} // verus!

//! A read timeout for the body of a response: each frame has to arrive within
//! a given span of the one before it.
use vstd::prelude::*;
use vstd::string::*;

use crate::time::Duration;

verus! {

/// No frame arrived in time.
#[derive(Debug, Clone, Copy, PartialEq, Eq, Structural)]
pub struct ReadTimeout {
    /// The span that ran out.
    pub timeout: Duration,
}

impl ReadTimeout {
    /// The error as one line of text.
    pub fn message(&self) -> (r: String)
        ensures
            r@ == "upstream did not send a frame within "@ + self.timeout.text(),
    {
        let mut r = "upstream did not send a frame within ".to_owned();
        self.timeout.push_text(&mut r);
        r
    }
}

/// What a poll of the body comes to.
#[derive(Debug, Clone, Copy, PartialEq, Eq, Structural)]
pub enum TimedPoll {
    /// What the inner body yielded goes through: a frame, an error, or the end.
    Pass,
    /// The body fails with this error.
    TimedOut(ReadTimeout),
    /// Nothing yet.
    Pending,
}

/// A body with a read timeout. The timer runs from the first poll that finds
/// nothing until something arrives.
#[derive(Debug)]
pub struct TimedBody<B> {
    inner: B,
    timeout: Duration,
    armed: bool,
}

impl<B> TimedBody<B> {
    /// The body that is waited for.
    pub closed spec fn body(self) -> B {
        self.inner
    }

    /// How long a frame may take.
    pub closed spec fn limit(self) -> Duration {
        self.timeout
    }

    /// Whether the timer runs.
    pub closed spec fn running(self) -> bool {
        self.armed
    }

    /// `inner` with a read timeout for each frame. The timer does not run yet.
    pub fn new(inner: B, timeout: Duration) -> (r: TimedBody<B>)
        ensures
            r.body() == inner,
            r.limit() == timeout,
            !r.running(),
    {
        TimedBody { inner, timeout, armed: false }
    }

    /// The body that is waited for.
    pub fn inner(&self) -> (r: &B)
        ensures
            *r == self.body(),
    {
        &self.inner
    }

    /// Starts a poll. Where no timer runs, one has to be started now, for the
    /// span that comes back.
    pub fn begin_poll(&mut self) -> (r: Option<Duration>)
        ensures
            r == if old(self).running() {
                None
            } else {
                Some(old(self).limit())
            },
            final(self).running(),
            final(self).body() == old(self).body(),
            final(self).limit() == old(self).limit(),
    {
        if self.armed {
            None
        } else {
            self.armed = true;
            Some(self.timeout)
        }
    }

    /// Ends a poll: `ready` tells whether the inner body yielded something,
    /// `fired` whether the timer has run out. What has arrived goes first. The
    /// timer stops unless there is nothing yet.
    pub fn end_poll(&mut self, ready: bool, fired: bool) -> (r: TimedPoll)
        ensures
            r == if ready {
                TimedPoll::Pass
            } else if fired {
                TimedPoll::TimedOut(ReadTimeout { timeout: old(self).limit() })
            } else {
                TimedPoll::Pending
            },
            final(self).running() == (old(self).running() && r == TimedPoll::Pending),
            final(self).body() == old(self).body(),
            final(self).limit() == old(self).limit(),
    {
        if ready {
            self.armed = false;
            return TimedPoll::Pass;
        }
        if fired {
            self.armed = false;
            return TimedPoll::TimedOut(ReadTimeout { timeout: self.timeout });
        }
        TimedPoll::Pending
    }
}

} // verus!

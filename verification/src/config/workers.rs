//! Worker count: either an explicit positive integer or the string `"auto"`.
use vstd::prelude::*;

use crate::text;

verus! {

/// A number of workers, at least one.
#[derive(Debug, Clone, Copy, PartialEq, Eq, Structural)]
pub struct WorkerCount {
    n: usize,
}

impl View for WorkerCount {
    type V = usize;

    closed spec fn view(&self) -> usize {
        self.n
    }
}

impl WorkerCount {
    #[verifier::type_invariant]
    spec fn inv(self) -> bool {
        self.n >= 1
    }

    /// `n` workers; `None` for zero.
    pub fn new(n: usize) -> (r: Option<WorkerCount>)
        ensures
            match r {
                Some(w) => w@ == n && n > 0,
                None => n == 0,
            },
    {
        if n == 0 {
            None
        } else {
            Some(WorkerCount { n })
        }
    }

    /// The single worker.
    pub fn one() -> (w: WorkerCount)
        ensures
            w@ == 1,
    {
        WorkerCount { n: 1 }
    }

    /// How many workers.
    pub fn get(self) -> (n: usize)
        ensures
            n == self@,
            n >= 1,
    {
        proof {
            use_type_invariant(&self);
        }
        self.n
    }
}

/// How many workers the runtime runs.
#[derive(Debug, Clone, Copy, PartialEq, Eq, Structural)]
pub enum Workers {
    /// Picked at startup from the cores that are available.
    Auto,
    /// An explicit count.
    Count(WorkerCount),
}

impl Default for Workers {
    fn default() -> (r: Workers)
        ensures
            r == Workers::Auto,
    {
        Workers::Auto
    }
}

impl Workers {
    /// Reads a worker setting written as a string: only `auto` is one.
    pub fn from_text(s: &str) -> (r: Option<Workers>)
        ensures
            r == if s@ == "auto"@ { Some(Workers::Auto) } else { None },
    {
        if text::same(s, "auto") {
            Some(Workers::Auto)
        } else {
            None
        }
    }

    /// Reads a worker setting written as a signed number: a positive number
    /// that the machine can count to.
    pub fn from_signed(n: i64) -> (r: Option<Workers>)
        ensures
            match r {
                Some(w) => w matches Workers::Count(c) && c@ == n && n > 0,
                None => n <= 0 || n > usize::MAX,
            },
    {
        if n <= 0 {
            return None;
        }
        Workers::from_unsigned(n as u64)
    }

    /// Reads a worker setting written as an unsigned number.
    pub fn from_unsigned(n: u64) -> (r: Option<Workers>)
        ensures
            match r {
                Some(w) => w matches Workers::Count(c) && c@ == n && n > 0,
                None => n == 0 || n > usize::MAX,
            },
    {
        if n > usize::MAX as u64 {
            return None;
        }
        match WorkerCount::new(n as usize) {
            Some(c) => Some(Workers::Count(c)),
            None => None,
        }
    }

    /// The number of workers to start, where the machine can run `available` at
    /// once, as far as that is known.
    pub open spec fn resolved(self, available: Option<WorkerCount>) -> usize {
        match self {
            Workers::Count(c) => c@,
            Workers::Auto => match available {
                Some(c) => c@,
                None => 1,
            },
        }
    }

    /// The number of workers to start. `available` is how many the machine
    /// can run at once, where that is known; `Auto` falls back to one.
    pub fn resolve(self, available: Option<WorkerCount>) -> (r: WorkerCount)
        ensures
            r@ == self.resolved(available),
    {
        match self {
            Workers::Count(c) => c,
            Workers::Auto => match available {
                Some(c) => c,
                None => WorkerCount::one(),
            },
        }
    }
}

/// A number of workers that is configured is taken whatever the machine reports;
/// `Auto` takes what the machine reports, and one worker where it reports nothing.
/// There is always at least one.
pub proof fn configured_count_goes_first(n: WorkerCount, available: WorkerCount)
    ensures
        Workers::Count(n).resolved(Some(available)) == n@,
        Workers::Count(n).resolved(None) == n@,
        Workers::Auto.resolved(Some(available)) == available@,
        Workers::Auto.resolved(None) == 1,
{
}

} // verus!

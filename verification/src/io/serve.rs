//! What a server is started with, how it is stopped, and what it reports.
use vstd::prelude::*;
use vstd::string::*;

use crate::config::workers::WorkerCount;
use crate::io::worker::WorkerCounts;
use crate::proto::cancel::Cancellation;
use crate::text;
use crate::time;
use crate::time::Duration;

verus! {

/// What a server is started with.
#[derive(Debug)]
pub struct ServeSpec {
    /// Addresses to bind. At least one.
    pub listeners: Vec<String>,
    /// How many workers.
    pub workers: WorkerCount,
    /// Pin the worker at position N to the core at position N, where there is
    /// one.
    pub cpu_affinity: bool,
    /// How long a worker drains after shutdown is signalled.
    pub shutdown_deadline: Duration,
    /// `TCP_NODELAY` on accepted streams.
    pub tcp_nodelay: bool,
    /// Backlog of each listener.
    pub backlog: u32,
    /// Depth of the submission queue of each worker.
    pub uring_entries: u32,
    /// How often workers look at the shutdown flag.
    pub poll_interval: Duration,
}

impl ServeSpec {
    /// Defaults: pinned workers, thirty seconds to drain, `TCP_NODELAY`, a
    /// backlog and a queue of 1024 entries, a look at the flag every fifty
    /// milliseconds.
    pub fn new(listeners: Vec<String>, workers: WorkerCount) -> (r: ServeSpec)
        ensures
            r.listeners == listeners,
            r.workers == workers,
            r.cpu_affinity,
            r.shutdown_deadline@ == 30_000_000_000,
            r.tcp_nodelay,
            r.backlog == 1024,
            r.uring_entries == 1024,
            r.poll_interval@ == 50_000_000,
    {
        ServeSpec {
            listeners,
            workers,
            cpu_affinity: true,
            shutdown_deadline: Duration::from_secs(30),
            tcp_nodelay: true,
            backlog: 1024,
            uring_entries: 1024,
            poll_interval: Duration::from_millis(50),
        }
    }

    /// The position of the core for the worker at `idx`, of `cores` that there
    /// are.
    pub fn core_for(&self, idx: usize, cores: usize) -> (r: Option<usize>)
        ensures
            r == if self.cpu_affinity && idx < cores {
                Some(idx)
            } else {
                None
            },
    {
        if self.cpu_affinity && idx < cores {
            Some(idx)
        } else {
            None
        }
    }
}

/// Why a server was not started.
#[derive(Debug)]
#[non_exhaustive]
pub enum BindError {
    /// There are no addresses to bind.
    NoListeners,
    /// An address could not be bound.
    Bind {
        /// The address.
        addr: String,
        /// What the operating system answered.
        source: String,
    },
    /// A worker thread could not be started.
    ThreadSpawn(String),
}

impl BindError {
    /// The error as one line of text.
    pub fn message(&self) -> (r: String)
        ensures
            r@ == match *self {
                BindError::NoListeners => "listener list is empty"@,
                BindError::Bind { addr, .. } => "bind failed for "@ + addr@,
                BindError::ThreadSpawn(_) => "worker thread spawn failed"@,
            },
    {
        match self {
            BindError::NoListeners => "listener list is empty".to_owned(),
            BindError::Bind { addr, .. } => {
                let mut r = "bind failed for ".to_owned();
                r.append(addr);
                r
            },
            BindError::ThreadSpawn(_) => "worker thread spawn failed".to_owned(),
        }
    }
}

/// A handle that stops a server. All clones stop the same one.
pub struct ShutdownTrigger {
    flag: Cancellation,
}

/// The handle as text, by whether it was used.
pub fn describe_trigger(triggered: bool) -> (r: String)
    ensures
        r@ == if triggered {
            "ShutdownTrigger { triggered: true }"@
        } else {
            "ShutdownTrigger { triggered: false }"@
        },
{
    if triggered {
        "ShutdownTrigger { triggered: true }".to_owned()
    } else {
        "ShutdownTrigger { triggered: false }".to_owned()
    }
}

impl ShutdownTrigger {
    /// The flag that workers look at.
    pub closed spec fn cancellation(self) -> Cancellation {
        self.flag
    }

    /// A handle on the flag `flag`.
    pub fn on(flag: &Cancellation) -> (r: ShutdownTrigger)
        ensures
            r.cancellation().shared() == flag.shared(),
    {
        ShutdownTrigger { flag: flag.clone() }
    }

    /// Tells every worker to stop accepting and to drain. A second call changes
    /// nothing.
    pub fn cancel(&self)
        ensures
            self.cancellation().was_set(),
    {
        self.flag.cancel();
    }

    /// The handle as text.
    pub fn debug_text(&self) -> (r: String)
        ensures
            r@ == "ShutdownTrigger { triggered: true }"@ || r@
                == "ShutdownTrigger { triggered: false }"@,
            exists|set: bool| #[trigger]
                self.cancellation().found_set(set) && r@ == if set {
                    "ShutdownTrigger { triggered: true }"@
                } else {
                    "ShutdownTrigger { triggered: false }"@
                },
    {
        let set = self.flag.is_cancelled();
        assert(self.cancellation().found_set(set));
        describe_trigger(set)
    }
}

impl Clone for ShutdownTrigger {
    fn clone(&self) -> (r: ShutdownTrigger)
        ensures
            r.cancellation().shared() == self.cancellation().shared(),
    {
        ShutdownTrigger { flag: self.flag.clone() }
    }
}

/// What a server did, summed up over its workers.
#[derive(Debug, Clone, Copy, PartialEq, Eq, Structural)]
pub struct ShutdownReport {
    /// Connections accepted.
    pub accepted: u64,
    /// Connections served to their end.
    pub completed: u64,
    /// How long the server ran.
    pub elapsed: Duration,
}

impl Default for ShutdownReport {
    fn default() -> (r: ShutdownReport)
        ensures
            r.accepted == 0,
            r.completed == 0,
            r.elapsed@ == 0,
    {
        ShutdownReport { accepted: 0, completed: 0, elapsed: Duration::from_secs(0) }
    }
}

/// What a worker accepted; one that did not come back counts for nothing.
pub open spec fn accepted_by(w: Option<WorkerCounts>) -> nat {
    match w {
        Some(c) => c.accepted() as nat,
        None => 0,
    }
}

/// What a worker completed; one that did not come back counts for nothing.
pub open spec fn completed_by(w: Option<WorkerCounts>) -> nat {
    match w {
        Some(c) => c.completed() as nat,
        None => 0,
    }
}

/// What the first `n` workers accepted.
pub open spec fn accepted_sum(w: Seq<Option<WorkerCounts>>, n: nat) -> nat
    decreases n,
{
    if n == 0 {
        0
    } else {
        accepted_sum(w, (n - 1) as nat) + accepted_by(w[n - 1])
    }
}

/// What the first `n` workers completed.
pub open spec fn completed_sum(w: Seq<Option<WorkerCounts>>, n: nat) -> nat
    decreases n,
{
    if n == 0 {
        0
    } else {
        completed_sum(w, (n - 1) as nat) + completed_by(w[n - 1])
    }
}

impl ShutdownReport {
    /// The report of a server whose workers came back with `workers` after
    /// `elapsed`. `None` stands for a worker that did not come back.
    pub fn sum_up(workers: &Vec<Option<WorkerCounts>>, elapsed: Duration) -> (r: ShutdownReport)
        ensures
            r.accepted == time::saturated(accepted_sum(workers@, workers@.len())),
            r.completed == time::saturated(completed_sum(workers@, workers@.len())),
            r.elapsed == elapsed,
    {
        let mut accepted: u64 = 0;
        let mut completed: u64 = 0;
        for i in 0..workers.len()
            invariant
                accepted == time::saturated(accepted_sum(workers@, i as nat)),
                completed == time::saturated(completed_sum(workers@, i as nat)),
        {
            match &workers[i] {
                Some(c) => {
                    accepted = accepted.saturating_add(c.accepted_count());
                    completed = completed.saturating_add(c.completed_count());
                },
                None => {},
            }
        }
        ShutdownReport { accepted, completed, elapsed }
    }
}

/// A worker that came back has completed no more than it accepted.
pub open spec fn sound(w: Seq<Option<WorkerCounts>>) -> bool {
    forall|i: int| 0 <= i < w.len() ==> completed_by(#[trigger] w[i]) <= accepted_by(w[i])
}

proof fn lemma_sums(w: Seq<Option<WorkerCounts>>, n: nat)
    requires
        sound(w),
        n <= w.len(),
    ensures
        completed_sum(w, n) <= accepted_sum(w, n),
        completed_sum(w, n) == accepted_sum(w, n) <==> (forall|i: int|
            0 <= i < n ==> completed_by(#[trigger] w[i]) == accepted_by(w[i])),
    decreases n,
{
    if n > 0 {
        lemma_sums(w, (n - 1) as nat);
        assert(completed_by(w[n - 1]) <= accepted_by(w[n - 1]));
        if completed_sum(w, n) == accepted_sum(w, n) {
            assert forall|i: int| 0 <= i < n implies completed_by(#[trigger] w[i]) == accepted_by(
                w[i],
            ) by {
                if i < n - 1 {
                    assert(completed_sum(w, (n - 1) as nat) == accepted_sum(w, (n - 1) as nat));
                }
            }
        }
    }
}

/// A server never reports more connections completed than accepted, and where
/// every worker drained the two are equal.
pub proof fn report_is_sound(w: Seq<Option<WorkerCounts>>)
    requires
        sound(w),
    ensures
        time::saturated(completed_sum(w, w.len())) <= time::saturated(accepted_sum(w, w.len())),
        (forall|i: int| 0 <= i < w.len() ==> completed_by(#[trigger] w[i]) == accepted_by(w[i]))
            ==> time::saturated(completed_sum(w, w.len())) == time::saturated(
            accepted_sum(w, w.len()),
        ),
{
    lemma_sums(w, w.len());
}

/// Where the two counts of a report are equal, and they did not run into the
/// largest number, every worker drained: no connection was cut off.
pub proof fn equal_counts_mean_drained(w: Seq<Option<WorkerCounts>>)
    requires
        sound(w),
        accepted_sum(w, w.len()) <= u64::MAX,
        time::saturated(completed_sum(w, w.len())) == time::saturated(accepted_sum(w, w.len())),
    ensures
        forall|i: int| 0 <= i < w.len() ==> completed_by(#[trigger] w[i]) == accepted_by(w[i]),
{
    lemma_sums(w, w.len());
}

/// The name of the thread of the worker at `idx`: `prefix`, then the position.
pub fn worker_name(prefix: &str, idx: usize) -> (r: String)
    ensures
        r@ == prefix@ + text::decimal(idx as nat),
{
    let mut r = prefix.to_owned();
    text::push_decimal(&mut r, idx as u64);
    r
}

/// What a server reports is the sum over its workers: one more worker adds what it
/// accepted and completed, one that did not come back adds nothing, and without
/// workers both are 0.
pub proof fn report_adds_up_the_workers(w: Seq<Option<WorkerCounts>>, last: Option<WorkerCounts>)
    ensures
        accepted_sum(Seq::<Option<WorkerCounts>>::empty(), 0) == 0,
        completed_sum(Seq::<Option<WorkerCounts>>::empty(), 0) == 0,
        accepted_sum(w.push(last), w.len() + 1) == accepted_sum(w, w.len()) + match last {
            Some(c) => c.accepted() as nat,
            None => 0,
        },
        completed_sum(w.push(last), w.len() + 1) == completed_sum(w, w.len()) + match last {
            Some(c) => c.completed() as nat,
            None => 0,
        },
{
    lemma_same_sums(w, w.push(last), w.len());
}

proof fn lemma_same_sums(a: Seq<Option<WorkerCounts>>, b: Seq<Option<WorkerCounts>>, n: nat)
    requires
        n <= a.len(),
        n <= b.len(),
        forall|i: int| 0 <= i < n ==> #[trigger] a[i] == b[i],
    ensures
        accepted_sum(a, n) == accepted_sum(b, n),
        completed_sum(a, n) == completed_sum(b, n),
    decreases n,
{
    if n > 0 {
        assert(a[n - 1] == b[n - 1]);
        lemma_same_sums(a, b, (n - 1) as nat);
    }
}

} // verus!

//! Binding: every worker gets a socket of its own for every address, and all of
//! them are bound before anything is served.
//!
//! The first socket of an address is bound to what was asked for, so that the
//! operating system can choose the port. The others are bound to the address
//! that came of it, so that all workers share one.
use vstd::prelude::*;

use crate::io::serve::{BindError, ServeSpec};
use crate::upstream;

verus! {

/// The backlog as the operating system takes it; `None` where it is too large.
pub fn listen_backlog(backlog: u32) -> (r: Option<i32>)
    ensures
        match r {
            Some(n) => n == backlog,
            None => backlog > i32::MAX,
        },
{
    if backlog <= i32::MAX as u32 {
        Some(backlog as i32)
    } else {
        None
    }
}

/// The next socket to bind.
#[derive(Debug)]
pub struct BindTarget {
    /// The address to bind it to.
    pub addr: String,
    /// The position of the worker that gets it.
    pub worker: usize,
}

/// The sockets of a server that are bound so far.
#[derive(Debug)]
pub struct BindPlan {
    listeners: Vec<String>,
    workers: usize,
    listener: usize,
    worker: usize,
    bound: Vec<String>,
}

impl BindPlan {
    #[verifier::type_invariant]
    spec fn inv(self) -> bool {
        &&& self.workers >= 1
        &&& self.worker < self.workers
        &&& self.listener <= self.listeners@.len()
        &&& self.listener == self.listeners@.len() ==> self.worker == 0
        &&& self.bound@.len() == self.listener + if self.worker > 0 {
            1int
        } else {
            0
        }
    }

    /// The addresses that were asked for.
    pub closed spec fn requested(self) -> Seq<String> {
        self.listeners@
    }

    /// How many workers there are.
    pub closed spec fn worker_count(self) -> nat {
        self.workers as nat
    }

    /// The position of the address that is under way.
    pub closed spec fn at_listener(self) -> nat {
        self.listener as nat
    }

    /// The position of the worker that is under way.
    pub closed spec fn at_worker(self) -> nat {
        self.worker as nat
    }

    /// The addresses that came of the first socket of each address.
    pub closed spec fn addresses(self) -> Seq<String> {
        self.bound@
    }

    /// Whether every socket is bound.
    pub open spec fn complete(self) -> bool {
        self.at_listener() == self.requested().len()
    }

    /// The address of the next socket: what was asked for, or what came of it.
    pub open spec fn next_addr(self) -> String {
        if self.at_worker() == 0 {
            self.requested()[self.at_listener() as int]
        } else {
            self.addresses()[self.at_listener() as int]
        }
    }

    /// How many sockets are still to be bound.
    pub open spec fn remaining(self) -> int {
        self.worker_count() * (self.requested().len() - self.at_listener()) - self.at_worker()
    }

    /// Nothing bound yet. Fails where there are no addresses.
    pub fn new(spec: &ServeSpec) -> (r: Result<BindPlan, BindError>)
        ensures
            match r {
                Ok(p) => {
                    &&& spec.listeners@.len() > 0
                    &&& p.requested() == spec.listeners@
                    &&& p.worker_count() == spec.workers@
                    &&& p.at_listener() == 0
                    &&& p.at_worker() == 0
                    &&& p.addresses().len() == 0
                    &&& p.remaining() == spec.workers@ * spec.listeners@.len()
                },
                Err(e) => spec.listeners@.len() == 0 && e is NoListeners,
            },
    {
        if spec.listeners.len() == 0 {
            return Err(BindError::NoListeners);
        }
        Ok(
            BindPlan {
                listeners: upstream::copy_names(&spec.listeners),
                workers: spec.workers.get(),
                listener: 0,
                worker: 0,
                bound: Vec::new(),
            },
        )
    }

    /// The next socket to bind; `None` where every socket is bound.
    pub fn next(&self) -> (r: Option<BindTarget>)
        ensures
            match r {
                Some(t) => !self.complete() && t.addr == self.next_addr() && t.worker
                    == self.at_worker(),
                None => self.complete(),
            },
    {
        proof {
            use_type_invariant(self);
        }
        if self.listener >= self.listeners.len() {
            return None;
        }
        let addr = if self.worker == 0 {
            self.listeners[self.listener].clone()
        } else {
            self.bound[self.listener].clone()
        };
        Some(BindTarget { addr, worker: self.worker })
    }

    /// Takes the outcome of binding the next socket: the address that it is
    /// bound to, or why it could not be bound. A failure ends the plan and names
    /// the address that was tried.
    pub fn advance(self, outcome: Result<String, String>) -> (r: Result<BindPlan, BindError>)
        requires
            !self.complete(),
        ensures
            match outcome {
                Err(e) => r == Err::<BindPlan, _>(
                    (BindError::Bind { addr: self.next_addr(), source: e }),
                ),
                Ok(local) => {
                    &&& r matches Ok(p)
                    &&& p.requested() == self.requested()
                    &&& p.worker_count() == self.worker_count()
                    &&& p.addresses() == if self.at_worker() == 0 {
                        self.addresses().push(local)
                    } else {
                        self.addresses()
                    }
                    &&& if self.at_worker() + 1 < self.worker_count() {
                        &&& p.at_listener() == self.at_listener()
                        &&& p.at_worker() == self.at_worker() + 1
                    } else {
                        &&& p.at_listener() == self.at_listener() + 1
                        &&& p.at_worker() == 0
                    }
                    &&& p.remaining() == self.remaining() - 1
                    &&& p.complete() ==> p.addresses().len() == p.requested().len()
                },
            },
    {
        proof {
            use_type_invariant(&self);
        }
        let total: usize = self.listeners.len();
        let local = match outcome {
            Ok(l) => l,
            Err(e) => {
                let addr = if self.worker == 0 {
                    self.listeners[self.listener].clone()
                } else {
                    self.bound[self.listener].clone()
                };
                return Err(BindError::Bind { addr, source: e });
            },
        };
        proof {
            let n = self.worker_count() as int;
            let left = self.requested().len() - self.at_listener();
            assert(n * (left - 1) == n * left - n) by (nonlinear_arith);
            assert(self.listener < total);
        }
        let (listener, worker): (usize, usize) = if self.worker + 1 < self.workers {
            (self.listener, self.worker + 1)
        } else {
            (self.listener + 1, 0)
        };
        let mut bound = self.bound;
        if self.worker == 0 {
            bound.push(local);
        }
        Ok(BindPlan { listeners: self.listeners, workers: self.workers, listener, worker, bound })
    }

    /// The addresses that the server is bound to, one for each that was asked
    /// for.
    pub fn local_addrs(&self) -> (r: &Vec<String>)
        ensures
            r@ == self.addresses(),
    {
        &self.bound
    }
}

/// A plan that is not complete has sockets left to bind, and a complete one has
/// none: with one fewer after each success, a server of `n` workers and `k`
/// addresses binds exactly `n * k` sockets.
pub proof fn every_worker_gets_every_address(p: BindPlan)
    requires
        p.at_worker() < p.worker_count(),
        p.at_listener() <= p.requested().len(),
        p.complete() ==> p.at_worker() == 0,
    ensures
        p.complete() <==> p.remaining() == 0,
        p.remaining() >= 0,
{
    let n = p.worker_count() as int;
    let left = p.requested().len() - p.at_listener();
    if p.complete() {
        assert(n * left == 0) by (nonlinear_arith)
            requires
                left == 0,
        ;
    } else {
        assert(n * left >= n) by (nonlinear_arith)
            requires
                left >= 1,
                n >= 1,
        ;
    }
}

/// The first socket of an address is bound to what was asked for; those of the other
/// workers are bound to the address that came of it.
pub proof fn workers_share_the_address_that_came_of_it(p: BindPlan, q: BindPlan, local: String)
    requires
        p.at_worker() == 0,
        p.addresses().len() == p.at_listener(),
        q.requested() == p.requested(),
        q.addresses() == p.addresses().push(local),
        q.at_listener() == p.at_listener(),
        q.at_worker() > 0,
    ensures
        p.next_addr() == p.requested()[p.at_listener() as int],
        q.next_addr() == local,
{
}

} // verus!

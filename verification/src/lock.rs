//! Values that several owners hold behind one lock.
//!
//! What a lock holds changes under its owners' feet, so a contract cannot say what
//! it holds now. What it can say is what one holder found and what that holder
//! left. [`Shared::found`] and [`Shared::left`] are those two facts. They are
//! closed: outside of this module nothing but [`Shared::enter`], [`Shared::look`]
//! and [`Entry::leave`] establishes them, so a contract that speaks of them speaks
//! of values that really went through the lock.
use vstd::prelude::*;
use vstd::rwlock::{ReadHandle, RwLock, RwLockPredicate, WriteHandle};

use std::sync::Arc;

use crate::share::share;

verus! {

/// A value behind a lock. [`Shared::share`] makes one more owner of it.
pub struct Shared<V, P: RwLockPredicate<V>> {
    lock: Arc<RwLock<V, P>>,
}

/// The right to put a value back that [`Shared::enter`] took out.
pub struct Entry<'a, V, P: RwLockPredicate<V>> {
    handle: WriteHandle<'a, V, P>,
    owner: &'a Shared<V, P>,
    taken: Ghost<V>,
}

/// A look at a value that stays where it is.
pub struct Look<'a, V, P: RwLockPredicate<V>> {
    handle: ReadHandle<'a, V, P>,
}

impl<V, P: RwLockPredicate<V>> Shared<V, P> {
    /// What every value behind the lock satisfies.
    pub closed spec fn pred(self) -> P {
        self.lock.pred()
    }

    /// Whether `v` is what was put behind the lock at first.
    pub closed spec fn began(self, v: V) -> bool {
        self.lock.inv(v)
    }

    /// Whether `v` is what a holder of the lock found there.
    pub closed spec fn found(self, v: V) -> bool {
        self.lock.inv(v)
    }

    /// Whether one and the same holder of the lock found `before` and left
    /// `after`.
    pub closed spec fn left(self, before: V, after: V) -> bool {
        self.lock.inv(before) && self.lock.inv(after)
    }

    /// Puts `v` behind a lock of its own.
    pub fn new(v: V, pred: Ghost<P>) -> (r: Shared<V, P>)
        requires
            pred@.inv(v),
        ensures
            r.pred() == pred@,
            r.began(v),
    {
        Shared { lock: Arc::new(RwLock::new(v, pred)) }
    }

    /// One more owner of the same value.
    pub fn share(&self) -> (r: Shared<V, P>)
        ensures
            r == *self,
    {
        Shared { lock: share(&self.lock) }
    }

    /// Takes the value out; nobody else gets at it before [`Entry::leave`].
    pub fn enter(&self) -> (r: (V, Entry<'_, V, P>))
        ensures
            self.pred().inv(r.0),
            self.found(r.0),
            r.1.of() == *self,
            r.1.before() == r.0,
    {
        let (v, handle) = self.lock.acquire_write();
        let taken: Ghost<V> = Ghost(v);
        (v, Entry { handle, owner: self, taken })
    }

    /// Looks at the value.
    pub fn look(&self) -> (r: Look<'_, V, P>)
        ensures
            self.pred().inv(r.seen()),
            self.found(r.seen()),
    {
        let handle = self.lock.acquire_read();
        Look { handle }
    }
}

impl<'a, V, P: RwLockPredicate<V>> Entry<'a, V, P> {
    #[verifier::type_invariant]
    spec fn inv(self) -> bool {
        &&& self.handle.rwlock() == *self.owner.lock
        &&& self.owner.lock.inv(self.taken@)
    }

    /// The lock.
    pub closed spec fn of(self) -> Shared<V, P> {
        *self.owner
    }

    /// The value that was taken out.
    pub closed spec fn before(self) -> V {
        self.taken@
    }

    /// Puts `v` behind the lock in place of what was taken out.
    pub fn leave(self, v: V)
        requires
            self.of().pred().inv(v),
        ensures
            self.of().left(self.before(), v),
    {
        proof {
            use_type_invariant(&self);
        }
        self.handle.release_write(v);
    }
}

impl<'a, V, P: RwLockPredicate<V>> Look<'a, V, P> {
    /// The value that is looked at.
    pub closed spec fn seen(self) -> V {
        self.handle.view()
    }

    /// The value that is looked at.
    pub fn value(&self) -> (r: &V)
        ensures
            *r == self.seen(),
    {
        self.handle.borrow()
    }

    /// Ends the look.
    pub fn end(self) {
        self.handle.release_read();
    }
}

} // verus!

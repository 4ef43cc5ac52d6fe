//! Cancellation: a flag that several owners share, and that goes one way only.
use vstd::prelude::*;
use vstd::rwlock::RwLockPredicate;
use vstd::string::*;

use crate::lock::Shared;

verus! {

/// A flag that can be set and never cleared.
#[derive(Debug)]
pub struct Latch {
    set: bool,
}

impl View for Latch {
    type V = bool;

    closed spec fn view(&self) -> bool {
        self.set
    }
}

/// What an owner can do with a flag.
pub enum LatchOp {
    /// Look whether it is set.
    Look,
    /// Set it.
    Cancel,
}

/// The flag after `op`.
pub open spec fn after_op(set: bool, op: LatchOp) -> bool {
    match op {
        LatchOp::Look => set,
        LatchOp::Cancel => true,
    }
}

/// The flag after `ops`, in order.
pub open spec fn latched(set: bool, ops: Seq<LatchOp>) -> bool
    decreases ops.len(),
{
    if ops.len() == 0 {
        set
    } else {
        after_op(latched(set, ops.drop_last()), ops.last())
    }
}

impl Latch {
    /// A flag that is not set.
    pub fn new() -> (r: Latch)
        ensures
            !r@,
    {
        Latch { set: false }
    }

    /// Whether the flag is set.
    pub fn is_set(&self) -> (r: bool)
        ensures
            r == self@,
    {
        self.set
    }

    /// Sets the flag.
    pub fn set(&mut self)
        ensures
            final(self)@ == after_op(old(self)@, LatchOp::Cancel),
    {
        self.set = true;
    }
}

/// Cancellation is final: whatever the owners do, in whatever order, a flag
/// that is set stays set.
pub proof fn cancelled_stays_cancelled(ops: Seq<LatchOp>)
    ensures
        latched(true, ops),
    decreases ops.len(),
{
    if ops.len() > 0 {
        cancelled_stays_cancelled(ops.drop_last());
    }
}

/// A flag is set exactly where some owner has set it.
pub proof fn set_only_by_an_owner(ops: Seq<LatchOp>)
    ensures
        latched(false, ops) <==> exists|i: int| 0 <= i < ops.len() && #[trigger] ops[i] is Cancel,
    decreases ops.len(),
{
    if ops.len() > 0 {
        let rest = ops.drop_last();
        set_only_by_an_owner(rest);
        if ops.last() is Cancel {
            assert(ops[ops.len() - 1] is Cancel);
        }
        if exists|i: int| 0 <= i < rest.len() && #[trigger] rest[i] is Cancel {
            let i = choose|i: int| 0 <= i < rest.len() && #[trigger] rest[i] is Cancel;
            assert(ops[i] is Cancel);
        }
        if exists|i: int| 0 <= i < ops.len() && #[trigger] ops[i] is Cancel {
            let i = choose|i: int| 0 <= i < ops.len() && #[trigger] ops[i] is Cancel;
            if i < rest.len() {
                assert(rest[i] is Cancel);
            }
        }
    }
}

/// Any state of the flag may be shared.
pub struct AnyState;

impl RwLockPredicate<Latch> for AnyState {
    open spec fn inv(self, v: Latch) -> bool {
        true
    }
}

/// A cancellation handle. All clones share one flag, a [`Latch`] behind a lock.
/// Any owner may set it between two looks of another, so a contract here speaks of
/// what one look found, or of what one holder left.
pub struct Cancellation {
    flag: Shared<Latch, AnyState>,
}

/// Error of [`Cancellation::check`].
#[derive(Debug, Clone, Copy, PartialEq, Eq, Structural)]
pub enum CancellationError {
    /// The handle has been cancelled.
    Cancelled,
}

impl CancellationError {
    /// The error as one line of text.
    pub fn message(&self) -> (r: String)
        ensures
            r@ == "operation cancelled"@,
    {
        "operation cancelled".to_owned()
    }
}

/// What a look at the flag means for an operation.
pub fn verdict(cancelled: bool) -> (r: Result<(), CancellationError>)
    ensures
        r == if cancelled {
            Err(CancellationError::Cancelled)
        } else {
            Ok(())
        },
{
    if cancelled {
        Err(CancellationError::Cancelled)
    } else {
        Ok(())
    }
}

/// The handle as text, by the state of its flag.
pub fn describe(cancelled: bool) -> (r: String)
    ensures
        r@ == if cancelled {
            "Cancellation { cancelled: true }"@
        } else {
            "Cancellation { cancelled: false }"@
        },
{
    if cancelled {
        "Cancellation { cancelled: true }".to_owned()
    } else {
        "Cancellation { cancelled: false }".to_owned()
    }
}

impl Cancellation {
    /// The shared flag.
    pub closed spec fn shared(self) -> Shared<Latch, AnyState> {
        self.flag
    }

    /// Whether a look at the flag found it set, or not set, as `set` says.
    pub open spec fn found_set(self, set: bool) -> bool {
        exists|l: Latch| #[trigger] self.shared().found(l) && l@ == set
    }

    /// Whether a holder of the flag left it set.
    pub open spec fn was_set(self) -> bool {
        exists|before: Latch, after: Latch| #[trigger]
            self.shared().left(before, after) && after@
    }

    /// Whether the flag was not set at first.
    pub open spec fn began_unset(self) -> bool {
        exists|l: Latch| #[trigger] self.shared().began(l) && !l@
    }

    /// A handle that is not cancelled.
    pub fn new() -> (r: Cancellation)
        ensures
            r.began_unset(),
    {
        let pred: Ghost<AnyState> = Ghost(AnyState);
        let latch = Latch::new();
        let ghost first = latch;
        let flag = Shared::new(latch, pred);
        let r = Cancellation { flag };
        assert(r.shared().began(first));
        r
    }

    /// Whether any owner of the flag has cancelled it.
    pub fn is_cancelled(&self) -> (r: bool)
        ensures
            self.found_set(r),
    {
        let look = self.flag.look();
        let r = look.value().is_set();
        assert(self.shared().found(look.seen()));
        look.end();
        r
    }

    /// Cancels. A second call changes nothing.
    pub fn cancel(&self)
        ensures
            self.was_set(),
    {
        let (mut latch, entry) = self.flag.enter();
        let ghost before = latch;
        latch.set();
        let ghost after = latch;
        entry.leave(latch);
        assert(self.shared().left(before, after));
    }

    /// An error where the handle is cancelled.
    pub fn check(&self) -> (r: Result<(), CancellationError>)
        ensures
            self.found_set(r is Err),
            r is Err ==> r == Err::<(), CancellationError>(CancellationError::Cancelled),
    {
        verdict(self.is_cancelled())
    }

    /// The handle as text.
    pub fn debug_text(&self) -> (r: String)
        ensures
            r@ == "Cancellation { cancelled: true }"@ || r@ == "Cancellation { cancelled: false }"@,
            exists|set: bool| #[trigger]
                self.found_set(set) && r@ == if set {
                    "Cancellation { cancelled: true }"@
                } else {
                    "Cancellation { cancelled: false }"@
                },
    {
        let set = self.is_cancelled();
        assert(self.found_set(set));
        describe(set)
    }
}

impl Default for Cancellation {
    fn default() -> (r: Cancellation)
        ensures
            r.began_unset(),
    {
        Cancellation::new()
    }
}

impl Clone for Cancellation {
    fn clone(&self) -> (r: Cancellation)
        ensures
            r.shared() == self.shared(),
    {
        Cancellation { flag: self.flag.share() }
    }
}

} // verus!

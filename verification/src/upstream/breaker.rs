//! Passive circuit breaker.
//!
//! A breaker counts consecutive failures and holds a deadline, in milliseconds
//! since the breaker was made.
//!
//! - **Closed**: fewer failures than the threshold. Requests pass.
//! - **Open**: the threshold is reached and the deadline lies ahead. Requests
//!   are rejected.
//! - **Half-open**: the threshold is reached and the deadline has passed.
//!   Requests pass, and the first one to complete decides: a success closes
//!   the breaker, a failure opens it anew.
use vstd::prelude::*;

use crate::clock;
use crate::time;
use crate::time::Duration;

verus! {

/// Decision of [`Breaker::check`].
#[derive(Debug, Clone, Copy, PartialEq, Eq, Structural)]
pub enum Decision {
    /// Forward the request normally.
    Allow,
    /// Reject the request; do not connect to the upstream.
    Reject,
}

/// Which of its states a breaker is in.
#[derive(Debug, Clone, Copy, PartialEq, Eq, Structural)]
pub enum BreakerState {
    /// Requests pass.
    Closed,
    /// Requests are rejected.
    Open,
    /// The cooldown is over; requests pass as probes.
    HalfOpen,
}

/// Configuration of a breaker. A threshold of 0 disables it.
#[derive(Debug, Clone, Copy)]
pub struct BreakerConfig {
    /// Number of consecutive failures that trip the breaker.
    pub threshold: u32,
    /// How long the breaker stays open after tripping.
    pub cooldown: Duration,
}

impl Default for BreakerConfig {
    /// Five consecutive failures, thirty seconds of cooldown.
    fn default() -> (r: BreakerConfig)
        ensures
            r.threshold == 5,
            r.cooldown@ == 30_000_000_000,
    {
        BreakerConfig { threshold: 5, cooldown: Duration::from_secs(30) }
    }
}

/// A breaker without its clock.
#[derive(Debug, Clone, Copy, PartialEq, Eq, Structural)]
pub struct Trip {
    /// Failures at which the breaker trips; 0 disables it.
    pub threshold: u32,
    /// How long it stays open, in milliseconds.
    pub cooldown_ms: u64,
    /// Consecutive failures.
    pub failures: u32,
    /// When it stops being open; 0 where it never tripped.
    pub open_until_ms: u64,
}

impl Trip {
    /// A breaker that has seen nothing yet.
    pub open spec fn fresh(cfg: BreakerConfig) -> Trip {
        Trip {
            threshold: cfg.threshold,
            cooldown_ms: time::saturated(cfg.cooldown@ / 1_000_000),
            failures: 0,
            open_until_ms: 0,
        }
    }

    /// The state at the time `now`.
    pub open spec fn state_at(self, now: u64) -> BreakerState {
        if self.threshold == 0 || self.failures < self.threshold {
            BreakerState::Closed
        } else if now < self.open_until_ms {
            BreakerState::Open
        } else {
            BreakerState::HalfOpen
        }
    }

    /// The decision at the time `now`.
    pub open spec fn decision_at(self, now: u64) -> Decision {
        if self.state_at(now) == BreakerState::Open {
            Decision::Reject
        } else {
            Decision::Allow
        }
    }

    /// The deadline of a breaker that trips at `now`.
    pub open spec fn deadline(self, now: u64) -> u64 {
        time::saturated((now + self.cooldown_ms) as nat)
    }

    /// The breaker after a success.
    pub open spec fn succeeded(self) -> Trip {
        if self.threshold == 0 {
            self
        } else {
            Trip { failures: 0, open_until_ms: 0, ..self }
        }
    }

    /// The number of failures after one more; it stops at the largest number.
    pub open spec fn one_more(self) -> u32 {
        if self.failures == u32::MAX {
            u32::MAX
        } else {
            (self.failures + 1) as u32
        }
    }

    /// The breaker after a failure at the time `now`.
    pub open spec fn failed(self, now: u64) -> Trip {
        if self.threshold == 0 {
            self
        } else {
            Trip {
                failures: self.one_more(),
                open_until_ms: if self.one_more() >= self.threshold {
                    self.deadline(now)
                } else {
                    self.open_until_ms
                },
                ..self
            }
        }
    }

    /// The breaker after it was opened at the time `now`, however few failures
    /// it has seen.
    pub open spec fn tripped(self, now: u64) -> Trip {
        if self.threshold == 0 {
            self
        } else {
            Trip {
                failures: if self.one_more() >= self.threshold {
                    self.one_more()
                } else {
                    self.threshold
                },
                open_until_ms: self.deadline(now),
                ..self
            }
        }
    }

    /// The state at the time `now_ms`.
    pub fn snapshot_at(&self, now_ms: u64) -> (r: BreakerState)
        ensures
            r == self.state_at(now_ms),
    {
        if self.threshold == 0 || self.failures < self.threshold {
            return BreakerState::Closed;
        }
        if now_ms >= self.open_until_ms {
            BreakerState::HalfOpen
        } else {
            BreakerState::Open
        }
    }

    /// Decides whether a request at the time `now_ms` can proceed.
    pub fn check_at(&self, now_ms: u64) -> (r: Decision)
        ensures
            r == self.decision_at(now_ms),
    {
        match self.snapshot_at(now_ms) {
            BreakerState::Open => Decision::Reject,
            _ => Decision::Allow,
        }
    }

    /// Records a success: the breaker is closed.
    pub fn on_success(&mut self)
        ensures
            *final(self) == old(self).succeeded(),
    {
        if self.threshold == 0 {
            return;
        }
        self.open_until_ms = 0;
        self.failures = 0;
    }

    /// Records a failure at the time `now_ms`. At the threshold and beyond, the
    /// deadline is set anew.
    pub fn on_failure_at(&mut self, now_ms: u64)
        ensures
            *final(self) == old(self).failed(now_ms),
    {
        if self.threshold == 0 {
            return;
        }
        let new: u32 = self.failures.saturating_add(1);
        self.failures = new;
        if new >= self.threshold {
            self.open_until_ms = now_ms.saturating_add(self.cooldown_ms);
        }
    }

    /// Opens the breaker at the time `now_ms`, unless it is disabled. The count
    /// of failures is at the threshold then, or beyond.
    pub fn trip_at(&mut self, now_ms: u64)
        ensures
            *final(self) == old(self).tripped(now_ms),
    {
        if self.threshold == 0 {
            return;
        }
        let new: u32 = self.failures.saturating_add(1);
        self.failures = if new >= self.threshold {
            new
        } else {
            self.threshold
        };
        self.open_until_ms = now_ms.saturating_add(self.cooldown_ms);
    }
}

/// A circuit breaker with its clock.
#[derive(Debug)]
pub struct Breaker {
    trip: Trip,
    anchor: std::time::Instant,
}

impl View for Breaker {
    type V = Trip;

    closed spec fn view(&self) -> Trip {
        self.trip
    }
}

impl Breaker {
    /// When the breaker's clock started.
    pub closed spec fn started(self) -> std::time::Instant {
        self.anchor
    }

    /// A closed breaker whose clock starts now.
    pub fn new(cfg: BreakerConfig) -> (r: Breaker)
        ensures
            r@ == Trip::fresh(cfg),
    {
        let trip = Trip {
            threshold: cfg.threshold,
            cooldown_ms: time::saturate(cfg.cooldown.as_millis()),
            failures: 0,
            open_until_ms: 0,
        };
        Breaker { trip, anchor: std::time::Instant::now() }
    }

    /// Milliseconds since the breaker was made, by its clock.
    pub fn now_ms(&self) -> (r: u64)
        ensures
            clock::showed(self.started(), r),
    {
        clock::read(&self.anchor)
    }

    /// The breaker without its clock.
    pub fn trip(&self) -> (r: Trip)
        ensures
            r == self@,
    {
        self.trip
    }

    /// Decides whether the next request can proceed.
    pub fn check(&self) -> (r: Decision)
        ensures
            exists|now: u64| #[trigger]
                clock::showed(self.started(), now) && r == self@.decision_at(now),
            exists|now: u64| r == #[trigger] self@.decision_at(now),
    {
        let now: u64 = self.now_ms();
        let r = self.trip.check_at(now);
        assert(r == self@.decision_at(now));
        r
    }

    /// The state that the breaker is in.
    pub fn snapshot(&self) -> (r: BreakerState)
        ensures
            exists|now: u64| #[trigger]
                clock::showed(self.started(), now) && r == self@.state_at(now),
            exists|now: u64| r == #[trigger] self@.state_at(now),
    {
        let now: u64 = self.now_ms();
        let r = self.trip.snapshot_at(now);
        assert(r == self@.state_at(now));
        r
    }

    /// Records a success: the breaker is closed.
    pub fn on_success(&mut self)
        ensures
            final(self)@ == old(self)@.succeeded(),
            final(self).started() == old(self).started(),
    {
        self.trip.on_success();
    }

    /// Records a failure at the time `now_ms` of the breaker's clock.
    pub fn on_failure_at(&mut self, now_ms: u64)
        ensures
            final(self)@ == old(self)@.failed(now_ms),
            final(self).started() == old(self).started(),
    {
        self.trip.on_failure_at(now_ms);
    }

    /// Opens the breaker at the time `now_ms` of its clock, unless it is
    /// disabled.
    pub fn trip_at(&mut self, now_ms: u64)
        ensures
            final(self)@ == old(self)@.tripped(now_ms),
            final(self).started() == old(self).started(),
    {
        self.trip.trip_at(now_ms);
    }

    /// Records a failure.
    pub fn on_failure(&mut self)
        ensures
            exists|now: u64| #[trigger]
                clock::showed(old(self).started(), now) && final(self)@ == old(self)@.failed(now),
            exists|now: u64| final(self)@ == #[trigger] old(self)@.failed(now),
            final(self).started() == old(self).started(),
    {
        let now: u64 = self.now_ms();
        self.trip.on_failure_at(now);
        assert(self@ == old(self)@.failed(now));
    }
}

/// A breaker with a threshold of 0 lets every request pass, whatever it is
/// told.
pub proof fn disabled_breaker_allows(t: Trip, now: u64, later: u64)
    requires
        t.threshold == 0,
    ensures
        t.decision_at(now) == Decision::Allow,
        t.failed(now).decision_at(later) == Decision::Allow,
        t.tripped(now).decision_at(later) == Decision::Allow,
        t.succeeded().decision_at(later) == Decision::Allow,
{
}

/// A success closes the breaker from whatever state it was in.
pub proof fn success_closes(t: Trip, now: u64)
    ensures
        t.succeeded().state_at(now) == BreakerState::Closed,
        t.succeeded().decision_at(now) == Decision::Allow,
{
}

/// A failure of a half-open breaker opens it anew: from then on it rejects
/// until one whole cooldown has passed, and then lets the next probe pass.
pub proof fn half_open_failure_reopens(t: Trip, now: u64, later: u64)
    requires
        t.state_at(now) == BreakerState::HalfOpen,
    ensures
        t.failed(now).state_at(later) == if later < t.deadline(now) {
            BreakerState::Open
        } else {
            BreakerState::HalfOpen
        },
{
}

/// A failure never closes an open breaker: whatever it has counted, it stays
/// open for one whole cooldown more.
pub proof fn open_failure_stays_open(t: Trip, now: u64, later: u64)
    requires
        t.state_at(now) == BreakerState::Open,
        later < t.deadline(now),
    ensures
        t.failed(now).state_at(later) == BreakerState::Open,
        t.failed(now).decision_at(later) == Decision::Reject,
{
}

/// A breaker that is opened rejects until one whole cooldown has passed, and
/// then lets the next probe pass.
pub proof fn tripped_rejects(t: Trip, now: u64, later: u64)
    requires
        t.threshold > 0,
    ensures
        t.tripped(now).state_at(later) == if later < t.deadline(now) {
            BreakerState::Open
        } else {
            BreakerState::HalfOpen
        },
        t.cooldown_ms > 0 && now < u64::MAX ==> t.tripped(now).decision_at(now)
            == Decision::Reject,
{
}

/// The breaker after one failure at each of the times `at`, in order.
pub open spec fn after_failures(t: Trip, at: Seq<u64>) -> Trip
    decreases at.len(),
{
    if at.len() == 0 {
        t
    } else {
        after_failures(t, at.drop_last()).failed(at.last())
    }
}

/// A breaker trips at its threshold, no earlier: after fewer consecutive
/// failures it is closed; from the threshold on it rejects until one cooldown
/// after the last failure.
pub proof fn trips_at_threshold(cfg: BreakerConfig, at: Seq<u64>, now: u64)
    requires
        cfg.threshold > 0,
    ensures
        after_failures(Trip::fresh(cfg), at).state_at(now) == if at.len() < cfg.threshold {
            BreakerState::Closed
        } else if now < Trip::fresh(cfg).deadline(at.last()) {
            BreakerState::Open
        } else {
            BreakerState::HalfOpen
        },
{
    lemma_failures_counted(cfg, at);
}

proof fn lemma_failures_counted(cfg: BreakerConfig, at: Seq<u64>)
    requires
        cfg.threshold > 0,
    ensures
        after_failures(Trip::fresh(cfg), at).threshold == cfg.threshold,
        after_failures(Trip::fresh(cfg), at).cooldown_ms == Trip::fresh(cfg).cooldown_ms,
        after_failures(Trip::fresh(cfg), at).failures == if at.len() > u32::MAX {
            u32::MAX as nat
        } else {
            at.len()
        },
        at.len() >= cfg.threshold ==> after_failures(Trip::fresh(cfg), at).open_until_ms
            == Trip::fresh(cfg).deadline(at.last()),
    decreases at.len(),
{
    if at.len() > 0 {
        lemma_failures_counted(cfg, at.drop_last());
    }
}

/// The state of a breaker by what it counts: closed where it is disabled or below
/// its threshold; otherwise open as long as its deadline is ahead, and half-open
/// from then on. Requests are rejected exactly where it is open.
pub proof fn state_follows_count_and_deadline(t: Trip, now: u64)
    ensures
        t.state_at(now) is Closed <==> t.threshold == 0 || t.failures < t.threshold,
        t.state_at(now) is Open <==> t.threshold > 0 && t.failures >= t.threshold && now
            < t.open_until_ms,
        t.state_at(now) is HalfOpen <==> t.threshold > 0 && t.failures >= t.threshold && now
            >= t.open_until_ms,
        t.decision_at(now) is Reject <==> t.threshold > 0 && t.failures >= t.threshold && now
            < t.open_until_ms,
        t.decision_at(now) is Allow <==> t.threshold == 0 || t.failures < t.threshold || now
            >= t.open_until_ms,
{
}

/// What a breaker counts: a success takes it back to 0, whatever it counted; a
/// failure is one more, and from the threshold on puts the deadline one cooldown
/// behind the failure. The settings never change.
pub proof fn outcomes_are_counted(t: Trip, now: u64)
    requires
        t.threshold > 0,
    ensures
        t.succeeded().failures == 0,
        t.succeeded().open_until_ms == 0,
        t.failures < u32::MAX ==> t.failed(now).failures == t.failures + 1,
        t.failures == u32::MAX ==> t.failed(now).failures == u32::MAX,
        t.failed(now).failures >= t.threshold && now + t.cooldown_ms <= u64::MAX ==> t.failed(
            now,
        ).open_until_ms == now + t.cooldown_ms,
        t.failed(now).failures >= t.threshold && now + t.cooldown_ms > u64::MAX ==> t.failed(
            now,
        ).open_until_ms == u64::MAX,
        t.failed(now).failures < t.threshold ==> t.failed(now).open_until_ms == t.open_until_ms,
        t.failed(now).threshold == t.threshold && t.failed(now).cooldown_ms == t.cooldown_ms,
        t.succeeded().threshold == t.threshold && t.succeeded().cooldown_ms == t.cooldown_ms,
        t.tripped(now).threshold == t.threshold && t.tripped(now).cooldown_ms == t.cooldown_ms,
{
}

/// A breaker starts with the settings that it is given, its cooldown in whole
/// milliseconds, and with nothing counted.
pub proof fn fresh_breaker_has_its_settings(cfg: BreakerConfig)
    ensures
        Trip::fresh(cfg).threshold == cfg.threshold,
        cfg.cooldown@ / 1_000_000 <= u64::MAX ==> Trip::fresh(cfg).cooldown_ms == cfg.cooldown@
            / 1_000_000,
        cfg.cooldown@ / 1_000_000 > u64::MAX ==> Trip::fresh(cfg).cooldown_ms == u64::MAX,
        Trip::fresh(cfg).failures == 0,
        Trip::fresh(cfg).open_until_ms == 0,
{
}

} // verus!

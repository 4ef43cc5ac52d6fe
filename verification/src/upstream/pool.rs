//! The backends of one upstream: their addresses, one breaker for each, and
//! the turn of the round-robin.
use vstd::prelude::*;

use crate::clock;
use crate::upstream::breaker::{Breaker, BreakerConfig, BreakerState, Decision, Trip};
use crate::upstream::forward;
use crate::upstream::forward::{Attempts, ForwardError, Reply, Step, Target};
use crate::upstream::health;
use crate::upstream::health::{Report, Streak};

verus! {

/// The backends of one upstream.
#[derive(Debug)]
pub struct Pool {
    addrs: Vec<String>,
    breakers: Vec<Breaker>,
    next: usize,
}

/// The position that the scan from `start` reaches after `k` steps, among `n`.
pub open spec fn slot(start: usize, k: int, n: int) -> int {
    if start + k > usize::MAX {
        (start + k - usize::MAX - 1) % n
    } else {
        (start + k) % n
    }
}

/// The first position whose breaker lets a request pass at the times `nows`,
/// scanning from the turn `start` and with `k` positions behind.
pub open spec fn first_allowed(trips: Seq<Trip>, nows: Seq<u64>, start: usize, k: int) -> Option<
    int,
>
    decreases trips.len() - k,
{
    let n = trips.len() as int;
    if k < 0 || k >= n {
        None
    } else {
        let i = slot(start, k, n);
        if trips[i].decision_at(nows[i]) == Decision::Allow {
            Some(i)
        } else {
            first_allowed(trips, nows, start, k + 1)
        }
    }
}

/// The turn after `turn`.
pub open spec fn next_turn(turn: usize) -> usize {
    if turn == usize::MAX {
        0
    } else {
        (turn + 1) as usize
    }
}

/// What a pick hands out from `addrs` where the scan chose `choice`.
pub open spec fn picked(addrs: Seq<String>, choice: Option<int>) -> Option<(String, usize)> {
    match choice {
        Some(i) => Some((addrs[i], i as usize)),
        None => None,
    }
}

/// The state of a whole pool: closed or open where every breaker is, and
/// half-open otherwise. A pool without backends is closed.
pub open spec fn aggregate(trips: Seq<Trip>, nows: Seq<u64>) -> BreakerState {
    if forall|i: int|
        0 <= i < trips.len() ==> (#[trigger] trips[i]).state_at(nows[i]) == BreakerState::Closed {
        BreakerState::Closed
    } else if forall|i: int|
        0 <= i < trips.len() ==> (#[trigger] trips[i]).state_at(nows[i]) == BreakerState::Open {
        BreakerState::Open
    } else {
        BreakerState::HalfOpen
    }
}

/// The breakers `trips` after the outcome of a request to the backend at `idx`
/// was seen at the time `now`. A request to no known backend changes nothing.
pub open spec fn observed(trips: Seq<Trip>, idx: Option<usize>, success: bool, now: u64) -> Seq<
    Trip,
> {
    match idx {
        Some(i) => if i < trips.len() {
            trips.update(
                i as int,
                if success {
                    trips[i as int].succeeded()
                } else {
                    trips[i as int].failed(now)
                },
            )
        } else {
            trips
        },
        None => trips,
    }
}

/// The breakers `trips` after a probe of the backend at `idx` led to `report` at
/// the time `now`. A probe of no known backend changes nothing.
pub open spec fn probed(trips: Seq<Trip>, idx: usize, report: Report, now: u64) -> Seq<Trip> {
    if idx < trips.len() {
        trips.update(idx as int, health::reported(trips[idx as int], report, now))
    } else {
        trips
    }
}

/// The breakers `trips` after `step` was taken with a request to the backend at
/// `idx`, at the time `now`: as they were as long as the request is sent again.
pub open spec fn settled(trips: Seq<Trip>, idx: Option<usize>, step: Step, now: u64) -> Seq<Trip> {
    match forward::verdict(step) {
        Some(success) => observed(trips, idx, success, now),
        None => trips,
    }
}

/// Whether `r` is where a request with `path_and_query` goes that the scan of
/// the backends `addrs` chose `choice` for. Without backends its own URI says;
/// with all of them barred, and with an address that makes no URI, it fails.
pub open spec fn aims(
    addrs: Seq<String>,
    choice: Option<int>,
    path_and_query: Option<&str>,
    r: Result<Option<Target>, ForwardError>,
) -> bool {
    match choice {
        None => if addrs.len() == 0 {
            r == Ok::<Option<Target>, ForwardError>(None)
        } else {
            r matches Err(ForwardError::BreakerOpen)
        },
        Some(i) => {
            let uri = forward::egress_uri(addrs[i]@, path_and_query);
            match forward::uri_error(uri) {
                None => r matches Ok(Some(t)) && t.backend == i && t.uri@ == uri,
                Some(fault) => r matches Err(ForwardError::Body(e)) && e@ == fault,
            }
        },
    }
}

impl Pool {
    /// One breaker for each address.
    pub closed spec fn wf(self) -> bool {
        self.breakers@.len() == self.addrs@.len()
    }

    /// The backend addresses.
    pub closed spec fn addr_list(self) -> Seq<String> {
        self.addrs@
    }

    /// The breakers, without their clocks.
    pub closed spec fn trips(self) -> Seq<Trip> {
        self.breakers@.map_values(|b: Breaker| b@)
    }

    /// When the clock of each breaker started.
    pub closed spec fn clocks(self) -> Seq<std::time::Instant> {
        self.breakers@.map_values(|b: Breaker| b.started())
    }

    /// Whether `nows` are readings of the breakers' clocks, one of each.
    pub open spec fn reads(self, nows: Seq<u64>) -> bool {
        &&& nows.len() == self.clocks().len()
        &&& forall|i: int|
            0 <= i < nows.len() ==> clock::showed(self.clocks()[i], #[trigger] nows[i])
    }

    /// Whether `now` is a reading of the clock of the backend at `idx`, where
    /// there is such a backend.
    pub open spec fn reads_at(self, idx: Option<usize>, now: u64) -> bool {
        match idx {
            Some(i) => i < self.clocks().len() ==> clock::showed(self.clocks()[i as int], now),
            None => true,
        }
    }

    /// Whether this is the pool `before` but for its breakers and its turn.
    pub open spec fn same_backends(self, before: Pool) -> bool {
        &&& self.wf()
        &&& self.addr_list() == before.addr_list()
        &&& self.clocks() == before.clocks()
        &&& self.trips().len() == before.trips().len()
    }

    /// The turn of the round-robin.
    pub closed spec fn turn(self) -> usize {
        self.next
    }

    /// A pool of backends that have seen nothing yet.
    pub fn new(addrs: Vec<String>, breaker: BreakerConfig) -> (r: Pool)
        ensures
            r.wf(),
            r.addr_list() == addrs@,
            r.trips() == Seq::new(addrs@.len(), |i: int| Trip::fresh(breaker)),
            r.turn() == 0,
            r.clocks().len() == addrs@.len(),
    {
        let mut breakers: Vec<Breaker> = Vec::new();
        for i in 0..addrs.len()
            invariant
                breakers@.len() == i,
                forall|j: int| 0 <= j < i ==> (#[trigger] breakers@[j])@ == Trip::fresh(breaker),
        {
            breakers.push(Breaker::new(breaker));
        }
        let r = Pool { addrs, breakers, next: 0 };
        assert(r.trips() =~= Seq::new(addrs@.len(), |i: int| Trip::fresh(breaker)));
        r
    }

    /// How many backends there are: one address and one breaker for each.
    pub fn len(&self) -> (n: usize)
        requires
            self.wf(),
        ensures
            n == self.addr_list().len(),
            n == self.trips().len(),
            n == self.clocks().len(),
    {
        self.addrs.len()
    }

    /// What each breaker's clock reads.
    pub fn clock(&self) -> (r: Vec<u64>)
        requires
            self.wf(),
        ensures
            r@.len() == self.addr_list().len(),
            self.reads(r@),
    {
        let mut r: Vec<u64> = Vec::new();
        for i in 0..self.breakers.len()
            invariant
                r@.len() == i,
                forall|j: int| 0 <= j < i ==> clock::showed(self.clocks()[j], #[trigger] r@[j]),
        {
            r.push(self.breakers[i].now_ms());
        }
        r
    }

    /// What the clock of the backend at `idx` reads; zero where there is no such
    /// backend.
    pub fn now_at(&self, idx: Option<usize>) -> (r: u64)
        ensures
            !(idx matches Some(i) && i < self.trips().len()) ==> r == 0,
            self.reads_at(idx, r),
    {
        if let Some(i) = idx {
            if i < self.breakers.len() {
                return self.breakers[i].now_ms();
            }
        }
        0
    }

    /// Picks a backend at the times `clock`: the scan starts at the turn,
    /// which moves on by one, and takes the first backend whose breaker lets
    /// the request pass. `None` where every breaker rejects it.
    pub fn pick_at(&mut self, clock: &Vec<u64>) -> (r: Option<(String, usize)>)
        requires
            old(self).wf(),
            clock@.len() == old(self).addr_list().len(),
        ensures
            final(self).wf(),
            final(self).addr_list() == old(self).addr_list(),
            final(self).clocks() == old(self).clocks(),
            final(self).trips() == old(self).trips(),
            final(self).turn() == if old(self).addr_list().len() == 0 {
                old(self).turn()
            } else {
                next_turn(old(self).turn())
            },
            r == picked(
                old(self).addr_list(),
                first_allowed(old(self).trips(), clock@, old(self).turn(), 0),
            ),
    {
        let len: usize = self.addrs.len();
        if len == 0 {
            return None;
        }
        let start: usize = self.next;
        self.next = start.wrapping_add(1);
        let mut offset: usize = 0;
        while offset < len
            invariant
                0 < len == self.addrs@.len() == self.breakers@.len() == clock@.len(),
                offset <= len,
                self.addrs@ == old(self).addr_list(),
                self.trips() == old(self).trips(),
                self.clocks() == old(self).clocks(),
                self.turn() == next_turn(start),
                start == old(self).turn(),
                first_allowed(self.trips(), clock@, start, 0) == first_allowed(
                    self.trips(),
                    clock@,
                    start,
                    offset as int,
                ),
            decreases len - offset,
        {
            let idx: usize = start.wrapping_add(offset) % len;
            assert(idx == slot(start, offset as int, len as int));
            assert(self.trips()[idx as int] == self.breakers@[idx as int]@);
            match self.breakers[idx].trip().check_at(clock[idx]) {
                Decision::Allow => {
                    return Some((self.addrs[idx].clone(), idx));
                },
                Decision::Reject => {},
            }
            offset += 1;
        }
        None
    }

    /// Picks a backend now.
    pub fn pick_addr(&mut self) -> (r: Option<(String, usize)>)
        requires
            old(self).wf(),
        ensures
            final(self).wf(),
            final(self).addr_list() == old(self).addr_list(),
            final(self).clocks() == old(self).clocks(),
            final(self).trips() == old(self).trips(),
            final(self).turn() == if old(self).addr_list().len() == 0 {
                old(self).turn()
            } else {
                next_turn(old(self).turn())
            },
            exists|nows: Seq<u64>|
                nows.len() == old(self).addr_list().len() && old(self).reads(nows) && r == picked(
                    old(self).addr_list(),
                    #[trigger] first_allowed(old(self).trips(), nows, old(self).turn(), 0),
                ),
    {
        let clock = self.clock();
        self.pick_at(&clock)
    }

    /// Where a request with `path_and_query` goes at the times `clock`: to the
    /// backend that [`Pool::pick_at`] takes, or, without backends, where its own
    /// URI says. Fails where every backend is barred, and where the address and
    /// the path make no URI; the turn moves on all the same.
    pub fn aim_at(&mut self, clock: &Vec<u64>, path_and_query: Option<&str>) -> (r: Result<
        Option<Target>,
        ForwardError,
    >)
        requires
            old(self).wf(),
            clock@.len() == old(self).addr_list().len(),
        ensures
            final(self).wf(),
            final(self).addr_list() == old(self).addr_list(),
            final(self).clocks() == old(self).clocks(),
            final(self).trips() == old(self).trips(),
            final(self).turn() == if old(self).addr_list().len() == 0 {
                old(self).turn()
            } else {
                next_turn(old(self).turn())
            },
            aims(
                old(self).addr_list(),
                first_allowed(old(self).trips(), clock@, old(self).turn(), 0),
                path_and_query,
                r,
            ),
    {
        let none = self.addrs.len() == 0;
        let pick = self.pick_at(clock);
        proof {
            choice_is_allowed(old(self).trips(), clock@, old(self).turn(), 0);
        }
        match forward::choose_target(none, pick, path_and_query) {
            Ok(None) => Ok(None),
            Ok(Some(t)) => {
                let fault = forward::uri_fault(&t.uri);
                forward::accept_target(t, fault)
            },
            Err(e) => Err(e),
        }
    }

    /// Where a request with `path_and_query` goes now.
    pub fn aim(&mut self, path_and_query: Option<&str>) -> (r: Result<
        Option<Target>,
        ForwardError,
    >)
        requires
            old(self).wf(),
        ensures
            final(self).wf(),
            final(self).addr_list() == old(self).addr_list(),
            final(self).clocks() == old(self).clocks(),
            final(self).trips() == old(self).trips(),
            final(self).turn() == if old(self).addr_list().len() == 0 {
                old(self).turn()
            } else {
                next_turn(old(self).turn())
            },
            exists|nows: Seq<u64>|
                nows.len() == old(self).addr_list().len() && old(self).reads(nows) && aims(
                    old(self).addr_list(),
                    #[trigger] first_allowed(old(self).trips(), nows, old(self).turn(), 0),
                    path_and_query,
                    r,
                ),
    {
        let clock = self.clock();
        self.aim_at(&clock, path_and_query)
    }

    /// The backend addresses.
    pub fn addrs(&self) -> (r: &Vec<String>)
        ensures
            r@ == self.addr_list(),
    {
        &self.addrs
    }

    /// The state of the whole pool at the times `clock`.
    pub fn breaker_state_at(&self, clock: &Vec<u64>) -> (r: BreakerState)
        requires
            self.wf(),
            clock@.len() == self.addr_list().len(),
        ensures
            r == aggregate(self.trips(), clock@),
    {
        let mut all_closed = true;
        let mut all_open = true;
        let ghost t = self.trips();
        for i in 0..self.breakers.len()
            invariant
                clock@.len() == self.breakers@.len(),
                t == self.trips(),
                all_closed == (forall|j: int|
                    0 <= j < i ==> (#[trigger] t[j]).state_at(clock@[j]) == BreakerState::Closed),
                all_open == (forall|j: int|
                    0 <= j < i ==> (#[trigger] t[j]).state_at(clock@[j]) == BreakerState::Open),
        {
            assert(t[i as int] == self.breakers@[i as int]@);
            match self.breakers[i].trip().snapshot_at(clock[i]) {
                BreakerState::Closed => {
                    all_open = false;
                },
                BreakerState::Open => {
                    all_closed = false;
                },
                BreakerState::HalfOpen => {
                    all_closed = false;
                    all_open = false;
                },
            }
        }
        if all_closed {
            BreakerState::Closed
        } else if all_open {
            BreakerState::Open
        } else {
            BreakerState::HalfOpen
        }
    }

    /// The state of the whole pool now.
    pub fn breaker_state(&self) -> (r: BreakerState)
        requires
            self.wf(),
        ensures
            exists|nows: Seq<u64>|
                nows.len() == self.addr_list().len() && self.reads(nows) && r
                    == #[trigger] aggregate(
                    self.trips(),
                    nows,
                ),
    {
        let clock = self.clock();
        self.breaker_state_at(&clock)
    }

    /// Records the outcome of a request to the backend at `idx`, seen at the
    /// time `now_ms` of that backend's clock.
    pub fn observe_at(&mut self, idx: Option<usize>, success: bool, now_ms: u64)
        requires
            old(self).wf(),
        ensures
            final(self).wf(),
            final(self).addr_list() == old(self).addr_list(),
            final(self).clocks() == old(self).clocks(),
            final(self).turn() == old(self).turn(),
            final(self).trips() == observed(old(self).trips(), idx, success, now_ms),
    {
        if let Some(i) = idx {
            if i < self.breakers.len() {
                if success {
                    self.breakers[i].on_success();
                } else {
                    self.breakers[i].on_failure_at(now_ms);
                }
            }
        }
        assert(self.trips() =~= observed(old(self).trips(), idx, success, now_ms));
        assert(self.clocks() =~= old(self).clocks());
    }

    /// Records what `step` means for the backend at `idx`, at the time `now_ms`
    /// of that backend's clock: nothing as long as the request is sent again.
    pub fn settle_at(&mut self, idx: Option<usize>, step: Step, now_ms: u64)
        requires
            old(self).wf(),
        ensures
            final(self).wf(),
            final(self).addr_list() == old(self).addr_list(),
            final(self).clocks() == old(self).clocks(),
            final(self).turn() == old(self).turn(),
            final(self).trips() == settled(old(self).trips(), idx, step, now_ms),
    {
        if let Some(success) = forward::verdict_of(step) {
            self.observe_at(idx, success, now_ms);
        }
    }

    /// Takes the answer to the attempt under way of a request to the backend at
    /// `idx`, seen at the time `now_ms` of that backend's clock, and says what
    /// follows. Where the request ends, the backend's breaker learns how.
    pub fn on_reply_at(
        &mut self,
        attempts: &mut Attempts,
        idx: Option<usize>,
        reply: Reply,
        now_ms: u64,
    ) -> (r: Step)
        requires
            old(self).wf(),
        ensures
            r == forward::step(old(attempts).policy(), old(attempts).attempt(), reply),
            final(attempts).policy() == old(attempts).policy(),
            final(attempts).attempt() == if r == Step::Again {
                old(attempts).attempt() + 1
            } else {
                old(attempts).attempt()
            },
            final(self).wf(),
            final(self).addr_list() == old(self).addr_list(),
            final(self).clocks() == old(self).clocks(),
            final(self).turn() == old(self).turn(),
            final(self).trips() == settled(old(self).trips(), idx, r, now_ms),
    {
        let step = attempts.advance(reply);
        self.settle_at(idx, step, now_ms);
        step
    }

    /// Takes the answer to the attempt under way of a request to the backend at
    /// `idx`, and says what follows. Where the request ends, the backend's
    /// breaker learns how.
    pub fn on_reply(&mut self, attempts: &mut Attempts, idx: Option<usize>, reply: Reply) -> (r:
        Step)
        requires
            old(self).wf(),
        ensures
            r == forward::step(old(attempts).policy(), old(attempts).attempt(), reply),
            final(attempts).policy() == old(attempts).policy(),
            final(attempts).attempt() == if r == Step::Again {
                old(attempts).attempt() + 1
            } else {
                old(attempts).attempt()
            },
            final(self).wf(),
            final(self).addr_list() == old(self).addr_list(),
            final(self).clocks() == old(self).clocks(),
            final(self).turn() == old(self).turn(),
            exists|now: u64|
                old(self).reads_at(idx, now) && final(self).trips() == #[trigger] settled(
                    old(self).trips(),
                    idx,
                    r,
                    now,
                ),
    {
        let now: u64 = self.now_at(idx);
        let r = self.on_reply_at(attempts, idx, reply, now);
        assert(self.trips() == settled(old(self).trips(), idx, r, now));
        r
    }

    /// Takes the result of a probe of the backend at `idx`, seen at the time
    /// `now_ms` of that backend's clock. Where the streak calls for it, the
    /// backend's breaker is closed or opened.
    pub fn observe_probe_at(
        &mut self,
        idx: usize,
        streak: &mut Streak,
        healthy: bool,
        unhealthy_threshold: u32,
        healthy_threshold: u32,
        now_ms: u64,
    ) -> (r: Report)
        requires
            old(self).wf(),
        ensures
            *final(streak) == old(streak).next(healthy),
            r == final(streak).report(healthy, unhealthy_threshold, healthy_threshold),
            final(self).wf(),
            final(self).addr_list() == old(self).addr_list(),
            final(self).clocks() == old(self).clocks(),
            final(self).turn() == old(self).turn(),
            final(self).trips() == probed(old(self).trips(), idx, r, now_ms),
    {
        let r = streak.observe(healthy, unhealthy_threshold, healthy_threshold);
        if idx < self.breakers.len() {
            match r {
                Report::Success => self.breakers[idx].on_success(),
                Report::Trip => self.breakers[idx].trip_at(now_ms),
                Report::Nothing => {},
            }
        }
        assert(self.trips() =~= probed(old(self).trips(), idx, r, now_ms));
        assert(self.clocks() =~= old(self).clocks());
        r
    }

    /// Takes the result of a probe of the backend at `idx`. Where the streak
    /// calls for it, the backend's breaker is closed or opened.
    pub fn observe_probe(
        &mut self,
        idx: usize,
        streak: &mut Streak,
        healthy: bool,
        unhealthy_threshold: u32,
        healthy_threshold: u32,
    ) -> (r: Report)
        requires
            old(self).wf(),
        ensures
            *final(streak) == old(streak).next(healthy),
            r == final(streak).report(healthy, unhealthy_threshold, healthy_threshold),
            final(self).wf(),
            final(self).addr_list() == old(self).addr_list(),
            final(self).clocks() == old(self).clocks(),
            final(self).turn() == old(self).turn(),
            exists|now: u64|
                old(self).reads_at(Some(idx), now) && final(self).trips() == #[trigger] probed(
                    old(self).trips(),
                    idx,
                    r,
                    now,
                ),
    {
        let now: u64 = self.now_at(Some(idx));
        let r = self.observe_probe_at(
            idx,
            streak,
            healthy,
            unhealthy_threshold,
            healthy_threshold,
            now,
        );
        assert(self.trips() == probed(old(self).trips(), idx, r, now));
        r
    }

    /// Records the outcome of a request to the backend at `idx`. One that went
    /// to no known backend is ignored.
    pub fn observe_breaker_outcome(&mut self, idx: Option<usize>, success: bool)
        requires
            old(self).wf(),
        ensures
            final(self).wf(),
            final(self).addr_list() == old(self).addr_list(),
            final(self).clocks() == old(self).clocks(),
            final(self).turn() == old(self).turn(),
            exists|now: u64|
                old(self).reads_at(idx, now) && final(self).trips() == #[trigger] observed(
                    old(self).trips(),
                    idx,
                    success,
                    now,
                ),
    {
        let now: u64 = self.now_at(idx);
        self.observe_at(idx, success, now);
        assert(self.trips() == observed(old(self).trips(), idx, success, now));
    }
}

/// Whatever the scan chooses is a position of the pool whose breaker lets the
/// request pass; where it chooses nothing, every position on its way rejects.
pub proof fn choice_is_allowed(trips: Seq<Trip>, nows: Seq<u64>, start: usize, k: int)
    requires
        0 <= k <= trips.len(),
        nows.len() == trips.len(),
    ensures
        match first_allowed(trips, nows, start, k) {
            Some(i) => 0 <= i < trips.len() && trips[i].decision_at(nows[i]) == Decision::Allow,
            None => forall|j: int|
                k <= j < trips.len() ==> {
                    let i = #[trigger] slot(start, j, trips.len() as int);
                    trips[i].decision_at(nows[i]) == Decision::Reject
                },
        },
    decreases trips.len() - k,
{
    if k < trips.len() {
        choice_is_allowed(trips, nows, start, k + 1);
    }
}

/// Among `n` consecutive steps of a scan that does not run over the end of the
/// counter, each position below `n` comes up.
proof fn lemma_slots_cover(start: usize, n: int, i: int)
    requires
        0 <= i < n,
        start + n <= usize::MAX,
    ensures
        exists|k: int| 0 <= k < n && #[trigger] slot(start, k, n) == i,
{
    let d = start as int % n;
    let k = if i >= d {
        i - d
    } else {
        i - d + n
    };
    assert((start + k) % n == i) by {
        let q = start as int / n;
        vstd::arithmetic::div_mod::lemma_fundamental_div_mod(start as int, n);
        if i >= d {
            assert(n * q == q * n) by (nonlinear_arith);
            assert(start + k == q * n + i);
            vstd::arithmetic::div_mod::lemma_fundamental_div_mod_converse(start + k, n, q, i);
        } else {
            assert((q + 1) * n == n * q + n) by (nonlinear_arith);
            assert(start + k == (q + 1) * n + i);
            vstd::arithmetic::div_mod::lemma_fundamental_div_mod_converse(start + k, n, q + 1, i);
        }
    }
    assert(slot(start, k, n) == i);
}

/// A pick never hands out a backend whose breaker rejects, and comes back empty
/// only where every breaker rejects: no backend that would take the request is
/// left out.
pub proof fn pick_is_sound_and_complete(trips: Seq<Trip>, nows: Seq<u64>, start: usize)
    requires
        nows.len() == trips.len(),
        start + trips.len() <= usize::MAX,
    ensures
        match first_allowed(trips, nows, start, 0) {
            Some(i) => 0 <= i < trips.len() && trips[i].decision_at(nows[i]) == Decision::Allow,
            None => forall|i: int|
                0 <= i < trips.len() ==> (#[trigger] trips[i]).decision_at(nows[i])
                    == Decision::Reject,
        },
{
    let n = trips.len() as int;
    choice_is_allowed(trips, nows, start, 0);
    if first_allowed(trips, nows, start, 0) is None {
        assert forall|i: int| 0 <= i < n implies (#[trigger] trips[i]).decision_at(nows[i])
            == Decision::Reject by {
            lemma_slots_cover(start, n, i);
            let k = choose|k: int| 0 <= k < n && #[trigger] slot(start, k, n) == i;
            assert(slot(start, k, n) == i);
        }
    }
}

/// A backend that a probe took out of service is not picked before its cooldown
/// is over, whatever its breaker held before.
pub proof fn tripped_backend_is_not_picked(
    trips: Seq<Trip>,
    idx: usize,
    now: u64,
    nows: Seq<u64>,
    start: usize,
)
    requires
        nows.len() == trips.len(),
        idx < trips.len(),
        trips[idx as int].threshold > 0,
        nows[idx as int] < trips[idx as int].deadline(now),
    ensures
        first_allowed(probed(trips, idx, Report::Trip, now), nows, start, 0) != Some(idx as int),
{
    choice_is_allowed(probed(trips, idx, Report::Trip, now), nows, start, 0);
}

/// Where every breaker lets requests pass the picks go round: the pick at turn
/// `start + k` takes the position `(start + k) % n`.
pub proof fn picks_go_round(trips: Seq<Trip>, nows: Seq<u64>, start: usize, k: nat)
    requires
        nows.len() == trips.len(),
        trips.len() > 0,
        start + k <= usize::MAX,
        forall|i: int|
            0 <= i < trips.len() ==> (#[trigger] trips[i]).decision_at(nows[i])
                == Decision::Allow,
    ensures
        first_allowed(trips, nows, (start + k) as usize, 0) == Some(
            (start + k) % (trips.len() as int),
        ),
{
    let n = trips.len() as int;
    let turn = (start + k) as usize;
    let i = slot(turn, 0, n);
    assert(0 <= i < n);
    assert(trips[i].decision_at(nows[i]) == Decision::Allow);
}

/// Where every breaker lets requests pass, `n` picks in a row take each of `n`
/// backends: for each backend there is a turn among them that picks it.
pub proof fn picks_are_fair(trips: Seq<Trip>, nows: Seq<u64>, start: usize, i: int)
    requires
        nows.len() == trips.len(),
        0 <= i < trips.len(),
        start + trips.len() <= usize::MAX,
        forall|j: int|
            0 <= j < trips.len() ==> (#[trigger] trips[j]).decision_at(nows[j])
                == Decision::Allow,
    ensures
        exists|k: int|
            0 <= k < trips.len() && #[trigger] first_allowed(
                trips,
                nows,
                (start + k) as usize,
                0,
            ) == Some(i),
{
    let n = trips.len() as int;
    lemma_slots_cover(start, n, i);
    let k = choose|k: int| 0 <= k < n && #[trigger] slot(start, k, n) == i;
    picks_go_round(trips, nows, start, k as nat);
    assert(first_allowed(trips, nows, (start + k) as usize, 0) == Some(i));
}

/// Which backend a pick takes, by what the breakers count: going round from the
/// turn, the first one that is disabled, or below its threshold, or past its
/// deadline. Every backend before it on the way, and every backend at all where
/// none is taken, has reached its threshold and has its deadline ahead.
pub proof fn pick_takes_the_first_in_service(trips: Seq<Trip>, nows: Seq<u64>, start: usize)
    requires
        nows.len() == trips.len(),
        start + trips.len() <= usize::MAX,
    ensures
        match first_allowed(trips, nows, start, 0) {
            Some(i) => {
                &&& 0 <= i < trips.len()
                &&& trips[i].threshold == 0 || trips[i].failures < trips[i].threshold || nows[i]
                    >= trips[i].open_until_ms
                &&& exists|k: int|
                    0 <= k < trips.len() && i == #[trigger] passed(start, k, trips.len()) && forall|
                        j: int,
                    |
                        0 <= j < k ==> {
                            let b = #[trigger] passed(start, j, trips.len());
                            trips[b].threshold > 0 && trips[b].failures >= trips[b].threshold
                                && nows[b] < trips[b].open_until_ms
                        }
            },
            None => forall|i: int|
                #![trigger trips[i]]
                0 <= i < trips.len() ==> trips[i].threshold > 0 && trips[i].failures
                    >= trips[i].threshold && nows[i] < trips[i].open_until_ms,
        },
{
    lemma_first_in_service(trips, nows, start, 0);
    pick_is_sound_and_complete(trips, nows, start);
}

/// The position that lies `k` behind `start`, going round among `n`.
pub open spec fn passed(start: usize, k: int, n: nat) -> int {
    (start + k) % (n as int)
}

proof fn lemma_first_in_service(trips: Seq<Trip>, nows: Seq<u64>, start: usize, k: int)
    requires
        nows.len() == trips.len(),
        start + trips.len() <= usize::MAX,
        0 <= k <= trips.len(),
    ensures
        first_allowed(trips, nows, start, k) matches Some(i) ==> exists|m: int|
            k <= m < trips.len() && i == #[trigger] passed(start, m, trips.len()) && forall|j: int|
                k <= j < m ==> {
                    let b = #[trigger] passed(start, j, trips.len());
                    trips[b].threshold > 0 && trips[b].failures >= trips[b].threshold && nows[b]
                        < trips[b].open_until_ms
                },
    decreases trips.len() - k,
{
    if k < trips.len() {
        let here = slot(start, k, trips.len() as int);
        assert(here == passed(start, k, trips.len()));
        if trips[here].decision_at(nows[here]) != Decision::Allow {
            lemma_first_in_service(trips, nows, start, k + 1);
            if let Some(i) = first_allowed(trips, nows, start, k + 1) {
                let m = choose|m: int|
                    k + 1 <= m < trips.len() && i == #[trigger] passed(start, m, trips.len())
                        && forall|j: int|
                        k + 1 <= j < m ==> {
                            let b = #[trigger] passed(start, j, trips.len());
                            trips[b].threshold > 0 && trips[b].failures >= trips[b].threshold
                                && nows[b] < trips[b].open_until_ms
                        };
                assert forall|j: int| k <= j < m implies {
                    let b = #[trigger] passed(start, j, trips.len());
                    trips[b].threshold > 0 && trips[b].failures >= trips[b].threshold && nows[b]
                        < trips[b].open_until_ms
                } by {
                    if j == k {
                        assert(here == passed(start, j, trips.len()));
                    }
                }
                assert(i == passed(start, m, trips.len()));
            }
        }
    }
}

/// One backend in service is enough: as long as there is one whose breaker is below
/// its threshold, a pick takes a backend, however the others fare.
pub proof fn one_backend_in_service_is_enough(
    trips: Seq<Trip>,
    nows: Seq<u64>,
    start: usize,
    i: int,
)
    requires
        nows.len() == trips.len(),
        start + trips.len() <= usize::MAX,
        0 <= i < trips.len(),
        trips[i].failures < trips[i].threshold,
    ensures
        first_allowed(trips, nows, start, 0) is Some,
{
    pick_takes_the_first_in_service(trips, nows, start);
}

/// What is recorded of a backend is recorded of it alone. A success sets its count
/// and its deadline to 0; a failure counts one more, and from the threshold on
/// puts its deadline one cooldown ahead. Nothing is recorded of a disabled
/// breaker.
pub proof fn outcome_is_recorded_of_its_backend(
    trips: Seq<Trip>,
    i: usize,
    success: bool,
    now: u64,
    j: int,
)
    requires
        i < trips.len(),
        0 <= j < trips.len(),
    ensures
        ({
            let before = trips[i as int];
            let after = observed(trips, Some(i), success, now)[i as int];
            &&& observed(trips, Some(i), success, now).len() == trips.len()
            &&& j != i ==> observed(trips, Some(i), success, now)[j] == trips[j]
            &&& after.threshold == before.threshold
            &&& after.cooldown_ms == before.cooldown_ms
            &&& before.threshold == 0 ==> after == before
            &&& before.threshold > 0 && success ==> after.failures == 0 && after.open_until_ms == 0
            &&& before.threshold > 0 && !success ==> {
                &&& before.failures < u32::MAX ==> after.failures == before.failures + 1
                &&& before.failures == u32::MAX ==> after.failures == u32::MAX
                &&& after.failures < before.threshold ==> after.open_until_ms
                    == before.open_until_ms
                &&& after.failures >= before.threshold ==> {
                    &&& now + before.cooldown_ms <= u64::MAX ==> after.open_until_ms == now
                        + before.cooldown_ms
                    &&& now + before.cooldown_ms > u64::MAX ==> after.open_until_ms == u64::MAX
                }
            }
        }),
        observed(trips, None, success, now) == trips,
{
}

/// What a step means for the breakers: nothing as long as the request is sent
/// again; otherwise the outcome of the request, a success exactly where a response
/// is delivered that counts as one, is recorded of the backend that it went to.
pub proof fn step_is_settled_with_its_backend(
    trips: Seq<Trip>,
    idx: Option<usize>,
    step: Step,
    now: u64,
)
    ensures
        step is Again ==> settled(trips, idx, step, now) == trips,
        step matches Step::Deliver { success } ==> settled(trips, idx, step, now) == observed(
            trips,
            idx,
            success,
            now,
        ),
        step is GiveUp ==> settled(trips, idx, step, now) == observed(trips, idx, false, now),
{
}

/// What a probe brings to the breaker of the backend that was probed, and to no
/// other: where it is to be opened, a count that has reached the threshold and a
/// deadline one cooldown ahead; where it is to be closed, a count and a deadline of
/// 0.
pub proof fn probe_reaches_its_backend(
    trips: Seq<Trip>,
    i: usize,
    report: Report,
    now: u64,
    j: int,
)
    requires
        i < trips.len(),
        0 <= j < trips.len(),
    ensures
        ({
            let before = trips[i as int];
            let after = probed(trips, i, report, now)[i as int];
            &&& probed(trips, i, report, now).len() == trips.len()
            &&& j != i ==> probed(trips, i, report, now)[j] == trips[j]
            &&& after.threshold == before.threshold
            &&& after.cooldown_ms == before.cooldown_ms
            &&& before.threshold == 0 ==> after == before
            &&& report is Nothing ==> after == before
            &&& before.threshold > 0 && report is Success ==> after.failures == 0
                && after.open_until_ms == 0
            &&& before.threshold > 0 && report is Trip ==> {
                &&& after.failures >= before.threshold
                &&& after.failures >= before.failures
                &&& now + before.cooldown_ms <= u64::MAX ==> after.open_until_ms == now
                    + before.cooldown_ms
                &&& now + before.cooldown_ms > u64::MAX ==> after.open_until_ms == u64::MAX
            }
        }),
{
}

/// A request that fails takes its own backend out of rotation and no other: where
/// the failure brings the count to the threshold, no pick within the cooldown
/// takes that backend, and a backend whose breaker was below its threshold still
/// makes every pick succeed.
pub proof fn failing_backend_leaves_the_rotation(
    trips: Seq<Trip>,
    i: usize,
    now: u64,
    nows: Seq<u64>,
    start: usize,
    other: int,
)
    requires
        nows.len() == trips.len(),
        start + trips.len() <= usize::MAX,
        i < trips.len(),
        0 <= other < trips.len(),
        other != i,
        trips[i as int].threshold > 0,
        trips[i as int].failures + 1 >= trips[i as int].threshold,
        nows[i as int] < now + trips[i as int].cooldown_ms,
        nows[i as int] < u64::MAX,
        trips[other].failures < trips[other].threshold,
    ensures
        first_allowed(observed(trips, Some(i), false, now), nows, start, 0) matches Some(k) && k
            != i,
{
    let after = observed(trips, Some(i), false, now);
    pick_takes_the_first_in_service(after, nows, start);
    assert(after[other] == trips[other]);
}

/// The state of a whole pool, by what its breakers count: closed exactly where each
/// is disabled or below its threshold; open exactly where there are backends and
/// each has reached its threshold and has its deadline ahead; half-open otherwise.
pub proof fn pool_state_sums_up_the_breakers(trips: Seq<Trip>, nows: Seq<u64>)
    requires
        nows.len() == trips.len(),
    ensures
        aggregate(trips, nows) == BreakerState::Closed <==> (forall|i: int|
            #![trigger trips[i]]
            0 <= i < trips.len() ==> trips[i].threshold == 0 || trips[i].failures
                < trips[i].threshold),
        aggregate(trips, nows) == BreakerState::Open <==> (trips.len() > 0 && forall|i: int|
            #![trigger trips[i]]
            0 <= i < trips.len() ==> trips[i].threshold > 0 && trips[i].failures
                >= trips[i].threshold && nows[i] < trips[i].open_until_ms),
{
    if trips.len() > 0 {
        let first = trips[0];
        assert(first == trips[0]);
    }
    if forall|i: int|
        #![trigger trips[i]]
        0 <= i < trips.len() ==> trips[i].threshold == 0 || trips[i].failures
            < trips[i].threshold {
        assert forall|i: int| 0 <= i < trips.len() implies (#[trigger] trips[i]).state_at(nows[i])
            == BreakerState::Closed by {}
    }
    if aggregate(trips, nows) == BreakerState::Closed {
        assert forall|i: int| #![trigger trips[i]] 0 <= i < trips.len() implies trips[i].threshold
            == 0 || trips[i].failures < trips[i].threshold by {
            assert(trips[i].state_at(nows[i]) == BreakerState::Closed);
        }
    }
    if aggregate(trips, nows) == BreakerState::Open {
        assert forall|i: int| #![trigger trips[i]] 0 <= i < trips.len() implies trips[i].threshold
            > 0 && trips[i].failures >= trips[i].threshold && nows[i] < trips[i].open_until_ms by {
            assert(trips[i].state_at(nows[i]) == BreakerState::Open);
        }
    }
    if trips.len() > 0 && forall|i: int|
        #![trigger trips[i]]
        0 <= i < trips.len() ==> trips[i].threshold > 0 && trips[i].failures >= trips[i].threshold
            && nows[i] < trips[i].open_until_ms {
        assert(trips[0].state_at(nows[0]) == BreakerState::Open);
        assert forall|i: int| 0 <= i < trips.len() implies (#[trigger] trips[i]).state_at(nows[i])
            == BreakerState::Open by {}
    }
}

/// Consecutive picks take turns: where every breaker lets requests pass, the pick
/// behind one that took the backend `i` takes the one behind it, and the first one
/// after the last.
pub proof fn consecutive_picks_take_turns(
    trips: Seq<Trip>,
    nows: Seq<u64>,
    later: Seq<u64>,
    turn: usize,
)
    requires
        trips.len() > 0,
        nows.len() == trips.len(),
        later.len() == trips.len(),
        turn < usize::MAX,
        forall|i: int|
            0 <= i < trips.len() ==> (#[trigger] trips[i]).decision_at(nows[i]) == Decision::Allow
                && trips[i].decision_at(later[i]) == Decision::Allow,
    ensures
        next_turn(turn) == turn + 1,
        next_turn(usize::MAX) == 0,
        match (
            first_allowed(trips, nows, turn, 0),
            first_allowed(trips, later, next_turn(turn), 0),
        ) {
            (Some(i), Some(j)) => i == (turn as int) % (trips.len() as int) && j == if i + 1
                < trips.len() {
                i + 1
            } else {
                0
            },
            _ => false,
        },
{
    let n = trips.len() as int;
    picks_go_round(trips, nows, turn, 0);
    picks_go_round(trips, later, turn, 1);
    let i = turn as int % n;
    let q = turn as int / n;
    vstd::arithmetic::div_mod::lemma_fundamental_div_mod(turn as int, n);
    if i + 1 < n {
        assert(n * q == q * n) by (nonlinear_arith);
        vstd::arithmetic::div_mod::lemma_fundamental_div_mod_converse(turn + 1, n, q, i + 1);
    } else {
        assert((q + 1) * n == n * q + n) by (nonlinear_arith);
        vstd::arithmetic::div_mod::lemma_fundamental_div_mod_converse(turn + 1, n, q + 1, 0);
    }
}

} // verus!

//! Egress: where a request is sent, how often, and what its outcome means.
use vstd::prelude::*;
use vstd::rwlock::RwLockPredicate;

use std::sync::Arc;

use crate::lock::Shared;
use crate::proto::head::Request;
use crate::share::share;
use crate::time::Duration;

pub mod auth;
pub mod breaker;
pub mod forward;
pub mod health;
pub mod pool;
pub mod retry;
pub mod timed;
pub mod tls;

use breaker::{BreakerConfig, BreakerState, Trip};
use forward::{Attempts, ForwardError, Reply, Step, Target};
use health::{Report, Streak};
use pool::Pool;
use retry::RetryPolicy;
use tls::{ClientTls, TlsLoadError, UpstreamTlsFiles};

verus! {

/// How long a request may take where nothing else is said, in seconds.
pub const DEFAULT_REQUEST_TIMEOUT: u64 = 60;

/// How long a request may take where nothing else is said.
pub fn default_request_timeout() -> (r: Duration)
    ensures
        r@ == 60_000_000_000,
{
    Duration::from_secs(DEFAULT_REQUEST_TIMEOUT)
}

/// What stays the same of a pool that is shared: its addresses, and the
/// settings of every breaker.
pub struct PoolPred {
    /// The backend addresses.
    pub addrs: Seq<String>,
    /// The threshold of every breaker.
    pub threshold: u32,
    /// How long every breaker stays open, in milliseconds.
    pub cooldown_ms: u64,
}

impl PoolPred {
    /// Whether `t` has the settings of every breaker.
    pub open spec fn settings(self, t: Trip) -> bool {
        t.threshold == self.threshold && t.cooldown_ms == self.cooldown_ms
    }
}

impl RwLockPredicate<Pool> for PoolPred {
    open spec fn inv(self, v: Pool) -> bool {
        &&& v.wf()
        &&& v.addr_list() == self.addrs
        &&& v.trips().len() == self.addrs.len()
        &&& forall|i: int|
            0 <= i < v.trips().len() ==> self.settings(#[trigger] v.trips()[i])
    }
}

/// A pool that several owners pick from.
pub type SharedPool = Shared<Pool, PoolPred>;

/// Whether one holder of `pool` found `before` and left `after`, which has the same
/// backends.
pub open spec fn visited(pool: SharedPool, before: Pool, after: Pool) -> bool {
    &&& pool.left(before, after)
    &&& pool.pred().inv(before)
    &&& before.clocks().len() == before.trips().len()
    &&& after.same_backends(before)
}

/// The turn after one that found the pool `before`.
pub open spec fn turn_after(before: Pool) -> usize {
    if before.addr_list().len() == 0 {
        before.turn()
    } else {
        pool::next_turn(before.turn())
    }
}

/// Whether a holder of `pool` picked `r`: with the turn and the breakers that it
/// found, at the times that their clocks read. The turn moves on, and the
/// breakers stay.
pub open spec fn picked_from(pool: SharedPool, r: Option<(String, usize)>) -> bool {
    exists|before: Pool, after: Pool, nows: Seq<u64>|
        #![trigger visited(pool, before, after), before.reads(nows)]
        {
            &&& visited(pool, before, after)
            &&& before.reads(nows)
            &&& after.trips() == before.trips()
            &&& after.turn() == turn_after(before)
            &&& r == pool::picked(
                pool.pred().addrs,
                pool::first_allowed(before.trips(), nows, before.turn(), 0),
            )
        }
}

/// Whether a holder of `pool` aimed a request with `path_and_query` at `r`: with
/// the turn and the breakers that it found, at the times that their clocks read.
/// The turn moves on, and the breakers stay.
pub open spec fn aimed_from(
    pool: SharedPool,
    path_and_query: Option<&str>,
    r: Result<Option<Target>, ForwardError>,
) -> bool {
    exists|before: Pool, after: Pool, nows: Seq<u64>|
        #![trigger visited(pool, before, after), before.reads(nows)]
        {
            &&& visited(pool, before, after)
            &&& before.reads(nows)
            &&& after.trips() == before.trips()
            &&& after.turn() == turn_after(before)
            &&& pool::aims(
                pool.pred().addrs,
                pool::first_allowed(before.trips(), nows, before.turn(), 0),
                path_and_query,
                r,
            )
        }
}

/// Whether a holder of `pool` took `step` with a request to the backend at `idx`:
/// the breakers that it left are those that it found, but for what the step
/// means for that backend at the time that its clock reads.
pub open spec fn settled_in(pool: SharedPool, idx: Option<usize>, step: Step) -> bool {
    exists|before: Pool, after: Pool, now: u64|
        #![trigger visited(pool, before, after), before.reads_at(idx, now)]
        {
            &&& visited(pool, before, after)
            &&& before.reads_at(idx, now)
            &&& after.turn() == before.turn()
            &&& after.trips() == pool::settled(before.trips(), idx, step, now)
        }
}

/// Whether a holder of `pool` recorded the outcome of a request to the backend at
/// `idx`, at the time that its clock reads, and nothing else.
pub open spec fn observed_in(pool: SharedPool, idx: Option<usize>, success: bool) -> bool {
    exists|before: Pool, after: Pool, now: u64|
        #![trigger visited(pool, before, after), before.reads_at(idx, now)]
        {
            &&& visited(pool, before, after)
            &&& before.reads_at(idx, now)
            &&& after.turn() == before.turn()
            &&& after.trips() == pool::observed(before.trips(), idx, success, now)
        }
}

/// Whether a holder of `pool` brought `report` to the backend at `idx`, at the time
/// that its clock reads, and nothing else.
pub open spec fn probed_in(pool: SharedPool, idx: usize, report: Report) -> bool {
    exists|before: Pool, after: Pool, now: u64|
        #![trigger visited(pool, before, after), before.reads_at(Some(idx), now)]
        {
            &&& visited(pool, before, after)
            &&& before.reads_at(Some(idx), now)
            &&& after.turn() == before.turn()
            &&& after.trips() == pool::probed(before.trips(), idx, report, now)
        }
}

/// Whether `state` is the state of the whole pool that a holder of `pool` found, at
/// the times that the breakers' clocks read.
pub open spec fn state_of(pool: SharedPool, state: BreakerState) -> bool {
    exists|v: Pool, nows: Seq<u64>|
        #![trigger pool.found(v), v.reads(nows)]
        {
            &&& pool.found(v)
            &&& pool.pred().inv(v)
            &&& v.reads(nows)
            &&& nows.len() == v.trips().len()
            &&& state == pool::aggregate(v.trips(), nows)
        }
}

/// Picks the next backend of a shared pool.
fn pick_shared(pool: &SharedPool) -> (r: Option<(String, usize)>)
    ensures
        picked_from(*pool, r),
        match r {
            Some((a, i)) => i < pool.pred().addrs.len() && a == pool.pred().addrs[i as int],
            None => pool.pred().addrs.len() == 0 || pool.pred().threshold > 0,
        },
{
    let (mut p, entry) = pool.enter();
    let ghost before = p;
    let n: usize = p.len();
    let r = p.pick_addr();
    let ghost nows: Seq<u64>;
    proof {
        assert(n == before.trips().len());
        nows = choose|nows: Seq<u64>|
            nows.len() == before.addr_list().len() && before.reads(nows) && r == pool::picked(
                before.addr_list(),
                #[trigger] pool::first_allowed(before.trips(), nows, before.turn(), 0),
            );
        pool::choice_is_allowed(before.trips(), nows, before.turn(), 0);
        if before.trips().len() > 0 {
            let i = pool::slot(before.turn(), 0, before.trips().len() as int);
            assert(pool.pred().settings(before.trips()[i]));
        }
    }
    let ghost after = p;
    entry.leave(p);
    assert(visited(*pool, before, after) && before.reads(nows));
    r
}

/// An upstream: its retry policy and its backends. Clones share the backends,
/// so that every owner takes part in one round-robin and sees the same
/// breakers.
pub struct Upstream {
    retry: RetryPolicy,
    addrs: Arc<Vec<String>>,
    pool: SharedPool,
    connect_timeout: Option<Duration>,
    tls: Option<Arc<ClientTls>>,
}

impl Upstream {
    #[verifier::type_invariant]
    spec fn inv(self) -> bool {
        self.pool.pred().addrs == self.addrs@
    }

    /// The retry policy.
    pub closed spec fn retry_policy(self) -> RetryPolicy {
        self.retry
    }

    /// The backend addresses.
    pub closed spec fn addr_list(self) -> Seq<String> {
        self.addrs@
    }

    /// The shared backends.
    pub closed spec fn shared(self) -> SharedPool {
        self.pool
    }

    /// The timeout for connecting to one backend.
    pub closed spec fn timeout(self) -> Option<Duration> {
        self.connect_timeout
    }

    /// What connections need for TLS; `None` for the bundled roots.
    pub closed spec fn material(self) -> Option<Arc<ClientTls>> {
        self.tls
    }

    /// The threshold of every breaker.
    pub open spec fn threshold(self) -> u32 {
        self.shared().pred().threshold
    }

    /// Whether the breakers are made as `breaker` says.
    pub open spec fn breaks_like(self, breaker: BreakerConfig) -> bool {
        &&& self.shared().pred().settings(Trip::fresh(breaker))
        &&& self.begins_closed(Trip::fresh(breaker).threshold, Trip::fresh(breaker).cooldown_ms)
    }

    /// Whether the backends were put in service with the first one next, and with
    /// breakers of these settings that had seen no failure.
    pub open spec fn begins_closed(self, threshold: u32, cooldown_ms: u64) -> bool {
        exists|p: Pool| #[trigger]
            self.shared().began(p) && {
                &&& p.wf()
                &&& p.addr_list() == self.addr_list()
                &&& p.turn() == 0
                &&& p.trips().len() == self.addr_list().len()
                &&& forall|i: int|
                    0 <= i < p.trips().len() ==> #[trigger] p.trips()[i] == (Trip {
                        threshold,
                        cooldown_ms,
                        failures: 0,
                        open_until_ms: 0,
                    })
            }
    }

    /// Whether the breakers trip at five failures and stay open for thirty
    /// seconds.
    pub open spec fn has_default_breakers(self) -> bool {
        &&& self.threshold() == 5
        &&& self.shared().pred().cooldown_ms == 30_000
        &&& self.begins_closed(5, 30_000)
    }

    /// An upstream without backends. A request to it keeps its own URI.
    pub fn new(retry: RetryPolicy) -> (r: Upstream)
        ensures
            r.retry_policy() == retry,
            r.addr_list().len() == 0,
            r.has_default_breakers(),
            r.timeout() is None,
            r.material() is None,
    {
        Upstream::with_addrs(retry, Vec::new())
    }

    /// An upstream with these backends and default breakers.
    pub fn with_addrs(retry: RetryPolicy, addrs: Vec<String>) -> (r: Upstream)
        ensures
            r.retry_policy() == retry,
            r.addr_list() == addrs@,
            r.has_default_breakers(),
            r.timeout() is None,
            r.material() is None,
    {
        Upstream::with_breaker(retry, addrs, BreakerConfig::default())
    }

    /// An upstream whose breakers are made as `breaker` says. A threshold of 0
    /// disables them.
    pub fn with_breaker(retry: RetryPolicy, addrs: Vec<String>, breaker: BreakerConfig) -> (r:
        Upstream)
        ensures
            r.retry_policy() == retry,
            r.addr_list() == addrs@,
            r.breaks_like(breaker),
            r.timeout() is None,
            r.material() is None,
    {
        Upstream::with_options(retry, addrs, breaker, None)
    }

    /// An upstream with a timeout for connecting to one backend.
    pub fn with_options(
        retry: RetryPolicy,
        addrs: Vec<String>,
        breaker: BreakerConfig,
        connect_timeout: Option<Duration>,
    ) -> (r: Upstream)
        ensures
            r.retry_policy() == retry,
            r.addr_list() == addrs@,
            r.breaks_like(breaker),
            r.timeout() == connect_timeout,
            r.material() is None,
    {
        Upstream::assemble(retry, addrs, breaker, connect_timeout, None)
    }

    /// An upstream whose connections use TLS as the files in `tls` say; `None`
    /// for the bundled roots. A fault of the files is the only error.
    pub fn with_tls(
        retry: RetryPolicy,
        addrs: Vec<String>,
        breaker: BreakerConfig,
        connect_timeout: Option<Duration>,
        tls: Option<&UpstreamTlsFiles>,
    ) -> (r: Result<Upstream, TlsLoadError>)
        ensures
            match r {
                Ok(u) => {
                    &&& u.retry_policy() == retry
                    &&& u.addr_list() == addrs@
                    &&& u.breaks_like(breaker)
                    &&& u.timeout() == connect_timeout
                    &&& match tls {
                        None => u.material() is None,
                        Some(f) => u.material() is Some && exists|d: tls::DecodedTls| #[trigger]
                            tls::decodes(*f, d) && tls::material_result(d) == Ok::<
                                _,
                                tls::LoadFault,
                            >(u.material()->0@),
                    }
                },
                Err(e) => tls matches Some(f) && exists|d: tls::DecodedTls| #[trigger]
                    tls::decodes(*f, d) && match tls::material_result(d) {
                        Err(t) => e@ == t,
                        Ok(m) => e is Rustls && m.client_auth is Some,
                    },
            },
            tls matches Some(f) ==> tls::builds(
                *f,
                match r {
                    Ok(u) => Ok(u.material()->0@),
                    Err(e) => Err(e@),
                },
            ),
    {
        match tls {
            None => Ok(Upstream::assemble(retry, addrs, breaker, connect_timeout, None)),
            Some(f) => match tls::build_client_config(f) {
                Ok(c) => Ok(
                    Upstream::assemble(retry, addrs, breaker, connect_timeout, Some(Arc::new(c))),
                ),
                Err(e) => Err(e),
            },
        }
    }

    fn assemble(
        retry: RetryPolicy,
        addrs: Vec<String>,
        breaker: BreakerConfig,
        connect_timeout: Option<Duration>,
        tls: Option<Arc<ClientTls>>,
    ) -> (r: Upstream)
        ensures
            r.retry_policy() == retry,
            r.addr_list() == addrs@,
            r.breaks_like(breaker),
            r.timeout() == connect_timeout,
            r.material() == tls,
    {
        let copy = copy_names(&addrs);
        let pool = Pool::new(copy, breaker);
        let pred: Ghost<PoolPred> = Ghost(
            PoolPred {
                addrs: addrs@,
                threshold: breaker.threshold,
                cooldown_ms: Trip::fresh(breaker).cooldown_ms,
            },
        );
        let ghost first = pool;
        let pool = SharedPool::new(pool, pred);
        assert(pool.began(first));
        Upstream { retry, addrs: Arc::new(addrs), pool, connect_timeout, tls }
    }

    /// Picks the next backend whose breaker lets a request pass: its address
    /// and its position. `None` where there is no backend, or where every
    /// breaker rejects the request.
    pub fn pick_addr(&self) -> (r: Option<(String, usize)>)
        ensures
            self.shared().pred().addrs == self.addr_list(),
            picked_from(self.shared(), r),
            match r {
                Some((a, i)) => i < self.addr_list().len() && a == self.addr_list()[i as int],
                None => self.addr_list().len() == 0 || self.threshold() > 0,
            },
    {
        proof {
            use_type_invariant(self);
        }
        pick_shared(&self.pool)
    }

    /// The backend addresses.
    pub fn addrs(&self) -> (r: &Vec<String>)
        ensures
            r@ == self.addr_list(),
    {
        &self.addrs
    }

    /// The backend addresses, as one more owner of them.
    pub fn addrs_arc(&self) -> (r: Arc<Vec<String>>)
        ensures
            r@ == self.addr_list(),
    {
        share(&self.addrs)
    }

    /// The backends with their breakers, as one more owner of them.
    pub fn breakers_arc(&self) -> (r: SharedPool)
        ensures
            r == self.shared(),
            r.pred().addrs == self.addr_list(),
    {
        proof {
            use_type_invariant(self);
        }
        self.pool.share()
    }

    /// The retry policy.
    pub fn retry(&self) -> (r: &RetryPolicy)
        ensures
            *r == self.retry_policy(),
    {
        &self.retry
    }

    /// The timeout for connecting to one backend.
    pub fn connect_timeout(&self) -> (r: Option<Duration>)
        ensures
            r == self.timeout(),
    {
        self.connect_timeout
    }

    /// What connections need for TLS; `None` for the bundled roots.
    pub fn client_tls(&self) -> (r: Option<&ClientTls>)
        ensures
            match r {
                Some(c) => self.material() == Some(Arc::new(*c)),
                None => self.material() is None,
            },
    {
        match &self.tls {
            Some(c) => Some(c),
            None => None,
        }
    }

    /// The state of the whole upstream. One without backends, or with disabled
    /// breakers, is closed.
    pub fn breaker_state(&self) -> (r: BreakerState)
        ensures
            self.addr_list().len() == 0 || self.threshold() == 0 ==> r == BreakerState::Closed,
            state_of(self.shared(), r),
    {
        proof {
            use_type_invariant(self);
        }
        let look = self.pool.look();
        let p = look.value();
        let r = p.breaker_state();
        proof {
            let pool = *p;
            let nows = choose|nows: Seq<u64>|
                nows.len() == pool.addr_list().len() && pool.reads(nows) && r
                    == #[trigger] pool::aggregate(
                    pool.trips(),
                    nows,
                );
            if self.addr_list().len() == 0 || self.threshold() == 0 {
                assert forall|i: int| 0 <= i < pool.trips().len() implies (
                #[trigger] pool.trips()[i]).state_at(nows[i]) == BreakerState::Closed by {
                    assert(self.pool.pred().settings(pool.trips()[i]));
                }
            }
            assert(self.pool.found(pool) && pool.reads(nows));
        }
        look.end();
        r
    }

    /// Where a request with `path_and_query` goes: to the backend that is next,
    /// or, without backends, where its own URI says. Fails where every backend
    /// is barred, and where the address and the path make no URI.
    pub fn aim(&self, path_and_query: Option<&str>) -> (r: Result<Option<Target>, ForwardError>)
        ensures
            self.shared().pred().addrs == self.addr_list(),
            aimed_from(self.shared(), path_and_query, r),
            match r {
                Ok(None) => self.addr_list().len() == 0,
                Ok(Some(t)) => t.backend < self.addr_list().len() && t.uri@ == forward::egress_uri(
                    self.addr_list()[t.backend as int]@,
                    path_and_query,
                ) && forward::uri_error(t.uri@) is None,
                Err(ForwardError::BreakerOpen) => self.addr_list().len() > 0 && self.threshold()
                    > 0,
                Err(ForwardError::Body(e)) => exists|i: int|
                    0 <= i < self.addr_list().len() && forward::uri_error(
                        #[trigger] forward::egress_uri(self.addr_list()[i]@, path_and_query),
                    ) == Some(e@),
                Err(_) => false,
            },
    {
        proof {
            use_type_invariant(self);
        }
        let (mut p, entry) = self.pool.enter();
        let ghost before = p;
        let n: usize = p.len();
        let r = p.aim(path_and_query);
        let ghost nows: Seq<u64>;
        proof {
            assert(n == before.trips().len());
            nows = choose|nows: Seq<u64>|
                nows.len() == before.addr_list().len() && before.reads(nows) && pool::aims(
                    before.addr_list(),
                    #[trigger] pool::first_allowed(before.trips(), nows, before.turn(), 0),
                    path_and_query,
                    r,
                );
            let choice = pool::first_allowed(before.trips(), nows, before.turn(), 0);
            pool::choice_is_allowed(before.trips(), nows, before.turn(), 0);
            if choice is Some {
                let i = choice->0;
                assert(forward::egress_uri(self.addr_list()[i]@, path_and_query)
                    == forward::egress_uri(before.addr_list()[i]@, path_and_query));
            } else if before.trips().len() > 0 {
                let i = pool::slot(before.turn(), 0, before.trips().len() as int);
                assert(self.pool.pred().settings(before.trips()[i]));
            }
        }
        let ghost after = p;
        entry.leave(p);
        assert(visited(self.pool, before, after) && before.reads(nows));
        r
    }

    /// Records the outcome of a request to the backend at `idx`, as
    /// [`Pool::observe_breaker_outcome`] does. One that went to no known backend
    /// is ignored.
    pub fn observe_breaker_outcome(&self, idx: Option<usize>, success: bool)
        ensures
            observed_in(self.shared(), idx, success),
    {
        record(&self.pool, idx, success);
    }
}

/// Records the outcome of a request to the backend at `idx` of a shared pool, as
/// [`Pool::observe_breaker_outcome`] does.
pub fn record(pool: &SharedPool, idx: Option<usize>, success: bool)
    ensures
        observed_in(*pool, idx, success),
{
    let (mut p, entry) = pool.enter();
    let ghost before = p;
    let n: usize = p.len();
    p.observe_breaker_outcome(idx, success);
    let ghost now: u64;
    proof {
        assert(n == before.trips().len());
        now = choose|now: u64|
            before.reads_at(idx, now) && p.trips() == #[trigger] pool::observed(
                before.trips(),
                idx,
                success,
                now,
            );
        assert(p.trips() == pool::observed(before.trips(), idx, success, now));
        assert forall|i: int| 0 <= i < p.trips().len() implies pool.pred().settings(
            #[trigger] p.trips()[i],
        ) by {
            assert(pool.pred().settings(before.trips()[i]));
        }
    }
    let ghost after = p;
    entry.leave(p);
    assert(visited(*pool, before, after) && before.reads_at(idx, now));
}

/// Takes the answer to the attempt under way of a request to the backend at
/// `idx` of a shared pool, as [`Pool::on_reply`] does.
fn reply_shared(
    pool: &SharedPool,
    attempts: &mut Attempts,
    idx: Option<usize>,
    reply: Reply,
) -> (r: Step)
    ensures
        r == forward::step(old(attempts).policy(), old(attempts).attempt(), reply),
        final(attempts).policy() == old(attempts).policy(),
        final(attempts).attempt() == if r == Step::Again {
            old(attempts).attempt() + 1
        } else {
            old(attempts).attempt()
        },
        settled_in(*pool, idx, r),
{
    let (mut p, entry) = pool.enter();
    let ghost before = p;
    let n: usize = p.len();
    let r = p.on_reply(attempts, idx, reply);
    let ghost now: u64;
    proof {
        assert(n == before.trips().len());
        now = choose|now: u64|
            before.reads_at(idx, now) && p.trips() == #[trigger] pool::settled(
                before.trips(),
                idx,
                r,
                now,
            );
        assert forall|i: int| 0 <= i < p.trips().len() implies pool.pred().settings(
            #[trigger] p.trips()[i],
        ) by {
            assert(pool.pred().settings(before.trips()[i]));
        }
    }
    let ghost after = p;
    entry.leave(p);
    assert(visited(*pool, before, after) && before.reads_at(idx, now));
    r
}

/// Takes the result of a probe of the backend at `idx` of a shared pool, as
/// [`Pool::observe_probe`] does.
pub(crate) fn probe_shared(
    pool: &SharedPool,
    idx: usize,
    streak: &mut Streak,
    healthy: bool,
    unhealthy_threshold: u32,
    healthy_threshold: u32,
) -> (r: Report)
    ensures
        *final(streak) == old(streak).next(healthy),
        r == final(streak).report(healthy, unhealthy_threshold, healthy_threshold),
        probed_in(*pool, idx, r),
{
    let (mut p, entry) = pool.enter();
    let ghost before = p;
    let n: usize = p.len();
    let r = p.observe_probe(idx, streak, healthy, unhealthy_threshold, healthy_threshold);
    let ghost now: u64;
    proof {
        assert(n == before.trips().len());
        now = choose|now: u64|
            before.reads_at(Some(idx), now) && p.trips() == #[trigger] pool::probed(
                before.trips(),
                idx,
                r,
                now,
            );
        assert forall|i: int| 0 <= i < p.trips().len() implies pool.pred().settings(
            #[trigger] p.trips()[i],
        ) by {
            assert(pool.pred().settings(before.trips()[i]));
        }
    }
    let ghost after = p;
    entry.leave(p);
    assert(visited(*pool, before, after) && before.reads_at(Some(idx), now));
    r
}

impl Clone for Upstream {
    fn clone(&self) -> (r: Upstream)
        ensures
            r.shared() == self.shared(),
            r.addr_list() == self.addr_list(),
            r.timeout() == self.timeout(),
            r.material() == self.material(),
            r.retry_policy().attempts == self.retry_policy().attempts,
            r.retry_policy().on_status@ == self.retry_policy().on_status@,
            r.retry_policy().on_connect_error == self.retry_policy().on_connect_error,
    {
        proof {
            use_type_invariant(self);
        }
        Upstream {
            retry: self.retry.copy(),
            addrs: share(&self.addrs),
            pool: self.pool.share(),
            connect_timeout: self.connect_timeout,
            tls: match &self.tls {
                Some(t) => Some(share(t)),
                None => None,
            },
        }
    }
}

/// One request on its way to an upstream.
pub struct Forwarding {
    upstream: Upstream,
    attempts: Attempts,
    target: Option<Target>,
}

impl Forwarding {
    /// Where the request goes; `None` where its own URI says.
    pub closed spec fn aimed_at(self) -> Option<Target> {
        self.target
    }

    /// The position of the backend that the request goes to; `None` where its
    /// own URI says.
    pub open spec fn goes_to(self) -> Option<usize> {
        match self.aimed_at() {
            Some(t) => Some(t.backend),
            None => None,
        }
    }

    /// The backends whose breakers learn how the request ends.
    pub closed spec fn shared(self) -> SharedPool {
        self.upstream.pool
    }

    /// The attempts at the request.
    pub closed spec fn progress(self) -> Attempts {
        self.attempts
    }

    /// Sets out with a request for `path_and_query` under the rules `policy`.
    pub fn start(upstream: &Upstream, policy: RetryPolicy, path_and_query: Option<&str>) -> (r:
        Result<Forwarding, ForwardError>)
        ensures
            upstream.shared().pred().addrs == upstream.addr_list(),
            aimed_from(
                upstream.shared(),
                path_and_query,
                match r {
                    Ok(f) => Ok(f.aimed_at()),
                    Err(e) => Err(e),
                },
            ),
            match r {
                Ok(f) => {
                    &&& f.shared() == upstream.shared()
                    &&& f.progress().policy() == policy
                    &&& f.progress().attempt() == 0
                    &&& match f.aimed_at() {
                        None => upstream.addr_list().len() == 0,
                        Some(t) => t.backend < upstream.addr_list().len() && t.uri@
                            == forward::egress_uri(
                            upstream.addr_list()[t.backend as int]@,
                            path_and_query,
                        ) && forward::uri_error(t.uri@) is None,
                    }
                },
                Err(ForwardError::BreakerOpen) => upstream.addr_list().len() > 0
                    && upstream.threshold() > 0,
                Err(ForwardError::Body(e)) => exists|i: int|
                    0 <= i < upstream.addr_list().len() && forward::uri_error(
                        #[trigger] forward::egress_uri(upstream.addr_list()[i]@, path_and_query),
                    ) == Some(e@),
                Err(_) => false,
            },
    {
        match upstream.aim(path_and_query) {
            Ok(target) => Ok(
                Forwarding {
                    upstream: upstream.clone(),
                    attempts: Attempts::start(policy),
                    target,
                },
            ),
            Err(e) => Err(e),
        }
    }

    /// Where the request goes; `None` where its own URI says.
    pub fn target(&self) -> (r: Option<&Target>)
        ensures
            match r {
                Some(t) => self.aimed_at() == Some(*t),
                None => self.aimed_at() is None,
            },
    {
        match &self.target {
            Some(t) => Some(t),
            None => None,
        }
    }

    /// The position of the backend that the request goes to; `None` where its
    /// own URI says.
    pub fn backend(&self) -> (r: Option<usize>)
        ensures
            r == (match self.aimed_at() {
                Some(t) => Some(t.backend),
                None => None,
            }),
            r == self.goes_to(),
    {
        match &self.target {
            Some(t) => Some(t.backend),
            None => None,
        }
    }

    /// Takes the request along, as it is sent: see [`forward::is_egress`].
    pub fn carry(self, req: Request) -> (r: Sending)
        ensures
            forward::is_egress(r.request_sent(), req, self.aimed_at()),
            r.forwarding() == self,
    {
        let head = forward::for_egress(req.head, self.target());
        Sending { forwarding: self, request: Request { head, body: req.body } }
    }

    /// Takes the answer to the attempt under way and says what follows. Where
    /// the request ends, the breaker of [`Forwarding::backend`] learns how.
    pub fn on_reply(&mut self, reply: Reply) -> (r: Step)
        ensures
            r == forward::step(
                old(self).progress().policy(),
                old(self).progress().attempt(),
                reply,
            ),
            final(self).progress().policy() == old(self).progress().policy(),
            final(self).progress().attempt() == if r == Step::Again {
                old(self).progress().attempt() + 1
            } else {
                old(self).progress().attempt()
            },
            final(self).aimed_at() == old(self).aimed_at(),
            final(self).shared() == old(self).shared(),
            settled_in(old(self).shared(), old(self).goes_to(), r),
    {
        let backend = self.backend();
        reply_shared(&self.upstream.pool, &mut self.attempts, backend, reply)
    }
}

/// A request on its way to an upstream, ready to be sent as often as it takes.
pub struct Sending {
    forwarding: Forwarding,
    request: Request,
}

impl Sending {
    /// What is sent, at every attempt.
    pub closed spec fn request_sent(self) -> Request {
        self.request
    }

    /// Where the request goes, and the attempts at it.
    pub closed spec fn forwarding(self) -> Forwarding {
        self.forwarding
    }

    /// What is sent at the attempt under way.
    pub fn request(&self) -> (r: &Request)
        ensures
            *r == self.request_sent(),
    {
        &self.request
    }

    /// Where the request goes; `None` where its own URI says.
    pub fn target(&self) -> (r: Option<&Target>)
        ensures
            match r {
                Some(t) => self.forwarding().aimed_at() == Some(*t),
                None => self.forwarding().aimed_at() is None,
            },
    {
        self.forwarding.target()
    }

    /// Takes the answer to the attempt under way and says what follows, as
    /// [`Forwarding::on_reply`] does. Where the request is sent again, it is the
    /// same request, to the same place.
    pub fn on_reply(&mut self, reply: Reply) -> (r: Step)
        ensures
            r == forward::step(
                old(self).forwarding().progress().policy(),
                old(self).forwarding().progress().attempt(),
                reply,
            ),
            final(self).forwarding().progress().policy()
                == old(self).forwarding().progress().policy(),
            final(self).forwarding().progress().attempt() == if r == Step::Again {
                old(self).forwarding().progress().attempt() + 1
            } else {
                old(self).forwarding().progress().attempt()
            },
            final(self).forwarding().aimed_at() == old(self).forwarding().aimed_at(),
            final(self).forwarding().shared() == old(self).forwarding().shared(),
            final(self).request_sent() == old(self).request_sent(),
            settled_in(old(self).forwarding().shared(), old(self).forwarding().goes_to(), r),
    {
        self.forwarding.on_reply(reply)
    }
}

/// A fresh list of the same strings.
pub(crate) fn copy_names(v: &Vec<String>) -> (r: Vec<String>)
    ensures
        r@ == v@,
{
    let mut r: Vec<String> = Vec::new();
    for i in 0..v.len()
        invariant
            r@ == v@.take(i as int),
    {
        r.push(v[i].clone());
        assert(v@.take(i + 1) =~= v@.take(i as int).push(v@[i as int]));
    }
    assert(v@.take(v@.len() as int) =~= v@);
    r
}

/// Where a request goes that was aimed with what a holder of the pool found. Without
/// backends it goes where its own URI says. With backends, going round from the
/// turn, it goes to the first whose breaker is disabled, or below its threshold,
/// or past its deadline; a backend that is passed over has reached its threshold
/// and has its deadline ahead. It is refused only where that is so of every
/// backend. The turn moves on by one, and no breaker changes.
pub proof fn aim_passes_over_backends_out_of_service(
    pool: SharedPool,
    path_and_query: Option<&str>,
    r: Result<Option<Target>, ForwardError>,
)
    requires
        aimed_from(pool, path_and_query, r),
    ensures
        exists|before: Pool, after: Pool, nows: Seq<u64>|
            #![trigger visited(pool, before, after), before.reads(nows)]
            {
                let n = pool.pred().addrs.len();
                let trips = before.trips();
                &&& visited(pool, before, after)
                &&& before.reads(nows)
                &&& nows.len() == trips.len() == n
                &&& after.trips() == trips
                &&& n > 0 && before.turn() < usize::MAX ==> after.turn() == before.turn() + 1
                &&& before.turn() + n <= usize::MAX ==> match r {
                    Ok(None) => n == 0,
                    Ok(Some(t)) => {
                        let i = t.backend as int;
                        &&& i < n
                        &&& trips[i].threshold == 0 || trips[i].failures < trips[i].threshold
                            || nows[i] >= trips[i].open_until_ms
                        &&& exists|k: int|
                            0 <= k < n && i == #[trigger] pool::passed(before.turn(), k, n)
                                && forall|j: int|
                                0 <= j < k ==> {
                                    let b = #[trigger] pool::passed(before.turn(), j, n);
                                    trips[b].threshold > 0 && trips[b].failures
                                        >= trips[b].threshold && nows[b] < trips[b].open_until_ms
                                }
                        &&& t.uri@ == "http://"@ + pool.pred().addrs[i]@ + match path_and_query {
                            Some(p) => p@,
                            None => "/"@,
                        }
                    },
                    Err(ForwardError::BreakerOpen) => n > 0 && forall|i: int|
                        #![trigger trips[i]]
                        0 <= i < n ==> trips[i].threshold > 0 && trips[i].failures
                            >= trips[i].threshold && nows[i] < trips[i].open_until_ms,
                    Err(ForwardError::Body(e)) => exists|i: int|
                        #![trigger pool.pred().addrs[i]]
                        0 <= i < n && (trips[i].threshold == 0 || trips[i].failures
                            < trips[i].threshold || nows[i] >= trips[i].open_until_ms)
                            && forward::uri_error(
                            "http://"@ + pool.pred().addrs[i]@ + match path_and_query {
                                Some(p) => p@,
                                None => "/"@,
                            },
                        ) == Some(e@),
                    Err(_) => false,
                }
            },
{
    let (before, after, nows) = choose|before: Pool, after: Pool, nows: Seq<u64>|
        #![trigger visited(pool, before, after), before.reads(nows)]
        {
            &&& visited(pool, before, after)
            &&& before.reads(nows)
            &&& after.trips() == before.trips()
            &&& after.turn() == turn_after(before)
            &&& pool::aims(
                pool.pred().addrs,
                pool::first_allowed(before.trips(), nows, before.turn(), 0),
                path_and_query,
                r,
            )
        };
    if before.turn() + pool.pred().addrs.len() <= usize::MAX {
        pool::pick_takes_the_first_in_service(before.trips(), nows, before.turn());
        if let Some(i) = pool::first_allowed(before.trips(), nows, before.turn(), 0) {
            assert(forward::egress_uri(pool.pred().addrs[i]@, path_and_query) == "http://"@
                + pool.pred().addrs[i]@ + match path_and_query {
                Some(p) => p@,
                None => "/"@,
            });
        }
    }
    assert(visited(pool, before, after) && before.reads(nows));
}

/// What a pick hands out with what a holder of the pool found: nothing where there
/// is no backend or where every one has reached its threshold and has its deadline
/// ahead; otherwise the position and the address of one of which that is not so.
pub proof fn pick_passes_over_backends_out_of_service(
    pool: SharedPool,
    r: Option<(String, usize)>,
)
    requires
        picked_from(pool, r),
    ensures
        exists|before: Pool, after: Pool, nows: Seq<u64>|
            #![trigger visited(pool, before, after), before.reads(nows)]
            {
                let n = pool.pred().addrs.len();
                let trips = before.trips();
                &&& visited(pool, before, after)
                &&& before.reads(nows)
                &&& nows.len() == trips.len() == n
                &&& after.trips() == trips
                &&& n > 0 && before.turn() < usize::MAX ==> after.turn() == before.turn() + 1
                &&& before.turn() + n <= usize::MAX ==> match r {
                    Some((a, i)) => {
                        let i = i as int;
                        &&& i < n
                        &&& a == pool.pred().addrs[i]
                        &&& trips[i].threshold == 0 || trips[i].failures < trips[i].threshold
                            || nows[i] >= trips[i].open_until_ms
                        &&& exists|k: int|
                            0 <= k < n && i == #[trigger] pool::passed(before.turn(), k, n)
                                && forall|j: int|
                                0 <= j < k ==> {
                                    let b = #[trigger] pool::passed(before.turn(), j, n);
                                    trips[b].threshold > 0 && trips[b].failures
                                        >= trips[b].threshold && nows[b] < trips[b].open_until_ms
                                }
                    },
                    None => forall|i: int|
                        #![trigger trips[i]]
                        0 <= i < n ==> trips[i].threshold > 0 && trips[i].failures
                            >= trips[i].threshold && nows[i] < trips[i].open_until_ms,
                }
            },
{
    let (before, after, nows) = choose|before: Pool, after: Pool, nows: Seq<u64>|
        #![trigger visited(pool, before, after), before.reads(nows)]
        {
            &&& visited(pool, before, after)
            &&& before.reads(nows)
            &&& after.trips() == before.trips()
            &&& after.turn() == turn_after(before)
            &&& r == pool::picked(
                pool.pred().addrs,
                pool::first_allowed(before.trips(), nows, before.turn(), 0),
            )
        };
    if before.turn() + pool.pred().addrs.len() <= usize::MAX {
        pool::pick_takes_the_first_in_service(before.trips(), nows, before.turn());
    }
    assert(visited(pool, before, after) && before.reads(nows));
}

/// What the step after a reply leaves behind in the pool. Every breaker but that of
/// the backend that the request went to is as it was found. That one is too as
/// long as the request is sent again. Otherwise a delivered success sets its count
/// to 0, and anything else counts one more failure and, from the threshold on,
/// puts its deadline one cooldown ahead of the time that its clock reads.
pub proof fn reply_reaches_the_breaker_of_its_backend(
    pool: SharedPool,
    idx: Option<usize>,
    step: Step,
)
    requires
        settled_in(pool, idx, step),
    ensures
        exists|before: Pool, after: Pool, now: u64|
            #![trigger visited(pool, before, after), before.reads_at(idx, now)]
            {
                &&& visited(pool, before, after)
                &&& before.reads_at(idx, now)
                &&& after.turn() == before.turn()
                &&& forall|j: int|
                    #![trigger after.trips()[j]]
                    0 <= j < before.trips().len() && idx != Some(j as usize) ==> after.trips()[j]
                        == before.trips()[j]
                &&& step is Again ==> after.trips() == before.trips()
                &&& idx matches Some(i) ==> i < before.trips().len() && before.trips()[i as int].threshold
                    > 0 ==> {
                    let b = before.trips()[i as int];
                    let a = after.trips()[i as int];
                    &&& step == (Step::Deliver { success: true }) ==> a.failures == 0
                        && a.open_until_ms == 0
                    &&& step == (Step::Deliver { success: false }) || step is GiveUp ==> {
                        &&& b.failures < u32::MAX ==> a.failures == b.failures + 1
                        &&& a.failures >= b.threshold && now + b.cooldown_ms <= u64::MAX
                            ==> a.open_until_ms == now + b.cooldown_ms
                        &&& a.failures < b.threshold ==> a.open_until_ms == b.open_until_ms
                    }
                }
            },
{
    let (before, after, now) = choose|before: Pool, after: Pool, now: u64|
        #![trigger visited(pool, before, after), before.reads_at(idx, now)]
        {
            &&& visited(pool, before, after)
            &&& before.reads_at(idx, now)
            &&& after.turn() == before.turn()
            &&& after.trips() == pool::settled(before.trips(), idx, step, now)
        };
    assert(visited(pool, before, after) && before.reads_at(idx, now));
}

/// What a recorded outcome leaves behind in the pool: the same, of the backend that
/// is named, whichever it is.
pub proof fn record_reaches_the_breaker_of_its_backend(
    pool: SharedPool,
    idx: Option<usize>,
    success: bool,
)
    requires
        observed_in(pool, idx, success),
    ensures
        settled_in(pool, idx, Step::Deliver { success }),
{
    let (before, after, now) = choose|before: Pool, after: Pool, now: u64|
        #![trigger visited(pool, before, after), before.reads_at(idx, now)]
        {
            &&& visited(pool, before, after)
            &&& before.reads_at(idx, now)
            &&& after.turn() == before.turn()
            &&& after.trips() == pool::observed(before.trips(), idx, success, now)
        };
    assert(visited(pool, before, after) && before.reads_at(idx, now));
}

/// What a probe leaves behind in the pool, whichever backend it was of. A breaker
/// that is to be opened has reached its threshold, and its deadline is one
/// cooldown ahead of the time that its clock reads; one that is to be closed counts
/// 0. Every other breaker is as it was found.
pub proof fn probe_reaches_the_breaker_of_its_backend(
    pool: SharedPool,
    idx: usize,
    report: Report,
)
    requires
        probed_in(pool, idx, report),
    ensures
        exists|before: Pool, after: Pool, now: u64|
            #![trigger visited(pool, before, after), before.reads_at(Some(idx), now)]
            {
                &&& visited(pool, before, after)
                &&& before.reads_at(Some(idx), now)
                &&& after.turn() == before.turn()
                &&& forall|j: int|
                    #![trigger after.trips()[j]]
                    0 <= j < before.trips().len() && j != idx ==> after.trips()[j]
                        == before.trips()[j]
                &&& report is Nothing ==> after.trips() == before.trips()
                &&& idx < before.trips().len() && before.trips()[idx as int].threshold > 0 ==> {
                    let b = before.trips()[idx as int];
                    let a = after.trips()[idx as int];
                    &&& report is Success ==> a.failures == 0 && a.open_until_ms == 0
                    &&& report is Trip ==> a.failures >= b.threshold && (now + b.cooldown_ms
                        <= u64::MAX ==> a.open_until_ms == now + b.cooldown_ms)
                }
            },
{
    let (before, after, now) = choose|before: Pool, after: Pool, now: u64|
        #![trigger visited(pool, before, after), before.reads_at(Some(idx), now)]
        {
            &&& visited(pool, before, after)
            &&& before.reads_at(Some(idx), now)
            &&& after.turn() == before.turn()
            &&& after.trips() == pool::probed(before.trips(), idx, report, now)
        };
    assert(visited(pool, before, after) && before.reads_at(Some(idx), now));
}

/// The state that is given for a shared pool, by what a look at it found: closed
/// where each breaker is disabled or below its threshold; open where there are
/// backends and each has reached its threshold and has its deadline ahead;
/// half-open otherwise.
pub proof fn state_sums_up_what_was_found(pool: SharedPool, state: BreakerState)
    requires
        state_of(pool, state),
    ensures
        exists|v: Pool, nows: Seq<u64>|
            #![trigger pool.found(v), v.reads(nows)]
            {
                let trips = v.trips();
                &&& pool.found(v)
                &&& v.reads(nows)
                &&& nows.len() == trips.len() == pool.pred().addrs.len()
                &&& state == BreakerState::Closed <==> (forall|i: int|
                    #![trigger trips[i]]
                    0 <= i < trips.len() ==> trips[i].threshold == 0 || trips[i].failures
                        < trips[i].threshold)
                &&& state == BreakerState::Open <==> (trips.len() > 0 && forall|i: int|
                    #![trigger trips[i]]
                    0 <= i < trips.len() ==> trips[i].threshold > 0 && trips[i].failures
                        >= trips[i].threshold && nows[i] < trips[i].open_until_ms)
            },
{
    let (v, nows) = choose|v: Pool, nows: Seq<u64>|
        #![trigger pool.found(v), v.reads(nows)]
        {
            &&& pool.found(v)
            &&& pool.pred().inv(v)
            &&& v.reads(nows)
            &&& nows.len() == v.trips().len()
            &&& state == pool::aggregate(v.trips(), nows)
        };
    pool::pool_state_sums_up_the_breakers(v.trips(), nows);
    assert(pool.found(v) && v.reads(nows));
}

} // verus!

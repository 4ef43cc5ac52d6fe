//! Active health checks: what is probed, what an answer means for a backend's
//! breaker, and how long the pause between probes is.
use vstd::prelude::*;
use vstd::string::*;

use std::sync::Arc;

use crate::text;
use crate::time::Duration;
use crate::upstream;
use crate::upstream::breaker::{BreakerState, Decision, Trip};
use crate::upstream::forward;
use crate::upstream::tls;
use crate::upstream::tls::{ClientTls, TlsLoadError, UpstreamTlsFiles, UpstreamTlsOptions};
use crate::upstream::SharedPool;

verus! {

/// Longest pause without a look at the cancellation flag, in milliseconds.
pub const NAP_MS: u64 = 250;

/// Configuration of the probes of one upstream.
#[derive(Debug)]
pub struct ProbeConfig {
    /// Path probed with GET.
    pub path: String,
    /// Span between probes.
    pub interval: Duration,
    /// Timeout of one probe.
    pub timeout: Duration,
    /// Consecutive failures that open a backend's breaker; each further one
    /// opens it anew.
    pub unhealthy_threshold: u32,
    /// Consecutive successes that close a backend's breaker.
    pub healthy_threshold: u32,
    /// TLS settings of the probes; `None` for plain HTTP.
    pub tls: Option<UpstreamTlsOptions>,
}

/// What a probe result means for the backend's breaker.
#[derive(Debug, Clone, Copy, PartialEq, Eq, Structural)]
pub enum Report {
    /// Nothing is reported.
    Nothing,
    /// A success is reported, which closes the breaker.
    Success,
    /// The breaker is opened, however few requests have failed.
    Trip,
}

/// The breaker `t` after `report` reached it at the time `now`.
pub open spec fn reported(t: Trip, report: Report, now: u64) -> Trip {
    match report {
        Report::Nothing => t,
        Report::Success => t.succeeded(),
        Report::Trip => t.tripped(now),
    }
}

/// `n + 1`, or the largest number.
pub open spec fn bumped(n: u32) -> u32 {
    if n == u32::MAX {
        u32::MAX
    } else {
        (n + 1) as u32
    }
}

/// The run of equal probe results that a backend is in.
#[derive(Debug, Clone, Copy, PartialEq, Eq, Structural)]
pub struct Streak {
    /// Consecutive failures.
    pub fail: u32,
    /// Consecutive successes.
    pub ok: u32,
}

impl Streak {
    /// The streak after one more result.
    pub open spec fn next(self, healthy: bool) -> Streak {
        if healthy {
            Streak { fail: 0, ok: bumped(self.ok) }
        } else {
            Streak { fail: bumped(self.fail), ok: 0 }
        }
    }

    /// What the result that led to this streak means for the breaker.
    pub open spec fn report(
        self,
        healthy: bool,
        unhealthy_threshold: u32,
        healthy_threshold: u32,
    ) -> Report {
        if healthy && self.ok >= healthy_threshold {
            Report::Success
        } else if !healthy && self.fail >= unhealthy_threshold {
            Report::Trip
        } else {
            Report::Nothing
        }
    }

    /// No results yet.
    pub fn new() -> (r: Streak)
        ensures
            r.fail == 0,
            r.ok == 0,
    {
        Streak { fail: 0, ok: 0 }
    }

    /// Takes one more result and says what it means for the breaker.
    pub fn observe(&mut self, healthy: bool, unhealthy_threshold: u32, healthy_threshold: u32)
        -> (r: Report)
        ensures
            *final(self) == old(self).next(healthy),
            r == final(self).report(healthy, unhealthy_threshold, healthy_threshold),
    {
        if healthy {
            self.fail = 0;
            self.ok = self.ok.saturating_add(1);
            if self.ok >= healthy_threshold {
                return Report::Success;
            }
        } else {
            self.ok = 0;
            self.fail = self.fail.saturating_add(1);
            if self.fail >= unhealthy_threshold {
                return Report::Trip;
            }
        }
        Report::Nothing
    }
}

/// The streak after the results `results`, in order.
pub open spec fn streak_after(results: Seq<bool>) -> Streak
    decreases results.len(),
{
    if results.len() == 0 {
        Streak { fail: 0, ok: 0 }
    } else {
        streak_after(results.drop_last()).next(results.last())
    }
}

/// How many of the last results are equal to `healthy`, without a gap.
pub open spec fn trailing(results: Seq<bool>, healthy: bool) -> nat
    decreases results.len(),
{
    if results.len() == 0 || results.last() != healthy {
        0
    } else {
        trailing(results.drop_last(), healthy) + 1
    }
}

/// `n`, or the largest `u32`.
pub open spec fn capped(n: nat) -> u32 {
    if n > u32::MAX {
        u32::MAX
    } else {
        n as u32
    }
}

/// A streak counts the results that came last: a result is reported to the
/// breaker exactly where the unbroken run that it ends is as long as the
/// threshold for its kind.
pub proof fn report_follows_the_run(
    results: Seq<bool>,
    unhealthy_threshold: u32,
    healthy_threshold: u32,
)
    requires
        results.len() > 0,
    ensures
        streak_after(results).report(results.last(), unhealthy_threshold, healthy_threshold)
            == if results.last() {
            if trailing(results, true) >= healthy_threshold {
                Report::Success
            } else {
                Report::Nothing
            }
        } else {
            if trailing(results, false) >= unhealthy_threshold {
                Report::Trip
            } else {
                Report::Nothing
            }
        },
{
    lemma_streak_counts(results);
}

/// A backend whose probes fail is taken out of service: where the last results
/// are failures, as many as the threshold asks for, its breaker rejects requests
/// from then on until the cooldown is over, whatever it held before. Only a
/// disabled breaker, or one without a cooldown, lets them pass.
pub proof fn failed_probes_open_the_breaker(
    t: Trip,
    results: Seq<bool>,
    unhealthy_threshold: u32,
    healthy_threshold: u32,
    now: u64,
    later: u64,
)
    requires
        results.len() > 0,
        !results.last(),
        trailing(results, false) >= unhealthy_threshold,
        t.threshold > 0,
    ensures
        ({
            let report = streak_after(results).report(
                results.last(),
                unhealthy_threshold,
                healthy_threshold,
            );
            let after = reported(t, report, now);
            &&& report == Report::Trip
            &&& later < t.deadline(now) ==> after.state_at(later) == BreakerState::Open
                && after.decision_at(later) == Decision::Reject
            &&& t.cooldown_ms > 0 && now < u64::MAX ==> now < t.deadline(now)
        }),
{
    lemma_streak_counts(results);
}

/// A backend whose probes succeed again is back in service: where the last
/// results are successes, as many as the threshold asks for, its breaker is
/// closed.
pub proof fn passed_probes_close_the_breaker(
    t: Trip,
    results: Seq<bool>,
    unhealthy_threshold: u32,
    healthy_threshold: u32,
    now: u64,
    later: u64,
)
    requires
        results.len() > 0,
        results.last(),
        trailing(results, true) >= healthy_threshold,
    ensures
        ({
            let report = streak_after(results).report(
                results.last(),
                unhealthy_threshold,
                healthy_threshold,
            );
            report == Report::Success && reported(t, report, now).state_at(later)
                == BreakerState::Closed
        }),
{
    lemma_streak_counts(results);
}

proof fn lemma_streak_counts(results: Seq<bool>)
    ensures
        streak_after(results).ok == capped(trailing(results, true)),
        streak_after(results).fail == capped(trailing(results, false)),
    decreases results.len(),
{
    if results.len() > 0 {
        lemma_streak_counts(results.drop_last());
    }
}

/// Whether `status` is the answer of a healthy backend: any 2xx.
pub open spec fn is_success(status: u16) -> bool {
    200 <= status < 300
}

/// Whether a probe found the backend healthy. `status` is `None` where no
/// answer came, or none in time.
pub fn healthy(status: Option<u16>) -> (r: bool)
    ensures
        r == (status is Some && is_success(status->0)),
{
    match status {
        Some(s) => s >= 200 && s < 300,
        None => false,
    }
}

/// `path` with a leading slash.
pub open spec fn rooted(path: Seq<char>) -> Seq<char> {
    if path.len() > 0 && path[0] == '/' {
        path
    } else {
        "/"@ + path
    }
}

/// The URI of a probe.
pub open spec fn probe_uri(scheme: Seq<char>, addr: Seq<char>, path: Seq<char>) -> Seq<char> {
    scheme + "://"@ + addr + rooted(path)
}

/// The URI of a probe of `path` at `addr`.
pub fn make_probe_uri(scheme: &str, addr: &str, path: &str) -> (r: String)
    ensures
        r@ == probe_uri(scheme@, addr@, path@),
{
    let mut r = text::around(scheme, "://", addr);
    if path.unicode_len() > 0 && path.get_char(0) == '/' {
        r.append(path);
    } else {
        r.append("/");
        r.append(path);
        assert(scheme@ + "://"@ + addr@ + "/"@ + path@ =~= scheme@ + "://"@ + addr@ + ("/"@
            + path@));
    }
    r
}

/// The probes of one upstream: they share its backends, so that what they find
/// reaches the breakers that requests go by.
pub struct Probe {
    addrs: Arc<Vec<String>>,
    breakers: SharedPool,
    cfg: ProbeConfig,
    tls: Option<ClientTls>,
}

impl Probe {
    /// The addresses that are probed.
    pub closed spec fn addr_list(self) -> Seq<String> {
        self.addrs@
    }

    /// The backends that the results are reported to.
    pub closed spec fn shared(self) -> SharedPool {
        self.breakers
    }

    /// The configuration.
    pub closed spec fn config(self) -> ProbeConfig {
        self.cfg
    }

    /// What connections need for TLS.
    pub closed spec fn material(self) -> Option<ClientTls> {
        self.tls
    }

    /// The scheme of the probes: `https` exactly where TLS settings are there.
    pub open spec fn scheme_text(self) -> Seq<char> {
        if self.material() is Some {
            "https"@
        } else {
            "http"@
        }
    }

    /// Probes of the backends `breakers` at `addrs`. `files` are the files that
    /// the TLS settings of `cfg` name, `None` where there are no settings. A
    /// fault of the files is the only error.
    pub fn new(
        addrs: Arc<Vec<String>>,
        breakers: SharedPool,
        cfg: ProbeConfig,
        files: Option<&UpstreamTlsFiles>,
    ) -> (r: Result<Probe, TlsLoadError>)
        requires
            match (cfg.tls, files) {
                (None, None) => true,
                (Some(o), Some(f)) => tls::read_for(o, *f),
                _ => false,
            },
        ensures
            match r {
                Ok(p) => {
                    &&& p.addr_list() == addrs@
                    &&& p.shared() == breakers
                    &&& p.config() == cfg
                    &&& match files {
                        None => p.material() is None,
                        Some(f) => p.material() is Some && exists|d: tls::DecodedTls| #[trigger]
                            tls::decodes(*f, d) && tls::material_result(d) == Ok::<
                                _,
                                tls::LoadFault,
                            >(p.material()->0@),
                    }
                },
                Err(e) => files matches Some(f) && exists|d: tls::DecodedTls| #[trigger]
                    tls::decodes(*f, d) && match tls::material_result(d) {
                        Err(t) => e@ == t,
                        Ok(m) => e is Rustls && m.client_auth is Some,
                    },
            },
            files matches Some(f) ==> tls::builds(
                *f,
                match r {
                    Ok(p) => Ok(p.material()->0@),
                    Err(e) => Err(e@),
                },
            ),
    {
        let tls = match files {
            None => None,
            Some(f) => match tls::build_client_config(f) {
                Ok(c) => Some(c),
                Err(e) => return Err(e),
            },
        };
        Ok(Probe { addrs, breakers, cfg, tls })
    }

    /// The addresses that are probed.
    pub fn addrs(&self) -> (r: &Vec<String>)
        ensures
            r@ == self.addr_list(),
    {
        &self.addrs
    }

    /// The configuration.
    pub fn cfg(&self) -> (r: &ProbeConfig)
        ensures
            *r == self.config(),
    {
        &self.cfg
    }

    /// What connections need for TLS; `None` for plain HTTP.
    pub fn client_tls(&self) -> (r: Option<&ClientTls>)
        ensures
            match r {
                Some(c) => self.material() == Some(*c),
                None => self.material() is None,
            },
    {
        match &self.tls {
            Some(c) => Some(c),
            None => None,
        }
    }

    /// The scheme of the probes.
    pub fn scheme(&self) -> (r: &'static str)
        ensures
            r@ == self.scheme_text(),
    {
        if self.tls.is_some() {
            "https"
        } else {
            "http"
        }
    }

    /// Where the backend at `idx` is probed; `None` where address and path make
    /// no URI, so that every probe of it fails.
    pub fn target(&self, idx: usize) -> (r: Option<String>)
        requires
            idx < self.addr_list().len(),
        ensures
            ({
                let uri = probe_uri(
                    self.scheme_text(),
                    self.addr_list()[idx as int]@,
                    self.config().path@,
                );
                match r {
                    Some(u) => u@ == uri && forward::uri_error(uri) is None,
                    None => forward::uri_error(uri) is Some,
                }
            }),
    {
        let uri = make_probe_uri(self.scheme(), &self.addrs[idx], &self.cfg.path);
        match forward::uri_fault(&uri) {
            None => Some(uri),
            Some(_) => None,
        }
    }

    /// How many backends are probed: those that have both an address and a
    /// breaker.
    pub fn count(&self) -> (n: usize)
        ensures
            n == if self.addr_list().len() < self.shared().pred().addrs.len() {
                self.addr_list().len()
            } else {
                self.shared().pred().addrs.len()
            },
    {
        let look = self.breakers.look();
        let n: usize = look.value().len();
        look.end();
        if self.addrs.len() < n {
            self.addrs.len()
        } else {
            n
        }
    }

    /// Takes the result of a probe of the backend at `idx`, and reports it to
    /// the breaker where the streak calls for it, as [`Pool::observe_probe`]
    /// does.
    ///
    /// [`Pool::observe_probe`]: crate::upstream::pool::Pool::observe_probe
    pub fn observe(&self, idx: usize, streak: &mut Streak, healthy: bool) -> (r: Report)
        ensures
            *final(streak) == old(streak).next(healthy),
            r == final(streak).report(
                healthy,
                self.config().unhealthy_threshold,
                self.config().healthy_threshold,
            ),
            upstream::probed_in(self.shared(), idx, r),
    {
        upstream::probe_shared(
            &self.breakers,
            idx,
            streak,
            healthy,
            self.cfg.unhealthy_threshold,
            self.cfg.healthy_threshold,
        )
    }
}

/// How long the next pause is where `remaining` nanoseconds are left of the
/// interval.
pub open spec fn nap_len(remaining: nat) -> nat {
    if remaining < 250_000_000 {
        remaining
    } else {
        250_000_000
    }
}

/// The pauses of an interval of `remaining` nanoseconds.
pub open spec fn naps(remaining: nat) -> Seq<nat>
    decreases remaining,
{
    if remaining == 0 {
        Seq::empty()
    } else {
        naps((remaining - nap_len(remaining)) as nat).push(nap_len(remaining))
    }
}

/// Spans added up.
pub open spec fn total(spans: Seq<nat>) -> nat
    decreases spans.len(),
{
    if spans.len() == 0 {
        0
    } else {
        total(spans.drop_last()) + spans.last()
    }
}

/// The pauses of an interval add up to it, and none is longer than a quarter of
/// a second: a prober that is told to stop does so within that time.
pub proof fn naps_fill_the_interval(remaining: nat)
    ensures
        total(naps(remaining)) == remaining,
        forall|i: int|
            0 <= i < naps(remaining).len() ==> 0 < #[trigger] naps(remaining)[i] <= 250_000_000,
    decreases remaining,
{
    if remaining > 0 {
        let rest = naps((remaining - nap_len(remaining)) as nat);
        naps_fill_the_interval((remaining - nap_len(remaining)) as nat);
        assert(naps(remaining).drop_last() =~= rest);
    }
}

/// The next pause where `remaining` is left of the interval: the pause, and
/// what is left after it. `None` where the interval is over.
pub fn next_nap(remaining: Duration) -> (r: Option<(Duration, Duration)>)
    ensures
        match r {
            None => remaining@ == 0,
            Some((nap, left)) => {
                &&& remaining@ > 0
                &&& nap@ == nap_len(remaining@)
                &&& nap@ + left@ == remaining@
            },
        },
{
    if remaining.is_zero() {
        return None;
    }
    let nap = Duration::from_millis(NAP_MS).shorter(remaining);
    Some((nap, remaining.saturating_sub(nap)))
}

/// A backend is healthy exactly where it answers with a status from 200 to 299.
pub proof fn healthy_means_any_2xx(status: u16)
    ensures
        is_success(status) <==> status / 100 == 2,
{
}

/// A result makes the run of its kind one longer and ends the other run.
pub proof fn result_extends_its_run(s: Streak)
    ensures
        s.next(true).fail == 0,
        s.next(false).ok == 0,
        s.ok < u32::MAX ==> s.next(true).ok == s.ok + 1,
        s.fail < u32::MAX ==> s.next(false).fail == s.fail + 1,
        s.ok == u32::MAX ==> s.next(true).ok == u32::MAX,
        s.fail == u32::MAX ==> s.next(false).fail == u32::MAX,
{
}

/// What a result means for the breaker: a success closes it from the threshold for
/// successes on, a failure opens it from the threshold for failures on, and nothing
/// else does anything.
pub proof fn report_follows_the_thresholds(
    s: Streak,
    healthy: bool,
    unhealthy_threshold: u32,
    healthy_threshold: u32,
)
    ensures
        s.report(healthy, unhealthy_threshold, healthy_threshold) is Success <==> healthy && s.ok
            >= healthy_threshold,
        s.report(healthy, unhealthy_threshold, healthy_threshold) is Trip <==> !healthy && s.fail
            >= unhealthy_threshold,
{
}

/// A probe goes to the address of the backend and to the path of the health check,
/// which is the same with and without its leading slash.
pub proof fn probe_goes_to_the_path(scheme: Seq<char>, addr: Seq<char>, path: Seq<char>)
    requires
        path.len() == 0 || path[0] != '/',
    ensures
        probe_uri(scheme, addr, path) == scheme + "://"@ + addr + seq!['/'] + path,
        probe_uri(scheme, addr, seq!['/'] + path) == scheme + "://"@ + addr + seq!['/'] + path,
{
    reveal_strlit("/");
    assert("/"@ =~= seq!['/']);
    assert(scheme + "://"@ + addr + ("/"@ + path) =~= scheme + "://"@ + addr + seq!['/'] + path);
    assert(scheme + "://"@ + addr + (seq!['/'] + path) =~= scheme + "://"@ + addr + seq!['/']
        + path);
}

/// A probe goes over TLS exactly where its probes were set up with TLS, and it goes
/// to the address that it is for.
pub proof fn probe_uses_tls_where_it_is_set_up(p: Probe, addr: Seq<char>, path: Seq<char>)
    requires
        path.len() > 0,
        path[0] == '/',
    ensures
        p.material() is Some ==> probe_uri(p.scheme_text(), addr, path) == "https"@ + "://"@ + addr
            + path,
        p.material() is None ==> probe_uri(p.scheme_text(), addr, path) == "http"@ + "://"@ + addr
            + path,
{
}

} // verus!

//! Breakers, retries, backends, forwarding, probes and upstream TLS.
use conduit::clock::reading;
use conduit::proto::head::{Field, Head, Request, Version};
use conduit::time::Duration;
use conduit::upstream::breaker::{Breaker, BreakerConfig, BreakerState, Decision, Trip};
use conduit::upstream::forward::{
    accept_target, choose_target, for_egress, Attempts, ForwardError, Reply, Step, Target,
};
use conduit::upstream::health::{
    healthy, make_probe_uri, next_nap, Probe, ProbeConfig, Report, Streak,
};
use conduit::upstream::pool::Pool;
use conduit::upstream::retry::{RetryDecision, RetryPolicy};
use conduit::upstream::timed::{ReadTimeout, TimedBody, TimedPoll};
use conduit::upstream::tls::{
    build_client_config, client_material, settle, DecodedTls, PemFile, RootFault, TlsLoadError,
    UpstreamTlsFiles, UpstreamTlsOptions,
};
use conduit::upstream::{default_request_timeout, record, Forwarding, Upstream};

fn sa(s: &str) -> String {
    s.to_string()
}

/// The address of a pick, without its position.
fn pick_a(u: &Upstream) -> Option<String> {
    u.pick_addr().map(|(a, _)| a)
}

#[test]
fn threshold_zero_is_a_no_op() {
    let mut b = Breaker::new(BreakerConfig {
        threshold: 0,
        cooldown: Duration::from_secs(1),
    });
    for _ in 0..1000 {
        b.on_failure();
    }
    assert_eq!(b.check(), Decision::Allow);
}

#[test]
fn opens_after_threshold_failures() {
    let mut b = Breaker::new(BreakerConfig {
        threshold: 3,
        cooldown: Duration::from_secs(60),
    });
    b.on_failure();
    b.on_failure();
    assert_eq!(b.check(), Decision::Allow);
    b.on_failure();
    assert_eq!(b.check(), Decision::Reject);
}

#[test]
fn success_resets_breaker() {
    let mut b = Breaker::new(BreakerConfig {
        threshold: 2,
        cooldown: Duration::from_secs(60),
    });
    b.on_failure();
    b.on_failure();
    assert_eq!(b.check(), Decision::Reject);
    b.on_success();
    assert_eq!(b.check(), Decision::Allow);
}

#[test]
fn cooldown_elapses_to_half_open() {
    let mut b = Breaker::new(BreakerConfig {
        threshold: 1,
        cooldown: Duration::from_millis(50),
    });
    b.on_failure();
    assert_eq!(b.check(), Decision::Reject);
    let tripped = std::time::Instant::now();
    while tripped.elapsed() < std::time::Duration::from_millis(80) {}
    // Half-open: probe is allowed.
    assert_eq!(b.check(), Decision::Allow);
    assert_eq!(b.snapshot(), BreakerState::HalfOpen);
    assert!(b.now_ms() >= 80);
}

fn trip(threshold: u32, failures: u32, open_until_ms: u64) -> Trip {
    Trip {
        threshold,
        cooldown_ms: 100,
        failures,
        open_until_ms,
    }
}

#[test]
fn breaker_states_at_given_times() {
    assert_eq!(trip(3, 2, 0).snapshot_at(5), BreakerState::Closed);
    assert_eq!(trip(3, 3, 50).snapshot_at(49), BreakerState::Open);
    assert_eq!(trip(3, 3, 50).snapshot_at(50), BreakerState::HalfOpen);
    assert_eq!(trip(0, 9, 50).snapshot_at(1), BreakerState::Closed);
    assert_eq!(trip(3, 3, 50).check_at(49), Decision::Reject);
    assert_eq!(trip(3, 3, 50).check_at(50), Decision::Allow);
}

#[test]
fn half_open_failure_opens_anew() {
    let mut t = trip(2, 2, 50);
    assert_eq!(t.snapshot_at(60), BreakerState::HalfOpen);
    t.on_failure_at(60);
    assert_eq!(t.open_until_ms, 160);
    assert_eq!(t.snapshot_at(159), BreakerState::Open);
    assert_eq!(t.snapshot_at(160), BreakerState::HalfOpen);
    t.on_success();
    assert_eq!(t.snapshot_at(0), BreakerState::Closed);
    assert_eq!(t.failures, 0);
}

#[test]
fn breaker_counters_at_their_limits() {
    let mut t = trip(2, u32::MAX, 50);
    t.on_failure_at(u64::MAX - 1);
    assert_eq!(t.failures, u32::MAX);
    assert_eq!(t.open_until_ms, u64::MAX);
    assert_eq!(t.check_at(u64::MAX - 1), Decision::Reject);
    let mut t = trip(u32::MAX, u32::MAX - 1, 50);
    assert_eq!(t.snapshot_at(60), BreakerState::Closed);
    t.on_failure_at(60);
    assert_eq!(t.failures, u32::MAX);
    t.on_failure_at(160);
    assert_eq!(t.snapshot_at(160), BreakerState::Open);
    let cfg = BreakerConfig::default();
    assert_eq!(cfg.threshold, 5);
    assert_eq!(cfg.cooldown, Duration::from_secs(30));
    assert_eq!(Breaker::new(cfg).trip().cooldown_ms, 30_000);
}

fn policy_502_2x() -> RetryPolicy {
    RetryPolicy {
        attempts: 2,
        on_status: vec![502, 503, 504],
        on_connect_error: true,
    }
}

#[test]
fn final_status_stops() {
    let p = policy_502_2x();
    assert_eq!(p.decide_status(200, 0), RetryDecision::Stop);
    assert_eq!(p.decide_status(404, 0), RetryDecision::Stop);
}

#[test]
fn retryable_status_retries_when_attempts_available() {
    let p = policy_502_2x();
    assert_eq!(p.decide_status(502, 0), RetryDecision::Retry);
    assert_eq!(p.decide_status(503, 0), RetryDecision::Retry);
}

#[test]
fn retryable_status_stops_when_no_attempts_left() {
    let p = policy_502_2x();
    // Two attempts are the original and one retry. After attempt 1 there are
    // no more.
    assert_eq!(p.decide_status(502, 1), RetryDecision::Stop);
}

#[test]
fn no_retry_policy_never_retries() {
    let p = RetryPolicy::none();
    assert_eq!(p.decide_status(502, 0), RetryDecision::Stop);
}

#[test]
fn attempts_zero_treated_as_no_retry() {
    let p = RetryPolicy {
        attempts: 0,
        on_status: vec![502],
        on_connect_error: false,
    };
    assert_eq!(p.decide_status(502, 0), RetryDecision::Stop);
}

#[test]
fn retry_policy_from_config() {
    let cfg = conduit::config::schema::RetryPolicy {
        attempts: 4,
        on_status: vec![500, 502],
        on_connect_error: true,
    };
    let p = RetryPolicy::from_config(&cfg);
    assert_eq!(p.attempts, 4);
    assert_eq!(p.on_status, vec![500, 502]);
    assert!(p.on_connect_error);
}

#[test]
fn round_robin_picks_addrs_in_order() {
    let u = Upstream::with_addrs(
        RetryPolicy::none(),
        vec![sa("10.0.0.1:80"), sa("10.0.0.2:80"), sa("10.0.0.3:80")],
    );
    let picks: Vec<_> = (0..6).map(|_| pick_a(&u).unwrap()).collect();
    assert_eq!(
        picks,
        vec![
            sa("10.0.0.1:80"),
            sa("10.0.0.2:80"),
            sa("10.0.0.3:80"),
            sa("10.0.0.1:80"),
            sa("10.0.0.2:80"),
            sa("10.0.0.3:80"),
        ]
    );
}

#[test]
fn empty_addrs_returns_none() {
    let u = Upstream::new(RetryPolicy::none());
    assert!(u.pick_addr().is_none());
}

#[test]
fn round_robin_state_shared_across_clones() {
    let u = Upstream::with_addrs(
        RetryPolicy::none(),
        vec![sa("10.0.0.1:80"), sa("10.0.0.2:80")],
    );
    let u2 = u.clone();
    assert_eq!(pick_a(&u), Some(sa("10.0.0.1:80")));
    assert_eq!(pick_a(&u2), Some(sa("10.0.0.2:80")));
    assert_eq!(pick_a(&u), Some(sa("10.0.0.1:80")));
    assert_eq!(pick_a(&u2), Some(sa("10.0.0.2:80")));
}

#[test]
fn pick_addr_skips_breaker_open_addrs() {
    let u = Upstream::with_breaker(
        RetryPolicy::none(),
        vec![sa("10.0.0.1:80"), sa("10.0.0.2:80"), sa("10.0.0.3:80")],
        BreakerConfig {
            threshold: 1,
            cooldown: Duration::from_secs(60),
        },
    );
    // Trip addr 1 (10.0.0.2:80).
    u.observe_breaker_outcome(Some(1), false);
    // Round-robin starts at 0 and picks .1; next pick should skip the open .2
    // and land on .3.
    assert_eq!(pick_a(&u), Some(sa("10.0.0.1:80")));
    assert_eq!(pick_a(&u), Some(sa("10.0.0.3:80")));
    // Trip everything else; pick_addr returns None.
    u.observe_breaker_outcome(Some(0), false);
    u.observe_breaker_outcome(Some(2), false);
    assert!(u.pick_addr().is_none());
}

#[test]
fn breaker_state_of_a_whole_upstream() {
    let u = Upstream::with_breaker(
        RetryPolicy::none(),
        vec![sa("a:1"), sa("b:1")],
        BreakerConfig {
            threshold: 1,
            cooldown: Duration::from_secs(60),
        },
    );
    assert_eq!(u.breaker_state(), BreakerState::Closed);
    u.observe_breaker_outcome(Some(0), false);
    assert_eq!(u.breaker_state(), BreakerState::HalfOpen);
    u.observe_breaker_outcome(Some(1), false);
    assert_eq!(u.breaker_state(), BreakerState::Open);
    u.observe_breaker_outcome(Some(1), true);
    assert_eq!(u.breaker_state(), BreakerState::HalfOpen);
    assert_eq!(
        Upstream::new(RetryPolicy::none()).breaker_state(),
        BreakerState::Closed
    );
    // Requests to no known backend change nothing.
    u.observe_breaker_outcome(None, true);
    u.observe_breaker_outcome(Some(9), true);
    assert_eq!(u.breaker_state(), BreakerState::HalfOpen);
}

#[test]
fn upstream_keeps_what_it_was_built_with() {
    let u = Upstream::with_options(
        policy_502_2x(),
        vec![sa("a:1")],
        BreakerConfig::default(),
        Some(Duration::from_secs(2)),
    );
    assert_eq!(u.addrs(), &vec![sa("a:1")]);
    assert_eq!(*u.addrs_arc(), vec![sa("a:1")]);
    assert_eq!(u.retry().attempts, 2);
    assert_eq!(u.connect_timeout(), Some(Duration::from_secs(2)));
    assert!(u.client_tls().is_none());
    let c = u.clone();
    assert_eq!(c.retry().on_status, vec![502, 503, 504]);
    assert_eq!(default_request_timeout(), Duration::from_secs(60));
}

#[test]
fn breakers_are_shared_with_their_handle() {
    let u = Upstream::with_breaker(
        RetryPolicy::none(),
        vec![sa("a:1")],
        BreakerConfig {
            threshold: 1,
            cooldown: Duration::from_secs(60),
        },
    );
    let shared = u.breakers_arc();
    record(&shared, Some(0), false);
    assert!(u.pick_addr().is_none());
    record(&shared, Some(0), true);
    assert_eq!(pick_a(&u), Some(sa("a:1")));
}

#[test]
fn picks_at_given_times() {
    let mut p = Pool::new(
        vec![sa("a:1"), sa("b:1")],
        BreakerConfig {
            threshold: 1,
            cooldown: Duration::from_millis(100),
        },
    );
    p.observe_at(Some(0), false, 1_000);
    assert_eq!(p.pick_at(&vec![1_050, 0]), Some((sa("b:1"), 1)));
    assert_eq!(p.pick_at(&vec![1_050, 0]), Some((sa("b:1"), 1)));
    assert_eq!(p.pick_at(&vec![1_100, 0]), Some((sa("a:1"), 0)));
    assert_eq!(
        p.breaker_state_at(&vec![1_099, 0]),
        BreakerState::HalfOpen
    );
    p.observe_at(Some(1), false, 0);
    assert_eq!(p.breaker_state_at(&vec![1_099, 99]), BreakerState::Open);
    assert_eq!(p.pick_at(&vec![1_099, 99]), None);
    p.settle_at(Some(1), Step::Again, 7);
    assert_eq!(p.breaker_state_at(&vec![1_099, 99]), BreakerState::Open);
    p.settle_at(Some(1), Step::Deliver { success: true }, 7);
    assert_eq!(p.pick_at(&vec![1_099, 99]), Some((sa("b:1"), 1)));
}

#[test]
fn every_backend_gets_its_turn() {
    let mut p = Pool::new(
        vec![sa("a:1"), sa("b:1"), sa("c:1"), sa("d:1")],
        BreakerConfig::default(),
    );
    let clock = vec![0, 0, 0, 0];
    let mut seen: Vec<usize> = (0..4).map(|_| p.pick_at(&clock).unwrap().1).collect();
    seen.sort();
    assert_eq!(seen, vec![0, 1, 2, 3]);
}

#[test]
fn forward_retries_on_502_then_succeeds() {
    let mut a = Attempts::start(RetryPolicy {
        attempts: 3,
        on_status: vec![502],
        on_connect_error: true,
    });
    assert_eq!(a.advance(Reply::Response(502)), Step::Again);
    assert_eq!(
        a.advance(Reply::Response(200)),
        Step::Deliver { success: true }
    );
}

#[test]
fn forward_retries_exhausted() {
    let mut a = Attempts::start(RetryPolicy {
        attempts: 2,
        on_status: vec![502],
        on_connect_error: false,
    });
    assert_eq!(a.advance(Reply::Response(502)), Step::Again);
    // The last response goes to the caller as it is.
    assert_eq!(
        a.advance(Reply::Response(502)),
        Step::Deliver { success: false }
    );
}

#[test]
fn forward_happy_path() {
    let u = Upstream::new(RetryPolicy::none());
    let mut f = Forwarding::start(&u, RetryPolicy::none(), Some("/")).unwrap();
    assert!(f.target().is_none());
    assert_eq!(
        f.on_reply(Reply::Response(200)),
        Step::Deliver { success: true }
    );
}

#[test]
fn connect_errors_are_retried_only_where_allowed() {
    let failed = |connect_error: bool| Reply::Failed { connect_error };
    let mut a = Attempts::start(policy_502_2x());
    assert_eq!(a.advance(failed(true)), Step::Again);
    assert_eq!(
        a.advance(failed(true)),
        Step::GiveUp {
            connect_error: true
        }
    );
    let mut a = Attempts::start(policy_502_2x());
    assert_eq!(
        a.advance(failed(false)),
        Step::GiveUp {
            connect_error: false
        }
    );
    let mut a = Attempts::start(RetryPolicy::none());
    assert_eq!(
        a.advance(failed(true)),
        Step::GiveUp {
            connect_error: true
        }
    );
}

#[test]
fn only_5xx_counts_against_a_backend() {
    for (status, success) in [
        (200, true),
        (301, true),
        (404, true),
        (499, true),
        (500, false),
        (599, false),
        (600, true),
    ] {
        let mut a = Attempts::start(RetryPolicy::none());
        assert_eq!(a.advance(Reply::Response(status)), Step::Deliver { success });
    }
}

#[test]
fn requests_are_aimed_at_a_backend() {
    let u = Upstream::with_addrs(RetryPolicy::none(), vec![sa("10.0.0.1:80"), sa("10.0.0.2:80")]);
    let t = u.aim(Some("/a?b=c")).unwrap().unwrap();
    assert_eq!(t.uri, "http://10.0.0.1:80/a?b=c");
    assert_eq!(t.backend, 0);
    let t = u.aim(None).unwrap().unwrap();
    assert_eq!(t.uri, "http://10.0.0.2:80/");
    assert_eq!(t.backend, 1);
}

#[test]
fn text_that_is_no_uri_is_refused() {
    let u = Upstream::with_addrs(RetryPolicy::none(), vec![sa("10.0.0.1:80")]);
    match u.aim(Some("/with space")) {
        Err(ForwardError::Body(e)) => {
            let expected = "http://10.0.0.1:80/with space"
                .parse::<http::Uri>()
                .unwrap_err()
                .to_string();
            assert_eq!(e, expected);
        }
        other => panic!("got {other:?}"),
    }
}

#[test]
fn open_breakers_end_a_request_before_it_is_sent() {
    let u = Upstream::with_breaker(
        RetryPolicy::none(),
        vec![sa("10.0.0.1:80")],
        BreakerConfig {
            threshold: 1,
            cooldown: Duration::from_secs(60),
        },
    );
    let mut f = Forwarding::start(&u, RetryPolicy::none(), Some("/")).unwrap();
    assert_eq!(f.target().unwrap().uri, "http://10.0.0.1:80/");
    assert_eq!(
        f.on_reply(Reply::Response(503)),
        Step::Deliver { success: false }
    );
    assert!(matches!(
        Forwarding::start(&u, RetryPolicy::none(), Some("/")),
        Err(ForwardError::BreakerOpen)
    ));
}

#[test]
fn a_retry_does_not_touch_the_breaker() {
    let u = Upstream::with_breaker(
        RetryPolicy::none(),
        vec![sa("10.0.0.1:80")],
        BreakerConfig {
            threshold: 1,
            cooldown: Duration::from_secs(60),
        },
    );
    let mut f = Forwarding::start(&u, policy_502_2x(), Some("/")).unwrap();
    assert_eq!(f.on_reply(Reply::Response(502)), Step::Again);
    assert_eq!(u.breaker_state(), BreakerState::Closed);
    assert_eq!(
        f.on_reply(Reply::Failed {
            connect_error: false
        }),
        Step::GiveUp {
            connect_error: false
        }
    );
    assert_eq!(u.breaker_state(), BreakerState::Open);
}

#[test]
fn targets_by_hand() {
    assert!(choose_target(true, None, None).unwrap().is_none());
    assert!(matches!(
        choose_target(false, None, None),
        Err(ForwardError::BreakerOpen)
    ));
    let t = choose_target(false, Some((sa("h:1"), 4)), Some("/x"))
        .unwrap()
        .unwrap();
    assert_eq!((t.uri.as_str(), t.backend), ("http://h:1/x", 4));
    let t = Target {
        uri: sa("u"),
        backend: 1,
    };
    assert!(matches!(
        accept_target(t, Some(sa("bad"))),
        Err(ForwardError::Body(_))
    ));
}

#[test]
fn forward_error_messages() {
    assert_eq!(
        ForwardError::Client {
            source: sa("x"),
            connect_error: true
        }
        .message(),
        "upstream client error (connect_error = true)"
    );
    assert_eq!(
        ForwardError::Body(sa("x")).message(),
        "upstream request body buffering failed"
    );
    assert_eq!(
        ForwardError::RetriesExhausted { last_status: 502 }.message(),
        "retries exhausted; last status was 502 Bad Gateway"
    );
    assert_eq!(
        ForwardError::BreakerOpen.message(),
        "upstream circuit breaker is open"
    );
}

#[test]
fn timer_fires_when_inner_stalls() {
    let timeout = Duration::from_millis(50);
    let mut body = TimedBody::new((), timeout);
    // One frame arrives at once.
    assert_eq!(body.begin_poll(), Some(timeout));
    assert_eq!(body.end_poll(true, false), TimedPoll::Pass);
    // Then nothing: the timer is started anew, runs on over a second poll, and
    // fires.
    assert_eq!(body.begin_poll(), Some(timeout));
    assert_eq!(body.end_poll(false, false), TimedPoll::Pending);
    assert_eq!(body.begin_poll(), None);
    assert_eq!(
        body.end_poll(false, true),
        TimedPoll::TimedOut(ReadTimeout { timeout })
    );
}

#[test]
fn ends_cleanly_on_eos() {
    let mut body = TimedBody::new("payload", Duration::from_secs(60));
    assert_eq!(*body.inner(), "payload");
    assert!(body.begin_poll().is_some());
    // What has arrived goes first, even where the timer has run out.
    assert_eq!(body.end_poll(true, true), TimedPoll::Pass);
}

#[test]
fn read_timeout_message() {
    let text = |d: Duration| ReadTimeout { timeout: d }.message();
    for (d, std) in [
        (Duration::from_secs(30), std::time::Duration::from_secs(30)),
        (Duration::from_millis(50), std::time::Duration::from_millis(50)),
        (Duration::from_millis(1500), std::time::Duration::from_millis(1500)),
        (Duration::new(0, 1_500), std::time::Duration::new(0, 1_500)),
        (Duration::new(0, 7), std::time::Duration::new(0, 7)),
        (Duration::new(0, 0), std::time::Duration::new(0, 0)),
        (Duration::new(3, 5), std::time::Duration::new(3, 5)),
    ] {
        assert_eq!(
            text(d),
            format!("upstream did not send a frame within {std:?}")
        );
    }
}

#[test]
fn probe_results_are_reported_by_streak() {
    let mut s = Streak::new();
    assert_eq!(s.observe(false, 2, 2), Report::Nothing);
    assert_eq!(s.observe(false, 2, 2), Report::Trip);
    assert_eq!(s.observe(false, 2, 2), Report::Trip);
    assert_eq!(s.observe(true, 2, 2), Report::Nothing);
    assert_eq!(s.observe(true, 2, 2), Report::Success);
    assert_eq!(s.observe(false, 2, 2), Report::Nothing);
    assert_eq!((s.fail, s.ok), (1, 0));
    let mut s = Streak {
        fail: u32::MAX,
        ok: 0,
    };
    assert_eq!(s.observe(false, u32::MAX, 1), Report::Trip);
    assert_eq!(s.fail, u32::MAX);
}

#[test]
fn probe_status_and_uri() {
    assert!(healthy(Some(200)));
    assert!(healthy(Some(299)));
    assert!(!healthy(Some(300)));
    assert!(!healthy(Some(199)));
    assert!(!healthy(None));
    assert_eq!(make_probe_uri("http", "h:1", "/hz"), "http://h:1/hz");
    assert_eq!(make_probe_uri("https", "h:1", "hz"), "https://h:1/hz");
    assert_eq!(make_probe_uri("http", "h:1", ""), "http://h:1/");
}

#[test]
fn naps_add_up_to_the_interval() {
    let mut left = Duration::from_millis(600);
    let mut naps = Vec::new();
    while let Some((nap, rest)) = next_nap(left) {
        naps.push(nap);
        left = rest;
    }
    assert_eq!(
        naps,
        vec![
            Duration::from_millis(250),
            Duration::from_millis(250),
            Duration::from_millis(100)
        ]
    );
    assert!(next_nap(Duration::from_secs(0)).is_none());
}

fn probe_cfg(tls: Option<UpstreamTlsOptions>) -> ProbeConfig {
    ProbeConfig {
        path: sa("healthz"),
        interval: Duration::from_secs(5),
        timeout: Duration::from_secs(1),
        unhealthy_threshold: 1,
        healthy_threshold: 1,
        tls,
    }
}

#[test]
fn probes_reach_the_breakers_of_the_upstream() {
    let u = Upstream::with_breaker(
        RetryPolicy::none(),
        vec![sa("10.0.0.1:80"), sa("bad addr")],
        BreakerConfig {
            threshold: 1,
            cooldown: Duration::from_secs(60),
        },
    );
    let p = match Probe::new(u.addrs_arc(), u.breakers_arc(), probe_cfg(None), None) {
        Ok(p) => p,
        Err(e) => panic!("got {e:?}"),
    };
    assert_eq!(p.count(), 2);
    assert_eq!(p.scheme(), "http");
    assert_eq!(p.target(0), Some(sa("http://10.0.0.1:80/healthz")));
    assert_eq!(p.target(1), None);
    assert_eq!(p.addrs().len(), 2);
    assert_eq!(p.cfg().path, "healthz");
    let mut s = Streak::new();
    assert_eq!(p.observe(0, &mut s, false), Report::Trip);
    assert_eq!(u.breaker_state(), BreakerState::HalfOpen);
    assert_eq!(p.observe(0, &mut s, true), Report::Success);
    assert_eq!(u.breaker_state(), BreakerState::Closed);
}

#[test]
fn tls_probes_use_https() {
    let u = Upstream::with_addrs(RetryPolicy::none(), vec![sa("10.0.0.1:443")]);
    let files = UpstreamTlsFiles {
        ca: None,
        client_cert: None,
        client_key: None,
        verify: true,
    };
    let p = match Probe::new(
        u.addrs_arc(),
        u.breakers_arc(),
        probe_cfg(Some(UpstreamTlsOptions::default())),
        Some(&files),
    ) {
        Ok(p) => p,
        Err(e) => panic!("got {e:?}"),
    };
    assert_eq!(p.scheme(), "https");
    assert_eq!(p.target(0), Some(sa("https://10.0.0.1:443/healthz")));
    assert!(p.client_tls().unwrap().verify);
}

fn pem(cert: bool) -> (String, String) {
    let c = rcgen::generate_simple_self_signed(vec!["conduit.test".to_string()])
        .expect("rcgen self-signed");
    if cert {
        (c.cert.pem(), c.key_pair.serialize_pem())
    } else {
        (c.key_pair.serialize_pem(), c.cert.pem())
    }
}

fn file(path: &str, contents: &str) -> Option<PemFile> {
    Some(PemFile {
        path: sa(path),
        contents: Ok(contents.as_bytes().to_vec()),
    })
}

fn no_files() -> UpstreamTlsFiles {
    UpstreamTlsFiles {
        ca: None,
        client_cert: None,
        client_key: None,
        verify: true,
    }
}

#[test]
fn default_tls_options_check_the_peer() {
    let o = UpstreamTlsOptions::default();
    assert!(o.verify);
    assert!(o.ca.is_none() && o.client_cert.is_none() && o.client_key.is_none());
}

#[test]
fn plain_tls_settings_never_fail() {
    let mut f = no_files();
    f.verify = false;
    let c = build_client_config(&f).unwrap();
    assert!(c.roots.is_none());
    assert!(c.client_auth.is_none());
    assert!(!c.verify);
}

#[test]
fn ca_bundle_becomes_the_roots() {
    let (cert, _) = pem(true);
    let mut f = no_files();
    f.ca = file("ca.pem", &format!("{cert}{cert}"));
    let c = build_client_config(&f).unwrap();
    let roots = c.roots.unwrap();
    assert_eq!(roots.len(), 2);
    assert_eq!(roots[0], roots[1]);
    assert_eq!(roots[0][0], 0x30);
}

#[test]
fn ca_bundle_faults() {
    let mut f = no_files();
    f.ca = Some(PemFile {
        path: sa("ca.pem"),
        contents: Err(sa("no such file")),
    });
    match build_client_config(&f) {
        Err(TlsLoadError::ReadFile { path, source }) => {
            assert_eq!((path.as_str(), source.as_str()), ("ca.pem", "no such file"));
        }
        other => panic!("got {other:?}"),
    }
    f.ca = file("ca.pem", "nothing here");
    match build_client_config(&f) {
        Err(TlsLoadError::EmptyPem { path }) => assert_eq!(path, "ca.pem"),
        other => panic!("got {other:?}"),
    }
    f.ca = file(
        "ca.pem",
        "-----BEGIN CERTIFICATE-----\nAAAA\n-----END CERTIFICATE-----\n",
    );
    assert!(matches!(
        build_client_config(&f),
        Err(TlsLoadError::Rustls(_))
    ));
    f.ca = file("ca.pem", "-----BEGIN CERTIFICATE-----\nAAAA\n");
    assert!(matches!(
        build_client_config(&f),
        Err(TlsLoadError::ReadFile { .. })
    ));
}

#[test]
fn client_certificate_with_its_key() {
    let (cert, key) = pem(true);
    let mut f = no_files();
    f.client_cert = file("c.pem", &cert);
    f.client_key = file("k.pem", &key);
    let c = build_client_config(&f).unwrap();
    let (chain, key) = c.client_auth.unwrap();
    assert_eq!(chain.len(), 1);
    assert!(!key.der.is_empty());
}

#[test]
fn client_certificate_faults() {
    let (cert, key) = pem(true);
    let (_, other_key) = pem(true);
    let mut f = no_files();
    f.client_cert = file("c.pem", &cert);
    assert!(matches!(
        build_client_config(&f),
        Err(TlsLoadError::MismatchedClientCert)
    ));
    f.client_key = file("k.pem", "no key");
    match build_client_config(&f) {
        Err(TlsLoadError::ReadFile { path, source }) => {
            assert_eq!((path.as_str(), source.as_str()), ("k.pem", "no items found"));
        }
        other => panic!("got {other:?}"),
    }
    f.client_cert = file("c.pem", &key);
    assert!(matches!(
        build_client_config(&f),
        Err(TlsLoadError::EmptyPem { .. })
    ));
    // A key that belongs to another certificate.
    f.client_cert = file("c.pem", &cert);
    f.client_key = file("k.pem", &other_key);
    assert!(matches!(
        build_client_config(&f),
        Err(TlsLoadError::Rustls(_))
    ));
}

#[test]
fn tls_material_by_hand() {
    let mut d = DecodedTls {
        ca: Some((
            sa("ca"),
            Ok(vec![
                Ok(vec![1]),
                Err(RootFault::Rejected(sa("bad"))),
                Err(RootFault::Undecoded(sa("worse"))),
            ]),
        )),
        client_cert: None,
        client_key: None,
        verify: true,
    };
    match client_material(&d) {
        Err(TlsLoadError::Rustls(e)) => assert_eq!(e, "bad"),
        other => panic!("got {other:?}"),
    }
    d.ca = Some((sa("ca"), Ok(vec![Ok(vec![1]), Ok(vec![2, 3])])));
    let m = client_material(&d).unwrap();
    assert_eq!(m.roots, Some(vec![vec![1], vec![2, 3]]));
    assert!(matches!(
        settle(m, Some(sa("no match"))),
        Err(TlsLoadError::Rustls(_))
    ));
}

#[test]
fn upstream_with_tls() {
    let (cert, _) = pem(true);
    let mut f = no_files();
    f.ca = file("ca.pem", &cert);
    let u = match Upstream::with_tls(
        RetryPolicy::none(),
        vec![sa("a:1")],
        BreakerConfig::default(),
        None,
        Some(&f),
    ) {
        Ok(u) => u,
        Err(e) => panic!("got {e:?}"),
    };
    assert_eq!(u.client_tls().unwrap().roots.as_ref().unwrap().len(), 1);
    f.ca = file("ca.pem", "");
    assert!(Upstream::with_tls(
        RetryPolicy::none(),
        Vec::new(),
        BreakerConfig::default(),
        None,
        Some(&f),
    )
    .is_err());
}

#[test]
fn tls_load_error_messages() {
    let e = TlsLoadError::ReadFile {
        path: sa("p"),
        source: sa("s"),
    };
    assert_eq!(e.message(), "read tls file `p`");
    assert_eq!(
        TlsLoadError::EmptyPem { path: sa("p") }.message(),
        "file `p` did not yield any PEM items of the expected kind"
    );
    assert_eq!(
        TlsLoadError::Rustls(sa("e")).message(),
        "rustls rejected client cert + key for upstream mTLS"
    );
    assert_eq!(
        TlsLoadError::MismatchedClientCert.message(),
        "upstream tls.client_cert and tls.client_key must both be set or both unset"
    );
}

#[test]
fn requests_leave_as_http_1_1_without_their_host() {
    let head = || Head {
        method: "PUT".to_string(),
        uri: "https://www.example.com/a?b".to_string(),
        version: Version::Http2,
        fields: ["host", "accept", "Host"]
            .iter()
            .map(|n| Field {
                name: n.to_string(),
                value: b"v".to_vec(),
            })
            .collect(),
    };
    let target = Target {
        uri: "http://10.0.0.1:80/a?b".to_string(),
        backend: 0,
    };
    let sent = for_egress(head(), Some(&target));
    assert_eq!(sent.uri, "http://10.0.0.1:80/a?b");
    assert_eq!(sent.method, "PUT");
    assert_eq!(sent.version, Version::Http11);
    assert_eq!(sent.fields.len(), 1);
    assert_eq!(sent.fields[0].name, "accept");
    // Without a target the request goes where its own URI says.
    assert_eq!(for_egress(head(), None).uri, "https://www.example.com/a?b");
}

#[test]
fn the_breaker_learns_of_a_request_once() {
    let up = Upstream::with_breaker(
        RetryPolicy::none(),
        vec!["10.0.0.1:80".to_string()],
        BreakerConfig {
            threshold: 2,
            cooldown: Duration::from_secs(60),
        },
    );
    let policy = || RetryPolicy {
        attempts: 3,
        on_status: vec![503],
        on_connect_error: true,
    };
    let run = |replies: &[Reply]| {
        let mut f = match Forwarding::start(&up, policy(), Some("/")) {
            Ok(f) => f,
            Err(e) => panic!("got {e:?}"),
        };
        replies.iter().map(|r| f.on_reply(*r)).collect::<Vec<Step>>()
    };
    let failed = Reply::Failed {
        connect_error: true,
    };
    let steps = run(&[Reply::Response(503), failed, Reply::Response(503)]);
    assert_eq!(
        steps,
        vec![Step::Again, Step::Again, Step::Deliver { success: false }]
    );
    // Three attempts came to nothing, and that is one failure.
    assert_eq!(up.breaker_state(), BreakerState::Closed);
    run(&[Reply::Response(503), Reply::Response(200)]);
    run(&[Reply::Response(500)]);
    assert_eq!(up.breaker_state(), BreakerState::Closed);
    run(&[Reply::Failed {
        connect_error: false,
    }]);
    assert_eq!(up.breaker_state(), BreakerState::Open);
    assert!(matches!(
        Forwarding::start(&up, policy(), None),
        Err(ForwardError::BreakerOpen)
    ));
}

#[test]
fn clocks_read_whole_milliseconds() {
    assert_eq!(reading(Duration::new(1, 2_999_999)), 1_002);
    assert_eq!(reading(Duration::new(u64::MAX, 0)), u64::MAX);
    let pool = Pool::new(vec!["a:1".to_string()], BreakerConfig::default());
    assert_eq!(pool.now_at(None), 0);
    assert_eq!(pool.now_at(Some(1)), 0);
}

#[test]
fn a_listed_status_of_the_last_attempts_is_not_sent_again() {
    let listed = |attempts: u32| RetryPolicy {
        attempts,
        on_status: vec![503],
        on_connect_error: false,
    };
    assert_eq!(listed(3).decide_status(503, u32::MAX), RetryDecision::Stop);
    assert_eq!(listed(u32::MAX).decide_status(503, u32::MAX), RetryDecision::Stop);
    assert_eq!(listed(u32::MAX).decide_status(503, u32::MAX - 1), RetryDecision::Stop);
    assert_eq!(listed(u32::MAX).decide_status(503, u32::MAX - 2), RetryDecision::Retry);
    assert_eq!(listed(0).decide_status(503, u32::MAX), RetryDecision::Stop);
}

#[test]
fn opening_a_breaker_by_hand() {
    let mut t = trip(5, 0, 0);
    t.trip_at(10);
    assert_eq!((t.failures, t.open_until_ms), (5, 110));
    assert_eq!(t.check_at(10), Decision::Reject);
    assert_eq!(t.check_at(109), Decision::Reject);
    assert_eq!(t.snapshot_at(110), BreakerState::HalfOpen);
    t.trip_at(200);
    assert_eq!((t.failures, t.open_until_ms), (6, 300));
    let mut off = trip(0, 0, 0);
    off.trip_at(10);
    assert_eq!(off.check_at(10), Decision::Allow);
}

#[test]
fn failed_probes_take_a_backend_out_of_service() {
    let u = Upstream::with_addrs(
        RetryPolicy::none(),
        vec![sa("10.0.0.1:80"), sa("10.0.0.2:80")],
    );
    let cfg = ProbeConfig {
        unhealthy_threshold: 3,
        healthy_threshold: 2,
        ..probe_cfg(None)
    };
    let p = match Probe::new(u.addrs_arc(), u.breakers_arc(), cfg, None) {
        Ok(p) => p,
        Err(e) => panic!("got {e:?}"),
    };
    let mut s = Streak::new();
    assert_eq!(p.observe(0, &mut s, false), Report::Nothing);
    assert_eq!(p.observe(0, &mut s, false), Report::Nothing);
    assert_eq!(u.breaker_state(), BreakerState::Closed);
    assert_eq!(p.observe(0, &mut s, false), Report::Trip);
    assert_eq!(u.breaker_state(), BreakerState::HalfOpen);
    for _ in 0..4 {
        assert_eq!(u.pick_addr(), Some((sa("10.0.0.2:80"), 1)));
    }
    assert_eq!(p.observe(0, &mut s, true), Report::Nothing);
    assert_eq!(u.breaker_state(), BreakerState::HalfOpen);
    assert_eq!(p.observe(0, &mut s, true), Report::Success);
    assert_eq!(u.breaker_state(), BreakerState::Closed);
    // A backend that does not exist has no breaker to open.
    assert_eq!(p.observe(7, &mut Streak { fail: 9, ok: 0 }, false), Report::Trip);
    assert_eq!(u.breaker_state(), BreakerState::Closed);
}

fn two_backends() -> Pool {
    Pool::new(
        vec![sa("a:1"), sa("b:1")],
        BreakerConfig {
            threshold: 1,
            cooldown: Duration::from_millis(100),
        },
    )
}

#[test]
fn a_pool_aims_at_the_backend_that_is_next() {
    let mut p = two_backends();
    let uri = |r: Result<Option<Target>, ForwardError>| r.unwrap().unwrap().uri;
    assert_eq!(uri(p.aim_at(&vec![0, 0], Some("/x"))), "http://a:1/x");
    assert_eq!(uri(p.aim_at(&vec![0, 0], None)), "http://b:1/");
    // An address and a path that make no URI cost a turn too.
    assert!(matches!(p.aim_at(&vec![0, 0], Some("/ ")), Err(ForwardError::Body(_))));
    assert_eq!(uri(p.aim_at(&vec![0, 0], Some("/x"))), "http://b:1/x");
    p.observe_at(Some(0), false, 0);
    p.observe_at(Some(1), false, 0);
    assert!(matches!(
        p.aim_at(&vec![99, 99], Some("/")),
        Err(ForwardError::BreakerOpen)
    ));
    assert_eq!(uri(p.aim_at(&vec![100, 99], Some("/"))), "http://a:1/");
    let mut none = Pool::new(Vec::new(), BreakerConfig::default());
    assert!(matches!(none.aim_at(&Vec::new(), Some("/")), Ok(None)));
}

#[test]
fn a_pool_learns_how_a_request_ends() {
    let mut p = two_backends();
    let mut a = Attempts::start(policy_502_2x());
    assert_eq!(p.on_reply_at(&mut a, Some(1), Reply::Response(502), 5), Step::Again);
    assert_eq!(p.breaker_state_at(&vec![5, 5]), BreakerState::Closed);
    assert_eq!(
        p.on_reply_at(&mut a, Some(1), Reply::Response(502), 5),
        Step::Deliver { success: false }
    );
    assert_eq!(p.breaker_state_at(&vec![5, 5]), BreakerState::HalfOpen);
    assert_eq!(p.pick_at(&vec![5, 5]), Some((sa("a:1"), 0)));
    assert_eq!(p.pick_at(&vec![5, 5]), Some((sa("a:1"), 0)));
    assert_eq!(p.pick_at(&vec![5, 104]), Some((sa("a:1"), 0)));
    assert_eq!(p.pick_at(&vec![5, 105]), Some((sa("b:1"), 1)));
}

#[test]
fn a_pool_opens_the_breaker_of_a_probed_backend() {
    let mut p = Pool::new(vec![sa("a:1")], BreakerConfig::default());
    let mut s = Streak::new();
    for expected in [Report::Nothing, Report::Nothing, Report::Trip] {
        assert_eq!(p.observe_probe_at(0, &mut s, false, 3, 1, 1_000), expected);
    }
    assert_eq!(p.breaker_state_at(&vec![1_000]), BreakerState::Open);
    assert_eq!(p.breaker_state_at(&vec![30_999]), BreakerState::Open);
    assert_eq!(p.breaker_state_at(&vec![31_000]), BreakerState::HalfOpen);
    assert_eq!(p.observe_probe_at(0, &mut s, true, 3, 1, 2_000), Report::Success);
    assert_eq!(p.breaker_state_at(&vec![2_000]), BreakerState::Closed);
}

#[test]
fn half_open_backends_take_their_turns() {
    let mut p = two_backends();
    p.observe_at(Some(0), false, 0);
    p.observe_at(Some(1), false, 0);
    let picks: Vec<usize> = (0..4)
        .filter_map(|_| p.pick_at(&vec![100, 100]))
        .map(|(_, i)| i)
        .collect();
    assert_eq!(picks, vec![0, 1, 0, 1]);
}

#[test]
fn every_send_is_the_same_request() {
    let u = Upstream::with_addrs(RetryPolicy::none(), vec![sa("10.0.0.1:80"), sa("10.0.0.2:80")]);
    let _ = u.pick_addr();
    let request = || Request {
        head: Head {
            method: "POST".to_string(),
            uri: "/a?b=c".to_string(),
            version: Version::Http2,
            fields: vec![
                Field {
                    name: "HOST".to_string(),
                    value: b"www.example.com".to_vec(),
                },
                Field {
                    name: "x".to_string(),
                    value: b"1".to_vec(),
                },
            ],
        },
        body: b"payload".to_vec(),
    };
    let f = Forwarding::start(&u, policy_502_2x(), Some("/a?b=c")).unwrap();
    assert_eq!(f.backend(), Some(1));
    let mut s = f.carry(request());
    let same = |r: &Request| {
        assert_eq!(r.head.method, "POST");
        assert_eq!(r.head.uri, "http://10.0.0.2:80/a?b=c");
        assert_eq!(r.head.version, Version::Http11);
        assert_eq!(r.head.fields.len(), 1);
        assert_eq!(r.head.fields[0].name, "x");
        assert_eq!(r.body, b"payload");
    };
    same(s.request());
    assert_eq!(s.on_reply(Reply::Response(502)), Step::Again);
    same(s.request());
    assert_eq!(s.target().unwrap().backend, 1);
    assert_eq!(s.on_reply(Reply::Response(200)), Step::Deliver { success: true });
    same(s.request());
    // Without backends the request goes where its own URI says.
    let none = Upstream::new(RetryPolicy::none());
    let f = Forwarding::start(&none, RetryPolicy::none(), Some("/a?b=c")).unwrap();
    assert_eq!(f.backend(), None);
    let s = f.carry(request());
    assert!(s.target().is_none());
    assert_eq!(s.request().head.uri, "/a?b=c");
    assert_eq!(s.request().body, b"payload");
}

//! Startup, answers, reloads, probes and the upstreams page; ingress.
use conduit::config::duration::DurationStr;
use conduit::config::error::ConfigError;
use conduit::config::schema;
use conduit::config::schema::{
    default_alpn, default_connect_timeout, CertSpec, Config, HealthCheck, LoadBalancer,
    PoolLimits, RouteMatch, RuntimeMode, ServerConfig, Timeouts, TlsConfig, TlsMinVersion,
    UpstreamProtocol, UpstreamTls,
};
use conduit::config::workers::{WorkerCount, Workers};
use conduit::control::metrics::MetricsHandle;
use conduit::ingress::{by_alpn, relay, Exchange, ExchangeStep, HttpVersion, RequestBuffer, ServeError};
use conduit::io::serve::ShutdownReport;
use conduit::lifecycle::table::{Dispatch, DispatchError, RouteTable, UpstreamMap};
use conduit::proto::body::BodyFrame;
use conduit::server::bundle::{build_dispatch_bundle, commit, prepare, reload, SlotCounter};
use conduit::server::probes::{probe_config, probe_plans};
use conduit::server::proxy::{answer, conclude, error_response, finish, handle, surfaced, Sent};
use conduit::server::render::{render_lines, render_upstreams, Line};
use conduit::server::startup::{build_serve_spec, decide, exit_code, plane, Plane, Startup};
use conduit::time::Duration;
use conduit::transport::tls::{MultiCertResolver, PairFiles};
use conduit::upstream::breaker::BreakerState;
use conduit::upstream::forward::ForwardError;
use conduit::upstream::record;
use conduit::upstream::retry::RetryPolicy;
use conduit::upstream::Upstream;

fn upstream(name: &str, addr: &str) -> schema::Upstream {
    schema::Upstream {
        name: name.to_string(),
        addrs: vec![addr.to_string()],
        protocol: UpstreamProtocol::Http1,
        tls: None,
        lb: LoadBalancer::default(),
        pool: PoolLimits::default(),
        connect_timeout: default_connect_timeout(),
        health_check: None,
        retry: None,
    }
}

fn config(addr: &str) -> Config {
    Config {
        server: ServerConfig {
            runtime: RuntimeMode::default(),
            workers: Workers::from_unsigned(4).unwrap(),
            cpu_affinity: false,
            listen_http: vec!["0.0.0.0:80".to_string()],
            listen_https: Vec::new(),
            listen_h3: Vec::new(),
            admin_listen: "127.0.0.1:9090".to_string(),
            metrics_listen: "127.0.0.1:9091".to_string(),
        },
        tls: None,
        upstreams: vec![upstream("api", addr)],
        routes: vec![schema::Route {
            match_: RouteMatch {
                host: None,
                path_prefix: Some("/".to_string()),
                path_exact: None,
                path_regex: None,
                headers: Vec::new(),
            },
            upstream: "api".to_string(),
            timeouts: Timeouts::default(),
            retry: None,
            filters: Vec::new(),
        }],
    }
}

#[test]
fn exit_codes() {
    let bad: Result<Config, ConfigError> = Err(ConfigError::NoRoutes);
    assert_eq!(decide(&bad, false), Startup::Exit(2));
    assert_eq!(decide(&bad, true), Startup::Exit(2));
    assert_eq!(decide(&Ok(config("a:1")), true), Startup::Exit(0));
    assert_eq!(decide(&Ok(config("a:1")), false), Startup::Serve);
    let mut idle = config("a:1");
    idle.server.listen_http = Vec::new();
    assert_eq!(decide(&Ok(idle), false), Startup::Exit(78));
    let mut h3 = config("a:1");
    h3.server.listen_http = Vec::new();
    h3.server.listen_h3 = vec!["0.0.0.0:443".to_string()];
    assert_eq!(decide(&Ok(h3), false), Startup::Serve);
    let report = |accepted: u64, completed: u64| ShutdownReport {
        accepted,
        completed,
        elapsed: Duration::from_secs(1),
    };
    assert_eq!(exit_code(&report(3, 3)), 0);
    assert_eq!(exit_code(&report(3, 2)), 1);
}

#[test]
fn planes_need_addresses_and_tls() {
    let addrs = vec!["a:1".to_string()];
    assert_eq!(plane(&Vec::new(), true), Plane::Off);
    assert_eq!(plane(&addrs, false), Plane::MissingTls);
    assert_eq!(plane(&addrs, true), Plane::On);
}

#[test]
fn serve_spec_from_config() {
    let s = build_serve_spec(&config("a:1"), WorkerCount::new(16));
    assert_eq!(s.listeners, vec!["0.0.0.0:80"]);
    assert_eq!(s.workers.get(), 4);
    assert!(!s.cpu_affinity);
}

#[test]
fn answers_to_failures() {
    let get = |e: DispatchError| {
        let r = answer(&Err(e)).unwrap();
        assert_eq!(r.content_type, "text/plain");
        (r.status, r.body)
    };
    assert_eq!(
        get(DispatchError::NoRoute),
        (404, "conduit: no route matched\n")
    );
    assert_eq!(
        get(DispatchError::UpstreamNotRegistered {
            name: "u".to_string()
        }),
        (500, "conduit: route references unknown upstream\n")
    );
    assert_eq!(
        get(DispatchError::Upstream(ForwardError::BreakerOpen)),
        (503, "conduit: upstream breaker open\n")
    );
    assert_eq!(
        get(DispatchError::Upstream(ForwardError::Body("x".to_string()))),
        (502, "conduit: upstream unavailable\n")
    );
    assert_eq!(
        get(DispatchError::Upstream(ForwardError::Client {
            source: "x".to_string(),
            connect_error: true
        })),
        (502, "conduit: upstream unavailable\n")
    );
    assert_eq!(
        get(DispatchError::Timeout(Duration::from_secs(1))),
        (504, "conduit: upstream timed out\n")
    );
    assert!(answer(&Ok(200)).is_none());
    assert_eq!(error_response(418, "x").status, 418);
}

#[test]
fn requests_are_counted_by_outcome() {
    let mut m = MetricsHandle::new();
    let d = Duration::from_millis(3);
    let mut run = |r: Result<u16, DispatchError>| {
        m.observe_request_start();
        finish(&mut m, &r, d).map(|e| e.status)
    };
    assert_eq!(run(Ok(204)), None);
    assert_eq!(run(Err(DispatchError::NoRoute)), Some(404));
    assert_eq!(
        run(Err(DispatchError::UpstreamNotRegistered {
            name: "u".to_string()
        })),
        Some(500)
    );
    assert_eq!(
        run(Err(DispatchError::Upstream(ForwardError::BreakerOpen))),
        Some(503)
    );
    assert_eq!(run(Err(DispatchError::Timeout(d))), Some(504));
    assert_eq!(m.requests_total, 5);
    assert_eq!(m.responses_2xx, 1);
    assert_eq!(m.responses_4xx, 1);
    assert_eq!(m.responses_5xx, 3);
    assert_eq!(m.requests_no_route, 1);
    assert_eq!(m.requests_upstream_unknown, 1);
    assert_eq!(m.requests_upstream_failed, 2);
    assert_eq!(m.request_duration_us_sum, 15_000);
    let by_class = m.render_by_class();
    assert!(by_class.contains("_by_class_count{class=\"2xx\"} 1\n"));
    assert!(by_class.contains("_by_class_count{class=\"4xx\"} 1\n"));
    assert!(by_class.contains("_by_class_count{class=\"5xx\"} 3\n"));
    assert!(by_class.contains("_by_class_sum{class=\"5xx\"} 0.009\n"));
}

#[test]
fn workers_get_tables_of_their_own() {
    let b = build_dispatch_bundle(&config("a:1"), 3);
    assert_eq!(b.http_workers.len(), 3);
    let mut c = SlotCounter::new();
    let slots: Vec<usize> = (0..5).map(|_| c.take(3)).collect();
    assert_eq!(slots, vec![0, 1, 2, 0, 1]);
    // What one worker learns of a backend, another does not know.
    let u = b.http_workers[0].upstreams().get("api").unwrap();
    for _ in 0..5 {
        u.observe_breaker_outcome(Some(0), false);
    }
    assert_eq!(u.breaker_state(), BreakerState::Open);
    let other = b.http_workers[1].upstreams().get("api").unwrap();
    assert_eq!(other.breaker_state(), BreakerState::Closed);
}

fn addr_of(d: &Dispatch) -> String {
    d.upstreams().get("api").unwrap().addrs()[0].clone()
}

#[test]
fn a_bad_reload_changes_nothing() {
    let mut b = build_dispatch_bundle(&config("old:1"), 2);
    let mut certs: Option<MultiCertResolver> = None;
    let r = reload(&mut b, &mut certs, &Err(ConfigError::NoRoutes), &Vec::new());
    assert!(!r.reloaded);
    assert!(r.certs.is_none());
    assert_eq!(addr_of(&b.primary), "old:1");
    assert_eq!(addr_of(&b.http_workers[1]), "old:1");
}

#[test]
fn a_reload_replaces_every_table() {
    let mut b = build_dispatch_bundle(&config("old:1"), 2);
    let mut certs: Option<MultiCertResolver> = None;
    let r = reload(&mut b, &mut certs, &Ok(config("new:1")), &Vec::new());
    assert!(r.reloaded);
    assert!(r.certs.is_none());
    assert_eq!(addr_of(&b.primary), "new:1");
    assert_eq!(addr_of(&b.http_workers[0]), "new:1");
    assert_eq!(addr_of(&b.http_workers[1]), "new:1");
}

fn pair() -> PairFiles {
    let c = rcgen::generate_simple_self_signed(vec!["conduit.test".to_string()])
        .expect("rcgen self-signed");
    PairFiles {
        cert: Ok(c.cert.pem().into_bytes()),
        key: Ok(c.key_pair.serialize_pem().into_bytes()),
    }
}

fn with_tls(mut cfg: Config) -> Config {
    cfg.tls = Some(TlsConfig {
        certs: vec![CertSpec {
            sni: "a.com".to_string(),
            cert: "c".to_string(),
            key: "k".to_string(),
            ocsp_response: None,
        }],
        min_version: TlsMinVersion::default(),
        alpn: default_alpn(),
        session_tickets: true,
        ocsp_stapling: false,
        enable_0rtt: false,
    });
    cfg
}

#[test]
fn a_reload_keeps_certificates_that_have_no_successor() {
    let cfg = with_tls(config("old:1"));
    let specs = &cfg.tls.as_ref().unwrap().certs;
    let mut certs = MultiCertResolver::from_config(specs, &vec![pair()]).ok();
    let first = certs.as_ref().unwrap().lookup("a.com").chain[0].clone();
    let mut b = build_dispatch_bundle(&cfg, 1);
    let bad = PairFiles {
        cert: Err("gone".to_string()),
        key: Err("gone".to_string()),
    };
    let r = reload(&mut b, &mut certs, &Ok(with_tls(config("new:1"))), &vec![bad]);
    assert!(r.reloaded);
    assert!(matches!(r.certs, Some(Err(_))));
    assert_eq!(addr_of(&b.primary), "new:1");
    assert_eq!(certs.as_ref().unwrap().lookup("a.com").chain[0], first);
    let r = reload(&mut b, &mut certs, &Ok(with_tls(config("new:2"))), &vec![pair()]);
    assert!(matches!(r.certs, Some(Ok(()))));
    assert_ne!(certs.as_ref().unwrap().lookup("a.com").chain[0], first);
    let r = reload(&mut b, &mut certs, &Ok(config("new:3")), &Vec::new());
    assert!(r.certs.is_none());
    assert!(certs.is_some());
}

#[test]
fn probes_follow_the_configuration() {
    let mut cfg = config("a:1");
    cfg.upstreams[0].health_check = Some(HealthCheck {
        path: "/hz".to_string(),
        interval: DurationStr::from_secs(5),
        timeout: DurationStr::from_secs(1),
        unhealthy_threshold: 3,
        healthy_threshold: 2,
    });
    cfg.upstreams[0].tls = Some(UpstreamTls {
        server_name: None,
        ca: Some("ca.pem".to_string()),
        client_cert: None,
        client_key: None,
        verify: false,
    });
    cfg.upstreams.push(upstream("plain", "b:1"));
    assert!(probe_config(&cfg.upstreams[1]).is_none());
    let d = Dispatch::from_config(&cfg);
    let plans = probe_plans(&cfg, &d);
    assert_eq!(plans.len(), 1);
    assert_eq!(plans[0].name, "api");
    assert_eq!(*plans[0].addrs, vec!["a:1".to_string()]);
    assert_eq!(plans[0].cfg.path, "/hz");
    assert_eq!(plans[0].cfg.interval, Duration::from_secs(5));
    assert_eq!(plans[0].cfg.unhealthy_threshold, 3);
    let tls = plans[0].cfg.tls.as_ref().unwrap();
    assert_eq!(tls.ca.as_deref(), Some("ca.pem"));
    assert!(!tls.verify);
    for _ in 0..5 {
        record(&plans[0].breakers, Some(0), false);
    }
    let u = d.upstreams().get("api").unwrap();
    assert_eq!(u.breaker_state(), BreakerState::Open);
    // An upstream that is not registered is not probed.
    let empty = Dispatch::new(RouteTable::new(Vec::new()), UpstreamMap::new());
    assert!(probe_plans(&cfg, &empty).is_empty());
}

fn line(name: &str, addrs: &[&str], state: BreakerState) -> Line {
    Line {
        name: name.to_string(),
        addrs: addrs.iter().map(|a| a.to_string()).collect(),
        state,
    }
}

#[test]
fn upstreams_page() {
    let lines = vec![
        line("static", &["10.0.0.10:8080"], BreakerState::Open),
        line("Zeta", &[], BreakerState::HalfOpen),
        line(
            "api",
            &["10.0.0.1:8080", "10.0.0.2:8080"],
            BreakerState::Closed,
        ),
    ];
    assert_eq!(
        render_lines(&lines),
        "upstream Zeta addrs=[] breaker=half_open\n\
         upstream api addrs=[\"10.0.0.1:8080\",\"10.0.0.2:8080\"] breaker=closed\n\
         upstream static addrs=[\"10.0.0.10:8080\"] breaker=open\n"
    );
    assert_eq!(render_lines(&Vec::new()), "(no upstreams)\n");
}

#[test]
fn upstreams_page_of_a_dispatch() {
    let mut m = UpstreamMap::new();
    for name in ["b", "a"] {
        m.insert(
            name.to_string(),
            Upstream::with_addrs(RetryPolicy::none(), vec![format!("{name}:1")]),
        );
    }
    let d = Dispatch::new(RouteTable::new(Vec::new()), m);
    assert_eq!(
        render_upstreams(&d),
        "upstream a addrs=[\"a:1\"] breaker=closed\nupstream b addrs=[\"b:1\"] breaker=closed\n"
    );
    let none = Dispatch::new(RouteTable::new(Vec::new()), UpstreamMap::new());
    assert_eq!(render_upstreams(&none), "(no upstreams)\n");
}

#[test]
fn alpn_decides_the_protocol() {
    assert_eq!(by_alpn(&Some(b"h2".to_vec())), HttpVersion::H2);
    assert_eq!(by_alpn(&Some(b"http/1.1".to_vec())), HttpVersion::H1);
    assert_eq!(by_alpn(&Some(b"H2".to_vec())), HttpVersion::H1);
    assert_eq!(by_alpn(&Some(b"h2c".to_vec())), HttpVersion::H1);
    assert_eq!(by_alpn(&None), HttpVersion::H1);
}

#[test]
fn request_pieces_are_put_together() {
    let mut b = RequestBuffer::new();
    for piece in [&b"ab"[..], b"", b"c"] {
        b.receive(&piece.to_vec());
    }
    assert_eq!(b.finish(), b"abc");
}

#[test]
fn response_frames_are_relayed() {
    let mut x = Exchange::new();
    x.head_sent();
    match x.on_frame(Some(BodyFrame::Data(b"d".to_vec()))) {
        ExchangeStep::SendData(d) => assert_eq!(d, b"d"),
        other => panic!("got {other:?}"),
    }
    assert!(matches!(
        x.on_frame(Some(BodyFrame::Trailers(Vec::new()))),
        ExchangeStep::NextFrame
    ));
    assert!(matches!(x.on_frame(None), ExchangeStep::Finish));
    x.finished();
    assert!(matches!(relay(None), ExchangeStep::Finish));
}

#[test]
fn serve_error_messages() {
    assert_eq!(
        ServeError::Hyper("x".to_string()).message(),
        "hyper connection error"
    );
    assert_eq!(
        ServeError::H3Connection("closed".to_string()).message(),
        "h3 connection error: closed"
    );
}

#[test]
fn what_sending_comes_to() {
    let total = Duration::from_secs(7);
    let status = |sent: Sent| surfaced(&conclude(sent, total));
    assert_eq!(status(Sent::Answered(204)), 204);
    assert_eq!(status(Sent::Failed(ForwardError::BreakerOpen)), 503);
    assert_eq!(
        status(Sent::Failed(ForwardError::Client {
            source: "refused".to_string(),
            connect_error: true,
        })),
        502
    );
    assert_eq!(status(Sent::TimedOut), 504);
    match conclude(Sent::TimedOut, total) {
        Err(DispatchError::Timeout(t)) => assert_eq!(t, total),
        other => panic!("got {other:?}"),
    }
}

#[test]
fn a_reload_is_made_ready_before_anything_is_replaced() {
    let cfg = with_tls(config("old:1"));
    let specs = &cfg.tls.as_ref().unwrap().certs;
    let mut certs = MultiCertResolver::from_config(specs, &vec![pair()]).ok();
    let first = certs.as_ref().unwrap().lookup("a.com").chain[0].clone();
    let mut b = build_dispatch_bundle(&cfg, 1);
    let new = with_tls(config("new:1"));
    let next = prepare(&new, 1, true, &vec![pair()]);
    assert_eq!(addr_of(&b.primary), "old:1");
    assert_eq!(addr_of(&next.bundle.primary), "new:1");
    assert_eq!(next.bundle.http_workers.len(), 1);
    let made = match &next.certs {
        Some(Ok(c)) => c.lookup("a.com").chain[0].clone(),
        _ => panic!("no certificates"),
    };
    assert_ne!(made, first);
    let r = commit(&mut b, &mut certs, next);
    assert!(matches!(r.certs, Some(Ok(()))));
    assert_eq!(addr_of(&b.http_workers[0]), "new:1");
    assert_eq!(certs.as_ref().unwrap().lookup("a.com").chain[0], made);
    let unlooked = prepare(&new, 1, false, &vec![pair()]);
    assert!(unlooked.certs.is_none());
    let bad = PairFiles {
        cert: Err("gone".to_string()),
        key: Err("gone".to_string()),
    };
    let faulty = prepare(&new, 1, true, &vec![bad]);
    assert!(matches!(faulty.certs, Some(Err(_))));
    let r = commit(&mut b, &mut certs, faulty);
    assert!(matches!(r.certs, Some(Err(_))));
    assert_eq!(certs.as_ref().unwrap().lookup("a.com").chain[0], made);
}

#[test]
fn a_request_is_handled_by_its_route() {
    let d = Dispatch::from_config(&config("a:1"));
    let plan = || d.plan(None, &Vec::new(), "/x");
    assert_eq!(handle(plan(), Some(Sent::Answered(201))).unwrap(), 201);
    assert!(matches!(
        handle(plan(), Some(Sent::Failed(ForwardError::BreakerOpen))),
        Err(DispatchError::Upstream(ForwardError::BreakerOpen))
    ));
    match handle(plan(), Some(Sent::TimedOut)) {
        Err(DispatchError::Timeout(t)) => assert_eq!(t, Duration::from_secs(60)),
        other => panic!("got {other:?}"),
    }
    match handle(plan(), None) {
        Err(DispatchError::UpstreamNotRegistered { name }) => assert_eq!(name, "api"),
        other => panic!("got {other:?}"),
    }
    let empty = Dispatch::new(RouteTable::new(Vec::new()), UpstreamMap::new());
    assert!(matches!(
        handle(empty.plan(None, &Vec::new(), "/x"), None),
        Err(DispatchError::NoRoute)
    ));
    let unregistered = Dispatch::new(RouteTable::from_config(&config("a:1")), UpstreamMap::new());
    match handle(unregistered.plan(None, &Vec::new(), "/x"), Some(Sent::Answered(200))) {
        Err(DispatchError::UpstreamNotRegistered { name }) => assert_eq!(name, "api"),
        other => panic!("got {other:?}"),
    }
}

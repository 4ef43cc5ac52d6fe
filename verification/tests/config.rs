//! Configuration: durations, worker counts and the rules of a document.
use conduit::config::duration::{parse, DurationStr, ParseError};
use conduit::config::error::ConfigError;
use conduit::config::schema::{
    default_alpn, default_connect_timeout, default_hc_healthy_threshold, default_hc_path,
    default_hc_timeout, default_hc_unhealthy_threshold, default_pool_idle_timeout,
    default_pool_max_idle, default_pool_max_lifetime, default_timeout_connect,
    default_timeout_read, default_timeout_total, default_timeout_write, true_, CertSpec, Config,
    HealthCheck, LoadBalancer, PoolLimits, RetryPolicy, Route, RouteMatch, RuntimeMode,
    ServerConfig, Timeouts, TlsConfig, TlsMinVersion, Upstream, UpstreamProtocol, UpstreamTls,
};
use conduit::config::validate::{
    accept, check, check_filesystem, check_logic, insecure_allowed, CertFiles,
};
use conduit::config::workers::{WorkerCount, Workers};
use conduit::time::Duration;

fn server() -> ServerConfig {
    ServerConfig {
        runtime: RuntimeMode::default(),
        workers: Workers::default(),
        cpu_affinity: true,
        listen_http: vec!["0.0.0.0:80".to_string()],
        listen_https: Vec::new(),
        listen_h3: Vec::new(),
        admin_listen: "127.0.0.1:9090".to_string(),
        metrics_listen: "127.0.0.1:9091".to_string(),
    }
}

fn upstream(name: &str) -> Upstream {
    Upstream {
        name: name.to_string(),
        addrs: vec!["10.0.0.1:8080".to_string()],
        protocol: UpstreamProtocol::Http1,
        tls: None,
        lb: LoadBalancer::default(),
        pool: PoolLimits::default(),
        connect_timeout: default_connect_timeout(),
        health_check: None,
        retry: None,
    }
}

fn matching(host: Option<&str>, prefix: Option<&str>, exact: Option<&str>) -> RouteMatch {
    RouteMatch {
        host: host.map(str::to_string),
        path_prefix: prefix.map(str::to_string),
        path_exact: exact.map(str::to_string),
        path_regex: None,
        headers: Vec::new(),
    }
}

fn route(m: RouteMatch, upstream: &str) -> Route {
    Route {
        match_: m,
        upstream: upstream.to_string(),
        timeouts: Timeouts::default(),
        retry: None,
        filters: Vec::new(),
    }
}

fn min_valid() -> Config {
    Config {
        server: server(),
        tls: None,
        upstreams: vec![upstream("api")],
        routes: vec![route(matching(Some("example.com"), Some("/"), None), "api")],
    }
}

fn tls(certs: Vec<CertSpec>) -> TlsConfig {
    TlsConfig {
        certs,
        min_version: TlsMinVersion::default(),
        alpn: default_alpn(),
        session_tickets: true_(),
        ocsp_stapling: false,
        enable_0rtt: false,
    }
}

fn cert(sni: &str, cert: &str, key: &str) -> CertSpec {
    CertSpec {
        sni: sni.to_string(),
        cert: cert.to_string(),
        key: key.to_string(),
        ocsp_response: None,
    }
}

#[test]
fn ms() {
    assert_eq!(parse("100ms").unwrap(), Duration::from_millis(100));
}

#[test]
fn seconds() {
    assert_eq!(parse("5s").unwrap(), Duration::from_secs(5));
}

#[test]
fn minutes() {
    assert_eq!(parse("10m").unwrap(), Duration::from_secs(600));
}

#[test]
fn hours() {
    assert_eq!(parse("2h").unwrap(), Duration::from_secs(7_200));
}

#[test]
fn whitespace_tolerated() {
    assert_eq!(parse(" 5 s ").unwrap(), Duration::from_secs(5));
}

#[test]
fn rejects_empty() {
    assert!(matches!(parse(""), Err(ParseError::Empty)));
}

#[test]
fn rejects_no_unit() {
    assert!(matches!(parse("5"), Err(ParseError::MissingUnit)));
}

#[test]
fn rejects_no_number() {
    assert!(matches!(parse("s"), Err(ParseError::MissingNumber)));
}

#[test]
fn rejects_unknown_unit() {
    assert!(matches!(parse("5x"), Err(ParseError::UnknownUnit(_))));
}

#[test]
fn rejects_overflow() {
    assert!(matches!(
        parse("18446744073709551615h"),
        Err(ParseError::Overflow)
    ));
}

#[test]
fn deserialize_via_toml() {
    let doc: toml::Table = r#"d = "250ms""#.parse().unwrap();
    let d = DurationStr::new(parse(doc["d"].as_str().unwrap()).unwrap());
    assert_eq!(d.get(), Duration::from_millis(250));
}

#[test]
fn duration_messages() {
    assert_eq!(ParseError::Empty.message(), "duration string is empty");
    assert_eq!(
        parse("5").unwrap_err().message(),
        "duration is missing a unit (expected ms, s, m, or h)"
    );
    assert_eq!(parse("s").unwrap_err().message(), "duration is missing a number");
    assert_eq!(
        parse("18446744073709551616s").unwrap_err().message(),
        "duration value overflows"
    );
    assert_eq!(
        parse("5 x y").unwrap_err().message(),
        "unknown duration unit `x y` (expected ms, s, m, or h)"
    );
}

#[test]
fn duration_edges() {
    assert_eq!(parse("0s").unwrap(), Duration::from_secs(0));
    assert_eq!(
        parse("18446744073709551615s").unwrap(),
        Duration::from_secs(u64::MAX)
    );
    assert!(matches!(parse("307445734561825861m"), Err(ParseError::Overflow)));
    assert_eq!(
        parse("18446744073709551615ms").unwrap(),
        Duration::from_millis(u64::MAX)
    );
    assert_eq!(parse("\u{a0}7m\u{2003}").unwrap(), Duration::from_secs(420));
    assert!(matches!(parse("   "), Err(ParseError::Empty)));
    assert!(matches!(parse("-5s"), Err(ParseError::MissingNumber)));
}

#[test]
fn written_duration_reads_back() {
    for n in [0u64, 1, 9, 10, 99, 100, 12345] {
        assert_eq!(parse(&format!("{n}s")).unwrap(), Duration::from_secs(n));
        assert_eq!(parse(&format!("{n}s ")).unwrap(), Duration::from_secs(n));
        assert_eq!(parse(&format!("{n}ms")).unwrap(), Duration::from_millis(n));
    }
}

#[test]
fn auto_string() {
    let doc: toml::Table = r#"w = "auto""#.parse().unwrap();
    let w = Workers::from_text(doc["w"].as_str().unwrap()).unwrap();
    assert_eq!(w, Workers::Auto);
}

#[test]
fn integer_count() {
    let doc: toml::Table = "w = 4".parse().unwrap();
    let w = Workers::from_signed(doc["w"].as_integer().unwrap()).unwrap();
    assert_eq!(w, Workers::Count(WorkerCount::new(4).unwrap()));
}

#[test]
fn rejects_zero() {
    let doc: toml::Table = "w = 0".parse().unwrap();
    assert!(Workers::from_signed(doc["w"].as_integer().unwrap()).is_none());
    assert!(Workers::from_unsigned(0).is_none());
}

#[test]
fn rejects_negative() {
    let doc: toml::Table = "w = -1".parse().unwrap();
    assert!(Workers::from_signed(doc["w"].as_integer().unwrap()).is_none());
}

#[test]
fn rejects_unknown_string() {
    let doc: toml::Table = r#"w = "many""#.parse().unwrap();
    assert!(Workers::from_text(doc["w"].as_str().unwrap()).is_none());
}

#[test]
fn default_is_auto() {
    assert_eq!(Workers::default(), Workers::Auto);
}

#[test]
fn workers_resolve() {
    let three = WorkerCount::new(3);
    assert_eq!(Workers::Auto.resolve(three).get(), 3);
    assert_eq!(Workers::Auto.resolve(None).get(), 1);
    let eight = Workers::from_unsigned(8).unwrap();
    assert_eq!(eight.resolve(three).get(), 8);
    assert!(WorkerCount::new(0).is_none());
}

#[test]
fn minimal_is_valid() {
    let cfg = min_valid();
    assert!(check_logic(&cfg, false).is_ok());
    assert_eq!(cfg.upstreams.len(), 1);
    assert_eq!(cfg.routes.len(), 1);
}

#[test]
fn empty_routes_rejected() {
    let mut cfg = min_valid();
    cfg.server.listen_http = Vec::new();
    cfg.routes = Vec::new();
    assert!(matches!(check_logic(&cfg, false), Err(ConfigError::NoRoutes)));
}

#[test]
fn unknown_upstream_rejected() {
    let mut cfg = min_valid();
    cfg.routes = vec![route(matching(Some("example.com"), None, None), "missing")];
    match check_logic(&cfg, false) {
        Err(ConfigError::UnknownUpstream { index, name }) => {
            assert_eq!(index, 0);
            assert_eq!(name, "missing");
        }
        other => panic!("got {other:?}"),
    }
}

#[test]
fn duplicate_upstream_rejected() {
    let mut cfg = min_valid();
    let mut second = upstream("api");
    second.addrs = vec!["10.0.0.2:8080".to_string()];
    cfg.upstreams.push(second);
    cfg.routes = vec![route(matching(Some("example.com"), None, None), "api")];
    assert!(matches!(
        check_logic(&cfg, false),
        Err(ConfigError::DuplicateUpstream { .. })
    ));
}

#[test]
fn upstream_no_addrs_rejected() {
    let mut cfg = min_valid();
    cfg.upstreams[0].addrs = Vec::new();
    cfg.routes = vec![route(matching(Some("example.com"), None, None), "api")];
    assert!(matches!(
        check_logic(&cfg, false),
        Err(ConfigError::UpstreamNoAddrs { .. })
    ));
}

#[test]
fn empty_match_rejected() {
    let mut cfg = min_valid();
    cfg.routes = vec![route(matching(None, None, None), "api")];
    assert!(matches!(
        check_logic(&cfg, false),
        Err(ConfigError::RouteMatchEmpty { .. })
    ));
}

#[test]
fn path_conflict_rejected() {
    let mut cfg = min_valid();
    cfg.routes = vec![route(matching(None, Some("/"), Some("/foo")), "api")];
    assert!(matches!(
        check_logic(&cfg, false),
        Err(ConfigError::RoutePathConflict { .. })
    ));
}

#[test]
fn retry_attempts_zero_rejected() {
    let mut cfg = min_valid();
    let mut r = route(matching(Some("example.com"), None, None), "api");
    r.retry = Some(RetryPolicy {
        attempts: 0,
        on_status: Vec::new(),
        on_connect_error: false,
    });
    cfg.routes = vec![r];
    assert!(matches!(
        check_logic(&cfg, false),
        Err(ConfigError::RetryAttemptsZero { .. })
    ));
}

#[test]
fn https_without_tls_rejected() {
    let mut cfg = min_valid();
    cfg.server.listen_http = Vec::new();
    cfg.server.listen_https = vec!["0.0.0.0:443".to_string()];
    cfg.routes = vec![route(matching(Some("example.com"), None, None), "api")];
    assert!(matches!(
        check_logic(&cfg, false),
        Err(ConfigError::TlsRequired)
    ));
}

#[test]
fn h3_without_tls_rejected() {
    let mut cfg = min_valid();
    cfg.server.listen_http = Vec::new();
    cfg.server.listen_h3 = vec!["0.0.0.0:443".to_string()];
    cfg.routes = vec![route(matching(Some("example.com"), None, None), "api")];
    assert!(matches!(
        check_logic(&cfg, false),
        Err(ConfigError::TlsRequired)
    ));
}

#[test]
fn empty_tls_certs_rejected() {
    let mut cfg = min_valid();
    cfg.server.listen_http = Vec::new();
    cfg.tls = Some(tls(Vec::new()));
    cfg.routes = vec![route(matching(Some("example.com"), None, None), "api")];
    assert!(matches!(
        check_logic(&cfg, false),
        Err(ConfigError::TlsNoCerts)
    ));
}

#[test]
fn half_mtls_rejected() {
    let mut cfg = min_valid();
    cfg.upstreams[0].tls = Some(UpstreamTls {
        server_name: None,
        ca: None,
        client_cert: Some("c.pem".to_string()),
        client_key: None,
        verify: true,
    });
    let e = check_logic(&cfg, false).unwrap_err();
    assert!(matches!(e, ConfigError::UpstreamMtlsMismatch { .. }));
    assert_eq!(
        e.message(),
        "upstream `api` tls.client_cert and tls.client_key must both be set, or both unset"
    );
}

#[test]
fn insecure_tls_needs_opt_in() {
    let mut cfg = min_valid();
    cfg.upstreams[0].tls = Some(UpstreamTls {
        server_name: None,
        ca: None,
        client_cert: None,
        client_key: None,
        verify: false,
    });
    assert!(matches!(
        check_logic(&cfg, false),
        Err(ConfigError::UpstreamInsecureTlsNotOptedIn { .. })
    ));
    assert!(check_logic(&cfg, true).is_ok());
}

#[test]
fn zero_health_durations_rejected() {
    let hc = |interval: u64, timeout: u64| HealthCheck {
        path: "/healthz".to_string(),
        interval: DurationStr::from_secs(interval),
        timeout: DurationStr::from_secs(timeout),
        unhealthy_threshold: 3,
        healthy_threshold: 2,
    };
    let mut cfg = min_valid();
    cfg.upstreams[0].health_check = Some(hc(0, 1));
    assert_eq!(
        check_logic(&cfg, false).unwrap_err().message(),
        "upstream `api` health_check.interval must be > 0"
    );
    cfg.upstreams[0].health_check = Some(hc(5, 0));
    assert_eq!(
        check_logic(&cfg, false).unwrap_err().message(),
        "upstream `api` health_check.timeout must be > 0"
    );
    cfg.upstreams[0].health_check = Some(hc(5, 1));
    assert!(check_logic(&cfg, false).is_ok());
}

#[test]
fn https_with_present_cert_files_validates() {
    let mut cfg = min_valid();
    cfg.server.listen_http = Vec::new();
    cfg.server.listen_https = vec!["0.0.0.0:443".to_string()];
    cfg.tls = Some(tls(vec![cert("example.com", "dummy.crt", "dummy.key")]));
    let files = vec![CertFiles { cert: true, key: true }];
    assert!(check(&cfg, false, &files).is_ok());
    assert_eq!(cfg.upstreams.len(), 1);
    assert_eq!(cfg.routes.len(), 1);
}

#[test]
fn missing_cert_file_rejected() {
    let mut cfg = min_valid();
    cfg.server.listen_http = Vec::new();
    cfg.server.listen_https = vec!["0.0.0.0:443".to_string()];
    cfg.tls = Some(tls(vec![cert(
        "example.com",
        "/does/not/exist.crt",
        "/does/not/exist.key",
    )]));
    let files = vec![CertFiles { cert: false, key: false }];
    let err = check(&cfg, false, &files).unwrap_err();
    assert!(
        matches!(err, ConfigError::CertMissing { .. }),
        "got {err:?}"
    );
}

#[test]
fn missing_key_file_rejected() {
    let mut cfg = min_valid();
    cfg.server.listen_http = Vec::new();
    cfg.server.listen_https = vec!["0.0.0.0:443".to_string()];
    cfg.tls = Some(tls(vec![cert("example.com", "dummy.crt", "/does/not/exist.key")]));
    let files = vec![CertFiles { cert: true, key: false }];
    let err = check(&cfg, false, &files).unwrap_err();
    assert!(matches!(err, ConfigError::KeyMissing { .. }), "got {err:?}");
}

#[test]
fn first_missing_file_is_reported() {
    let mut cfg = min_valid();
    cfg.tls = Some(tls(vec![cert("a", "a.crt", "a.key"), cert("b", "b.crt", "b.key")]));
    let files = vec![
        CertFiles { cert: true, key: true },
        CertFiles { cert: true, key: false },
    ];
    match check_filesystem(&cfg, &files) {
        Err(ConfigError::KeyMissing { sni, path }) => {
            assert_eq!(sni, "b");
            assert_eq!(path, "b.key");
        }
        other => panic!("got {other:?}"),
    }
}

#[test]
fn document_faults_come_before_missing_files() {
    let mut cfg = min_valid();
    cfg.routes = Vec::new();
    cfg.tls = Some(tls(vec![cert("a", "a.crt", "a.key")]));
    let files = vec![CertFiles { cert: false, key: false }];
    assert!(matches!(
        check(&cfg, false, &files),
        Err(ConfigError::NoRoutes)
    ));
}

#[test]
fn timeouts_and_retry_round_trip() {
    let mut cfg = min_valid();
    cfg.server.listen_http = Vec::new();
    cfg.upstreams[0].protocol = UpstreamProtocol::H2;
    cfg.upstreams[0].connect_timeout = DurationStr::new(parse("500ms").unwrap());
    let span = |s: &str| DurationStr::new(parse(s).unwrap());
    let mut r = route(matching(Some("api.example.com"), None, None), "api");
    r.timeouts = Timeouts {
        connect: span("1s"),
        read: span("5s"),
        write: span("5s"),
        total: span("10s"),
    };
    r.retry = Some(RetryPolicy {
        attempts: 3,
        on_status: vec![502, 503, 504],
        on_connect_error: true,
    });
    cfg.routes = vec![r];
    check(&cfg, false, &Vec::new()).expect("parse");
    let r = &cfg.routes[0];
    assert_eq!(r.timeouts.read.get(), Duration::from_secs(5));
    let retry = r.retry.as_ref().expect("retry block present");
    assert_eq!(retry.attempts, 3);
    assert_eq!(retry.on_status, vec![502, 503, 504]);
    assert!(retry.on_connect_error);
}

#[test]
fn defaults_of_the_document() {
    assert_eq!(default_alpn(), vec!["h2", "http/1.1"]);
    assert!(true_());
    assert_eq!(default_connect_timeout().get(), Duration::from_secs(2));
    assert_eq!(default_pool_max_idle(), 64);
    assert_eq!(default_pool_idle_timeout().get(), Duration::from_secs(60));
    assert_eq!(default_pool_max_lifetime().get(), Duration::from_secs(600));
    assert_eq!(default_hc_path(), "/healthz");
    assert_eq!(default_hc_timeout().get(), Duration::from_secs(2));
    assert_eq!(default_hc_unhealthy_threshold(), 3);
    assert_eq!(default_hc_healthy_threshold(), 1);
    assert_eq!(default_timeout_connect().get(), Duration::from_secs(2));
    assert_eq!(default_timeout_read().get(), Duration::from_secs(30));
    assert_eq!(default_timeout_write().get(), Duration::from_secs(30));
    assert_eq!(default_timeout_total().get(), Duration::from_secs(60));
    assert_eq!(RuntimeMode::default(), RuntimeMode::Monoio);
    assert_eq!(TlsMinVersion::default(), TlsMinVersion::V1_2);
}

#[test]
fn config_error_messages() {
    assert_eq!(
        ConfigError::Read {
            path: "/x".to_string(),
            source: "gone".to_string()
        }
        .message(),
        "failed to read config file `/x`"
    );
    assert_eq!(ConfigError::Toml("bad".to_string()).message(), "config syntax error");
    assert_eq!(
        ConfigError::UnknownUpstream {
            index: 12,
            name: "u".to_string()
        }
        .message(),
        "route #12 references unknown upstream `u`"
    );
    assert_eq!(
        ConfigError::UpstreamNoAddrs {
            index: 0,
            name: "u".to_string()
        }
        .message(),
        "upstream #0 `u` has no addresses"
    );
    assert_eq!(
        ConfigError::KeyMissing {
            sni: "s".to_string(),
            path: "p".to_string()
        }
        .message(),
        "key file `p` for sni `s` does not exist or is not a regular file"
    );
    assert_eq!(
        ConfigError::RetryAttemptsZero { index: 3 }.message(),
        "route #3 has retry.attempts = 0; omit the retry block instead"
    );
}

#[test]
fn a_wrapped_span_comes_back() {
    let d = Duration::from_millis(1_500);
    let w = DurationStr(d);
    assert_eq!(w.get(), d);
    assert_eq!(Duration::from(w), d);
}

#[test]
fn only_a_document_that_keeps_the_rules_is_handed_out() {
    let ok = min_valid;
    assert_eq!(accept(Ok(ok()), false, &Vec::new()).unwrap().routes.len(), 1);
    let mut unknown = ok();
    unknown.routes[0].upstream = "other".to_string();
    let broken = check(&unknown, false, &Vec::new()).unwrap_err().message();
    assert_eq!(accept(Ok(unknown), false, &Vec::new()).unwrap_err().message(), broken);
    match accept(Err(ConfigError::Toml("line 1".to_string())), true, &Vec::new()) {
        Err(ConfigError::Toml(e)) => assert_eq!(e, "line 1"),
        other => panic!("got {other:?}"),
    }
    let mut secured = ok();
    secured.tls = Some(tls(vec![cert("a.com", "c", "k")]));
    let absent = vec![CertFiles {
        cert: true,
        key: false,
    }];
    match accept(Ok(secured), false, &absent) {
        Err(ConfigError::KeyMissing { sni, path }) => {
            assert_eq!((sni.as_str(), path.as_str()), ("a.com", "k"));
        }
        other => panic!("got {other:?}"),
    }
}

#[test]
fn only_a_one_lifts_the_certificate_checks() {
    assert!(insecure_allowed(Some("1")));
    assert!(!insecure_allowed(Some("0")));
    assert!(!insecure_allowed(Some("true")));
    assert!(!insecure_allowed(Some("")));
    assert!(!insecure_allowed(None));
}

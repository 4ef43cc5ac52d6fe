//! Routes, upstreams by name, and dispatch.
use conduit::config::duration::DurationStr;
use conduit::config::schema;
use conduit::config::schema::{
    default_connect_timeout, Config, HeaderMatch, LoadBalancer, PoolLimits, RouteMatch, RuntimeMode,
    ServerConfig, Timeouts, UpstreamProtocol,
};
use conduit::config::validate::check_logic;
use conduit::config::workers::Workers;
use conduit::lifecycle::glob::is_covered;
use conduit::lifecycle::table::{
    Dispatch, DispatchError, PathMatch, Route, RouteTable, UpstreamMap,
};
use conduit::proto::head::{host_text, Field};
use conduit::time::Duration;
use conduit::upstream::forward::ForwardError;
use conduit::upstream::retry::RetryPolicy;
use conduit::upstream::Upstream;

fn route(host: Option<&str>, path: PathMatch, upstream: &str) -> Route {
    Route::new(host.map(str::to_owned), path, upstream.to_owned())
}

fn table(routes: Vec<Route>) -> RouteTable {
    RouteTable::new(routes)
}

#[test]
fn first_matching_route_wins() {
    let t = table(vec![
        route(
            Some("api.example.com"),
            PathMatch::Prefix("/v1/".into()),
            "api-v1",
        ),
        route(Some("api.example.com"), PathMatch::Any, "api-default"),
    ]);
    let r = t.find(Some("api.example.com"), "/v1/items").unwrap();
    assert_eq!(r.upstream, "api-v1");
    let r = t.find(Some("api.example.com"), "/health").unwrap();
    assert_eq!(r.upstream, "api-default");
}

#[test]
fn host_match_is_case_insensitive() {
    let t = table(vec![route(Some("Example.COM"), PathMatch::Any, "u")]);
    assert!(t.find(Some("example.com"), "/").is_some());
    assert!(t.find(Some("EXAMPLE.COM"), "/").is_some());
}

#[test]
fn host_none_matches_only_no_host_routes() {
    let t = table(vec![
        route(Some("a.example.com"), PathMatch::Any, "a"),
        route(None, PathMatch::Any, "fallback"),
    ]);
    assert_eq!(t.find(None, "/").unwrap().upstream, "fallback");
    assert_eq!(t.find(Some("a.example.com"), "/").unwrap().upstream, "a");
    assert_eq!(
        t.find(Some("b.example.com"), "/").unwrap().upstream,
        "fallback"
    );
}

#[test]
fn path_exact_does_not_match_prefix() {
    let t = table(vec![route(None, PathMatch::Exact("/healthz".into()), "h")]);
    assert!(t.find(None, "/healthz").is_some());
    assert!(t.find(None, "/healthz/").is_none());
    assert!(t.find(None, "/healthzy").is_none());
}

#[test]
fn path_prefix_match() {
    let t = table(vec![route(None, PathMatch::Prefix("/api/".into()), "u")]);
    assert!(t.find(None, "/api/").is_some());
    assert!(t.find(None, "/api/users").is_some());
    assert!(t.find(None, "/api").is_none()); // no trailing slash
}

#[test]
fn no_match_returns_none() {
    let t = table(vec![route(Some("a.com"), PathMatch::Any, "a")]);
    assert!(t.find(Some("b.com"), "/").is_none());
    assert!(t.find(None, "/").is_none());
}

#[test]
fn upstream_map_round_trip() {
    let mut m = UpstreamMap::new();
    let u = Upstream::new(RetryPolicy::default());
    let prev = m.insert("api".to_string(), u.clone());
    assert!(prev.is_none());
    assert!(m.get("api").is_some());
    assert!(m.get("missing").is_none());
}

#[test]
fn inserting_twice_hands_back_the_first() {
    let mut m = UpstreamMap::default();
    let one = Upstream::with_addrs(RetryPolicy::none(), vec!["a:1".to_string()]);
    let two = Upstream::with_addrs(RetryPolicy::none(), vec!["b:1".to_string()]);
    assert!(m.insert("x".to_string(), one).is_none());
    assert!(m
        .insert("y".to_string(), Upstream::new(RetryPolicy::none()))
        .is_none());
    let prev = m.insert("x".to_string(), two).unwrap();
    assert_eq!(prev.addrs(), &vec!["a:1".to_string()]);
    assert_eq!(m.get("x").unwrap().addrs(), &vec!["b:1".to_string()]);
    assert_eq!(m.len(), 2);
    assert_eq!(m.entry(0).0, "x");
    assert_eq!(m.entry(1).0, "y");
}

fn config(host: Option<&str>, path: &PathMatch, upstream: &str) -> Config {
    let (prefix, exact) = match path {
        PathMatch::Any => (None, None),
        PathMatch::Prefix(p) => (Some(p.clone()), None),
        PathMatch::Exact(p) => (None, Some(p.clone())),
    };
    Config {
        server: ServerConfig {
            runtime: RuntimeMode::default(),
            workers: Workers::default(),
            cpu_affinity: true,
            listen_http: vec!["0.0.0.0:80".to_string()],
            listen_https: Vec::new(),
            listen_h3: Vec::new(),
            admin_listen: "127.0.0.1:9090".to_string(),
            metrics_listen: "127.0.0.1:9091".to_string(),
        },
        tls: None,
        upstreams: vec![schema::Upstream {
            name: upstream.to_string(),
            addrs: vec!["10.0.0.1:8080".to_string()],
            protocol: UpstreamProtocol::Http1,
            tls: None,
            lb: LoadBalancer::default(),
            pool: PoolLimits::default(),
            connect_timeout: default_connect_timeout(),
            health_check: None,
            retry: None,
        }],
        routes: vec![schema::Route {
            match_: RouteMatch {
                host: host.map(str::to_string),
                path_prefix: prefix,
                path_exact: exact,
                path_regex: None,
                headers: Vec::new(),
            },
            upstream: upstream.to_string(),
            timeouts: Timeouts::default(),
            retry: None,
            filters: Vec::new(),
        }],
    }
}

fn field(name: &str, value: &str) -> Field {
    Field {
        name: name.to_string(),
        value: value.as_bytes().to_vec(),
    }
}

#[test]
fn dispatch_routes_to_matching_upstream() {
    let mut upstreams = UpstreamMap::new();
    upstreams.insert("api".to_string(), Upstream::new(RetryPolicy::none()));
    let routes = RouteTable::from_config(&config(
        Some("api.example.com"),
        &PathMatch::Prefix("/".into()),
        "api",
    ));
    let dispatch = Dispatch::new(routes, upstreams);
    let fields = vec![field("accept", "*/*"), field("host", "api.example.com")];
    let plan = match dispatch.plan_for(&fields, "/") {
        Ok(p) => p,
        Err(e) => panic!("got {e:?}"),
    };
    assert_eq!(plan.name, "api");
    assert!(plan.upstream.addrs().is_empty());
    assert_eq!(plan.total_timeout, Duration::from_secs(60));
    assert_eq!(plan.read_timeout, Duration::from_secs(30));
}

#[test]
fn dispatch_returns_no_route_when_nothing_matches() {
    let upstreams = UpstreamMap::new();
    let routes =
        RouteTable::from_config(&config(Some("api.example.com"), &PathMatch::Any, "api"));
    let dispatch = Dispatch::new(routes, upstreams);
    match dispatch.plan_for(&vec![field("host", "other.example.com")], "/") {
        Err(DispatchError::NoRoute) => {}
        Err(other) => panic!("expected NoRoute, got {other:?}"),
        Ok(_) => panic!("expected NoRoute"),
    }
}

#[test]
fn only_a_host_that_is_text_is_looked_at() {
    let routes = table(vec![
        route(Some("a.com"), PathMatch::Any, "a"),
        route(None, PathMatch::Any, "fallback"),
    ]);
    let mut upstreams = UpstreamMap::new();
    for name in ["a", "fallback"] {
        upstreams.insert(name.to_string(), Upstream::new(RetryPolicy::none()));
    }
    let dispatch = Dispatch::new(routes, upstreams);
    let name = |fields: Vec<Field>| match dispatch.plan_for(&fields, "/") {
        Ok(p) => p.name,
        Err(e) => panic!("got {e:?}"),
    };
    assert_eq!(name(vec![field("Host", "A.com")]), "a");
    assert_eq!(name(Vec::new()), "fallback");
    // The first field decides, and a value that is not text names no host.
    assert_eq!(name(vec![field("host", "b.com"), field("host", "a.com")]), "fallback");
    let garbled = Field {
        name: "host".to_string(),
        value: vec![0xff],
    };
    assert_eq!(name(vec![garbled, field("host", "a.com")]), "fallback");
}

#[test]
fn unregistered_upstream_is_named() {
    let routes = table(vec![route(None, PathMatch::Any, "ghost")]);
    let dispatch = Dispatch::new(routes, UpstreamMap::new());
    match dispatch.plan(None, &Vec::new(), "/") {
        Err(DispatchError::UpstreamNotRegistered { name }) => assert_eq!(name, "ghost"),
        Err(other) => panic!("got {other:?}"),
        Ok(_) => panic!("expected an error"),
    }
}

#[test]
fn route_retry_rules_take_the_place_of_the_upstreams() {
    let mut upstreams = UpstreamMap::new();
    let own = RetryPolicy {
        attempts: 2,
        on_status: vec![500],
        on_connect_error: true,
    };
    upstreams.insert("u".to_string(), Upstream::new(own));
    let mut with_rules = route(Some("a"), PathMatch::Any, "u");
    with_rules.retry = Some(RetryPolicy {
        attempts: 5,
        on_status: vec![503],
        on_connect_error: false,
    });
    let dispatch = Dispatch::new(
        table(vec![with_rules, route(None, PathMatch::Any, "u")]),
        upstreams,
    );
    let policy = |host: &str| match dispatch.plan(Some(host), &Vec::new(), "/") {
        Ok(p) => (p.retry.attempts, p.retry.on_status, p.retry.on_connect_error),
        Err(e) => panic!("got {e:?}"),
    };
    assert_eq!(policy("a"), (5, vec![503], false));
    assert_eq!(policy("b"), (2, vec![500], true));
}

#[test]
fn routes_from_config() {
    let mut cfg = config(Some("h"), &PathMatch::Exact("/x".into()), "api");
    cfg.routes[0].match_.path_prefix = Some("/y".to_string());
    cfg.routes[0].timeouts.total = DurationStr::from_secs(7);
    cfg.routes[0].timeouts.read = DurationStr::from_secs(3);
    cfg.routes[0].retry = Some(schema::RetryPolicy {
        attempts: 3,
        on_status: vec![502],
        on_connect_error: true,
    });
    let r = Route::from_config(&cfg.routes[0]);
    assert!(matches!(&r.path, PathMatch::Exact(p) if p == "/x"));
    assert_eq!(r.host.as_deref(), Some("h"));
    assert_eq!(r.upstream, "api");
    assert_eq!(r.total_timeout, Duration::from_secs(7));
    assert_eq!(r.read_timeout, Duration::from_secs(3));
    assert_eq!(r.retry.as_ref().unwrap().attempts, 3);
    let t = RouteTable::from_config(&cfg);
    assert_eq!(t.len(), 1);
    assert!(!t.is_empty());
    assert!(table(Vec::new()).is_empty());
    assert_eq!(t.find_index(Some("H"), &Vec::new(), "/x"), Some(0));
    assert_eq!(t.find_index(Some("H"), &Vec::new(), "/y"), None);
}

#[test]
fn checked_configuration_resolves_its_routes() {
    let cfg = config(Some("h"), &PathMatch::Prefix("/".into()), "api");
    assert!(check_logic(&cfg, false).is_ok());
    let d = Dispatch::from_config(&cfg);
    let plan = match d.plan(Some("h"), &Vec::new(), "/a/b") {
        Ok(p) => p,
        Err(e) => panic!("got {e:?}"),
    };
    assert_eq!(plan.upstream.addrs(), &vec!["10.0.0.1:8080".to_string()]);
    assert_eq!(plan.retry.attempts, 0);
    assert_eq!(d.upstreams().len(), 1);
    assert!(d.clone().plan(Some("h"), &Vec::new(), "/").is_ok());
}

#[test]
fn later_upstream_of_the_same_name_stays() {
    let mut cfg = config(None, &PathMatch::Prefix("/".into()), "api");
    let mut second = config(None, &PathMatch::Any, "api").upstreams;
    second[0].addrs = vec!["10.0.0.2:8080".to_string()];
    cfg.upstreams.append(&mut second);
    let m = UpstreamMap::from_config(&cfg);
    assert_eq!(m.len(), 1);
    assert_eq!(
        m.get("api").unwrap().addrs(),
        &vec!["10.0.0.2:8080".to_string()]
    );
}

#[test]
fn host_header_text() {
    assert_eq!(host_text(&b"a.com:80".to_vec()), Some("a.com:80".to_string()));
    assert_eq!(host_text(&b"tab\tok ~".to_vec()), Some("tab\tok ~".to_string()));
    assert_eq!(host_text(&Vec::new()), Some(String::new()));
    for bad in [0u8, 10, 31, 127, 128, 255] {
        let value = vec![b'a', bad];
        assert_eq!(host_text(&value), None);
        if let Ok(h) = http::HeaderValue::from_bytes(&value) {
            assert!(h.to_str().is_err());
        }
    }
    for b in 0..=255u8 {
        if let Ok(h) = http::HeaderValue::from_bytes(&[b]) {
            assert_eq!(
                host_text(&vec![b]),
                h.to_str().ok().map(str::to_string)
            );
        }
    }
}

#[test]
fn dispatch_error_messages() {
    assert_eq!(
        DispatchError::NoRoute.message(),
        "no route matched the request"
    );
    assert_eq!(
        DispatchError::UpstreamNotRegistered {
            name: "u".to_string()
        }
        .message(),
        "route references upstream `u` which is not registered"
    );
    assert_eq!(
        DispatchError::Upstream(ForwardError::BreakerOpen).message(),
        "upstream forward failed"
    );
    assert_eq!(
        DispatchError::Timeout(Duration::from_secs(1)).message(),
        "request exceeded route total timeout"
    );
}

#[test]
fn a_star_stands_for_any_run_of_characters() {
    for (pattern, name, expected) in [
        ("", "", true),
        ("", "a", false),
        ("a", "", false),
        ("abc", "abc", true),
        ("abc", "abd", false),
        ("*", "", true),
        ("*", "x.org", true),
        ("*.example.com", "api.example.com", true),
        ("*.example.com", "a.b.example.com", true),
        ("*.example.com", ".example.com", true),
        ("*.example.com", "example.com", false),
        ("*.example.com", "api.example.org", false),
        ("api.*", "api.example.com", true),
        ("api.*", "www.example.com", false),
        ("a*b*c", "a-b-b-c", true),
        ("a*b*c", "a-c-b", false),
        ("**", "x", true),
    ] {
        assert_eq!(is_covered(pattern, name), expected, "{pattern} {name}");
    }
}

#[test]
fn host_patterns_choose_the_route() {
    let t = table(vec![
        route(Some("*.Example.com"), PathMatch::Any, "below"),
        route(Some("example.com"), PathMatch::Any, "top"),
        route(Some("*"), PathMatch::Any, "any"),
    ]);
    let name = |host: &str| t.find(Some(host), "/").unwrap().upstream.clone();
    assert_eq!(name("api.example.com"), "below");
    assert_eq!(name("API.EXAMPLE.COM"), "below");
    assert_eq!(name("example.com"), "top");
    assert_eq!(name("x.org"), "any");
    assert!(t.find(None, "/").is_none());
}

#[test]
fn all_listed_headers_have_to_match() {
    let mut cfg = config(Some("h"), &PathMatch::Prefix("/".into()), "api");
    cfg.routes[0].match_.headers = vec![
        HeaderMatch {
            name: "X-Canary".to_string(),
            value: "yes".to_string(),
        },
        HeaderMatch {
            name: "x-region".to_string(),
            value: "\u{e9}u".to_string(),
        },
    ];
    let mut rest = config(Some("h"), &PathMatch::Prefix("/".into()), "api");
    cfg.routes.append(&mut rest.routes);
    let t = RouteTable::from_config(&cfg);
    let index = |fields: Vec<Field>| t.find_index(Some("h"), &fields, "/");
    let canary = || field("x-canary", "yes");
    let region = || field("X-Region", "\u{e9}u");
    assert_eq!(index(vec![canary(), region()]), Some(0));
    assert_eq!(index(vec![region(), field("accept", "*/*"), canary()]), Some(0));
    assert_eq!(index(vec![field("x-canary", "no"), canary(), region()]), Some(0));
    // One that is missing, or has another value, sends the request on.
    assert_eq!(index(vec![canary()]), Some(1));
    assert_eq!(index(vec![field("x-canary", "YES"), region()]), Some(1));
    assert_eq!(index(vec![field("x-canary", "yes "), region()]), Some(1));
    assert_eq!(index(Vec::new()), Some(1));
    assert_eq!(t.find(Some("h"), "/").unwrap().headers.len(), 0);
    let found = t.find_for(Some("h"), &vec![canary(), region()], "/").unwrap();
    assert_eq!(found.headers.len(), 2);
    let d = Dispatch::from_config(&cfg);
    assert!(d.plan_for(&vec![field("host", "h"), canary(), region()], "/").is_ok());
}

#[test]
fn names_are_listed_once_in_the_order_of_registration() {
    let mut m = UpstreamMap::new();
    for name in ["b", "a", "b", "c", "a"] {
        let _ = m.insert(name.to_string(), Upstream::new(RetryPolicy::none()));
    }
    let names = |m: &UpstreamMap| {
        (0..m.len()).map(|i| m.entry(i).0.clone()).collect::<Vec<String>>()
    };
    assert_eq!(names(&m), vec!["b", "a", "c"]);
    let mut cfg = config(None, &PathMatch::Any, "x");
    for name in ["y", "x", "z"] {
        cfg.upstreams.append(&mut config(None, &PathMatch::Any, name).upstreams);
    }
    assert_eq!(names(&UpstreamMap::from_config(&cfg)), vec!["x", "y", "z"]);
}

#[test]
fn upstream_retry_rules_serve_routes_without_their_own() {
    let mut cfg = config(Some("a"), &PathMatch::Any, "api");
    let mut second = config(Some("b"), &PathMatch::Any, "api");
    cfg.routes.append(&mut second.routes);
    let rules = |attempts: u32, status: u16| schema::RetryPolicy {
        attempts,
        on_status: vec![status],
        on_connect_error: true,
    };
    cfg.upstreams[0].retry = Some(rules(2, 502));
    cfg.routes[1].retry = Some(rules(4, 503));
    let d = Dispatch::from_config(&cfg);
    let policy = |host: &str| match d.plan(Some(host), &Vec::new(), "/") {
        Ok(p) => (p.retry.attempts, p.retry.on_status, p.retry.on_connect_error),
        Err(e) => panic!("got {e:?}"),
    };
    assert_eq!(policy("a"), (2, vec![502], true));
    assert_eq!(policy("b"), (4, vec![503], true));
}

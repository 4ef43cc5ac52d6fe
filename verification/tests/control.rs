//! Counters and the admin endpoint.
use conduit::control::admin::{gauges, handle, plain_text, AdminError};
use conduit::control::metrics::MetricsHandle;
use conduit::time::Duration;

#[test]
fn plain_text_builds() {
    let r = plain_text(200, "x");
    assert_eq!(r.status, 200);
    assert_eq!(r.body, "x");
}

#[test]
fn header_set_correctly() {
    let r = plain_text(404, "nope\n");
    assert_eq!(r.status, 404);
    assert_eq!(r.content_type.as_bytes(), &b"text/plain; charset=utf-8"[..]);
}

#[test]
fn admin_pages() {
    let page = |method: &str, path: &str| {
        let r = handle(method, path, "METRICS", "UPSTREAMS");
        (r.status, r.body)
    };
    assert_eq!(page("GET", "/health"), (200, "ok\n".to_string()));
    assert_eq!(page("GET", "/ready"), (200, "ready\n".to_string()));
    assert_eq!(page("GET", "/metrics"), (200, "METRICS".to_string()));
    assert_eq!(page("GET", "/upstreams"), (200, "UPSTREAMS".to_string()));
    assert_eq!(
        page("GET", "/"),
        (200, "conduit admin\nendpoints: /health /ready\n".to_string())
    );
    assert_eq!(page("GET", "/health/"), (404, "not found\n".to_string()));
}

#[test]
fn only_get_is_answered() {
    for path in ["/health", "/ready", "/metrics", "/upstreams", "/"] {
        assert_eq!(handle("POST", path, "m", "u").status, 404);
        assert_eq!(handle("get", path, "m", "u").status, 404);
    }
}

#[test]
fn admin_error_message() {
    let e = AdminError::Bind {
        addr: "127.0.0.1:9".to_string(),
        source: "in use".to_string(),
    };
    assert_eq!(e.message(), "admin bind failed for 127.0.0.1:9");
}

#[test]
fn new_starts_at_zero() {
    let m = MetricsHandle::new();
    assert!(m.render().contains("conduit_requests_total 0"));
    assert!(m
        .render()
        .contains("conduit_responses_total{class=\"2xx\"} 0"));
}

#[test]
fn observe_status_bins_correctly() {
    let mut m = MetricsHandle::new();
    m.observe_status(200);
    m.observe_status(204);
    m.observe_status(301);
    m.observe_status(404);
    m.observe_status(503);
    m.observe_status(100); // ignored
    let out = m.render();
    assert!(out.contains("conduit_responses_total{class=\"2xx\"} 2"));
    assert!(out.contains("conduit_responses_total{class=\"3xx\"} 1"));
    assert!(out.contains("conduit_responses_total{class=\"4xx\"} 1"));
    assert!(out.contains("conduit_responses_total{class=\"5xx\"} 1"));
}

#[test]
fn histogram_buckets_are_cumulative() {
    let mut m = MetricsHandle::new();
    // 5ms request: falls into le=0.005 and every larger bucket.
    m.observe_request_start();
    m.observe_request_duration(Duration::from_millis(5));
    // 200ms request: falls into le=0.25 and larger.
    m.observe_request_start();
    m.observe_request_duration(Duration::from_millis(200));
    let out = m.render();
    // Both observations are in the 0.25 bucket and beyond.
    assert!(out.contains("conduit_request_duration_seconds_bucket{le=\"0.25\"} 2"));
    // Only the 5ms one is in 0.005.
    assert!(out.contains("conduit_request_duration_seconds_bucket{le=\"0.005\"} 1"));
    // Nothing in 0.001.
    assert!(out.contains("conduit_request_duration_seconds_bucket{le=\"0.001\"} 0"));
    // +Inf must equal requests_total.
    assert!(out.contains("conduit_request_duration_seconds_bucket{le=\"+Inf\"} 2"));
    assert!(out.contains("conduit_request_duration_seconds_count 2"));
    // Sum is 0.005 + 0.200 = 0.205.
    let line = out
        .lines()
        .find(|l| l.starts_with("conduit_request_duration_seconds_sum "))
        .expect("sum line");
    let value: f64 = line
        .trim_start_matches("conduit_request_duration_seconds_sum ")
        .parse()
        .expect("sum is numeric");
    assert!(
        (0.20..=0.21).contains(&value),
        "sum was {value}, expected ~0.205",
    );
}

#[test]
fn outcome_counters_independent() {
    let mut m = MetricsHandle::new();
    m.observe_request_start();
    m.observe_no_route();
    m.observe_request_start();
    m.observe_upstream_failed();
    let out = m.render();
    assert!(out.contains("conduit_requests_total 2"));
    assert!(out.contains("conduit_requests_no_route_total 1"));
    assert!(out.contains("conduit_requests_upstream_failed_total 1"));
    assert!(out.contains("conduit_requests_upstream_unknown_total 0"));
}

#[test]
fn exposition_in_full() {
    let mut m = MetricsHandle::new();
    m.observe_request_start();
    m.observe_request_duration(Duration::new(1, 250_000_000));
    m.observe_upstream_unknown();
    m.observe_status(500);
    let expected = "# HELP conduit_requests_total Total requests observed by the data plane.\n\
        # TYPE conduit_requests_total counter\n\
        conduit_requests_total 1\n\
        # HELP conduit_requests_no_route_total Requests that did not match any route.\n\
        # TYPE conduit_requests_no_route_total counter\n\
        conduit_requests_no_route_total 0\n\
        # HELP conduit_requests_upstream_unknown_total Routes referencing an unregistered upstream.\n\
        # TYPE conduit_requests_upstream_unknown_total counter\n\
        conduit_requests_upstream_unknown_total 1\n\
        # HELP conduit_requests_upstream_failed_total Upstream forward failures.\n\
        # TYPE conduit_requests_upstream_failed_total counter\n\
        conduit_requests_upstream_failed_total 0\n\
        # HELP conduit_responses_total Responses by status class.\n\
        # TYPE conduit_responses_total counter\n\
        conduit_responses_total{class=\"2xx\"} 0\n\
        conduit_responses_total{class=\"3xx\"} 0\n\
        conduit_responses_total{class=\"4xx\"} 0\n\
        conduit_responses_total{class=\"5xx\"} 1\n\
        # HELP conduit_request_duration_seconds Wall-clock latency of proxied requests.\n\
        # TYPE conduit_request_duration_seconds histogram\n\
        conduit_request_duration_seconds_bucket{le=\"0.001\"} 0\n\
        conduit_request_duration_seconds_bucket{le=\"0.005\"} 0\n\
        conduit_request_duration_seconds_bucket{le=\"0.01\"} 0\n\
        conduit_request_duration_seconds_bucket{le=\"0.025\"} 0\n\
        conduit_request_duration_seconds_bucket{le=\"0.05\"} 0\n\
        conduit_request_duration_seconds_bucket{le=\"0.1\"} 0\n\
        conduit_request_duration_seconds_bucket{le=\"0.25\"} 0\n\
        conduit_request_duration_seconds_bucket{le=\"0.5\"} 0\n\
        conduit_request_duration_seconds_bucket{le=\"1\"} 0\n\
        conduit_request_duration_seconds_bucket{le=\"2.5\"} 1\n\
        conduit_request_duration_seconds_bucket{le=\"5\"} 1\n\
        conduit_request_duration_seconds_bucket{le=\"10\"} 1\n\
        conduit_request_duration_seconds_bucket{le=\"+Inf\"} 1\n\
        conduit_request_duration_seconds_count 1\n\
        conduit_request_duration_seconds_sum 1.25\n";
    assert_eq!(m.render(), expected);
}

#[test]
fn counters_start_again_behind_their_largest_value() {
    let mut m = MetricsHandle::new();
    m.requests_total = u64::MAX;
    m.observe_request_start();
    assert_eq!(m.requests_total, 0);
    m.request_duration_us_sum = u64::MAX;
    m.observe_request_duration(Duration::from_millis(1));
    assert_eq!(m.request_duration_us_sum, 999);
}

#[test]
fn bucket_bounds_are_inclusive() {
    let mut m = MetricsHandle::new();
    m.observe_request_duration(Duration::new(0, 1_000_000));
    m.observe_request_duration(Duration::new(0, 1_000_001));
    m.observe_request_duration(Duration::new(10, 1));
    let out = m.render();
    assert!(out.contains("bucket{le=\"0.001\"} 1\n"));
    assert!(out.contains("bucket{le=\"0.005\"} 2\n"));
    assert!(out.contains("bucket{le=\"10\"} 2\n"));
}

#[test]
fn durations_are_split_by_class() {
    let mut m = MetricsHandle::new();
    m.observe_class_duration(Duration::from_millis(5), 200);
    m.observe_class_duration(Duration::from_millis(200), 204);
    m.observe_class_duration(Duration::from_secs(20), 502);
    m.observe_class_duration(Duration::from_secs(20), 100);
    let out = m.render_by_class();
    let name = "conduit_request_duration_seconds_by_class";
    assert!(out.starts_with(&format!(
        "# HELP {name} Wall-clock latency of proxied requests by status class.\n\
         # TYPE {name} histogram\n\
         {name}_bucket{{class=\"2xx\",le=\"0.001\"}} 0\n\
         {name}_bucket{{class=\"2xx\",le=\"0.005\"}} 1\n"
    )));
    assert!(out.contains(&format!("{name}_bucket{{class=\"2xx\",le=\"0.25\"}} 2\n")));
    assert!(out.contains(&format!(
        "{name}_bucket{{class=\"2xx\",le=\"+Inf\"}} 2\n\
         {name}_count{{class=\"2xx\"}} 2\n\
         {name}_sum{{class=\"2xx\"}} 0.205\n"
    )));
    assert!(out.contains(&format!("{name}_count{{class=\"3xx\"}} 0\n")));
    assert!(out.contains(&format!("{name}_sum{{class=\"4xx\"}} 0\n")));
    assert!(out.ends_with(&format!(
        "{name}_bucket{{class=\"5xx\",le=\"10\"}} 0\n\
         {name}_bucket{{class=\"5xx\",le=\"+Inf\"}} 1\n\
         {name}_count{{class=\"5xx\"}} 1\n\
         {name}_sum{{class=\"5xx\"}} 20\n"
    )));
    assert_eq!(out.lines().count(), 2 + 4 * 15);
    assert!(!m.render().contains("by_class"));
}

#[test]
fn histograms_count_through_mixed_events() {
    let mut m = MetricsHandle::new();
    for (ms, status) in [(1, 200), (7, 404), (30, 200), (20_000, 502)] {
        m.observe_request_start();
        m.observe_request_duration(Duration::from_millis(ms));
        m.observe_class_duration(Duration::from_millis(ms), status);
        m.observe_status(status);
        m.observe_no_route();
    }
    m.observe_request_start();
    assert_eq!(m.requests_total, 5);
    assert_eq!(m.requests_no_route, 4);
    assert_eq!(m.buckets, [1, 1, 2, 2, 3, 3, 3, 3, 3, 3, 3, 3]);
    assert_eq!(m.class_2xx.buckets, [1, 1, 1, 1, 2, 2, 2, 2, 2, 2, 2, 2]);
    assert_eq!(m.class_2xx.count, 2);
    assert_eq!(m.class_5xx.buckets, [0; 12]);
    assert_eq!(m.class_5xx.count, 1);
    assert_eq!((m.responses_2xx, m.responses_4xx, m.responses_5xx), (2, 1, 1));
    assert_eq!(m.request_duration_us_sum, 20_038_000);
}

#[test]
fn gauges_of_the_process() {
    assert_eq!(
        gauges(61, "0.1.0"),
        "# HELP conduit_uptime_seconds Seconds since the process started.\n\
         # TYPE conduit_uptime_seconds gauge\n\
         conduit_uptime_seconds 61\n\
         # HELP conduit_build_info Build information.\n\
         # TYPE conduit_build_info gauge\n\
         conduit_build_info{version=\"0.1.0\"} 1\n"
    );
}

//! The records of a configuration document.
//!
//! Socket addresses and file paths are held in their textual form. Rules that
//! cross fields live in `validate`; everything here is local to one record.
use vstd::prelude::*;

use crate::config::duration::DurationStr;
use crate::config::workers::Workers;

verus! {

/// The whole configuration document.
#[derive(Debug)]
pub struct Config {
    /// Server, runtime and listener settings.
    pub server: ServerConfig,
    /// TLS termination. Required where `server.listen_https` or
    /// `server.listen_h3` is non-empty.
    pub tls: Option<TlsConfig>,
    /// Upstream pools, which routes name.
    pub upstreams: Vec<Upstream>,
    /// Routing rules, in the order in which they are tried.
    pub routes: Vec<Route>,
}

/// Server-wide settings.
#[derive(Debug)]
pub struct ServerConfig {
    /// Runtime backend.
    pub runtime: RuntimeMode,
    /// Worker count.
    pub workers: Workers,
    /// Pin worker N to core N. Ignored on platforms without affinity.
    pub cpu_affinity: bool,
    /// Plain HTTP listeners.
    pub listen_http: Vec<String>,
    /// HTTPS (TCP and TLS) listeners.
    pub listen_https: Vec<String>,
    /// HTTP/3 (UDP and QUIC) listeners.
    pub listen_h3: Vec<String>,
    /// Listener of the admin endpoints.
    pub admin_listen: String,
    /// Listener of the Prometheus endpoint.
    pub metrics_listen: String,
}

/// Runtime backend.
#[derive(Debug, Clone, Copy, PartialEq, Eq, Structural)]
pub enum RuntimeMode {
    /// monoio, `io_uring`, one thread per core.
    Monoio,
    /// tokio. For comparison and portability.
    Tokio,
}

impl Default for RuntimeMode {
    fn default() -> (r: RuntimeMode)
        ensures
            r == RuntimeMode::Monoio,
    {
        RuntimeMode::Monoio
    }
}

/// TLS termination.
#[derive(Debug)]
pub struct TlsConfig {
    /// One certificate per SNI host name, or per `*.host` wildcard.
    pub certs: Vec<CertSpec>,
    /// Minimum negotiated TLS version.
    pub min_version: TlsMinVersion,
    /// ALPN identifiers offered to clients, in preference order.
    pub alpn: Vec<String>,
    /// Issue session resumption tickets.
    pub session_tickets: bool,
    /// Staple OCSP responses.
    pub ocsp_stapling: bool,
    /// Allow QUIC 0-RTT early data. Early data can be replayed by whoever is
    /// on the path, so it is off unless asked for.
    pub enable_0rtt: bool,
}

/// Minimum negotiated TLS version.
#[derive(Debug, Clone, Copy, PartialEq, Eq, Structural)]
pub enum TlsMinVersion {
    /// TLS 1.2.
    V1_2,
    /// TLS 1.3.
    V1_3,
}

impl Default for TlsMinVersion {
    fn default() -> (r: TlsMinVersion)
        ensures
            r == TlsMinVersion::V1_2,
    {
        TlsMinVersion::V1_2
    }
}

/// One SNI host name with its certificate and key.
#[derive(Debug)]
pub struct CertSpec {
    /// SNI host name; may begin with `*.`.
    pub sni: String,
    /// Path of the PEM certificate chain.
    pub cert: String,
    /// Path of the PEM private key.
    pub key: String,
    /// Path of a DER OCSP response fetched beforehand.
    pub ocsp_response: Option<String>,
}

/// One upstream cluster.
#[derive(Debug)]
pub struct Upstream {
    /// Cluster name, unique across the document.
    pub name: String,
    /// Backend addresses, at least one.
    pub addrs: Vec<String>,
    /// Wire protocol towards the backend.
    pub protocol: UpstreamProtocol,
    /// TLS towards the backend; absent means plaintext.
    pub tls: Option<UpstreamTls>,
    /// Load-balancing algorithm.
    pub lb: LoadBalancer,
    /// Connection-pool limits.
    pub pool: PoolLimits,
    /// Connect timeout to one backend address.
    pub connect_timeout: DurationStr,
    /// Active health checks. Absent means passive ejection only.
    pub health_check: Option<HealthCheck>,
    /// Retry rules, for routes that have none of their own. Absent means no
    /// retries.
    pub retry: Option<RetryPolicy>,
}

/// Protocol spoken to an upstream.
#[derive(Debug, Clone, Copy, PartialEq, Eq, Structural)]
pub enum UpstreamProtocol {
    /// HTTP/1.1.
    Http1,
    /// HTTP/2.
    H2,
}

/// Load-balancing algorithm of an upstream cluster.
#[derive(Debug, Clone, Copy, PartialEq, Eq, Structural)]
pub enum LoadBalancer {
    /// Round-robin over healthy backends.
    RoundRobin,
    /// The backend with the fewest requests in flight.
    LeastConn,
    /// The lighter of two backends picked at random.
    P2c,
    /// Consistent hash over the request key.
    ConsistentHash,
}

impl Default for LoadBalancer {
    fn default() -> (r: LoadBalancer)
        ensures
            r == LoadBalancer::RoundRobin,
    {
        LoadBalancer::RoundRobin
    }
}

/// TLS parameters towards a backend.
#[derive(Debug)]
pub struct UpstreamTls {
    /// SNI sent to the backend.
    pub server_name: Option<String>,
    /// Path of the CA bundle that the backend certificate is held against.
    pub ca: Option<String>,
    /// Path of the client certificate.
    pub client_cert: Option<String>,
    /// Path of the client key.
    pub client_key: Option<String>,
    /// Hold the backend certificate against the CA bundle.
    pub verify: bool,
}

/// Limits of a connection pool.
#[derive(Debug, Clone, Copy)]
pub struct PoolLimits {
    /// Idle connections kept per backend host.
    pub max_idle_per_host: u32,
    /// Idle connections are closed after this span.
    pub idle_timeout: DurationStr,
    /// Connections older than this are closed after their next request.
    pub max_lifetime: DurationStr,
}

impl Default for PoolLimits {
    fn default() -> (r: PoolLimits)
        ensures
            r.max_idle_per_host == 64,
            r.idle_timeout.0@ == 60_000_000_000,
            r.max_lifetime.0@ == 600_000_000_000,
    {
        PoolLimits {
            max_idle_per_host: default_pool_max_idle(),
            idle_timeout: default_pool_idle_timeout(),
            max_lifetime: default_pool_max_lifetime(),
        }
    }
}

/// Active health checks.
#[derive(Debug)]
pub struct HealthCheck {
    /// Path probed with GET.
    pub path: String,
    /// Span between probes.
    pub interval: DurationStr,
    /// Timeout of one probe.
    pub timeout: DurationStr,
    /// Consecutive failures that make a backend unhealthy.
    pub unhealthy_threshold: u32,
    /// Consecutive successes that make a backend healthy again.
    pub healthy_threshold: u32,
}

/// One routing rule.
#[derive(Debug)]
pub struct Route {
    /// What a request has to match. At least a host or a path.
    pub match_: RouteMatch,
    /// Name of the upstream cluster that the route forwards to.
    pub upstream: String,
    /// Timeouts of the route.
    pub timeouts: Timeouts,
    /// Retry policy. Absent means no retries.
    pub retry: Option<RetryPolicy>,
    /// Filters applied to matching requests, held as inert records.
    pub filters: Vec<Filter>,
}

/// What a request has to match.
#[derive(Debug)]
pub struct RouteMatch {
    /// The `Host` header is one that this pattern covers; `*` stands for any run
    /// of characters.
    pub host: Option<String>,
    /// The path begins with this prefix.
    pub path_prefix: Option<String>,
    /// The path equals this value.
    pub path_exact: Option<String>,
    /// The path matches this regular expression.
    pub path_regex: Option<String>,
    /// All of these headers match.
    pub headers: Vec<HeaderMatch>,
}

/// One header to match.
#[derive(Debug)]
pub struct HeaderMatch {
    /// Header name, compared without regard to case.
    pub name: String,
    /// Header value, compared exactly.
    pub value: String,
}

/// Timeouts of a route.
#[derive(Debug, Clone, Copy)]
pub struct Timeouts {
    /// Connect to the backend.
    pub connect: DurationStr,
    /// Longest gap between bytes read from the backend.
    pub read: DurationStr,
    /// Longest gap between bytes written to the backend.
    pub write: DurationStr,
    /// Cap on the whole request.
    pub total: DurationStr,
}

impl Default for Timeouts {
    fn default() -> (r: Timeouts)
        ensures
            r.connect.0@ == 2_000_000_000,
            r.read.0@ == 30_000_000_000,
            r.write.0@ == 30_000_000_000,
            r.total.0@ == 60_000_000_000,
    {
        Timeouts {
            connect: default_timeout_connect(),
            read: default_timeout_read(),
            write: default_timeout_write(),
            total: default_timeout_total(),
        }
    }
}

/// Retry policy of a route.
#[derive(Debug)]
pub struct RetryPolicy {
    /// Most attempts in all, the first one included. At least one.
    pub attempts: u32,
    /// Status codes of the backend that call for another attempt.
    pub on_status: Vec<u16>,
    /// Try again where the connection could not be made.
    pub on_connect_error: bool,
}

/// One filter of a route, as an inert record.
#[derive(Debug)]
pub struct Filter {
    /// Filter kind, such as `strip-prefix` or `add-header`.
    pub kind: String,
    /// Parameters by name, each value in its textual form.
    pub params: Vec<(String, String)>,
}

/// ALPN identifiers where the document names none.
pub fn default_alpn() -> (r: Vec<String>)
    ensures
        r@.len() == 2,
        r@[0]@ == "h2"@,
        r@[1]@ == "http/1.1"@,
{
    let mut r: Vec<String> = Vec::new();
    r.push("h2".to_owned());
    r.push("http/1.1".to_owned());
    r
}

/// Switches that are on where the document does not set them.
pub fn true_() -> (r: bool)
    ensures
        r,
{
    true
}

/// Connect timeout of an upstream.
pub fn default_connect_timeout() -> (r: DurationStr)
    ensures
        r.0@ == 2_000_000_000,
{
    DurationStr::from_secs(2)
}

/// Idle connections per host.
pub fn default_pool_max_idle() -> (r: u32)
    ensures
        r == 64,
{
    64
}

/// Lifetime of an idle connection.
pub fn default_pool_idle_timeout() -> (r: DurationStr)
    ensures
        r.0@ == 60_000_000_000,
{
    DurationStr::from_secs(60)
}

/// Lifetime of a connection.
pub fn default_pool_max_lifetime() -> (r: DurationStr)
    ensures
        r.0@ == 600_000_000_000,
{
    DurationStr::from_secs(600)
}

/// Path of a health check.
pub fn default_hc_path() -> (r: String)
    ensures
        r@ == "/healthz"@,
{
    "/healthz".to_owned()
}

/// Timeout of a health check.
pub fn default_hc_timeout() -> (r: DurationStr)
    ensures
        r.0@ == 2_000_000_000,
{
    DurationStr::from_secs(2)
}

/// Failures that make a backend unhealthy.
pub fn default_hc_unhealthy_threshold() -> (r: u32)
    ensures
        r == 3,
{
    3
}

/// Successes that make a backend healthy again.
pub fn default_hc_healthy_threshold() -> (r: u32)
    ensures
        r == 1,
{
    1
}

/// Connect timeout of a route.
pub fn default_timeout_connect() -> (r: DurationStr)
    ensures
        r.0@ == 2_000_000_000,
{
    DurationStr::from_secs(2)
}

/// Read timeout of a route.
pub fn default_timeout_read() -> (r: DurationStr)
    ensures
        r.0@ == 30_000_000_000,
{
    DurationStr::from_secs(30)
}

/// Write timeout of a route.
pub fn default_timeout_write() -> (r: DurationStr)
    ensures
        r.0@ == 30_000_000_000,
{
    DurationStr::from_secs(30)
}

/// Cap on a whole request.
pub fn default_timeout_total() -> (r: DurationStr)
    ensures
        r.0@ == 60_000_000_000,
{
    DurationStr::from_secs(60)
}

} // verus!

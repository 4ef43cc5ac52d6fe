//! Starting and ending: what the process does with its configuration, and the
//! code that it exits with.
use vstd::prelude::*;

use crate::config::error::ConfigError;
use crate::config::schema::Config;
use crate::config::validate;
use crate::config::workers::WorkerCount;
use crate::io::serve::{ServeSpec, ShutdownReport};
use crate::upstream;

verus! {

/// Clean shutdown, or a configuration that was only to be checked and is valid.
pub const EXIT_OK: u8 = 0;

/// The server could not be started, or connections were cut off.
pub const EXIT_FAILURE: u8 = 1;

/// The configuration could not be loaded or is not valid.
pub const EXIT_CONFIG: u8 = 2;

/// The configuration is valid and leaves nothing to serve.
pub const EXIT_NOTHING_TO_SERVE: u8 = 78;

/// How long the accept loops of HTTPS and HTTP/3 wait before they look at the
/// cancellation flag, in milliseconds.
pub const POLL_MS: u64 = 250;

/// What the process does with its configuration.
#[derive(Debug, Clone, Copy, PartialEq, Eq, Structural)]
pub enum Startup {
    /// Exit with this code.
    Exit(u8),
    /// Serve.
    Serve,
}

/// Whether there is any listener.
pub open spec fn has_listeners(cfg: Config) -> bool {
    cfg.server.listen_http@.len() > 0 || cfg.server.listen_https@.len() > 0
        || cfg.server.listen_h3@.len() > 0
}

/// What the process does with the configuration that it loaded. `check` says
/// that the configuration is only to be checked.
pub fn decide(loaded: &Result<Config, ConfigError>, check: bool) -> (r: Startup)
    ensures
        r == match *loaded {
            Err(_) => Startup::Exit(2),
            Ok(cfg) => if check {
                Startup::Exit(0)
            } else if !has_listeners(cfg) {
                Startup::Exit(78)
            } else {
                Startup::Serve
            },
        },
{
    match loaded {
        Err(_) => Startup::Exit(EXIT_CONFIG),
        Ok(cfg) => {
            if check {
                Startup::Exit(EXIT_OK)
            } else if cfg.server.listen_http.len() == 0 && cfg.server.listen_https.len() == 0
                && cfg.server.listen_h3.len() == 0 {
                Startup::Exit(EXIT_NOTHING_TO_SERVE)
            } else {
                Startup::Serve
            }
        },
    }
}

/// The code that the process exits with after it served: success exactly where
/// no connection was cut off.
pub fn exit_code(report: &ShutdownReport) -> (r: u8)
    ensures
        r == if report.accepted == report.completed {
            0u8
        } else {
            1u8
        },
{
    if report.accepted == report.completed {
        EXIT_OK
    } else {
        EXIT_FAILURE
    }
}

/// Whether a listener that needs TLS is started.
#[derive(Debug, Clone, Copy, PartialEq, Eq, Structural)]
pub enum Plane {
    /// There are no addresses for it.
    Off,
    /// There are addresses, but no TLS section; they are ignored.
    MissingTls,
    /// It is started.
    On,
}

/// Whether a listener at `addrs` is started, by whether there is a TLS section.
pub fn plane(addrs: &Vec<String>, tls: bool) -> (r: Plane)
    ensures
        r == if addrs@.len() == 0 {
            Plane::Off
        } else if !tls {
            Plane::MissingTls
        } else {
            Plane::On
        },
{
    if addrs.len() == 0 {
        Plane::Off
    } else if !tls {
        Plane::MissingTls
    } else {
        Plane::On
    }
}

/// What the plain-HTTP server is started with; `available` is how many cores
/// the machine reports.
pub fn build_serve_spec(cfg: &Config, available: Option<WorkerCount>) -> (r: ServeSpec)
    ensures
        r.listeners@ == cfg.server.listen_http@,
        r.workers@ == cfg.server.workers.resolved(available),
        r.cpu_affinity == cfg.server.cpu_affinity,
        r.shutdown_deadline@ == 30_000_000_000,
        r.tcp_nodelay,
        r.backlog == 1024,
        r.uring_entries == 1024,
        r.poll_interval@ == 50_000_000,
{
    let workers = cfg.server.workers.resolve(available);
    let mut spec = ServeSpec::new(upstream::copy_names(&cfg.server.listen_http), workers);
    spec.cpu_affinity = cfg.server.cpu_affinity;
    spec
}

/// A configuration that passes the checks never has a listener that is ignored
/// for want of a TLS section.
pub proof fn checked_listeners_have_tls(cfg: Config, insecure_allowed: bool)
    requires
        validate::logic_fault(cfg, insecure_allowed) is None,
        cfg.server.listen_https@.len() > 0 || cfg.server.listen_h3@.len() > 0,
    ensures
        cfg.tls is Some,
{
    validate::accepted_iff_consistent(cfg, insecure_allowed);
}

} // verus!

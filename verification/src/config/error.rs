//! What can be wrong with a configuration.
use vstd::prelude::*;
use vstd::string::*;

use crate::text;

verus! {

/// Everything that can go wrong while a configuration is loaded or held
/// against the rules.
///
/// `Read` and `Toml` say that the document could not be obtained or did not
/// have the expected shape. Every other variant names one object of the
/// document and one fault.
#[derive(Debug)]
pub enum ConfigError {
    /// The file could not be read.
    Read {
        /// Path that was attempted.
        path: String,
        /// What the operating system answered.
        source: String,
    },
    /// The text is not TOML, or not of the expected shape.
    Toml(String),
    /// A route names an upstream that is not declared.
    UnknownUpstream {
        /// Position of the route.
        index: usize,
        /// The name that was not found.
        name: String,
    },
    /// An upstream has no addresses.
    UpstreamNoAddrs {
        /// Position of the upstream.
        index: usize,
        /// Its name.
        name: String,
    },
    /// Two upstreams share a name.
    DuplicateUpstream {
        /// The name that occurs twice.
        name: String,
    },
    /// The document declares no routes.
    NoRoutes,
    /// HTTPS or HTTP/3 listeners are set, but there is no TLS section.
    TlsRequired,
    /// The TLS section has no certificates.
    TlsNoCerts,
    /// A certificate file is not there.
    CertMissing {
        /// SNI host name of the entry.
        sni: String,
        /// The path that was looked at.
        path: String,
    },
    /// A key file is not there.
    KeyMissing {
        /// SNI host name of the entry.
        sni: String,
        /// The path that was looked at.
        path: String,
    },
    /// A route would match every request.
    RouteMatchEmpty {
        /// Position of the route.
        index: usize,
    },
    /// A route sets both a path prefix and an exact path.
    RoutePathConflict {
        /// Position of the route.
        index: usize,
    },
    /// A retry policy allows no attempts at all.
    RetryAttemptsZero {
        /// Position of the route.
        index: usize,
    },
    /// An upstream has a client certificate without a key, or a key without a
    /// certificate.
    UpstreamMtlsMismatch {
        /// Name of the upstream.
        name: String,
    },
    /// An upstream switches certificate checks off, and the environment does
    /// not allow that.
    UpstreamInsecureTlsNotOptedIn {
        /// Name of the upstream.
        name: String,
    },
    /// A health check has an interval or a timeout of zero.
    HealthCheckBadDuration {
        /// Name of the upstream.
        name: String,
        /// `interval` or `timeout`.
        field: &'static str,
    },
}

impl ConfigError {
    /// The error as one line of text.
    pub open spec fn text(&self) -> Seq<char> {
        match self {
            ConfigError::Read { path, .. } => "failed to read config file `"@ + path@ + "`"@,
            ConfigError::Toml(_) => "config syntax error"@,
            ConfigError::UnknownUpstream { index, name } => "route #"@ + text::decimal(
                *index as nat,
            ) + " references unknown upstream `"@ + name@ + "`"@,
            ConfigError::UpstreamNoAddrs { index, name } => "upstream #"@ + text::decimal(
                *index as nat,
            ) + " `"@ + name@ + "` has no addresses"@,
            ConfigError::DuplicateUpstream { name } => "duplicate upstream name `"@ + name@ + "`"@,
            ConfigError::NoRoutes => "config has no [[route]] entries"@,
            ConfigError::TlsRequired =>
                "server.listen_https or server.listen_h3 is set but [tls] is missing"@,
            ConfigError::TlsNoCerts => "[tls] section has no certs"@,
            ConfigError::CertMissing { sni, path } => "cert file `"@ + path@ + "` for sni `"@ + sni@
                + "` does not exist or is not a regular file"@,
            ConfigError::KeyMissing { sni, path } => "key file `"@ + path@ + "` for sni `"@ + sni@
                + "` does not exist or is not a regular file"@,
            ConfigError::RouteMatchEmpty { index } => "route #"@ + text::decimal(*index as nat)
                + " match block has no host or path constraint"@,
            ConfigError::RoutePathConflict { index } => "route #"@ + text::decimal(*index as nat)
                + " sets both path_prefix and path_exact"@,
            ConfigError::RetryAttemptsZero { index } => "route #"@ + text::decimal(*index as nat)
                + " has retry.attempts = 0; omit the retry block instead"@,
            ConfigError::UpstreamMtlsMismatch { name } => "upstream `"@ + name@
                + "` tls.client_cert and tls.client_key must both be set, or both unset"@,
            ConfigError::UpstreamInsecureTlsNotOptedIn { name } => "upstream `"@ + name@
                + "` tls.verify = false rejected; set CONDUIT_ALLOW_INSECURE_TLS=1 in the environment to allow"@,
            ConfigError::HealthCheckBadDuration { name, field } => "upstream `"@ + name@
                + "` health_check."@ + field@ + " must be > 0"@,
        }
    }

    /// The error as one line of text.
    pub fn message(&self) -> (r: String)
        ensures
            r@ == self.text(),
    {
        match self {
            ConfigError::Read { path, .. } => text::around("failed to read config file `", path, "`"),
            ConfigError::Toml(_) => "config syntax error".to_owned(),
            ConfigError::UnknownUpstream { index, name } => {
                let mut r = "route #".to_owned();
                text::push_decimal(&mut r, *index as u64);
                r.append(" references unknown upstream `");
                r.append(name);
                r.append("`");
                r
            },
            ConfigError::UpstreamNoAddrs { index, name } => {
                let mut r = "upstream #".to_owned();
                text::push_decimal(&mut r, *index as u64);
                r.append(" `");
                r.append(name);
                r.append("` has no addresses");
                r
            },
            ConfigError::DuplicateUpstream { name } => text::around(
                "duplicate upstream name `",
                name,
                "`",
            ),
            ConfigError::NoRoutes => "config has no [[route]] entries".to_owned(),
            ConfigError::TlsRequired => {
                "server.listen_https or server.listen_h3 is set but [tls] is missing".to_owned()
            },
            ConfigError::TlsNoCerts => "[tls] section has no certs".to_owned(),
            ConfigError::CertMissing { sni, path } => {
                let mut r = text::around("cert file `", path, "` for sni `");
                r.append(sni);
                r.append("` does not exist or is not a regular file");
                r
            },
            ConfigError::KeyMissing { sni, path } => {
                let mut r = text::around("key file `", path, "` for sni `");
                r.append(sni);
                r.append("` does not exist or is not a regular file");
                r
            },
            ConfigError::RouteMatchEmpty { index } => {
                route_line(*index, " match block has no host or path constraint")
            },
            ConfigError::RoutePathConflict { index } => {
                route_line(*index, " sets both path_prefix and path_exact")
            },
            ConfigError::RetryAttemptsZero { index } => {
                route_line(*index, " has retry.attempts = 0; omit the retry block instead")
            },
            ConfigError::UpstreamMtlsMismatch { name } => text::around(
                "upstream `",
                name,
                "` tls.client_cert and tls.client_key must both be set, or both unset",
            ),
            ConfigError::UpstreamInsecureTlsNotOptedIn { name } => text::around(
                "upstream `",
                name,
                "` tls.verify = false rejected; set CONDUIT_ALLOW_INSECURE_TLS=1 in the environment to allow",
            ),
            ConfigError::HealthCheckBadDuration { name, field } => {
                let mut r = text::around("upstream `", name, "` health_check.");
                r.append(field);
                r.append(" must be > 0");
                r
            },
        }
    }
}

/// `route #`, the position, then `rest`.
fn route_line(index: usize, rest: &str) -> (r: String)
    ensures
        r@ == "route #"@ + text::decimal(index as nat) + rest@,
{
    let mut r = "route #".to_owned();
    text::push_decimal(&mut r, index as u64);
    r.append(rest);
    r
}

proof fn lemma_held(left: Seq<char>, piece: Seq<char>, right: Seq<char>, all: Seq<char>)
    requires
        all == left + piece + right,
    ensures
        text::holds(all, piece),
{
}

/// The text of an error tells which object is at fault: its name, its path, or its
/// number.
pub proof fn text_tells_what_is_at_fault(e: ConfigError)
    ensures
        match e {
            ConfigError::Read { path, .. } => text::holds(e.text(), path@),
            ConfigError::UnknownUpstream { index, name } => text::holds(e.text(), name@)
                && text::holds(e.text(), text::decimal(index as nat)),
            ConfigError::UpstreamNoAddrs { index, name } => text::holds(e.text(), name@)
                && text::holds(e.text(), text::decimal(index as nat)),
            ConfigError::DuplicateUpstream { name } => text::holds(e.text(), name@),
            ConfigError::CertMissing { sni, path } => text::holds(e.text(), sni@) && text::holds(
                e.text(),
                path@,
            ),
            ConfigError::KeyMissing { sni, path } => text::holds(e.text(), sni@) && text::holds(
                e.text(),
                path@,
            ),
            ConfigError::RouteMatchEmpty { index } => text::holds(
                e.text(),
                text::decimal(index as nat),
            ),
            ConfigError::RoutePathConflict { index } => text::holds(
                e.text(),
                text::decimal(index as nat),
            ),
            ConfigError::RetryAttemptsZero { index } => text::holds(
                e.text(),
                text::decimal(index as nat),
            ),
            ConfigError::UpstreamMtlsMismatch { name } => text::holds(e.text(), name@),
            ConfigError::UpstreamInsecureTlsNotOptedIn { name } => text::holds(e.text(), name@),
            ConfigError::HealthCheckBadDuration { name, field } => text::holds(e.text(), name@)
                && text::holds(e.text(), field@),
            _ => true,
        },
{
    let all = e.text();
    match e {
        ConfigError::Read { path, .. } => {
            lemma_held("failed to read config file `"@, path@, "`"@, all);
        },
        ConfigError::UnknownUpstream { index, name } => {
            let n = text::decimal(index as nat);
            let mid = " references unknown upstream `"@;
            lemma_held("route #"@ + n + mid, name@, "`"@, all);
            assert(all =~= "route #"@ + n + (mid + name@ + "`"@));
            lemma_held("route #"@, n, mid + name@ + "`"@, all);
        },
        ConfigError::UpstreamNoAddrs { index, name } => {
            let n = text::decimal(index as nat);
            let end = "` has no addresses"@;
            lemma_held("upstream #"@ + n + " `"@, name@, end, all);
            assert(all =~= "upstream #"@ + n + (" `"@ + name@ + end));
            lemma_held("upstream #"@, n, " `"@ + name@ + end, all);
        },
        ConfigError::DuplicateUpstream { name } => {
            lemma_held("duplicate upstream name `"@, name@, "`"@, all);
        },
        ConfigError::CertMissing { sni, path } => {
            let end = "` does not exist or is not a regular file"@;
            lemma_held("cert file `"@ + path@ + "` for sni `"@, sni@, end, all);
            assert(all =~= "cert file `"@ + path@ + ("` for sni `"@ + sni@ + end));
            lemma_held("cert file `"@, path@, "` for sni `"@ + sni@ + end, all);
        },
        ConfigError::KeyMissing { sni, path } => {
            let end = "` does not exist or is not a regular file"@;
            lemma_held("key file `"@ + path@ + "` for sni `"@, sni@, end, all);
            assert(all =~= "key file `"@ + path@ + ("` for sni `"@ + sni@ + end));
            lemma_held("key file `"@, path@, "` for sni `"@ + sni@ + end, all);
        },
        ConfigError::RouteMatchEmpty { index } => {
            lemma_held(
                "route #"@,
                text::decimal(index as nat),
                " match block has no host or path constraint"@,
                all,
            );
        },
        ConfigError::RoutePathConflict { index } => {
            lemma_held(
                "route #"@,
                text::decimal(index as nat),
                " sets both path_prefix and path_exact"@,
                all,
            );
        },
        ConfigError::RetryAttemptsZero { index } => {
            lemma_held(
                "route #"@,
                text::decimal(index as nat),
                " has retry.attempts = 0; omit the retry block instead"@,
                all,
            );
        },
        ConfigError::UpstreamMtlsMismatch { name } => {
            lemma_held(
                "upstream `"@,
                name@,
                "` tls.client_cert and tls.client_key must both be set, or both unset"@,
                all,
            );
        },
        ConfigError::UpstreamInsecureTlsNotOptedIn { name } => {
            lemma_held(
                "upstream `"@,
                name@,
                "` tls.verify = false rejected; set CONDUIT_ALLOW_INSECURE_TLS=1 in the environment to allow"@,
                all,
            );
        },
        ConfigError::HealthCheckBadDuration { name, field } => {
            let end = " must be > 0"@;
            lemma_held("upstream `"@ + name@ + "` health_check."@, field@, end, all);
            assert(all =~= "upstream `"@ + name@ + ("` health_check."@ + field@ + end));
            lemma_held("upstream `"@, name@, "` health_check."@ + field@ + end, all);
        },
        _ => {},
    }
}

} // verus!

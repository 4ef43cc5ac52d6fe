//! The rules that cross the fields of a configuration document.
//!
//! [`check_logic`] looks at the document alone. [`check_filesystem`] looks at
//! which of the files that it names are there, and comes second, so that a
//! missing file is never reported where the document itself is at fault.
use vstd::prelude::*;

use crate::config::error::ConfigError;
use crate::config::schema::{CertSpec, Config, Upstream};
use crate::text;

verus! {

/// Whether one of the first `n` upstreams is called `name`.
pub open spec fn named(ups: Seq<Upstream>, n: int, name: Seq<char>) -> bool {
    exists|j: int| 0 <= j < n && #[trigger] ups[j].name@ == name
}

/// What is wrong with the upstream at `i`, if anything.
pub open spec fn upstream_fault(ups: Seq<Upstream>, i: int, insecure_allowed: bool) -> Option<
    ConfigError,
> {
    let u = ups[i];
    if u.addrs@.len() == 0 {
        Some(ConfigError::UpstreamNoAddrs { index: i as usize, name: u.name })
    } else if named(ups, i, u.name@) {
        Some(ConfigError::DuplicateUpstream { name: u.name })
    } else if u.tls is Some && u.tls->0.client_cert is Some != u.tls->0.client_key is Some {
        Some(ConfigError::UpstreamMtlsMismatch { name: u.name })
    } else if u.tls is Some && !u.tls->0.verify && !insecure_allowed {
        Some(ConfigError::UpstreamInsecureTlsNotOptedIn { name: u.name })
    } else if u.health_check is Some && u.health_check->0.interval.0@ == 0 {
        Some(ConfigError::HealthCheckBadDuration { name: u.name, field: "interval" })
    } else if u.health_check is Some && u.health_check->0.timeout.0@ == 0 {
        Some(ConfigError::HealthCheckBadDuration { name: u.name, field: "timeout" })
    } else {
        None
    }
}

/// What is wrong with the route at `i`, if anything.
pub open spec fn route_fault(cfg: Config, i: int) -> Option<ConfigError> {
    let r = cfg.routes@[i];
    let m = r.match_;
    if !named(cfg.upstreams@, cfg.upstreams@.len() as int, r.upstream@) {
        Some(ConfigError::UnknownUpstream { index: i as usize, name: r.upstream })
    } else if m.host is None && m.path_prefix is None && m.path_exact is None && m.path_regex
        is None {
        Some(ConfigError::RouteMatchEmpty { index: i as usize })
    } else if m.path_prefix is Some && m.path_exact is Some {
        Some(ConfigError::RoutePathConflict { index: i as usize })
    } else if r.retry is Some && r.retry->0.attempts == 0 {
        Some(ConfigError::RetryAttemptsZero { index: i as usize })
    } else {
        None
    }
}

/// What is wrong with the TLS section, if anything.
pub open spec fn tls_fault(cfg: Config) -> Option<ConfigError> {
    match cfg.tls {
        Some(t) => if t.certs@.len() == 0 {
            Some(ConfigError::TlsNoCerts)
        } else {
            None
        },
        None => if cfg.server.listen_https@.len() > 0 || cfg.server.listen_h3@.len() > 0 {
            Some(ConfigError::TlsRequired)
        } else {
            None
        },
    }
}

/// The fault of the first faulty upstream from `i` on.
pub open spec fn first_upstream_fault(ups: Seq<Upstream>, i: int, insecure_allowed: bool) -> Option<
    ConfigError,
>
    decreases ups.len() - i,
{
    if i < 0 || i >= ups.len() {
        None
    } else if upstream_fault(ups, i, insecure_allowed) is Some {
        upstream_fault(ups, i, insecure_allowed)
    } else {
        first_upstream_fault(ups, i + 1, insecure_allowed)
    }
}

/// The fault of the first faulty route from `i` on.
pub open spec fn first_route_fault(cfg: Config, i: int) -> Option<ConfigError>
    decreases cfg.routes@.len() - i,
{
    if i < 0 || i >= cfg.routes@.len() {
        None
    } else if route_fault(cfg, i) is Some {
        route_fault(cfg, i)
    } else {
        first_route_fault(cfg, i + 1)
    }
}

/// The fault that is reported for a document: routes are there at all, then
/// upstreams in order, then routes in order, then TLS.
pub open spec fn logic_fault(cfg: Config, insecure_allowed: bool) -> Option<ConfigError> {
    if cfg.routes@.len() == 0 {
        Some(ConfigError::NoRoutes)
    } else if first_upstream_fault(cfg.upstreams@, 0, insecure_allowed) is Some {
        first_upstream_fault(cfg.upstreams@, 0, insecure_allowed)
    } else if first_route_fault(cfg, 0) is Some {
        first_route_fault(cfg, 0)
    } else {
        tls_fault(cfg)
    }
}

/// Whether one of the first `n` upstreams is called `name`.
fn is_named(ups: &Vec<Upstream>, n: usize, name: &String) -> (r: bool)
    requires
        n <= ups@.len(),
    ensures
        r == named(ups@, n as int, name@),
{
    for j in 0..n
        invariant
            n <= ups@.len(),
            forall|k: int| 0 <= k < j ==> #[trigger] ups@[k].name@ != name@,
    {
        if ups[j].name == *name {
            return true;
        }
    }
    false
}

/// What is wrong with the upstream at `i`, if anything.
fn check_upstream(ups: &Vec<Upstream>, i: usize, insecure_allowed: bool) -> (r: Option<ConfigError>)
    requires
        i < ups@.len(),
    ensures
        r == upstream_fault(ups@, i as int, insecure_allowed),
{
    let u = &ups[i];
    if u.addrs.len() == 0 {
        return Some(ConfigError::UpstreamNoAddrs { index: i, name: u.name.clone() });
    }
    if is_named(ups, i, &u.name) {
        return Some(ConfigError::DuplicateUpstream { name: u.name.clone() });
    }
    if let Some(t) = &u.tls {
        if t.client_cert.is_some() != t.client_key.is_some() {
            return Some(ConfigError::UpstreamMtlsMismatch { name: u.name.clone() });
        }
        if !t.verify && !insecure_allowed {
            return Some(ConfigError::UpstreamInsecureTlsNotOptedIn { name: u.name.clone() });
        }
    }
    if let Some(h) = &u.health_check {
        if h.interval.get().is_zero() {
            return Some(
                ConfigError::HealthCheckBadDuration { name: u.name.clone(), field: "interval" },
            );
        }
        if h.timeout.get().is_zero() {
            return Some(
                ConfigError::HealthCheckBadDuration { name: u.name.clone(), field: "timeout" },
            );
        }
    }
    None
}

/// What is wrong with the route at `i`, if anything.
fn check_route(cfg: &Config, i: usize) -> (r: Option<ConfigError>)
    requires
        i < cfg.routes@.len(),
    ensures
        r == route_fault(*cfg, i as int),
{
    let route = &cfg.routes[i];
    if !is_named(&cfg.upstreams, cfg.upstreams.len(), &route.upstream) {
        return Some(ConfigError::UnknownUpstream { index: i, name: route.upstream.clone() });
    }
    let m = &route.match_;
    let has_host = m.host.is_some();
    let has_path = m.path_prefix.is_some() || m.path_exact.is_some() || m.path_regex.is_some();
    if !has_host && !has_path {
        return Some(ConfigError::RouteMatchEmpty { index: i });
    }
    if m.path_prefix.is_some() && m.path_exact.is_some() {
        return Some(ConfigError::RoutePathConflict { index: i });
    }
    if let Some(retry) = &route.retry {
        if retry.attempts == 0 {
            return Some(ConfigError::RetryAttemptsZero { index: i });
        }
    }
    None
}

/// Holds a document against every rule that needs nothing but the document.
/// `insecure_allowed` says whether the environment lets an upstream switch
/// its certificate checks off.
pub fn check_logic(cfg: &Config, insecure_allowed: bool) -> (r: Result<(), ConfigError>)
    ensures
        r == match logic_fault(*cfg, insecure_allowed) {
            Some(e) => Err(e),
            None => Ok(()),
        },
{
    if cfg.routes.len() == 0 {
        return Err(ConfigError::NoRoutes);
    }
    let mut i: usize = 0;
    while i < cfg.upstreams.len()
        invariant
            i <= cfg.upstreams@.len(),
            cfg.routes@.len() > 0,
            first_upstream_fault(cfg.upstreams@, 0, insecure_allowed) == first_upstream_fault(
                cfg.upstreams@,
                i as int,
                insecure_allowed,
            ),
        decreases cfg.upstreams@.len() - i,
    {
        if let Some(e) = check_upstream(&cfg.upstreams, i, insecure_allowed) {
            return Err(e);
        }
        i += 1;
    }
    let mut i: usize = 0;
    while i < cfg.routes.len()
        invariant
            i <= cfg.routes@.len(),
            cfg.routes@.len() > 0,
            first_upstream_fault(cfg.upstreams@, 0, insecure_allowed) is None,
            first_route_fault(*cfg, 0) == first_route_fault(*cfg, i as int),
        decreases cfg.routes@.len() - i,
    {
        if let Some(e) = check_route(cfg, i) {
            return Err(e);
        }
        i += 1;
    }
    let needs_tls = cfg.server.listen_https.len() > 0 || cfg.server.listen_h3.len() > 0;
    match &cfg.tls {
        None => if needs_tls {
            Err(ConfigError::TlsRequired)
        } else {
            Ok(())
        },
        Some(t) => if t.certs.len() == 0 {
            Err(ConfigError::TlsNoCerts)
        } else {
            Ok(())
        },
    }
}

/// Which of the two files of a certificate entry are regular files that exist.
#[derive(Debug, Clone, Copy)]
pub struct CertFiles {
    /// The certificate file is there.
    pub cert: bool,
    /// The key file is there.
    pub key: bool,
}

/// What is wrong with the files of a certificate entry, if anything.
pub open spec fn file_fault(spec: CertSpec, files: CertFiles) -> Option<ConfigError> {
    if !files.cert {
        Some(ConfigError::CertMissing { sni: spec.sni, path: spec.cert })
    } else if !files.key {
        Some(ConfigError::KeyMissing { sni: spec.sni, path: spec.key })
    } else {
        None
    }
}

/// The fault of the first certificate entry from `i` on whose files are not
/// both there.
pub open spec fn first_file_fault(certs: Seq<CertSpec>, files: Seq<CertFiles>, i: int) -> Option<
    ConfigError,
>
    decreases certs.len() - i,
{
    if i < 0 || i >= certs.len() {
        None
    } else if file_fault(certs[i], files[i]) is Some {
        file_fault(certs[i], files[i])
    } else {
        first_file_fault(certs, files, i + 1)
    }
}

/// The certificate entries of a document.
pub open spec fn cert_specs(cfg: Config) -> Seq<CertSpec> {
    match cfg.tls {
        Some(t) => t.certs@,
        None => Seq::empty(),
    }
}

/// Holds a document against the files that it names. `files` tells of each
/// certificate entry which of its files are there.
pub fn check_filesystem(cfg: &Config, files: &Vec<CertFiles>) -> (r: Result<(), ConfigError>)
    requires
        files@.len() == cert_specs(*cfg).len(),
    ensures
        r == match first_file_fault(cert_specs(*cfg), files@, 0) {
            Some(e) => Err(e),
            None => Ok(()),
        },
{
    let tls = match &cfg.tls {
        Some(t) => t,
        None => return Ok(()),
    };
    let mut i: usize = 0;
    while i < tls.certs.len()
        invariant
            i <= tls.certs@.len(),
            files@.len() == tls.certs@.len(),
            tls.certs@ == cert_specs(*cfg),
            first_file_fault(cert_specs(*cfg), files@, 0) == first_file_fault(
                cert_specs(*cfg),
                files@,
                i as int,
            ),
        decreases tls.certs@.len() - i,
    {
        let c = &tls.certs[i];
        if !files[i].cert {
            return Err(ConfigError::CertMissing { sni: c.sni.clone(), path: c.cert.clone() });
        }
        if !files[i].key {
            return Err(ConfigError::KeyMissing { sni: c.sni.clone(), path: c.key.clone() });
        }
        i += 1;
    }
    Ok(())
}

/// Holds a document against every rule: first those of [`check_logic`], then
/// those of [`check_filesystem`].
pub fn check(cfg: &Config, insecure_allowed: bool, files: &Vec<CertFiles>) -> (r: Result<
    (),
    ConfigError,
>)
    requires
        files@.len() == cert_specs(*cfg).len(),
    ensures
        r == match logic_fault(*cfg, insecure_allowed) {
            Some(e) => Err(e),
            None => match first_file_fault(cert_specs(*cfg), files@, 0) {
                Some(e) => Err(e),
                None => Ok(()),
            },
        },
{
    match check_logic(cfg, insecure_allowed) {
        Err(e) => Err(e),
        Ok(()) => check_filesystem(cfg, files),
    }
}

/// What a document that was read comes to once it is held against the rules: an
/// error in reading it stays, and a document that breaks a rule is not handed
/// out.
pub open spec fn accepted(
    read: Result<Config, ConfigError>,
    insecure_allowed: bool,
    files: Seq<CertFiles>,
) -> Result<Config, ConfigError> {
    match read {
        Err(e) => Err(e),
        Ok(cfg) => match logic_fault(cfg, insecure_allowed) {
            Some(e) => Err(e),
            None => match first_file_fault(cert_specs(cfg), files, 0) {
                Some(e) => Err(e),
                None => Ok(cfg),
            },
        },
    }
}

/// Hands out the document that was read only where it keeps the rules and the
/// files of its certificates are there. `files` says which are, one entry for
/// each certificate.
pub fn accept(
    read: Result<Config, ConfigError>,
    insecure_allowed: bool,
    files: &Vec<CertFiles>,
) -> (r: Result<Config, ConfigError>)
    requires
        read matches Ok(cfg) ==> files@.len() == cert_specs(cfg).len(),
    ensures
        r == accepted(read, insecure_allowed, files@),
{
    match read {
        Err(e) => Err(e),
        Ok(cfg) => match check(&cfg, insecure_allowed, files) {
            Err(e) => Err(e),
            Ok(()) => Ok(cfg),
        },
    }
}

/// Whether upstreams may go without certificate checks, where `value` is what
/// the environment says: only where it says `1`.
pub fn insecure_allowed(value: Option<&str>) -> (r: bool)
    ensures
        r == (value matches Some(v) && v@ == "1"@),
{
    match value {
        Some(v) => text::same(v, "1"),
        None => false,
    }
}

/// What a document has to be like for the proxy to serve it.
pub open spec fn consistent(cfg: Config, insecure_allowed: bool) -> bool {
    let ups = cfg.upstreams@;
    let routes = cfg.routes@;
    &&& routes.len() > 0
    &&& forall|i: int| #![trigger ups[i]]
        0 <= i < ups.len() ==> {
            &&& ups[i].addrs@.len() > 0
            &&& ups[i].tls matches Some(t) ==> (t.client_cert is Some <==> t.client_key is Some)
            &&& ups[i].tls matches Some(t) ==> t.verify || insecure_allowed
            &&& ups[i].health_check matches Some(h) ==> h.interval.0@ > 0 && h.timeout.0@ > 0
        }
    &&& forall|i: int, j: int| #![trigger ups[i], ups[j]]
        0 <= i < j < ups.len() ==> ups[i].name@ != ups[j].name@
    &&& forall|i: int| #![trigger routes[i]]
        0 <= i < routes.len() ==> {
            let m = routes[i].match_;
            &&& exists|j: int| 0 <= j < ups.len() && #[trigger] ups[j].name@ == routes[i].upstream@
            &&& m.host is Some || m.path_prefix is Some || m.path_exact is Some || m.path_regex
                is Some
            &&& m.path_prefix is None || m.path_exact is None
            &&& routes[i].retry matches Some(p) ==> p.attempts >= 1
        }
    &&& cfg.tls matches Some(t) ==> t.certs@.len() > 0
    &&& cfg.server.listen_https@.len() > 0 || cfg.server.listen_h3@.len() > 0 ==> cfg.tls is Some
}

proof fn lemma_no_upstream_fault(ups: Seq<Upstream>, i: int, insecure_allowed: bool)
    requires
        0 <= i <= ups.len(),
    ensures
        first_upstream_fault(ups, i, insecure_allowed) is None <==> (forall|k: int|
            i <= k < ups.len() ==> #[trigger] upstream_fault(ups, k, insecure_allowed) is None),
    decreases ups.len() - i,
{
    if i < ups.len() {
        lemma_no_upstream_fault(ups, i + 1, insecure_allowed);
    }
}

proof fn lemma_no_route_fault(cfg: Config, i: int)
    requires
        0 <= i <= cfg.routes@.len(),
    ensures
        first_route_fault(cfg, i) is None <==> (forall|k: int|
            i <= k < cfg.routes@.len() ==> #[trigger] route_fault(cfg, k) is None),
    decreases cfg.routes@.len() - i,
{
    if i < cfg.routes@.len() {
        lemma_no_route_fault(cfg, i + 1);
    }
}

/// A document passes [`check_logic`] exactly where it is consistent: every
/// route resolves to one upstream, no two upstreams share a name, and no
/// object of the document is at fault.
pub proof fn accepted_iff_consistent(cfg: Config, insecure_allowed: bool)
    ensures
        logic_fault(cfg, insecure_allowed) is None <==> consistent(cfg, insecure_allowed),
{
    let ups = cfg.upstreams@;
    let routes = cfg.routes@;
    lemma_no_upstream_fault(ups, 0, insecure_allowed);
    lemma_no_route_fault(cfg, 0);
    if logic_fault(cfg, insecure_allowed) is None {
        assert forall|i: int| #![trigger ups[i]] 0 <= i < ups.len() implies {
            &&& ups[i].addrs@.len() > 0
            &&& ups[i].tls matches Some(t) ==> (t.client_cert is Some <==> t.client_key is Some)
            &&& ups[i].tls matches Some(t) ==> t.verify || insecure_allowed
            &&& ups[i].health_check matches Some(h) ==> h.interval.0@ > 0 && h.timeout.0@ > 0
        } by {
            assert(upstream_fault(ups, i, insecure_allowed) is None);
        }
        assert forall|i: int, j: int| #![trigger ups[i], ups[j]]
            0 <= i < j < ups.len() implies ups[i].name@ != ups[j].name@ by {
            assert(upstream_fault(ups, j, insecure_allowed) is None);
        }
        assert forall|i: int| #![trigger routes[i]] 0 <= i < routes.len() implies {
            let m = routes[i].match_;
            &&& exists|j: int| 0 <= j < ups.len() && #[trigger] ups[j].name@ == routes[i].upstream@
            &&& m.host is Some || m.path_prefix is Some || m.path_exact is Some || m.path_regex
                is Some
            &&& m.path_prefix is None || m.path_exact is None
            &&& routes[i].retry matches Some(p) ==> p.attempts >= 1
        } by {
            assert(route_fault(cfg, i) is None);
        }
    }
    if consistent(cfg, insecure_allowed) {
        assert forall|k: int| 0 <= k < ups.len() implies #[trigger] upstream_fault(
            ups,
            k,
            insecure_allowed,
        ) is None by {
            let u = ups[k];
            assert(!named(ups, k, u.name@));
        }
        assert forall|k: int| 0 <= k < routes.len() implies #[trigger] route_fault(cfg, k)
            is None by {
            let r = routes[k];
            assert(named(ups, ups.len() as int, r.upstream@));
        }
    }
}

proof fn lemma_faulty_upstream(ups: Seq<Upstream>, i: int, insecure_allowed: bool) -> (k: int)
    requires
        0 <= i <= ups.len(),
        first_upstream_fault(ups, i, insecure_allowed) is Some,
    ensures
        i <= k < ups.len(),
        upstream_fault(ups, k, insecure_allowed) == first_upstream_fault(ups, i, insecure_allowed),
    decreases ups.len() - i,
{
    if upstream_fault(ups, i, insecure_allowed) is Some {
        i
    } else {
        lemma_faulty_upstream(ups, i + 1, insecure_allowed)
    }
}

proof fn lemma_faulty_route(cfg: Config, i: int) -> (k: int)
    requires
        0 <= i <= cfg.routes@.len(),
        first_route_fault(cfg, i) is Some,
    ensures
        i <= k < cfg.routes@.len(),
        route_fault(cfg, k) == first_route_fault(cfg, i),
    decreases cfg.routes@.len() - i,
{
    if route_fault(cfg, i) is Some {
        i
    } else {
        lemma_faulty_route(cfg, i + 1)
    }
}

/// What is reported of a document is so: the object that the error names has the
/// fault that it names.
pub proof fn reported_fault_is_there(cfg: Config, insecure_allowed: bool)
    ensures
        ({
            let ups = cfg.upstreams@;
            let routes = cfg.routes@;
            match logic_fault(cfg, insecure_allowed) {
                None => true,
                Some(ConfigError::NoRoutes) => routes.len() == 0,
                Some(ConfigError::UpstreamNoAddrs { index, name }) => index < ups.len()
                    && ups[index as int].addrs@.len() == 0 && ups[index as int].name == name,
                Some(ConfigError::DuplicateUpstream { name }) => exists|i: int, j: int|
                    #![trigger ups[i], ups[j]]
                    0 <= i < j < ups.len() && ups[i].name@ == name@ && ups[j].name@ == name@,
                Some(ConfigError::UpstreamMtlsMismatch { name }) => exists|i: int|
                    #![trigger ups[i]]
                    0 <= i < ups.len() && ups[i].name == name && (ups[i].tls matches Some(t)
                        && t.client_cert is Some != t.client_key is Some),
                Some(ConfigError::UpstreamInsecureTlsNotOptedIn { name }) => !insecure_allowed
                    && exists|i: int|
                    #![trigger ups[i]]
                    0 <= i < ups.len() && ups[i].name == name && (ups[i].tls matches Some(t)
                        && !t.verify),
                Some(ConfigError::HealthCheckBadDuration { name, field }) => exists|i: int|
                    #![trigger ups[i]]
                    0 <= i < ups.len() && ups[i].name == name && (ups[i].health_check matches Some(
                        h,
                    ) && (field@ == "interval"@ && h.interval.0@ == 0 || field@ == "timeout"@
                        && h.timeout.0@ == 0)),
                Some(ConfigError::UnknownUpstream { index, name }) => index < routes.len()
                    && routes[index as int].upstream == name && forall|j: int|
                    #![trigger ups[j]]
                    0 <= j < ups.len() ==> ups[j].name@ != name@,
                Some(ConfigError::RouteMatchEmpty { index }) => index < routes.len() && ({
                    let m = routes[index as int].match_;
                    m.host is None && m.path_prefix is None && m.path_exact is None
                        && m.path_regex is None
                }),
                Some(ConfigError::RoutePathConflict { index }) => index < routes.len()
                    && routes[index as int].match_.path_prefix is Some
                    && routes[index as int].match_.path_exact is Some,
                Some(ConfigError::RetryAttemptsZero { index }) => index < routes.len() && (
                routes[index as int].retry matches Some(p) && p.attempts == 0),
                Some(ConfigError::TlsRequired) => cfg.tls is None && (
                cfg.server.listen_https@.len() > 0 || cfg.server.listen_h3@.len() > 0),
                Some(ConfigError::TlsNoCerts) => cfg.tls matches Some(t) && t.certs@.len() == 0,
                Some(_) => false,
            }
        }),
{
    let ups = cfg.upstreams@;
    assert(cfg.upstreams.len() == ups.len());
    assert(cfg.routes.len() == cfg.routes@.len());
    if cfg.routes@.len() > 0 {
        if first_upstream_fault(ups, 0, insecure_allowed) is Some {
            let k = lemma_faulty_upstream(ups, 0, insecure_allowed);
            assert(k as usize == k);
            let u = ups[k];
            if named(ups, k, u.name@) {
                let j = choose|j: int| 0 <= j < k && #[trigger] ups[j].name@ == u.name@;
                assert(ups[j].name@ == ups[k].name@);
            }
        } else if first_route_fault(cfg, 0) is Some {
            let k = lemma_faulty_route(cfg, 0);
            assert(k as usize == k);
            let r = cfg.routes@[k];
            if !named(ups, ups.len() as int, r.upstream@) {
                assert forall|j: int| #![trigger ups[j]] 0 <= j < ups.len() implies ups[j].name@
                    != r.upstream@ by {
                    if ups[j].name@ == r.upstream@ {
                        assert(named(ups, ups.len() as int, r.upstream@));
                    }
                }
            }
        }
    }
}

/// No rule is passed over: a document that breaks one of them anywhere is refused.
pub proof fn every_rule_is_enforced(cfg: Config, insecure_allowed: bool, i: int, j: int)
    requires
        logic_fault(cfg, insecure_allowed) is None,
        0 <= i < cfg.upstreams@.len(),
        0 <= j < cfg.routes@.len(),
    ensures
        cfg.upstreams@[i].addrs@.len() > 0,
        forall|k: int|
            0 <= k < cfg.upstreams@.len() && k != i ==> (#[trigger] cfg.upstreams@[k]).name@
                != cfg.upstreams@[i].name@,
        cfg.upstreams@[i].tls matches Some(t) ==> (t.client_cert is Some == t.client_key is Some)
            && (t.verify || insecure_allowed),
        cfg.upstreams@[i].health_check matches Some(h) ==> h.interval.0@ > 0 && h.timeout.0@ > 0,
        exists|k: int|
            0 <= k < cfg.upstreams@.len() && (#[trigger] cfg.upstreams@[k]).name@
                == cfg.routes@[j].upstream@,
        !(cfg.routes@[j].match_.path_prefix is Some && cfg.routes@[j].match_.path_exact is Some),
        cfg.routes@[j].match_.host is Some || cfg.routes@[j].match_.path_prefix is Some
            || cfg.routes@[j].match_.path_exact is Some || cfg.routes@[j].match_.path_regex is Some,
        cfg.routes@[j].retry matches Some(p) ==> p.attempts > 0,
        cfg.tls matches Some(t) ==> t.certs@.len() > 0,
        cfg.tls is None ==> cfg.server.listen_https@.len() == 0 && cfg.server.listen_h3@.len() == 0,
{
    accepted_iff_consistent(cfg, insecure_allowed);
    let ups = cfg.upstreams@;
    assert(ups[i].addrs@.len() > 0);
    assert(cfg.routes@[j].retry matches Some(p) ==> p.attempts >= 1);
    assert forall|k: int| 0 <= k < ups.len() && k != i implies (#[trigger] ups[k]).name@
        != ups[i].name@ by {
        if k < i {
            assert(ups[k].name@ != ups[i].name@);
        } else {
            assert(ups[i].name@ != ups[k].name@);
        }
    }
    let k = choose|k: int|
        0 <= k < ups.len() && #[trigger] ups[k].name@ == cfg.routes@[j].upstream@;
    assert(ups[k].name@ == cfg.routes@[j].upstream@);
}

/// The files of the certificates are there exactly where no file is reported; what
/// is reported names the first entry that lacks one, its certificate before its key.
pub proof fn reported_file_is_missing(certs: Seq<CertSpec>, files: Seq<CertFiles>)
    requires
        files.len() == certs.len(),
    ensures
        first_file_fault(certs, files, 0) is None <==> (forall|i: int|
            0 <= i < files.len() ==> (#[trigger] files[i]).cert && files[i].key),
        match first_file_fault(certs, files, 0) {
            None => true,
            Some(ConfigError::CertMissing { sni, path }) => exists|i: int|
                0 <= i < files.len() && !(#[trigger] files[i]).cert && certs[i].sni == sni
                    && certs[i].cert == path && forall|k: int|
                    0 <= k < i ==> (#[trigger] files[k]).cert && files[k].key,
            Some(ConfigError::KeyMissing { sni, path }) => exists|i: int|
                0 <= i < files.len() && (#[trigger] files[i]).cert && !files[i].key && certs[i].sni
                    == sni && certs[i].key == path && forall|k: int|
                    0 <= k < i ==> (#[trigger] files[k]).cert && files[k].key,
            Some(_) => false,
        },
{
    lemma_file_fault(certs, files, 0);
}

proof fn lemma_file_fault(certs: Seq<CertSpec>, files: Seq<CertFiles>, from: int)
    requires
        files.len() == certs.len(),
        0 <= from <= certs.len(),
    ensures
        first_file_fault(certs, files, from) is None <==> (forall|i: int|
            from <= i < files.len() ==> (#[trigger] files[i]).cert && files[i].key),
        first_file_fault(certs, files, from) is Some ==> exists|i: int|
            from <= i < files.len() && file_fault(certs[i], #[trigger] files[i])
                == first_file_fault(certs, files, from) && forall|k: int|
                from <= k < i ==> (#[trigger] files[k]).cert && files[k].key,
    decreases certs.len() - from,
{
    if from < certs.len() {
        lemma_file_fault(certs, files, from + 1);
        if file_fault(certs[from], files[from]) is Some {
            assert(file_fault(certs[from], files[from]) == first_file_fault(certs, files, from));
        } else if first_file_fault(certs, files, from + 1) is Some {
            let i = choose|i: int|
                from + 1 <= i < files.len() && file_fault(certs[i], #[trigger] files[i])
                    == first_file_fault(certs, files, from + 1) && forall|k: int|
                    from + 1 <= k < i ==> (#[trigger] files[k]).cert && files[k].key;
            assert(file_fault(certs[i], files[i]) == first_file_fault(certs, files, from));
        }
    }
}

/// Only a document that was read, keeps the rules and has its files is handed out,
/// and it is handed out as it was read.
pub proof fn only_a_sound_document_is_handed_out(
    read: Result<Config, ConfigError>,
    insecure_allowed: bool,
    files: Seq<CertFiles>,
)
    ensures
        accepted(read, insecure_allowed, files) matches Ok(cfg) ==> read == Ok::<_, ConfigError>(
            cfg,
        ) && logic_fault(cfg, insecure_allowed) is None && first_file_fault(
            cert_specs(cfg),
            files,
            0,
        ) is None,
        read matches Err(e) ==> accepted(read, insecure_allowed, files) == read,
        read matches Ok(cfg) ==> (logic_fault(cfg, insecure_allowed) is None && first_file_fault(
            cert_specs(cfg),
            files,
            0,
        ) is None ==> accepted(read, insecure_allowed, files) == read),
{
}

} // verus!

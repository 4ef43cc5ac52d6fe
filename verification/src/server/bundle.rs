//! The dispatch tables of the server, one for each plain-HTTP worker and one
//! for everything else, and how a reload replaces them.
use vstd::prelude::*;

use crate::config::error::ConfigError;
use crate::config::schema::Config;
use crate::config::validate;
use crate::lifecycle::table::Dispatch;
use crate::transport::tls;
use crate::transport::tls::{MultiCertResolver, PairFiles, TlsError};

verus! {

/// The dispatch tables of the server, each built from the same configuration on
/// its own.
pub struct DispatchBundle {
    /// Used by everything but the plain-HTTP workers.
    pub primary: Dispatch,
    /// One for each plain-HTTP worker.
    pub http_workers: Vec<Dispatch>,
}

impl DispatchBundle {
    /// Whether every table is that of `cfg`.
    pub open spec fn serves(self, cfg: Config) -> bool {
        &&& self.primary.serves(cfg)
        &&& forall|i: int|
            0 <= i < self.http_workers@.len() ==> (#[trigger] self.http_workers@[i]).serves(cfg)
    }
}

/// The dispatch tables for `cfg` with `n` plain-HTTP workers.
pub fn build_dispatch_bundle(cfg: &Config, n: usize) -> (r: DispatchBundle)
    ensures
        r.http_workers@.len() == n,
        r.serves(*cfg),
{
    let primary = Dispatch::from_config(cfg);
    let mut http_workers: Vec<Dispatch> = Vec::new();
    for i in 0..n
        invariant
            http_workers@.len() == i,
            forall|j: int| 0 <= j < i ==> (#[trigger] http_workers@[j]).serves(*cfg),
    {
        http_workers.push(Dispatch::from_config(cfg));
    }
    DispatchBundle { primary, http_workers }
}

/// Hands out the tables of the workers one after the other, and starts again
/// behind the last.
#[derive(Debug)]
pub struct SlotCounter {
    next: usize,
}

impl View for SlotCounter {
    type V = usize;

    closed spec fn view(&self) -> usize {
        self.next
    }
}

/// `n + 1`, starting again at 0 behind the largest number.
pub open spec fn turned(n: usize) -> usize {
    if n == usize::MAX {
        0
    } else {
        (n + 1) as usize
    }
}

impl SlotCounter {
    /// The first table is next.
    pub fn new() -> (r: SlotCounter)
        ensures
            r@ == 0,
    {
        SlotCounter { next: 0 }
    }

    /// The position of the next table, of `n` that there are.
    pub fn take(&mut self, n: usize) -> (i: usize)
        requires
            n > 0,
        ensures
            i == old(self)@ % n,
            i < n,
            final(self)@ == turned(old(self)@),
    {
        let i: usize = self.next % n;
        self.next = self.next.wrapping_add(1);
        i
    }
}

/// The counter after it has handed out `k` tables.
pub open spec fn counter_after(k: nat) -> usize
    decreases k,
{
    if k == 0 {
        0
    } else {
        turned(counter_after((k - 1) as nat))
    }
}

proof fn lemma_counter(k: nat)
    requires
        k <= usize::MAX,
    ensures
        counter_after(k) == k,
    decreases k,
{
    if k > 0 {
        lemma_counter((k - 1) as nat);
    }
}

/// The first `n` tables that a counter hands out are `n` different ones, in
/// order: where there is one table for each worker, no two workers share one.
pub proof fn first_slots_are_distinct(a: nat, b: nat, n: usize)
    requires
        a < b < n,
    ensures
        counter_after(a) % n == a,
        counter_after(a) % n != counter_after(b) % n,
{
    lemma_counter(a);
    lemma_counter(b);
    vstd::arithmetic::div_mod::lemma_small_mod(a, n as nat);
    vstd::arithmetic::div_mod::lemma_small_mod(b, n as nat);
}

/// What a reload came to.
#[derive(Debug)]
pub struct ReloadReport {
    /// Whether the tables were replaced.
    pub reloaded: bool,
    /// What came of the certificates; `None` where they were not looked at.
    pub certs: Option<Result<(), TlsError>>,
}

/// What a reload puts in place.
pub struct Prepared {
    /// The dispatch tables.
    pub bundle: DispatchBundle,
    /// The certificates, or what is wrong with them; `None` where they are not
    /// looked at.
    pub certs: Option<Result<MultiCertResolver, TlsError>>,
}

impl Prepared {
    /// Whether this is what a reload of `cfg` puts in place, where `files` are
    /// those of its certificates and `has_certs` says whether there are any in
    /// use.
    pub open spec fn fits(self, cfg: Config, has_certs: bool, files: Seq<PairFiles>) -> bool {
        &&& self.bundle.serves(cfg)
        &&& self.certs is Some <==> has_certs && cfg.tls is Some
        &&& self.certs matches Some(c) ==> exists|d: Seq<tls::DecodedPair>| #[trigger]
            tls::decoded(files, d) && match c {
                Ok(t) => tls::table_fault(validate::cert_specs(cfg), d) is None && t.holds(
                    validate::cert_specs(cfg),
                    d,
                ),
                Err(e) => tls::table_fault(validate::cert_specs(cfg), d) == Some(e@),
            }
    }
}

/// Makes ready what a reload of `cfg` puts in place, for `n` plain-HTTP workers.
/// Nothing that is in use is touched.
pub fn prepare(cfg: &Config, n: usize, has_certs: bool, files: &Vec<PairFiles>) -> (r: Prepared)
    requires
        files@.len() == validate::cert_specs(*cfg).len(),
    ensures
        r.bundle.http_workers@.len() == n,
        r.fits(*cfg, has_certs, files@),
{
    let bundle = build_dispatch_bundle(cfg, n);
    let certs = match &cfg.tls {
        Some(t) => if has_certs {
            Some(MultiCertResolver::from_config(&t.certs, files))
        } else {
            None
        },
        None => None,
    };
    Prepared { bundle, certs }
}

/// Puts `next` in place: every dispatch table, and the certificates unless they
/// are at fault or not looked at.
pub fn commit(
    bundle: &mut DispatchBundle,
    certs: &mut Option<MultiCertResolver>,
    next: Prepared,
) -> (r: ReloadReport)
    ensures
        r.reloaded,
        *final(bundle) == next.bundle,
        match next.certs {
            None => r.certs is None && *final(certs) == *old(certs),
            Some(Ok(t)) => r.certs == Some(Ok::<(), TlsError>(())) && *final(certs) == Some(t),
            Some(Err(e)) => r.certs == Some(Err::<(), TlsError>(e)) && *final(certs) == *old(certs),
        },
{
    *bundle = next.bundle;
    match next.certs {
        None => ReloadReport { reloaded: true, certs: None },
        Some(Ok(t)) => {
            *certs = Some(t);
            ReloadReport { reloaded: true, certs: Some(Ok(())) }
        },
        Some(Err(e)) => ReloadReport { reloaded: true, certs: Some(Err(e)) },
    }
}

/// Takes a configuration that was loaded anew. Where loading failed, everything
/// stays as it is. Otherwise every dispatch table is replaced, and then the
/// certificates, where there are any and the new configuration has a TLS
/// section. Certificates that are at fault leave the present ones in place.
pub fn reload(
    bundle: &mut DispatchBundle,
    certs: &mut Option<MultiCertResolver>,
    loaded: &Result<Config, ConfigError>,
    files: &Vec<PairFiles>,
) -> (r: ReloadReport)
    requires
        *loaded matches Ok(cfg) ==> files@.len() == validate::cert_specs(cfg).len(),
    ensures
        final(bundle).http_workers@.len() == old(bundle).http_workers@.len(),
        match *loaded {
            Err(_) => {
                &&& !r.reloaded
                &&& r.certs is None
                &&& *final(bundle) == *old(bundle)
                &&& *final(certs) == *old(certs)
            },
            Ok(cfg) => {
                &&& r.reloaded
                &&& final(bundle).serves(cfg)
                &&& r.certs is Some <==> *old(certs) is Some && cfg.tls is Some
                &&& match r.certs {
                    None => *final(certs) == *old(certs),
                    Some(Err(e)) => *final(certs) == *old(certs) && exists|d: Seq<tls::DecodedPair>|
                        #[trigger] tls::decoded(files@, d) && tls::table_fault(
                            validate::cert_specs(cfg),
                            d,
                        ) == Some(e@),
                    Some(Ok(())) => exists|d: Seq<tls::DecodedPair>| #[trigger]
                        tls::decoded(files@, d) && tls::table_fault(validate::cert_specs(cfg), d)
                            is None && *final(certs) is Some && (*final(certs))->0.holds(
                            validate::cert_specs(cfg),
                            d,
                        ),
                }
            },
        },
{
    let cfg = match loaded {
        Ok(c) => c,
        Err(_) => return ReloadReport { reloaded: false, certs: None },
    };
    let next = prepare(cfg, bundle.http_workers.len(), certs.is_some(), files);
    commit(bundle, certs, next)
}

/// Every table of a bundle, that of each worker as well as the one that all else
/// goes by, has the routes of the configuration, in their order, and a name for each
/// of its upstreams.
pub proof fn every_table_follows_the_configuration(
    b: DispatchBundle,
    cfg: Config,
    worker: int,
    i: int,
    j: int,
)
    requires
        b.serves(cfg),
        0 <= worker < b.http_workers@.len(),
        0 <= i < cfg.routes@.len(),
        0 <= j < cfg.upstreams@.len(),
    ensures
        b.primary.routes().len() == cfg.routes@.len(),
        b.primary.routes()[i].upstream == cfg.routes@[i].upstream,
        b.primary.table().contains_key(cfg.upstreams@[j].name@),
        b.http_workers@[worker].routes().len() == cfg.routes@.len(),
        b.http_workers@[worker].routes()[i].upstream == cfg.routes@[i].upstream,
        b.http_workers@[worker].table().contains_key(cfg.upstreams@[j].name@),
{
    let name = cfg.upstreams@[j].name@;
    assert(cfg.upstreams@[j].name@ == name);
    assert(validate::named(cfg.upstreams@, cfg.upstreams@.len() as int, name));
    assert(b.primary.routes()[i].built_from(cfg.routes@[i]));
    assert(b.http_workers@[worker].serves(cfg));
    assert(b.http_workers@[worker].routes()[i].built_from(cfg.routes@[i]));
}

/// What a reload makes ready looks at the certificates exactly where some are in use
/// and the configuration has a TLS section.
pub proof fn certificates_are_looked_at_where_in_use(
    p: Prepared,
    cfg: Config,
    has_certs: bool,
    files: Seq<PairFiles>,
)
    requires
        p.fits(cfg, has_certs, files),
    ensures
        p.certs is Some == (has_certs && cfg.tls is Some),
        p.bundle.primary.routes().len() == cfg.routes@.len(),
{
}

} // verus!

//! Which upstreams are probed, and how.
use vstd::prelude::*;

use std::sync::Arc;

use crate::config::schema;
use crate::config::schema::Config;
use crate::lifecycle::table::Dispatch;
use crate::upstream::health::ProbeConfig;
use crate::upstream::tls;
use crate::upstream::tls::UpstreamTlsOptions;
use crate::upstream::{SharedPool, Upstream};

verus! {

/// Whether `o` are the TLS settings `t`.
pub open spec fn same_tls(t: Option<schema::UpstreamTls>, o: Option<UpstreamTlsOptions>) -> bool {
    match (t, o) {
        (None, None) => true,
        (Some(t), Some(o)) => {
            &&& o.ca == t.ca
            &&& o.client_cert == t.client_cert
            &&& o.client_key == t.client_key
            &&& o.verify == t.verify
        },
        _ => false,
    }
}

/// Whether `p` is how the upstream `u` with the health check `hc` is probed:
/// with the TLS settings of the upstream itself.
pub open spec fn probes(u: schema::Upstream, hc: schema::HealthCheck, p: ProbeConfig) -> bool {
    &&& p.path == hc.path
    &&& p.interval == hc.interval.0
    &&& p.timeout == hc.timeout.0
    &&& p.unhealthy_threshold == hc.unhealthy_threshold
    &&& p.healthy_threshold == hc.healthy_threshold
    &&& same_tls(u.tls, p.tls)
}

/// How an upstream of the configuration is probed; `None` where it has no
/// health check.
pub fn probe_config(u: &schema::Upstream) -> (r: Option<ProbeConfig>)
    ensures
        match u.health_check {
            Some(hc) => r matches Some(p) && probes(*u, hc, p),
            None => r is None,
        },
{
    let hc = match &u.health_check {
        Some(hc) => hc,
        None => return None,
    };
    let tls = match &u.tls {
        Some(t) => Some(
            UpstreamTlsOptions {
                ca: tls::copy_path(&t.ca),
                client_cert: tls::copy_path(&t.client_cert),
                client_key: tls::copy_path(&t.client_key),
                verify: t.verify,
            },
        ),
        None => None,
    };
    Some(
        ProbeConfig {
            path: hc.path.clone(),
            interval: hc.interval.0,
            timeout: hc.timeout.0,
            unhealthy_threshold: hc.unhealthy_threshold,
            healthy_threshold: hc.healthy_threshold,
            tls,
        },
    )
}

/// The probes of one upstream.
pub struct ProbePlan {
    /// Name of the upstream.
    pub name: String,
    /// The addresses that are probed.
    pub addrs: Arc<Vec<String>>,
    /// The backends that the results are reported to.
    pub breakers: SharedPool,
    /// How they are probed.
    pub cfg: ProbeConfig,
}

/// Whether the upstream at `i` is probed: it has a health check, and requests
/// are sent to it.
pub open spec fn is_probed(cfg: Config, table: Map<Seq<char>, Upstream>, i: int) -> bool {
    cfg.upstreams@[i].health_check is Some && table.contains_key(cfg.upstreams@[i].name@)
}

/// The positions of the upstreams that are probed, among the first `n`.
pub open spec fn probed(cfg: Config, table: Map<Seq<char>, Upstream>, n: int) -> Seq<int>
    decreases n,
{
    if n <= 0 {
        Seq::empty()
    } else if is_probed(cfg, table, n - 1) {
        probed(cfg, table, n - 1).push(n - 1)
    } else {
        probed(cfg, table, n - 1)
    }
}

/// Whether `p` is the plan for the upstream `u` of the configuration.
pub open spec fn is_plan(
    u: schema::Upstream,
    table: Map<Seq<char>, Upstream>,
    p: ProbePlan,
) -> bool {
    &&& p.name == u.name
    &&& u.health_check is Some
    &&& probes(u, u.health_check->0, p.cfg)
    &&& p.addrs@ == table[u.name@].addr_list()
    &&& p.breakers == table[u.name@].shared()
}

/// The probes of all upstreams that are probed, in their order. The results
/// reach the breakers that requests go by.
pub fn probe_plans(cfg: &Config, dispatch: &Dispatch) -> (r: Vec<ProbePlan>)
    ensures
        ({
            let which = probed(*cfg, dispatch.table(), cfg.upstreams@.len() as int);
            &&& r@.len() == which.len()
            &&& forall|k: int|
                0 <= k < r@.len() ==> is_plan(
                    cfg.upstreams@[which[k]],
                    dispatch.table(),
                    #[trigger] r@[k],
                )
        }),
{
    let mut plans: Vec<ProbePlan> = Vec::new();
    for i in 0..cfg.upstreams.len()
        invariant
            plans@.len() == probed(*cfg, dispatch.table(), i as int).len(),
            forall|k: int|
                0 <= k < plans@.len() ==> is_plan(
                    cfg.upstreams@[probed(*cfg, dispatch.table(), i as int)[k]],
                    dispatch.table(),
                    #[trigger] plans@[k],
                ),
    {
        let u = &cfg.upstreams[i];
        if let Some(p) = probe_config(u) {
            if let Some(up) = dispatch.upstreams().get(&u.name) {
                plans.push(
                    ProbePlan {
                        name: u.name.clone(),
                        addrs: up.addrs_arc(),
                        breakers: up.breakers_arc(),
                        cfg: p,
                    },
                );
            }
        }
    }
    plans
}

proof fn lemma_probed(cfg: Config, table: Map<Seq<char>, Upstream>, n: int)
    requires
        0 <= n <= cfg.upstreams@.len(),
    ensures
        ({
            let which = probed(cfg, table, n);
            &&& forall|k: int|
                0 <= k < which.len() ==> 0 <= #[trigger] which[k] < n && is_probed(
                    cfg,
                    table,
                    which[k],
                )
            &&& forall|a: int, b: int|
                #![trigger which[a], which[b]]
                0 <= a < b < which.len() ==> which[a] < which[b]
            &&& forall|i: int|
                0 <= i < n && #[trigger] is_probed(cfg, table, i) ==> exists|k: int|
                    0 <= k < which.len() && #[trigger] which[k] == i
        }),
    decreases n,
{
    if n > 0 {
        lemma_probed(cfg, table, n - 1);
        let rest = probed(cfg, table, n - 1);
        let which = probed(cfg, table, n);
        assert forall|i: int| 0 <= i < n && #[trigger] is_probed(cfg, table, i) implies exists|
            k: int,
        |
            0 <= k < which.len() && #[trigger] which[k] == i by {
            if i == n - 1 {
                assert(which[which.len() - 1] == i);
            } else {
                let k = choose|k: int| 0 <= k < rest.len() && #[trigger] rest[k] == i;
                assert(which[k] == i);
            }
        }
    }
}

/// Every upstream that has a health check and is registered is probed, at the path,
/// in the interval and with the limits of that check, over the TLS settings of the
/// upstream, and the results reach the backends that requests are sent to. No other
/// upstream is probed.
pub proof fn every_checked_upstream_is_probed(
    cfg: Config,
    table: Map<Seq<char>, Upstream>,
    plans: Seq<ProbePlan>,
    i: int,
    k: int,
)
    requires
        ({
            let which = probed(cfg, table, cfg.upstreams@.len() as int);
            &&& plans.len() == which.len()
            &&& forall|k: int|
                0 <= k < plans.len() ==> is_plan(
                    cfg.upstreams@[which[k]],
                    table,
                    #[trigger] plans[k],
                )
        }),
        0 <= i < cfg.upstreams@.len(),
        0 <= k < plans.len(),
    ensures
        ({
            let u = cfg.upstreams@[i];
            u.health_check matches Some(hc) ==> (table.contains_key(u.name@) ==> exists|j: int|
                #![trigger plans[j]]
                {
                    let p = plans[j];
                    &&& 0 <= j < plans.len()
                    &&& p.name@ == u.name@
                    &&& p.cfg.path@ == hc.path@
                    &&& p.cfg.interval == hc.interval.0
                    &&& p.cfg.timeout == hc.timeout.0
                    &&& p.cfg.unhealthy_threshold == hc.unhealthy_threshold
                    &&& p.cfg.healthy_threshold == hc.healthy_threshold
                    &&& p.cfg.tls is Some == u.tls is Some
                    &&& p.cfg.tls matches Some(o) ==> o.ca == u.tls->0.ca && o.client_cert
                        == u.tls->0.client_cert && o.client_key == u.tls->0.client_key && o.verify
                        == u.tls->0.verify
                    &&& p.addrs@ == table[u.name@].addr_list()
                    &&& p.breakers == table[u.name@].shared()
                })
        }),
        exists|j: int|
            #![trigger cfg.upstreams@[j]]
            0 <= j < cfg.upstreams@.len() && cfg.upstreams@[j].name@ == plans[k].name@
                && cfg.upstreams@[j].health_check is Some && table.contains_key(plans[k].name@),
        plans.len() <= cfg.upstreams@.len(),
{
    let n = cfg.upstreams@.len() as int;
    let which = probed(cfg, table, n);
    lemma_probed(cfg, table, n);
    let u = cfg.upstreams@[i];
    if u.health_check is Some && table.contains_key(u.name@) {
        assert(is_probed(cfg, table, i));
        let j = choose|j: int| 0 <= j < which.len() && #[trigger] which[j] == i;
        assert(is_plan(cfg.upstreams@[which[j]], table, plans[j]));
    }
    assert(is_plan(cfg.upstreams@[which[k]], table, plans[k]));
    assert(is_probed(cfg, table, which[k]));
    lemma_probed_len(cfg, table, n);
}

proof fn lemma_probed_len(cfg: Config, table: Map<Seq<char>, Upstream>, n: int)
    requires
        0 <= n,
    ensures
        probed(cfg, table, n).len() <= n,
    decreases n,
{
    if n > 0 {
        lemma_probed_len(cfg, table, n - 1);
    }
}

} // verus!

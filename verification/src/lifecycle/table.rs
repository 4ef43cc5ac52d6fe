//! Routes, upstreams by name, and the two together.
//!
//! Routes are tried in the order in which they are declared, and the first one
//! that matches wins.
use vstd::prelude::*;
use vstd::string::*;

use std::sync::Arc;

use crate::config::schema;
use crate::config::schema::{Config, HeaderMatch};
use crate::config::validate;
use crate::lifecycle::glob;
use crate::proto::head;
use crate::proto::head::Field;
use crate::share::share;
use crate::text;
use crate::time::Duration;
use crate::upstream;
use crate::upstream::forward::ForwardError;
use crate::upstream::retry::RetryPolicy;
use crate::upstream::tls;
use crate::upstream::Upstream;

verus! {

/// How the path of a request is matched.
#[derive(Debug)]
pub enum PathMatch {
    /// Any path.
    Any,
    /// Paths that begin with this.
    Prefix(String),
    /// This path and no other.
    Exact(String),
}

/// One route.
#[derive(Debug)]
pub struct Route {
    /// The hosts that are matched, without regard to case; `*` stands for any
    /// run of characters. `None` matches any request, a host only requests that
    /// name one.
    pub host: Option<String>,
    /// The paths that are matched.
    pub path: PathMatch,
    /// Headers that the request has to carry, all of them.
    pub headers: Vec<HeaderMatch>,
    /// Name of the upstream that requests are sent to.
    pub upstream: String,
    /// Retry rules that take the place of the upstream's.
    pub retry: Option<RetryPolicy>,
    /// How long a request may take in all.
    pub total_timeout: Duration,
    /// How long a frame of the response may take.
    pub read_timeout: Duration,
}

/// A host by its characters.
pub open spec fn host_view(host: Option<&str>) -> Option<Seq<char>> {
    match host {
        Some(h) => Some(h@),
        None => None,
    }
}

/// Whether `host` is what the route asks for.
pub open spec fn host_matches(want: Option<String>, host: Option<&str>) -> bool {
    match want {
        None => true,
        Some(w) => match host {
            Some(h) => glob::covers(text::lowered(w@), text::lowered(h@)),
            None => false,
        },
    }
}

/// Whether `f` is the header `want`: its name without regard to case, and its
/// value byte for byte.
pub open spec fn is_header(f: Field, want: HeaderMatch) -> bool {
    &&& text::lowered(f.name@) == text::lowered(want.name@)
    &&& f.value@ == vstd::utf8::encode_utf8(want.value@)
}

/// Whether one of `fields` is the header `want`.
pub open spec fn carries(fields: Seq<Field>, want: HeaderMatch) -> bool {
    exists|i: int| 0 <= i < fields.len() && is_header(#[trigger] fields[i], want)
}

/// Whether `fields` hold every header that the route asks for.
pub open spec fn headers_match(want: Seq<HeaderMatch>, fields: Seq<Field>) -> bool {
    forall|i: int| 0 <= i < want.len() ==> carries(fields, #[trigger] want[i])
}

/// Whether `f` is the header `want`.
fn same_header(f: &Field, want: &HeaderMatch) -> (r: bool)
    ensures
        r == is_header(*f, *want),
{
    if !text::same_ignoring_case(&f.name, &want.name) {
        return false;
    }
    let bytes = want.value.as_str().as_bytes();
    if f.value.len() != bytes.len() {
        return false;
    }
    for i in 0..bytes.len()
        invariant
            bytes@ == vstd::utf8::encode_utf8(want.value@),
            f.value@.len() == bytes@.len(),
            f.value@.take(i as int) == bytes@.take(i as int),
    {
        if f.value[i] != bytes[i] {
            assert(f.value@[i as int] != bytes@[i as int]);
            return false;
        }
        assert(f.value@.take(i + 1) =~= f.value@.take(i as int).push(f.value@[i as int]));
        assert(bytes@.take(i + 1) =~= bytes@.take(i as int).push(bytes@[i as int]));
    }
    assert(f.value@.take(bytes@.len() as int) =~= f.value@);
    assert(bytes@.take(bytes@.len() as int) =~= bytes@);
    true
}

/// Whether one of `fields` is the header `want`.
fn has_header(fields: &Vec<Field>, want: &HeaderMatch) -> (r: bool)
    ensures
        r == carries(fields@, *want),
{
    for i in 0..fields.len()
        invariant
            forall|j: int| 0 <= j < i ==> !is_header(#[trigger] fields@[j], *want),
    {
        if same_header(&fields[i], want) {
            return true;
        }
    }
    false
}

/// A fresh list of the same headers.
fn copy_headers(v: &Vec<HeaderMatch>) -> (r: Vec<HeaderMatch>)
    ensures
        r@ == v@,
{
    let mut r: Vec<HeaderMatch> = Vec::new();
    for i in 0..v.len()
        invariant
            r@ == v@.take(i as int),
    {
        r.push(HeaderMatch { name: v[i].name.clone(), value: v[i].value.clone() });
        assert(v@.take(i + 1) =~= v@.take(i as int).push(v@[i as int]));
    }
    assert(v@.take(v@.len() as int) =~= v@);
    r
}

/// Whether `path` is one that the route asks for.
pub open spec fn path_matches(want: PathMatch, path: Seq<char>) -> bool {
    match want {
        PathMatch::Any => true,
        PathMatch::Prefix(p) => text::begins_with(path, p@),
        PathMatch::Exact(p) => path == p@,
    }
}

/// How a route of the configuration matches paths: an exact path goes before a
/// prefix.
pub open spec fn path_rule(m: schema::RouteMatch, p: PathMatch) -> bool {
    match m.path_exact {
        Some(s) => p == PathMatch::Exact(s),
        None => match m.path_prefix {
            Some(s) => p == PathMatch::Prefix(s),
            None => p == PathMatch::Any,
        },
    }
}

/// Whether the retry rules `r` are those of the configuration.
pub open spec fn same_rules(cfg: Option<schema::RetryPolicy>, r: Option<RetryPolicy>) -> bool {
    match (cfg, r) {
        (None, None) => true,
        (Some(c), Some(p)) => {
            &&& p.attempts == c.attempts
            &&& p.on_status@ == c.on_status@
            &&& p.on_connect_error == c.on_connect_error
        },
        _ => false,
    }
}

impl Route {
    /// Whether the route takes a request for `path` at `host` with the header
    /// fields `fields`.
    pub open spec fn takes(self, host: Option<&str>, fields: Seq<Field>, path: Seq<char>) -> bool {
        &&& host_matches(self.host, host)
        &&& headers_match(self.headers@, fields)
        &&& path_matches(self.path, path)
    }

    /// Whether this is the route `cfg` of a configuration.
    pub open spec fn built_from(self, cfg: schema::Route) -> bool {
        &&& self.host == cfg.match_.host
        &&& path_rule(cfg.match_, self.path)
        &&& self.headers@ == cfg.match_.headers@
        &&& self.upstream == cfg.upstream
        &&& same_rules(cfg.retry, self.retry)
        &&& self.total_timeout == cfg.timeouts.total.0
        &&& self.read_timeout == cfg.timeouts.read.0
    }

    /// A route with default timeouts, which asks for no header and has no retry
    /// rules of its own.
    pub fn new(host: Option<String>, path: PathMatch, upstream: String) -> (r: Route)
        ensures
            r.host == host,
            r.path == path,
            r.headers@.len() == 0,
            r.upstream == upstream,
            r.retry is None,
            r.total_timeout@ == 60_000_000_000,
            r.read_timeout@ == 30_000_000_000,
    {
        let t = schema::Timeouts::default();
        Route {
            host,
            path,
            headers: Vec::new(),
            upstream,
            retry: None,
            total_timeout: t.total.0,
            read_timeout: t.read.0,
        }
    }

    /// The route that a configuration describes. An exact path goes before a
    /// prefix; a regular expression is not looked at.
    pub fn from_config(cfg: &schema::Route) -> (r: Route)
        ensures
            r.built_from(*cfg),
    {
        let path = if let Some(s) = &cfg.match_.path_exact {
            PathMatch::Exact(s.clone())
        } else if let Some(s) = &cfg.match_.path_prefix {
            PathMatch::Prefix(s.clone())
        } else {
            PathMatch::Any
        };
        let retry = match &cfg.retry {
            Some(p) => Some(RetryPolicy::from_config(p)),
            None => None,
        };
        Route {
            host: tls::copy_path(&cfg.match_.host),
            path,
            headers: copy_headers(&cfg.match_.headers),
            upstream: cfg.upstream.clone(),
            retry,
            total_timeout: cfg.timeouts.total.0,
            read_timeout: cfg.timeouts.read.0,
        }
    }

    /// Whether the route takes a request for `path` at `host` with the header
    /// fields `fields`.
    pub fn matches(&self, host: Option<&str>, fields: &Vec<Field>, path: &str) -> (r: bool)
        ensures
            r == self.takes(host, fields@, path@),
    {
        if let Some(want) = &self.host {
            match host {
                Some(got) => {
                    if !glob::is_covered(&text::to_lower(want), &text::to_lower(got)) {
                        return false;
                    }
                },
                None => return false,
            }
        }
        for i in 0..self.headers.len()
            invariant
                forall|j: int| 0 <= j < i ==> carries(fields@, #[trigger] self.headers@[j]),
        {
            if !has_header(fields, &self.headers[i]) {
                assert(!carries(fields@, self.headers@[i as int]));
                return false;
            }
        }
        match &self.path {
            PathMatch::Any => true,
            PathMatch::Prefix(p) => text::starts_with(path, p),
            PathMatch::Exact(p) => text::same(path, p),
        }
    }
}

/// The first route from `i` on that takes the request.
pub open spec fn first_match(
    routes: Seq<Route>,
    host: Option<&str>,
    fields: Seq<Field>,
    path: Seq<char>,
    i: int,
) -> Option<int>
    decreases routes.len() - i,
{
    if i < 0 || i >= routes.len() {
        None
    } else if routes[i].takes(host, fields, path) {
        Some(i)
    } else {
        first_match(routes, host, fields, path, i + 1)
    }
}

/// Routes in the order in which they are tried.
#[derive(Debug)]
pub struct RouteTable {
    routes: Vec<Route>,
}

impl View for RouteTable {
    type V = Seq<Route>;

    closed spec fn view(&self) -> Seq<Route> {
        self.routes@
    }
}

impl RouteTable {
    /// A table of these routes.
    pub fn new(routes: Vec<Route>) -> (r: RouteTable)
        ensures
            r@ == routes@,
    {
        RouteTable { routes }
    }

    /// The routes of a configuration, in its order.
    pub fn from_config(cfg: &Config) -> (r: RouteTable)
        ensures
            r@.len() == cfg.routes@.len(),
            forall|i: int|
                0 <= i < cfg.routes@.len() ==> (#[trigger] r@[i]).built_from(cfg.routes@[i]),
    {
        let mut routes: Vec<Route> = Vec::new();
        for i in 0..cfg.routes.len()
            invariant
                routes@.len() == i,
                forall|j: int|
                    0 <= j < i ==> (#[trigger] routes@[j]).built_from(cfg.routes@[j]),
        {
            routes.push(Route::from_config(&cfg.routes[i]));
        }
        RouteTable { routes }
    }

    /// The position of the first route that takes the request.
    pub fn find_index(&self, host: Option<&str>, fields: &Vec<Field>, path: &str) -> (r: Option<
        usize,
    >)
        ensures
            match r {
                Some(i) => first_match(self@, host, fields@, path@, 0) == Some(i as int) && i
                    < self@.len(),
                None => first_match(self@, host, fields@, path@, 0) is None,
            },
    {
        let mut i: usize = 0;
        while i < self.routes.len()
            invariant
                i <= self.routes@.len(),
                first_match(self@, host, fields@, path@, 0) == first_match(
                    self@,
                    host,
                    fields@,
                    path@,
                    i as int,
                ),
            decreases self.routes@.len() - i,
        {
            if self.routes[i].matches(host, fields, path) {
                return Some(i);
            }
            i += 1;
        }
        None
    }

    /// The first route that takes a request without header fields.
    pub fn find(&self, host: Option<&str>, path: &str) -> (r: Option<&Route>)
        ensures
            match first_match(self@, host, Seq::empty(), path@, 0) {
                Some(i) => r matches Some(t) && *t == self@[i],
                None => r is None,
            },
    {
        self.find_for(host, &Vec::new(), path)
    }

    /// The first route that takes a request with the header fields `fields`.
    pub fn find_for(&self, host: Option<&str>, fields: &Vec<Field>, path: &str) -> (r: Option<
        &Route,
    >)
        ensures
            match first_match(self@, host, fields@, path@, 0) {
                Some(i) => r matches Some(t) && *t == self@[i],
                None => r is None,
            },
    {
        match self.find_index(host, fields, path) {
            Some(i) => Some(&self.routes[i]),
            None => None,
        }
    }

    /// How many routes there are.
    pub fn len(&self) -> (n: usize)
        ensures
            n == self@.len(),
    {
        self.routes.len()
    }

    /// Whether there are no routes.
    pub fn is_empty(&self) -> (r: bool)
        ensures
            r == (self@.len() == 0),
    {
        self.routes.len() == 0
    }
}

/// The position of the entry called `name` among the first `n`.
pub open spec fn entry_index(entries: Seq<(String, Upstream)>, name: Seq<char>, n: int) -> Option<
    int,
>
    decreases n,
{
    if n <= 0 {
        None
    } else if entries[n - 1].0@ == name {
        Some(n - 1)
    } else {
        entry_index(entries, name, n - 1)
    }
}

proof fn lemma_entry_index(entries: Seq<(String, Upstream)>, name: Seq<char>, n: int)
    requires
        0 <= n <= entries.len(),
    ensures
        match entry_index(entries, name, n) {
            Some(i) => 0 <= i < n && entries[i].0@ == name,
            None => forall|i: int| 0 <= i < n ==> (#[trigger] entries[i]).0@ != name,
        },
    decreases n,
{
    if n > 0 {
        lemma_entry_index(entries, name, n - 1);
    }
}

/// Whether no two entries share a name.
pub open spec fn distinct(e: Seq<(String, Upstream)>) -> bool {
    forall|i: int, j: int|
        #![trigger e[i], e[j]]
        0 <= i < j < e.len() ==> e[i].0@ != e[j].0@
}

/// The names of the entries.
pub open spec fn entry_names(e: Seq<(String, Upstream)>) -> Seq<Seq<char>> {
    Seq::new(e.len(), |i: int| e[i].0@)
}

/// Whether `names` are the names that `m` holds an upstream for, each of them
/// once.
pub open spec fn lists(names: Seq<Seq<char>>, m: Map<Seq<char>, Upstream>) -> bool {
    &&& names.no_duplicates()
    &&& forall|name: Seq<char>| #[trigger] m.contains_key(name) <==> names.contains(name)
}

/// The names of the first `n` upstreams of a configuration, in the order in which
/// they come up first.
pub open spec fn first_names(ups: Seq<schema::Upstream>, n: int) -> Seq<Seq<char>>
    decreases n,
{
    if n <= 0 {
        Seq::empty()
    } else {
        let before = first_names(ups, n - 1);
        let name = ups[n - 1].name@;
        if before.contains(name) {
            before
        } else {
            before.push(name)
        }
    }
}

/// Upstreams by name. No two share one.
pub struct UpstreamMap {
    entries: Vec<(String, Upstream)>,
}

impl View for UpstreamMap {
    type V = Map<Seq<char>, Upstream>;

    closed spec fn view(&self) -> Map<Seq<char>, Upstream> {
        let e = self.entries@;
        Map::new(
            |k: Seq<char>| entry_index(e, k, e.len() as int) is Some,
            |k: Seq<char>| e[entry_index(e, k, e.len() as int)->0].1,
        )
    }
}

impl UpstreamMap {
    #[verifier::type_invariant]
    spec fn inv(self) -> bool {
        distinct(self.entries@)
    }

    /// The names, in the order in which they were registered first.
    pub closed spec fn names(self) -> Seq<Seq<char>> {
        entry_names(self.entries@)
    }

    /// A map without upstreams.
    pub fn new() -> (r: UpstreamMap)
        ensures
            r@ == Map::<Seq<char>, Upstream>::empty(),
            r.names() == Seq::<Seq<char>>::empty(),
    {
        let r = UpstreamMap { entries: Vec::new() };
        assert(r@ =~= Map::<Seq<char>, Upstream>::empty());
        assert(r.names() =~= Seq::<Seq<char>>::empty());
        r
    }

    /// Registers an upstream under `name`, and hands back the one that stood
    /// there before.
    pub fn insert(&mut self, name: String, upstream: Upstream) -> (r: Option<Upstream>)
        ensures
            final(self)@ == old(self)@.insert(name@, upstream),
            final(self).names() == if old(self)@.contains_key(name@) {
                old(self).names()
            } else {
                old(self).names().push(name@)
            },
            r == if old(self)@.contains_key(name@) {
                Some(old(self)@[name@])
            } else {
                None
            },
    {
        proof {
            use_type_invariant(&*self);
        }
        let ghost before = self.entries@;
        let mut v: Vec<(String, Upstream)> = Vec::new();
        std::mem::swap(&mut v, &mut self.entries);
        let mut i: usize = v.len();
        while i > 0
            invariant
                i <= v@.len(),
                v@ == before,
                before == old(self).entries@,
                distinct(before),
                self.entries@.len() == 0,
                entry_index(before, name@, before.len() as int) == entry_index(
                    before,
                    name@,
                    i as int,
                ),
            decreases i,
        {
            i -= 1;
            if v[i].0 == name {
                let mut slot = (name, upstream);
                std::mem::swap(&mut slot, &mut v[i]);
                self.entries = v;
                proof {
                    let after = self.entries@;
                    assert forall|k: Seq<char>| #[trigger] entry_index(
                        after,
                        k,
                        after.len() as int,
                    ) == entry_index(before, k, before.len() as int) by {
                        lemma_same_names(before, after, k, after.len() as int);
                    }
                    assert forall|k: Seq<char>| #[trigger] entry_index(
                        before,
                        k,
                        before.len() as int,
                    ) is Some implies ({
                        let at = entry_index(before, k, before.len() as int)->0;
                        0 <= at < before.len() && before[at].0@ == k
                    }) by {
                        lemma_entry_index(before, k, before.len() as int);
                    }
                    lemma_unique_index(after, i as int);
                    assert(self@ =~= old(self)@.insert(name@, upstream));
                    assert(self.names() =~= old(self).names());
                }
                return Some(slot.1);
            }
        }
        v.push((name, upstream));
        proof {
            lemma_entry_index(before, name@, before.len() as int);
        }
        self.entries = v;
        proof {
            let after = self.entries@;
            assert forall|k: Seq<char>| #[trigger] entry_index(after, k, after.len() as int)
                == if k == name@ {
                Some(before.len() as int)
            } else {
                entry_index(before, k, before.len() as int)
            } by {
                lemma_same_names(before, after, k, before.len() as int);
            }
            assert forall|k: Seq<char>| #[trigger] entry_index(before, k, before.len() as int)
                is Some implies 0 <= entry_index(before, k, before.len() as int)->0
                < before.len() by {
                lemma_entry_index(before, k, before.len() as int);
            }
            assert(self@ =~= old(self)@.insert(name@, upstream));
            assert(self.names() =~= old(self).names().push(name@));
        }
        None
    }

    /// The upstream called `name`.
    pub fn get(&self, name: &str) -> (r: Option<&Upstream>)
        ensures
            match r {
                Some(u) => self@.contains_key(name@) && *u == self@[name@],
                None => !self@.contains_key(name@),
            },
    {
        let ghost e = self.entries@;
        let mut i: usize = self.entries.len();
        while i > 0
            invariant
                i <= self.entries@.len(),
                e == self.entries@,
                entry_index(e, name@, e.len() as int) == entry_index(e, name@, i as int),
            decreases i,
        {
            i -= 1;
            if text::same(&self.entries[i].0, name) {
                return Some(&self.entries[i].1);
            }
        }
        None
    }

    /// The upstreams of a configuration, each with its addresses and its retry
    /// rules; one without rules grants no retries. Where two share a name, the
    /// later one stays.
    pub fn from_config(cfg: &Config) -> (r: UpstreamMap)
        ensures
            registered(cfg.upstreams@, cfg.upstreams@.len() as int, r@),
            r.names() == first_names(cfg.upstreams@, cfg.upstreams@.len() as int),
    {
        let mut map = UpstreamMap::new();
        for k in 0..cfg.upstreams.len()
            invariant
                registered(cfg.upstreams@, k as int, map@),
                map.names() == first_names(cfg.upstreams@, k as int),
        {
            proof {
                use_type_invariant(&map);
                lemma_lists(&map);
            }
            let u = &cfg.upstreams[k];
            let retry = match &u.retry {
                Some(p) => RetryPolicy::from_config(p),
                None => RetryPolicy::default(),
            };
            let up = Upstream::with_addrs(retry, upstream::copy_names(&u.addrs));
            proof {
                lemma_register(cfg.upstreams@, k as int, map@, up);
            }
            let _ = map.insert(u.name.clone(), up);
        }
        map
    }

    /// How many upstreams there are.
    pub fn len(&self) -> (n: usize)
        ensures
            n == self.names().len(),
            lists(self.names(), self@),
    {
        proof {
            use_type_invariant(self);
            lemma_lists(self);
        }
        self.entries.len()
    }

    /// The upstream at `i`, with its name.
    pub fn entry(&self, i: usize) -> (r: (&String, &Upstream))
        requires
            i < self.names().len(),
        ensures
            r.0@ == self.names()[i as int],
            self@.contains_key(r.0@),
            *r.1 == self@[r.0@],
    {
        proof {
            use_type_invariant(self);
            lemma_unique_index(self.entries@, i as int);
        }
        (&self.entries[i].0, &self.entries[i].1)
    }
}

impl Default for UpstreamMap {
    fn default() -> (r: UpstreamMap)
        ensures
            r@ == Map::<Seq<char>, Upstream>::empty(),
            r.names() == Seq::<Seq<char>>::empty(),
    {
        UpstreamMap::new()
    }
}

/// Whether one of the first `n` upstreams stands behind `i` and has the same
/// name.
pub open spec fn shadowed(ups: Seq<schema::Upstream>, i: int, n: int) -> bool {
    exists|j: int| i < j < n && #[trigger] ups[j].name@ == ups[i].name@
}

/// Whether `m` holds the first `n` upstreams of a configuration and no others,
/// where two share a name the later one.
pub open spec fn registered(
    ups: Seq<schema::Upstream>,
    n: int,
    m: Map<Seq<char>, Upstream>,
) -> bool {
    &&& forall|name: Seq<char>| #[trigger]
        m.contains_key(name) <==> validate::named(ups, n, name)
    &&& forall|i: int|
        0 <= i < n && !shadowed(ups, i, n) ==> plain(#[trigger] ups[i], m[ups[i].name@])
}

proof fn lemma_register(
    ups: Seq<schema::Upstream>,
    k: int,
    m: Map<Seq<char>, Upstream>,
    up: Upstream,
)
    requires
        0 <= k < ups.len(),
        registered(ups, k, m),
        plain(ups[k], up),
    ensures
        registered(ups, k + 1, m.insert(ups[k].name@, up)),
{
    let after = m.insert(ups[k].name@, up);
    assert forall|name: Seq<char>| #[trigger] after.contains_key(name) <==> validate::named(
        ups,
        k + 1,
        name,
    ) by {
        assert(m.contains_key(name) <==> validate::named(ups, k, name));
        if name == ups[k].name@ {
            assert(ups[k].name@ == name);
        }
        if validate::named(ups, k + 1, name) && name != ups[k].name@ {
            let j = choose|j: int| 0 <= j < k + 1 && #[trigger] ups[j].name@ == name;
            assert(j < k);
            assert(validate::named(ups, k, name));
        }
        if validate::named(ups, k, name) {
            let j = choose|j: int| 0 <= j < k && #[trigger] ups[j].name@ == name;
            assert(ups[j].name@ == name);
        }
    }
    assert forall|i: int| 0 <= i < k + 1 && !shadowed(ups, i, k + 1) implies plain(
        #[trigger] ups[i],
        after[ups[i].name@],
    ) by {
        if i < k {
            if ups[k].name@ == ups[i].name@ {
                assert(shadowed(ups, i, k + 1));
            }
            if shadowed(ups, i, k) {
                let j = choose|j: int| i < j < k && #[trigger] ups[j].name@ == ups[i].name@;
                assert(ups[j].name@ == ups[i].name@);
                assert(shadowed(ups, i, k + 1));
            }
        }
    }
}

/// Whether `u` is the upstream `cfg` with default breakers. Without retry rules
/// of its own it grants no retries.
pub open spec fn plain(cfg: schema::Upstream, u: Upstream) -> bool {
    &&& u.addr_list() == cfg.addrs@
    &&& match cfg.retry {
        Some(_) => same_rules(cfg.retry, Some(u.retry_policy())),
        None => {
            &&& u.retry_policy().attempts == 0
            &&& u.retry_policy().on_status@.len() == 0
            &&& !u.retry_policy().on_connect_error
        },
    }
    &&& u.has_default_breakers()
    &&& u.timeout() is None
    &&& u.material() is None
}

proof fn lemma_same_names(
    a: Seq<(String, Upstream)>,
    b: Seq<(String, Upstream)>,
    name: Seq<char>,
    n: int,
)
    requires
        0 <= n <= a.len(),
        n <= b.len(),
        forall|i: int| 0 <= i < n ==> (#[trigger] a[i]).0@ == b[i].0@,
    ensures
        entry_index(a, name, n) == entry_index(b, name, n),
    decreases n,
{
    if n > 0 {
        assert(a[n - 1].0@ == b[n - 1].0@);
        lemma_same_names(a, b, name, n - 1);
    }
}

proof fn lemma_unique_index(e: Seq<(String, Upstream)>, i: int)
    requires
        0 <= i < e.len(),
        distinct(e),
    ensures
        entry_index(e, e[i].0@, e.len() as int) == Some(i),
{
    lemma_entry_index(e, e[i].0@, e.len() as int);
}

proof fn lemma_lists(m: &UpstreamMap)
    requires
        distinct(m.entries@),
    ensures
        lists(m.names(), m@),
{
    let e = m.entries@;
    let names = m.names();
    assert forall|i: int, j: int|
        0 <= i < names.len() && 0 <= j < names.len() && i != j implies names[i] != names[j] by {
        if i < j {
            assert(e[i].0@ != e[j].0@);
        } else {
            assert(e[j].0@ != e[i].0@);
        }
    }
    assert forall|name: Seq<char>| #[trigger] m@.contains_key(name) <==> names.contains(name) by {
        lemma_entry_index(e, name, e.len() as int);
        if m@.contains_key(name) {
            let i = entry_index(e, name, e.len() as int)->0;
            assert(names[i] == name);
        }
        if names.contains(name) {
            let i = choose|i: int| 0 <= i < names.len() && names[i] == name;
            assert(e[i].0@ == name);
        }
    }
}

/// Routes and upstreams together. Clones share them.
pub struct Dispatch {
    inner: Arc<DispatchInner>,
}

struct DispatchInner {
    routes: RouteTable,
    upstreams: UpstreamMap,
}

/// Why a request got no answer of an upstream.
#[derive(Debug)]
#[non_exhaustive]
pub enum DispatchError {
    /// No route matches the request.
    NoRoute,
    /// The route names an upstream that is not registered.
    UpstreamNotRegistered {
        /// The name that was not found.
        name: String,
    },
    /// The upstream did not answer.
    Upstream(ForwardError),
    /// The request took longer than its route allows.
    Timeout(Duration),
}

impl DispatchError {
    /// The error as one line of text.
    pub fn message(&self) -> (r: String)
        ensures
            r@ == match *self {
                DispatchError::NoRoute => "no route matched the request"@,
                DispatchError::UpstreamNotRegistered { name } => "route references upstream `"@
                    + name@ + "` which is not registered"@,
                DispatchError::Upstream(_) => "upstream forward failed"@,
                DispatchError::Timeout(_) => "request exceeded route total timeout"@,
            },
    {
        match self {
            DispatchError::NoRoute => "no route matched the request".to_owned(),
            DispatchError::UpstreamNotRegistered { name } => text::around(
                "route references upstream `",
                name,
                "` which is not registered",
            ),
            DispatchError::Upstream(_) => "upstream forward failed".to_owned(),
            DispatchError::Timeout(_) => "request exceeded route total timeout".to_owned(),
        }
    }
}

/// How a request is served: by which upstream, under which rules.
pub struct Plan {
    /// Name of the upstream.
    pub name: String,
    /// The upstream.
    pub upstream: Upstream,
    /// The retry rules in force.
    pub retry: RetryPolicy,
    /// How long the request may take in all.
    pub total_timeout: Duration,
    /// How long a frame of the response may take.
    pub read_timeout: Duration,
}

/// The retry rules in force for a route to `up`: those of the route, where it
/// has any.
pub open spec fn rules_in_force(route: Route, up: Upstream) -> RetryPolicy {
    match route.retry {
        Some(p) => p,
        None => up.retry_policy(),
    }
}

/// Whether `a` and `b` say the same.
pub open spec fn same_policy(a: RetryPolicy, b: RetryPolicy) -> bool {
    &&& a.attempts == b.attempts
    &&& a.on_status@ == b.on_status@
    &&& a.on_connect_error == b.on_connect_error
}

impl Dispatch {
    /// The routes.
    pub closed spec fn routes(self) -> Seq<Route> {
        self.inner.routes@
    }

    /// The upstreams.
    pub closed spec fn table(self) -> Map<Seq<char>, Upstream> {
        self.inner.upstreams@
    }

    /// The names of the upstreams, in the order in which they were registered
    /// first.
    pub closed spec fn names(self) -> Seq<Seq<char>> {
        self.inner.upstreams.names()
    }

    /// These routes with these upstreams.
    pub fn new(routes: RouteTable, upstreams: UpstreamMap) -> (r: Dispatch)
        ensures
            r.routes() == routes@,
            r.table() == upstreams@,
            r.names() == upstreams.names(),
    {
        Dispatch { inner: Arc::new(DispatchInner { routes, upstreams }) }
    }

    /// The routes and upstreams of a configuration.
    pub fn from_config(cfg: &Config) -> (r: Dispatch)
        ensures
            r.serves(*cfg),
    {
        let routes = RouteTable::from_config(cfg);
        let upstreams = UpstreamMap::from_config(cfg);
        Dispatch::new(routes, upstreams)
    }

    /// Whether the routes and upstreams are those of `cfg`.
    pub open spec fn serves(self, cfg: Config) -> bool {
        &&& self.routes().len() == cfg.routes@.len()
        &&& forall|i: int|
            0 <= i < cfg.routes@.len() ==> (#[trigger] self.routes()[i]).built_from(cfg.routes@[i])
        &&& registered(cfg.upstreams@, cfg.upstreams@.len() as int, self.table())
        &&& self.names() == first_names(cfg.upstreams@, cfg.upstreams@.len() as int)
    }

    /// Whether `r` is how a request for `path` at `host` with the header fields
    /// `fields` is served: by the upstream of the first route that takes it,
    /// under the rules of that route.
    pub open spec fn planned(
        self,
        host: Option<&str>,
        fields: Seq<Field>,
        path: Seq<char>,
        r: Result<Plan, DispatchError>,
    ) -> bool {
        match first_match(self.routes(), host, fields, path, 0) {
            None => r matches Err(DispatchError::NoRoute),
            Some(i) => {
                let route = self.routes()[i];
                if self.table().contains_key(route.upstream@) {
                    let up = self.table()[route.upstream@];
                    &&& r matches Ok(p)
                    &&& p.name == route.upstream
                    &&& p.upstream.shared() == up.shared()
                    &&& p.upstream.addr_list() == up.addr_list()
                    &&& p.upstream.timeout() == up.timeout()
                    &&& p.upstream.material() == up.material()
                    &&& same_policy(p.retry, rules_in_force(route, up))
                    &&& p.total_timeout == route.total_timeout
                    &&& p.read_timeout == route.read_timeout
                } else {
                    r matches Err(DispatchError::UpstreamNotRegistered { name }) && name
                        == route.upstream
                }
            },
        }
    }

    /// The upstreams.
    pub fn upstreams(&self) -> (r: &UpstreamMap)
        ensures
            r@ == self.table(),
            r.names() == self.names(),
            lists(self.names(), self.table()),
    {
        proof {
            use_type_invariant(&self.inner.upstreams);
            lemma_lists(&self.inner.upstreams);
        }
        &self.inner.upstreams
    }

    /// How a request for `path` with these header fields is served. The host is
    /// that of the first `host` field, where its value is text.
    pub fn plan_for(&self, fields: &Vec<Field>, path: &str) -> (r: Result<Plan, DispatchError>)
        ensures
            exists|host: Option<&str>| #[trigger]
                self.planned(host, fields@, path@, r) && head::names_host(fields@, host_view(host)),
    {
        let host = head::host_of(fields);
        let asked: Option<&str> = match &host {
            Some(h) => Some(h),
            None => None,
        };
        let r = self.plan(asked, fields, path);
        assert(self.planned(asked, fields@, path@, r) && head::names_host(
            fields@,
            host_view(asked),
        ));
        r
    }

    /// How a request for `path` at `host` with the header fields `fields` is
    /// served. Fails where no route takes it, and where the route names an
    /// upstream that is not registered.
    pub fn plan(&self, host: Option<&str>, fields: &Vec<Field>, path: &str) -> (r: Result<
        Plan,
        DispatchError,
    >)
        ensures
            self.planned(host, fields@, path@, r),
    {
        let route = match self.inner.routes.find_for(host, fields, path) {
            Some(r) => r,
            None => return Err(DispatchError::NoRoute),
        };
        match self.inner.upstreams.get(&route.upstream) {
            Some(up) => {
                let retry = match &route.retry {
                    Some(p) => p.copy(),
                    None => up.retry().copy(),
                };
                Ok(
                    Plan {
                        name: route.upstream.clone(),
                        upstream: up.clone(),
                        retry,
                        total_timeout: route.total_timeout,
                        read_timeout: route.read_timeout,
                    },
                )
            },
            None => Err(DispatchError::UpstreamNotRegistered { name: route.upstream.clone() }),
        }
    }
}

impl Clone for Dispatch {
    fn clone(&self) -> (r: Dispatch)
        ensures
            r == *self,
    {
        Dispatch { inner: share(&self.inner) }
    }
}

/// The first match is the first: it takes the request, and no route before it
/// does. Where there is none, no route takes the request.
pub proof fn first_match_wins(
    routes: Seq<Route>,
    host: Option<&str>,
    fields: Seq<Field>,
    path: Seq<char>,
    from: int,
)
    requires
        0 <= from <= routes.len(),
    ensures
        match first_match(routes, host, fields, path, from) {
            Some(i) => {
                &&& from <= i < routes.len()
                &&& routes[i].takes(host, fields, path)
                &&& forall|j: int|
                    from <= j < i ==> !(#[trigger] routes[j]).takes(host, fields, path)
            },
            None => forall|j: int|
                from <= j < routes.len() ==> !(#[trigger] routes[j]).takes(host, fields, path),
        },
    decreases routes.len() - from,
{
    if from < routes.len() {
        first_match_wins(routes, host, fields, path, from + 1);
    }
}

/// The case of the host makes no difference to a route.
pub proof fn host_case_makes_no_difference(
    route: Route,
    a: &str,
    b: &str,
    fields: Seq<Field>,
    path: Seq<char>,
)
    requires
        text::lowered(a@) == text::lowered(b@),
    ensures
        route.takes(Some(a), fields, path) == route.takes(Some(b), fields, path),
{
}

/// A host without `*` stands for itself: a request matches exactly where its
/// host is the same, without regard to case.
pub proof fn plain_host_is_compared(want: String, host: &str)
    requires
        forall|i: int| 0 <= i < want@.len() ==> #[trigger] want@[i] != '*',
    ensures
        host_matches(Some(want), Some(host)) == (text::lowered(want@) == text::lowered(host@)),
{
    let low = text::lowered(want@);
    assert forall|i: int| 0 <= i < low.len() implies #[trigger] low[i] != '*' by {
        assert(low[i] == text::lower_char(want@[i]));
        assert(want@[i] != '*');
        assert(text::lower_char(want@[i]) != '*');
    }
    glob::literal_covers_itself(low, text::lowered(host@));
}

/// The host `*` matches every request that names a host.
pub proof fn star_matches_every_host(want: String, host: &str)
    requires
        want@ == seq!['*'],
    ensures
        host_matches(Some(want), Some(host)),
{
    assert(text::lowered(want@) =~= seq!['*']);
    glob::star_covers_everything(text::lowered(host@));
}

/// A host that begins with `*` and has no other, such as `*.example.com`,
/// matches the hosts that end in the rest of it, without regard to case.
pub proof fn leading_star_matches_endings(want: String, rest: Seq<char>, host: &str)
    requires
        want@ == seq!['*'] + rest,
        forall|i: int| 0 <= i < rest.len() ==> #[trigger] rest[i] != '*',
    ensures
        host_matches(Some(want), Some(host)) == (rest.len() <= host@.len() && text::lowered(
            host@.skip(host@.len() - rest.len()),
        ) == text::lowered(rest)),
{
    let low = text::lowered(rest);
    let h = text::lowered(host@);
    assert forall|i: int| 0 <= i < low.len() implies #[trigger] low[i] != '*' by {
        assert(low[i] == text::lower_char(rest[i]));
        assert(rest[i] != '*');
        assert(text::lower_char(rest[i]) != '*');
    }
    assert(text::lowered(want@) =~= seq!['*'] + low);
    glob::leading_star_covers_endings(low, h);
    if rest.len() <= host@.len() {
        assert(text::lowered(host@.skip(host@.len() - rest.len())) =~= h.skip(
            h.len() - low.len(),
        ));
    }
}

/// A route that asks for a header takes no request that does not carry it: the
/// request falls through to the routes behind.
pub proof fn missing_header_bars_the_route(
    route: Route,
    host: Option<&str>,
    fields: Seq<Field>,
    path: Seq<char>,
    i: int,
)
    requires
        0 <= i < route.headers@.len(),
        !carries(fields, route.headers@[i]),
    ensures
        !route.takes(host, fields, path),
{
}

/// A configuration that passes the checks never leads a request to an upstream
/// that is not registered.
pub proof fn checked_routes_resolve(
    cfg: Config,
    insecure_allowed: bool,
    d: Dispatch,
    host: Option<&str>,
    fields: Seq<Field>,
    path: Seq<char>,
)
    requires
        validate::logic_fault(cfg, insecure_allowed) is None,
        d.serves(cfg),
    ensures
        match first_match(d.routes(), host, fields, path, 0) {
            Some(i) => d.table().contains_key(d.routes()[i].upstream@),
            None => true,
        },
{
    validate::accepted_iff_consistent(cfg, insecure_allowed);
    first_match_wins(d.routes(), host, fields, path, 0);
    if let Some(i) = first_match(d.routes(), host, fields, path, 0) {
        assert(d.routes()[i].built_from(cfg.routes@[i]));
        let name = cfg.routes@[i].upstream@;
        let j = choose|j: int|
            0 <= j < cfg.upstreams@.len() && #[trigger] cfg.upstreams@[j].name@ == name;
        assert(validate::named(cfg.upstreams@, cfg.upstreams@.len() as int, name));
    }
}

/// A route with a prefix takes a request exactly where the path is that prefix with
/// anything behind it, as far as the path goes: any rest may follow, also an empty
/// one and one that does not start with a slash, and nothing else is taken.
pub proof fn prefix_takes_whatever_follows_it(
    route: Route,
    prefix: String,
    host: Option<&str>,
    fields: Seq<Field>,
    rest: Seq<char>,
    path: Seq<char>,
)
    requires
        route.path == PathMatch::Prefix(prefix),
    ensures
        route.host is None && route.headers@.len() == 0 ==> route.takes(
            host,
            fields,
            prefix@ + rest,
        ),
        route.takes(host, fields, prefix@ + rest) == route.takes(host, fields, prefix@),
        route.takes(host, fields, path) ==> path.len() >= prefix@.len() && path == prefix@
            + path.skip(prefix@.len() as int),
{
    assert((prefix@ + rest).take(prefix@.len() as int) =~= prefix@);
    assert(prefix@.take(prefix@.len() as int) =~= prefix@);
    if route.takes(host, fields, path) {
        assert(path =~= path.take(prefix@.len() as int) + path.skip(prefix@.len() as int));
    }
}

/// A route with an exact path takes that path and no other; one for any path takes
/// every path alike.
pub proof fn exact_path_takes_itself(
    route: Route,
    host: Option<&str>,
    fields: Seq<Field>,
    path: Seq<char>,
    other: Seq<char>,
)
    ensures
        route.path matches PathMatch::Exact(p) ==> {
            &&& route.takes(host, fields, path) ==> path == p@
            &&& route.host is None && route.headers@.len() == 0 ==> route.takes(host, fields, p@)
        },
        route.path is Any ==> {
            &&& route.takes(host, fields, path) == route.takes(host, fields, other)
            &&& route.host is None && route.headers@.len() == 0 ==> route.takes(host, fields, path)
        },
{
}

/// A header is carried exactly where one of the fields has its name, without regard
/// to case, and byte for byte its value.
pub proof fn header_is_carried_by_name_and_value(fields: Seq<Field>, want: HeaderMatch)
    ensures
        carries(fields, want) <==> exists|j: int|
            #![trigger fields[j]]
            0 <= j < fields.len() && text::lowered(fields[j].name@) == text::lowered(want.name@)
                && fields[j].value@ == vstd::utf8::encode_utf8(want.value@),
{
    if carries(fields, want) {
        let j = choose|j: int| 0 <= j < fields.len() && is_header(#[trigger] fields[j], want);
        assert(is_header(fields[j], want));
    }
    if exists|j: int|
        #![trigger fields[j]]
        0 <= j < fields.len() && text::lowered(fields[j].name@) == text::lowered(want.name@)
            && fields[j].value@ == vstd::utf8::encode_utf8(want.value@) {
        let j = choose|j: int|
            #![trigger fields[j]]
            0 <= j < fields.len() && text::lowered(fields[j].name@) == text::lowered(want.name@)
                && fields[j].value@ == vstd::utf8::encode_utf8(want.value@);
        assert(is_header(fields[j], want));
    }
}

/// What a route asks of a request: a host that its pattern covers, where it has one;
/// every header that it lists; and its path. Where one of them is missing the
/// request is not taken, and where none is, it is.
pub proof fn route_asks_for_host_headers_and_path(
    route: Route,
    host: Option<&str>,
    fields: Seq<Field>,
    path: Seq<char>,
)
    ensures
        route.takes(host, fields, path) <==> {
            &&& match route.host {
                None => true,
                Some(w) => host matches Some(h) && glob::covers(
                    text::lowered(w@),
                    text::lowered(h@),
                ),
            }
            &&& forall|i: int|
                0 <= i < route.headers@.len() ==> carries(fields, #[trigger] route.headers@[i])
            &&& match route.path {
                PathMatch::Any => true,
                PathMatch::Prefix(p) => p@.len() <= path.len() && path == p@ + path.skip(
                    p@.len() as int,
                ),
                PathMatch::Exact(p) => path == p@,
            }
        },
{
    if let PathMatch::Prefix(p) = route.path {
        if p@.len() <= path.len() {
            let n = p@.len() as int;
            assert(path =~= path.take(n) + path.skip(n));
            if path == p@ + path.skip(n) {
                assert(path.take(n) =~= p@);
            }
        }
    }
}

/// A request goes to the upstream of the first route that takes it: a route that
/// stands behind one that takes it makes no difference, nor does one before it that
/// does not.
pub proof fn routes_are_tried_in_order(
    before: Seq<Route>,
    route: Route,
    behind: Seq<Route>,
    host: Option<&str>,
    fields: Seq<Field>,
    path: Seq<char>,
)
    requires
        forall|i: int| 0 <= i < before.len() ==> !(#[trigger] before[i]).takes(host, fields, path),
        route.takes(host, fields, path),
    ensures
        first_match(before + seq![route] + behind, host, fields, path, 0) == Some(
            before.len() as int,
        ),
        first_match(before, host, fields, path, 0) is None,
{
    let all = before + seq![route] + behind;
    first_match_wins(all, host, fields, path, 0);
    first_match_wins(before, host, fields, path, 0);
    assert(all[before.len() as int] == route);
    if let Some(i) = first_match(all, host, fields, path, 0) {
        if i < before.len() {
            assert(all[i] == before[i]);
        }
    }
}

/// A route of the configuration asks of a request what it is configured with: its
/// host where it has one, each of its headers, and its path, where an exact path
/// leaves a prefix without effect.
pub proof fn configured_match_is_what_is_asked_for(
    cfg: schema::Route,
    route: Route,
    host: Option<&str>,
    fields: Seq<Field>,
    path: Seq<char>,
)
    requires
        route.built_from(cfg),
    ensures
        cfg.match_.path_exact matches Some(s) ==> (route.takes(host, fields, path) ==> path == s@),
        cfg.match_.path_exact is None ==> (cfg.match_.path_prefix matches Some(s) ==> (route.takes(
            host,
            fields,
            path,
        ) ==> path.len() >= s@.len() && path.take(s@.len() as int) == s@)),
        cfg.match_.host is Some && host is None ==> !route.takes(host, fields, path),
        cfg.match_.host is None && cfg.match_.headers@.len() == 0 ==> {
            &&& cfg.match_.path_exact matches Some(s) ==> (path == s@ ==> route.takes(
                host,
                fields,
                path,
            ))
            &&& cfg.match_.path_exact is None ==> (cfg.match_.path_prefix matches Some(s) ==> (
            path.len() >= s@.len() && path.take(s@.len() as int) == s@ ==> route.takes(
                host,
                fields,
                path,
            )))
            &&& cfg.match_.path_exact is None && cfg.match_.path_prefix is None ==> route.takes(
                host,
                fields,
                path,
            )
        },
        forall|i: int|
            0 <= i < cfg.match_.headers@.len() && route.takes(host, fields, path) ==> carries(
                fields,
                #[trigger] cfg.match_.headers@[i],
            ),
{
    assert(route.headers@ == cfg.match_.headers@);
    if let Some(s) = cfg.match_.path_prefix {
        if path.len() >= s@.len() && path.take(s@.len() as int) == s@ {
            assert(path.subrange(0, s@.len() as int) =~= s@);
        }
    }
}

/// The last upstream of the configuration with a name is the one that is reached by
/// that name, at its addresses and under its retry rules; no other name reaches one.
pub proof fn last_upstream_of_a_name_is_reached(
    ups: Seq<schema::Upstream>,
    m: Map<Seq<char>, Upstream>,
    i: int,
    other: Seq<char>,
)
    requires
        registered(ups, ups.len() as int, m),
        0 <= i < ups.len(),
        forall|j: int| i < j < ups.len() ==> (#[trigger] ups[j]).name@ != ups[i].name@,
        forall|j: int| 0 <= j < ups.len() ==> (#[trigger] ups[j]).name@ != other,
    ensures
        m.contains_key(ups[i].name@),
        !m.contains_key(other),
        m[ups[i].name@].addr_list() == ups[i].addrs@,
        ups[i].retry matches Some(p) ==> {
            let q = m[ups[i].name@].retry_policy();
            q.attempts == p.attempts && q.on_status@ == p.on_status@ && q.on_connect_error
                == p.on_connect_error
        },
        ups[i].retry is None ==> {
            let q = m[ups[i].name@].retry_policy();
            q.attempts == 0 && q.on_status@.len() == 0 && !q.on_connect_error
        },
        m[ups[i].name@].timeout() is None,
        m[ups[i].name@].material() is None,
{
    assert(ups[i].name@ == ups[i].name@);
    assert(validate::named(ups, ups.len() as int, ups[i].name@));
    assert(!shadowed(ups, i, ups.len() as int));
}

/// How a request is served under a configuration: by the first route that takes it,
/// at the addresses of the upstream that the route names, with the timeouts of the
/// route, and with its retry rules where it has any.
pub proof fn request_is_served_as_configured(
    cfg: Config,
    d: Dispatch,
    host: Option<&str>,
    fields: Seq<Field>,
    path: Seq<char>,
    r: Result<Plan, DispatchError>,
    i: int,
    j: int,
)
    requires
        d.serves(cfg),
        d.planned(host, fields, path, r),
        0 <= i < cfg.routes@.len(),
        d.routes()[i].takes(host, fields, path),
        forall|k: int| 0 <= k < i ==> !(#[trigger] d.routes()[k]).takes(host, fields, path),
        0 <= j < cfg.upstreams@.len(),
        cfg.upstreams@[j].name@ == cfg.routes@[i].upstream@,
        forall|k: int|
            j < k < cfg.upstreams@.len() ==> (#[trigger] cfg.upstreams@[k]).name@
                != cfg.upstreams@[j].name@,
    ensures
        r is Ok,
        ({
            let p = r->Ok_0;
            let route = cfg.routes@[i];
            &&& p.name@ == route.upstream@
            &&& p.upstream.addr_list() == cfg.upstreams@[j].addrs@
            &&& p.total_timeout == route.timeouts.total.0
            &&& p.read_timeout == route.timeouts.read.0
            &&& route.retry matches Some(q) ==> p.retry.attempts == q.attempts
                && p.retry.on_status@ == q.on_status@ && p.retry.on_connect_error
                == q.on_connect_error
            &&& route.retry is None ==> (cfg.upstreams@[j].retry matches Some(q)
                ==> p.retry.attempts == q.attempts && p.retry.on_status@ == q.on_status@
                && p.retry.on_connect_error == q.on_connect_error)
            &&& route.retry is None && cfg.upstreams@[j].retry is None ==> p.retry.attempts == 0
        }),
{
    first_match_wins(d.routes(), host, fields, path, 0);
    assert(d.routes()[i].built_from(cfg.routes@[i]));
    let ups = cfg.upstreams@;
    assert(validate::named(ups, ups.len() as int, ups[j].name@));
    assert(!shadowed(ups, j, ups.len() as int));
    assert(plain(ups[j], d.table()[ups[j].name@]));
}

} // verus!

//! The page of the admin endpoint that shows the upstreams.
use vstd::prelude::*;
use vstd::string::*;

use crate::lifecycle::table;
use crate::lifecycle::table::Dispatch;
use crate::text;
use crate::upstream;
use crate::upstream::breaker::BreakerState;
use crate::upstream::pool::Pool;
use crate::upstream::Upstream;

verus! {

/// What is shown of an upstream.
#[derive(Debug)]
pub struct Line {
    /// Its name.
    pub name: String,
    /// The addresses of its backends.
    pub addrs: Vec<String>,
    /// The state of its breakers.
    pub state: BreakerState,
}

/// A state as it is shown.
pub open spec fn state_word(s: BreakerState) -> Seq<char> {
    match s {
        BreakerState::Closed => "closed"@,
        BreakerState::Open => "open"@,
        BreakerState::HalfOpen => "half_open"@,
    }
}

/// `before`, and behind it the first `n` addresses in quotes, with commas
/// between them.
pub open spec fn with_addrs(before: Seq<char>, addrs: Seq<String>, n: nat) -> Seq<char>
    decreases n,
{
    if n == 0 {
        before
    } else if n == 1 {
        before + "\""@ + addrs[0]@ + "\""@
    } else {
        with_addrs(before, addrs, (n - 1) as nat) + ",\""@ + addrs[n - 1]@ + "\""@
    }
}

/// `before`, and behind it the line of one upstream.
pub open spec fn with_line(before: Seq<char>, l: Line) -> Seq<char> {
    with_addrs(before + "upstream "@ + l.name@ + " addrs=["@, l.addrs@, l.addrs@.len())
        + "] breaker="@ + state_word(l.state) + "\n"@
}

/// The first `n` lines in the order `order`.
pub open spec fn page(lines: Seq<Line>, order: Seq<int>, n: nat) -> Seq<char>
    decreases n,
{
    if n == 0 {
        Seq::empty()
    } else {
        with_line(page(lines, order, (n - 1) as nat), lines[order[n - 1]])
    }
}

/// Whether `order` goes through all lines once, by name.
pub open spec fn is_order(order: Seq<int>, lines: Seq<Line>) -> bool {
    &&& order.len() == lines.len()
    &&& order.no_duplicates()
    &&& forall|k: int| 0 <= k < order.len() ==> 0 <= #[trigger] order[k] < lines.len()
    &&& forall|a: int, b: int|
        #![trigger order[a], order[b]]
        0 <= a < b < order.len() ==> !text::before(lines[order[b]].name@, lines[order[a]].name@)
}

/// The page that shows `lines`.
pub open spec fn shown(lines: Seq<Line>, order: Seq<int>) -> Seq<char> {
    if lines.len() == 0 {
        "(no upstreams)\n"@
    } else {
        page(lines, order, lines.len())
    }
}

/// Positions as mathematical integers.
pub open spec fn ints(v: Seq<usize>) -> Seq<int> {
    v.map_values(|i: usize| i as int)
}

/// The part of [`is_order`] that holds while only the first `n` lines are in
/// `order`.
spec fn is_partial(order: Seq<usize>, lines: Seq<Line>, n: int) -> bool {
    &&& order.len() == n
    &&& forall|k: int| 0 <= k < order.len() ==> 0 <= #[trigger] order[k] < n
    &&& forall|a: int, b: int|
        #![trigger order[a], order[b]]
        0 <= a < b < order.len() ==> {
            &&& order[a] != order[b]
            &&& !text::before(lines[order[b] as int].name@, lines[order[a] as int].name@)
        }
}

proof fn lemma_insert(order: Seq<usize>, lines: Seq<Line>, n: int, p: int)
    requires
        is_partial(order, lines, n),
        0 <= n < lines.len() <= usize::MAX,
        0 <= p <= n,
        forall|k: int|
            0 <= k < p ==> !text::before(
                lines[n].name@,
                lines[#[trigger] order[k] as int].name@,
            ),
        p < n ==> text::before(lines[n].name@, lines[order[p] as int].name@),
    ensures
        is_partial(order.insert(p, n as usize), lines, n + 1),
{
    let after = order.insert(p, n as usize);
    assert forall|a: int, b: int|
        #![trigger after[a], after[b]]
        0 <= a < b < after.len() implies {
        &&& after[a] != after[b]
        &&& !text::before(lines[after[b] as int].name@, lines[after[a] as int].name@)
    } by {
        if b == p {
            assert(after[a] == order[a]);
        } else if a == p {
            assert(after[b] == order[b - 1]);
            let new = lines[n].name@;
            let there = lines[order[b - 1] as int].name@;
            if b - 1 > p {
                assert(order[p] != order[b - 1]);
                text::before_carries_over(new, lines[order[p] as int].name@, there);
            }
            text::before_is_asymmetric(new, there);
        } else if b < p {
            assert(after[a] == order[a] && after[b] == order[b]);
        } else if a > p {
            assert(after[a] == order[a - 1] && after[b] == order[b - 1]);
        } else {
            assert(after[a] == order[a] && after[b] == order[b - 1]);
        }
    }
    assert forall|k: int| 0 <= k < after.len() implies 0 <= #[trigger] after[k] < n + 1 by {
        if k < p {
            assert(after[k] == order[k]);
        } else if k > p {
            assert(after[k] == order[k - 1]);
        }
    }
}

/// The positions of `lines` by name.
fn sorted(lines: &Vec<Line>) -> (r: Vec<usize>)
    ensures
        is_order(ints(r@), lines@),
{
    let mut order: Vec<usize> = Vec::new();
    let total: usize = lines.len();
    let mut n: usize = 0;
    while n < total
        invariant
            n <= total == lines@.len(),
            is_partial(order@, lines@, n as int),
        decreases total - n,
    {
        let mut p: usize = 0;
        while p < n && !text::is_before(&lines[n].name, &lines[order[p]].name)
            invariant
                p <= n < total == lines@.len(),
                is_partial(order@, lines@, n as int),
                forall|k: int|
                    0 <= k < p ==> !text::before(
                        lines@[n as int].name@,
                        lines@[#[trigger] order@[k] as int].name@,
                    ),
            decreases n - p,
        {
            p += 1;
        }
        proof {
            lemma_insert(order@, lines@, n as int, p as int);
        }
        order.insert(p, n);
        n += 1;
    }
    proof {
        let o = ints(order@);
        assert forall|a: int, b: int|
            #![trigger o[a], o[b]]
            0 <= a < b < o.len() implies !text::before(
            lines@[o[b]].name@,
            lines@[o[a]].name@,
        ) by {
            assert(o[a] == order@[a] && o[b] == order@[b]);
        }
        assert forall|a: int, b: int|
            0 <= a < o.len() && 0 <= b < o.len() && a != b implies o[a] != o[b] by {
            assert(o[a] == order@[a] && o[b] == order@[b]);
            if a < b {
                assert(order@[a] != order@[b]);
            } else {
                assert(order@[b] != order@[a]);
            }
        }
        assert forall|k: int| 0 <= k < o.len() implies 0 <= #[trigger] o[k] < lines@.len() by {
            assert(o[k] == order@[k]);
        }
    }
    order
}

fn push_line(out: &mut String, l: &Line)
    ensures
        final(out)@ == with_line(old(out)@, *l),
{
    out.append("upstream ");
    out.append(&l.name);
    out.append(" addrs=[");
    let ghost start = out@;
    for i in 0..l.addrs.len()
        invariant
            out@ == with_addrs(start, l.addrs@, i as nat),
    {
        if i > 0 {
            out.append(",\"");
        } else {
            out.append("\"");
        }
        out.append(&l.addrs[i]);
        out.append("\"");
    }
    out.append("] breaker=");
    match l.state {
        BreakerState::Closed => out.append("closed"),
        BreakerState::Open => out.append("open"),
        BreakerState::HalfOpen => out.append("half_open"),
    }
    out.append("\n");
}

/// The page that shows `lines`: one line for each upstream, by name.
pub fn render_lines(lines: &Vec<Line>) -> (r: String)
    ensures
        exists|order: Seq<int>| is_order(order, lines@) && r@ == #[trigger] shown(lines@, order),
{
    let order = sorted(lines);
    let ghost o = ints(order@);
    let mut out = String::new();
    assert(out@ =~= page(lines@, o, 0));
    for k in 0..order.len()
        invariant
            is_order(o, lines@),
            o == ints(order@),
            out@ == page(lines@, o, k as nat),
    {
        assert(o[k as int] == order@[k as int]);
        push_line(&mut out, &lines[order[k]]);
    }
    if lines.len() == 0 {
        let r = "(no upstreams)\n".to_owned();
        assert(r@ == shown(lines@, o));
        return r;
    }
    assert(out@ == shown(lines@, o));
    out
}

/// Whether `l` shows the upstream `u`: its addresses, and the state that its
/// breakers were found in. One without backends, or with disabled breakers, is
/// closed.
pub open spec fn shows(l: Line, u: Upstream) -> bool {
    &&& l.addrs@ == u.addr_list()
    &&& upstream::state_of(u.shared(), l.state)
    &&& u.addr_list().len() == 0 || u.threshold() == 0 ==> l.state == BreakerState::Closed
}

/// Whether `lines` shows the upstreams of `d` and nothing else: one line for
/// each of them, and no name twice.
pub open spec fn depicts(lines: Seq<Line>, d: Dispatch) -> bool {
    &&& lines.len() == d.names().len()
    &&& table::lists(d.names(), d.table())
    &&& forall|i: int|
        0 <= i < lines.len() ==> {
            &&& (#[trigger] lines[i]).name@ == d.names()[i]
            &&& d.table().contains_key(lines[i].name@)
            &&& shows(lines[i], d.table()[lines[i].name@])
        }
}

/// The page that shows the upstreams of `d`.
pub fn render_upstreams(d: &Dispatch) -> (r: String)
    ensures
        exists|lines: Vec<Line>, order: Seq<int>|
            depicts(lines@, *d) && is_order(order, lines@) && r@ == #[trigger] shown(
                lines@,
                order,
            ),
{
    let map = d.upstreams();
    let mut lines: Vec<Line> = Vec::new();
    let n: usize = map.len();
    for i in 0..n
        invariant
            n == map.names().len(),
            map@ == d.table(),
            map.names() == d.names(),
            table::lists(d.names(), d.table()),
            lines@.len() == i,
            forall|j: int|
                0 <= j < i ==> {
                    &&& (#[trigger] lines@[j]).name@ == d.names()[j]
                    &&& d.table().contains_key(lines@[j].name@)
                    &&& shows(lines@[j], d.table()[lines@[j].name@])
                },
    {
        let (name, u) = map.entry(i);
        lines.push(
            Line {
                name: name.clone(),
                addrs: upstream::copy_names(u.addrs()),
                state: u.breaker_state(),
            },
        );
    }
    render_lines(&lines)
}

proof fn lemma_addrs(before: Seq<char>, addrs: Seq<String>, n: nat, i: int)
    requires
        0 <= i < n <= addrs.len(),
    ensures
        text::holds(with_addrs(before, addrs, n), "\""@ + addrs[i]@ + "\""@),
    decreases n,
{
    let quoted = "\""@ + addrs[i]@ + "\""@;
    if n == 1 {
        assert(with_addrs(before, addrs, n) =~= before + quoted + Seq::empty());
    } else {
        let rest = with_addrs(before, addrs, (n - 1) as nat);
        if i == n - 1 {
            reveal_strlit(",\"");
            reveal_strlit("\"");
            assert(",\""@ =~= seq![','] + "\""@);
            assert(with_addrs(before, addrs, n) =~= (rest + seq![',']) + quoted + Seq::empty());
        } else {
            lemma_addrs(before, addrs, (n - 1) as nat, i);
            text::held_with_more_behind(rest, quoted, ",\""@ + addrs[n - 1]@ + "\""@);
            assert(with_addrs(before, addrs, n) =~= rest + (",\""@ + addrs[n - 1]@ + "\""@));
        }
    }
}

proof fn lemma_addrs_behind(before: Seq<char>, addrs: Seq<String>, n: nat)
    requires
        n <= addrs.len(),
    ensures
        with_addrs(before, addrs, n) == before + with_addrs(Seq::empty(), addrs, n),
    decreases n,
{
    if n == 0 {
        assert(before + with_addrs(Seq::empty(), addrs, n) =~= before);
    } else if n == 1 {
        assert(with_addrs(before, addrs, n) =~= before + with_addrs(Seq::empty(), addrs, n));
    } else {
        lemma_addrs_behind(before, addrs, (n - 1) as nat);
        assert(with_addrs(before, addrs, n) =~= before + with_addrs(Seq::empty(), addrs, n));
    }
}

/// The line of an upstream starts with its name, holds every address in quotes, and
/// ends with the word for its state: `closed`, `open` or `half_open`.
pub proof fn line_tells_name_addresses_and_state(l: Line, i: int)
    requires
        0 <= i < l.addrs@.len(),
    ensures
        ({
            let line = with_line(Seq::empty(), l);
            &&& exists|rest: Seq<char>|
                line == #[trigger] ("upstream "@ + l.name@ + " addrs=["@ + rest)
            &&& exists|rest: Seq<char>|
                line == #[trigger] (rest + ("] breaker="@ + state_word(l.state) + "\n"@))
            &&& state_word(BreakerState::Closed) == "closed"@
            &&& state_word(BreakerState::Open) == "open"@
            &&& state_word(BreakerState::HalfOpen) == "half_open"@
            &&& text::holds(line, "\""@ + l.addrs@[i]@ + "\""@)
        }),
{
    let word = state_word(l.state);
    let tail = "] breaker="@ + word + "\n"@;
    let line = with_line(Seq::empty(), l);
    let start = Seq::<char>::empty() + "upstream "@ + l.name@ + " addrs=["@;
    let body = with_addrs(start, l.addrs@, l.addrs@.len());
    lemma_addrs_behind(start, l.addrs@, l.addrs@.len());
    let inner = with_addrs(Seq::empty(), l.addrs@, l.addrs@.len());
    assert(line =~= body + tail);
    assert(line =~= "upstream "@ + l.name@ + " addrs=["@ + (inner + tail));
    lemma_addrs(start, l.addrs@, l.addrs@.len(), i);
    text::held_with_more_behind(body, "\""@ + l.addrs@[i]@ + "\""@, tail);
}

proof fn lemma_line_behind(before: Seq<char>, l: Line)
    ensures
        with_line(before, l) == before + with_line(Seq::empty(), l),
{
    let head = "upstream "@ + l.name@ + " addrs=["@;
    let n = l.addrs@.len();
    lemma_addrs_behind(before + "upstream "@ + l.name@ + " addrs=["@, l.addrs@, n);
    lemma_addrs_behind(Seq::empty() + "upstream "@ + l.name@ + " addrs=["@, l.addrs@, n);
    assert(before + "upstream "@ + l.name@ + " addrs=["@ =~= before + head);
    assert(Seq::<char>::empty() + "upstream "@ + l.name@ + " addrs=["@ =~= head);
    assert(with_line(before, l) =~= before + with_line(Seq::empty(), l));
}

proof fn lemma_page_holds(lines: Seq<Line>, order: Seq<int>, n: nat, k: int)
    requires
        0 <= k < n <= order.len(),
    ensures
        text::holds(page(lines, order, n), with_line(Seq::empty(), lines[order[k]])),
    decreases n,
{
    let rest = page(lines, order, (n - 1) as nat);
    let last = with_line(Seq::empty(), lines[order[n - 1]]);
    lemma_line_behind(rest, lines[order[n - 1]]);
    if k == n - 1 {
        assert(page(lines, order, n) =~= rest + last + Seq::empty());
    } else {
        lemma_page_holds(lines, order, (n - 1) as nat, k);
        text::held_with_more_behind(rest, with_line(Seq::empty(), lines[order[k]]), last);
    }
}

/// The page holds the line of every upstream, and of two upstreams that stand one
/// behind the other the name of the second does not come before that of the first:
/// it begins with that name, or has the greater character where they first differ.
pub proof fn page_holds_every_line(lines: Seq<Line>, order: Seq<int>, i: int, k: int)
    requires
        is_order(order, lines),
        0 <= i < lines.len(),
        0 <= k < order.len() - 1,
    ensures
        text::holds(shown(lines, order), with_line(Seq::empty(), lines[i])),
        page(lines, order, (k + 2) as nat) == page(lines, order, k as nat) + with_line(
            Seq::empty(),
            lines[order[k]],
        ) + with_line(Seq::empty(), lines[order[k + 1]]),
        ({
            let a = lines[order[k]].name@;
            let b = lines[order[k + 1]].name@;
            exists|p: int|
                #![trigger a.take(p)]
                0 <= p <= a.len() && p <= b.len() && a.take(p) == b.take(p) && (p == a.len() || (p
                    < b.len() && a[p] < b[p]))
        }),
{
    lemma_every_position(order, lines.len(), i);
    let at = choose|at: int| 0 <= at < order.len() && #[trigger] order[at] == i;
    lemma_page_holds(lines, order, order.len(), at);
    lemma_line_behind(page(lines, order, k as nat), lines[order[k]]);
    lemma_line_behind(page(lines, order, (k + 1) as nat), lines[order[k + 1]]);
    assert(!text::before(lines[order[k + 1]].name@, lines[order[k]].name@));
    lemma_not_before(lines[order[k]].name@, lines[order[k + 1]].name@);
}

proof fn lemma_every_position(order: Seq<int>, n: nat, i: int)
    requires
        order.len() == n,
        order.no_duplicates(),
        forall|k: int| 0 <= k < order.len() ==> 0 <= #[trigger] order[k] < n,
        0 <= i < n,
    ensures
        exists|at: int| 0 <= at < order.len() && #[trigger] order[at] == i,
{
    let all = vstd::set_lib::set_int_range(0, n as int);
    vstd::set_lib::lemma_int_range(0, n as int);
    order.unique_seq_to_set();
    vstd::seq_lib::seq_to_set_is_finite(order);
    assert(order.to_set().subset_of(all)) by {
        assert forall|x: int| order.to_set().contains(x) implies all.contains(x) by {
            let k = choose|k: int| 0 <= k < order.len() && order[k] == x;
        }
    }
    vstd::set_lib::lemma_subset_equality(order.to_set(), all);
    assert(all.contains(i));
    assert(order.to_set().contains(i));
}

proof fn lemma_not_before(a: Seq<char>, b: Seq<char>)
    requires
        !text::before(b, a),
    ensures
        exists|p: int|
            #![trigger a.take(p)]
            0 <= p <= a.len() && p <= b.len() && a.take(p) == b.take(p) && (p == a.len() || (p
                < b.len() && a[p] < b[p])),
    decreases a.len(),
{
    if a.len() == 0 || b.len() == 0 {
        assert(a.take(0) =~= b.take(0));
    } else if a[0] != b[0] {
        assert(a.take(0) =~= b.take(0));
    } else {
        let x = a.drop_first();
        let y = b.drop_first();
        lemma_not_before(x, y);
        let p = choose|p: int|
            #![trigger x.take(p)]
            0 <= p <= x.len() && p <= y.len() && x.take(p) == y.take(p) && (p == x.len() || (p
                < y.len() && x[p] < y[p]));
        assert(a.take(p + 1) =~= seq![a[0]] + x.take(p));
        assert(b.take(p + 1) =~= seq![b[0]] + y.take(p));
        assert(a.take(p + 1) == b.take(p + 1));
    }
}

/// An upstream whose line says `open` had, when it was looked at, every breaker at
/// its threshold with its deadline ahead; one whose line says `closed` had every
/// breaker disabled or below its threshold.
pub proof fn line_shows_the_breakers_as_found(l: Line, u: Upstream)
    requires
        shows(l, u),
    ensures
        l.addrs@ == u.addr_list(),
        exists|v: Pool, nows: Seq<u64>|
            #![trigger u.shared().found(v), v.reads(nows)]
            {
                let trips = v.trips();
                &&& u.shared().found(v)
                &&& v.reads(nows)
                &&& nows.len() == trips.len()
                &&& l.state == BreakerState::Closed <==> (forall|i: int|
                    #![trigger trips[i]]
                    0 <= i < trips.len() ==> trips[i].threshold == 0 || trips[i].failures
                        < trips[i].threshold)
                &&& l.state == BreakerState::Open <==> (trips.len() > 0 && forall|i: int|
                    #![trigger trips[i]]
                    0 <= i < trips.len() ==> trips[i].threshold > 0 && trips[i].failures
                        >= trips[i].threshold && nows[i] < trips[i].open_until_ms)
            },
{
    upstream::state_sums_up_what_was_found(u.shared(), l.state);
}

/// The lines are those of the registered upstreams: one for each name, with what
/// that upstream holds.
pub proof fn every_upstream_has_a_line(lines: Seq<Line>, d: Dispatch, name: Seq<char>)
    requires
        depicts(lines, d),
    ensures
        d.table().contains_key(name) <==> exists|i: int|
            0 <= i < lines.len() && (#[trigger] lines[i]).name@ == name,
        forall|i: int, j: int|
            #![trigger lines[i], lines[j]]
            0 <= i < j < lines.len() ==> lines[i].name@ != lines[j].name@,
        forall|i: int|
            0 <= i < lines.len() ==> (#[trigger] lines[i]).addrs@
                == d.table()[lines[i].name@].addr_list(),
{
    if d.table().contains_key(name) {
        assert(d.names().contains(name));
        let i = choose|i: int| 0 <= i < d.names().len() && d.names()[i] == name;
        assert(lines[i].name@ == name);
    }
}

} // verus!

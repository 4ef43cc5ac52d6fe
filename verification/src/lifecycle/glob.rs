//! Host patterns, in which `*` stands for any run of characters.
use vstd::prelude::*;

use crate::text;

verus! {

/// Whether the pattern `p` covers `s`: each `*` stands for any run of
/// characters, an empty one too, and every other character for itself.
pub open spec fn covers(p: Seq<char>, s: Seq<char>) -> bool
    decreases p.len() + s.len(),
{
    if p.len() == 0 {
        s.len() == 0
    } else if p[0] == '*' {
        covers(p.drop_first(), s) || (s.len() > 0 && covers(p, s.drop_first()))
    } else {
        s.len() > 0 && s[0] == p[0] && covers(p.drop_first(), s.drop_first())
    }
}

/// Whether the pattern `p` covers `s`.
///
/// The answers for all ends of `s` are carried from each end of `p` to the one
/// that is longer by a character.
pub fn is_covered(p: &str, s: &str) -> (r: bool)
    ensures
        r == covers(p@, s@),
{
    let p = text::chars_of(p);
    let s = text::chars_of(s);
    let n: usize = s.len();
    let mut row: Vec<bool> = Vec::new();
    let mut end = true;
    while row.len() < n
        invariant
            row@.len() <= n == s@.len(),
            forall|j: int| 0 <= j < row@.len() ==> !(#[trigger] row@[j]),
        decreases n - row@.len(),
    {
        row.push(false);
    }
    let mut i: usize = p.len();
    assert forall|j: int| 0 <= j < n implies #[trigger] row@[j] == covers(
        p@.skip(i as int),
        s@.skip(j),
    ) by {
        assert(p@.skip(i as int).len() == 0 && s@.skip(j).len() > 0);
    }
    while i > 0
        invariant
            i <= p@.len(),
            row@.len() == n == s@.len(),
            end == covers(p@.skip(i as int), s@.skip(n as int)),
            forall|j: int|
                0 <= j < n ==> #[trigger] row@[j] == covers(p@.skip(i as int), s@.skip(j)),
        decreases i,
    {
        let ghost shorter = p@.skip(i as int);
        i -= 1;
        let c: char = p[i];
        let ghost longer = p@.skip(i as int);
        let ghost tail = s@.skip(n as int);
        proof {
            assert(longer.drop_first() =~= shorter);
            assert(longer[0] == c);
            assert(tail.len() == 0);
        }
        let mut right_before = end;
        let star = c == '*';
        end = star && end;
        assert(end == covers(longer, tail));
        let mut right_after = end;
        let mut j: usize = n;
        while j > 0
            invariant
                j <= n == s@.len() == row@.len(),
                star == (c == '*'),
                longer.len() > 0,
                longer[0] == c,
                longer.drop_first() == shorter,
                right_before == covers(shorter, s@.skip(j as int)),
                right_after == covers(longer, s@.skip(j as int)),
                forall|k: int| 0 <= k < j ==> #[trigger] row@[k] == covers(shorter, s@.skip(k)),
                forall|k: int| j <= k < n ==> #[trigger] row@[k] == covers(longer, s@.skip(k)),
            decreases j,
        {
            let ghost right = s@.skip(j as int);
            j -= 1;
            let ghost here = s@.skip(j as int);
            proof {
                assert(here.drop_first() =~= right);
                assert(here[0] == s@[j as int]);
            }
            let below = row[j];
            let now = if star {
                below || right_after
            } else {
                s[j] == c && right_before
            };
            assert(now == covers(longer, here));
            row.set(j, now);
            right_before = below;
            right_after = now;
        }
    }
    proof {
        assert(p@.skip(0) =~= p@);
        assert(s@.skip(0) =~= s@);
    }
    if n == 0 {
        end
    } else {
        assert(row@[0] == covers(p@.skip(0), s@.skip(0)));
        row[0]
    }
}

/// A pattern without `*` covers itself and nothing else.
pub proof fn literal_covers_itself(p: Seq<char>, s: Seq<char>)
    requires
        forall|i: int| 0 <= i < p.len() ==> #[trigger] p[i] != '*',
    ensures
        covers(p, s) == (p == s),
    decreases p.len(),
{
    if p.len() == 0 {
        if s.len() == 0 {
            assert(p =~= s);
        }
    } else {
        assert(p[0] != '*');
        if s.len() > 0 {
            assert forall|i: int| 0 <= i < p.drop_first().len() implies #[trigger] p.drop_first()[i]
                != '*' by {
                assert(p[i + 1] != '*');
            }
            literal_covers_itself(p.drop_first(), s.drop_first());
            if s[0] == p[0] && p.drop_first() == s.drop_first() {
                assert(p =~= seq![p[0]] + p.drop_first());
                assert(s =~= seq![s[0]] + s.drop_first());
            }
        }
    }
}

/// A pattern that begins with `*` and has no other covers exactly what ends in
/// the rest of it.
pub proof fn leading_star_covers_endings(rest: Seq<char>, s: Seq<char>)
    requires
        forall|i: int| 0 <= i < rest.len() ==> #[trigger] rest[i] != '*',
    ensures
        covers(seq!['*'] + rest, s) == (rest.len() <= s.len() && s.skip(s.len() - rest.len())
            == rest),
    decreases s.len(),
{
    let p = seq!['*'] + rest;
    assert(p.drop_first() =~= rest);
    literal_covers_itself(rest, s);
    if rest == s {
        assert(s.skip(0) =~= s);
    }
    if s.len() > 0 {
        let t = s.drop_first();
        leading_star_covers_endings(rest, t);
        if rest.len() <= t.len() {
            assert(t.skip(t.len() - rest.len()) =~= s.skip(s.len() - rest.len()));
        } else if rest.len() == s.len() {
            assert(s.skip(0) =~= s);
        }
    } else if rest.len() == 0 {
        assert(s.skip(0) =~= rest);
    }
}

/// `*` alone covers everything.
pub proof fn star_covers_everything(s: Seq<char>)
    ensures
        covers(seq!['*'], s),
{
    leading_star_covers_endings(Seq::empty(), s);
    assert(seq!['*'] + Seq::<char>::empty() =~= seq!['*']);
    assert(s.skip(s.len() as int) =~= Seq::<char>::empty());
}

/// A `*` stands for any run of characters, wherever it stands: where `a` covers `x`
/// and `b` covers `z`, the two with a `*` between them cover `x` and `z` with
/// anything between them.
pub proof fn star_stands_for_any_run(
    a: Seq<char>,
    b: Seq<char>,
    x: Seq<char>,
    y: Seq<char>,
    z: Seq<char>,
)
    requires
        covers(a, x),
        covers(b, z),
    ensures
        covers(a + seq!['*'] + b, x + y + z),
    decreases a.len() + x.len() + y.len(),
{
    let p = a + seq!['*'] + b;
    let s = x + y + z;
    if a.len() == 0 {
        assert(p[0] == '*');
        assert(p.drop_first() =~= b);
        if y.len() == 0 {
            assert(s =~= z);
        } else {
            star_stands_for_any_run(a, b, x, y.drop_first(), z);
            assert(s.drop_first() =~= x + y.drop_first() + z);
        }
    } else {
        assert(p[0] == a[0]);
        assert(p.drop_first() =~= a.drop_first() + seq!['*'] + b);
        if a[0] == '*' {
            if covers(a.drop_first(), x) {
                star_stands_for_any_run(a.drop_first(), b, x, y, z);
            } else {
                star_stands_for_any_run(a, b, x.drop_first(), y, z);
                assert(s.drop_first() =~= x.drop_first() + y + z);
            }
        } else {
            star_stands_for_any_run(a.drop_first(), b, x.drop_first(), y, z);
            assert(s.drop_first() =~= x.drop_first() + y + z);
        }
    }
}

/// The other way round, what a pattern with a `*` covers begins with what the part
/// before it covers, and ends with what the part behind it covers.
pub proof fn star_keeps_both_sides(a: Seq<char>, b: Seq<char>, s: Seq<char>)
    requires
        covers(a + seq!['*'] + b, s),
    ensures
        exists|i: int, j: int|
            0 <= i <= j <= s.len() && #[trigger] covers(a, s.take(i)) && #[trigger] covers(
                b,
                s.skip(j),
            ),
    decreases a.len() + s.len(),
{
    let p = a + seq!['*'] + b;
    if a.len() == 0 {
        assert(p.drop_first() =~= b);
        if covers(b, s) {
            assert(s.skip(0) =~= s);
            assert(covers(a, s.take(0)) && covers(b, s.skip(0)));
        } else {
            let t = s.drop_first();
            star_keeps_both_sides(a, b, t);
            let (i, j) = choose|i: int, j: int|
                0 <= i <= j <= t.len() && #[trigger] covers(a, t.take(i)) && #[trigger] covers(
                    b,
                    t.skip(j),
                );
            assert(s.skip(j + 1) =~= t.skip(j));
            assert(covers(a, s.take(0)) && covers(b, s.skip(j + 1)));
        }
    } else {
        assert(p[0] == a[0]);
        assert(p.drop_first() =~= a.drop_first() + seq!['*'] + b);
        if a[0] == '*' && covers(p.drop_first(), s) {
            star_keeps_both_sides(a.drop_first(), b, s);
            let (i, j) = choose|i: int, j: int|
                0 <= i <= j <= s.len() && #[trigger] covers(a.drop_first(), s.take(i))
                    && #[trigger] covers(b, s.skip(j));
            assert(covers(a, s.take(i)) && covers(b, s.skip(j)));
        } else {
            let t = s.drop_first();
            let front = if a[0] == '*' {
                a
            } else {
                a.drop_first()
            };
            star_keeps_both_sides(front, b, t);
            let (i, j) = choose|i: int, j: int|
                0 <= i <= j <= t.len() && #[trigger] covers(front, t.take(i)) && #[trigger] covers(
                    b,
                    t.skip(j),
                );
            assert(s.take(i + 1).drop_first() =~= t.take(i));
            assert(s.take(i + 1)[0] == s[0]);
            assert(s.skip(j + 1) =~= t.skip(j));
            assert(covers(a, s.take(i + 1)) && covers(b, s.skip(j + 1)));
        }
    }
}

} // verus!

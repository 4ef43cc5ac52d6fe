//! Strings as sequences of characters: trimming, case folding, decimal
//! numbers, prefixes and ordering.
use vstd::prelude::*;
use vstd::string::*;

verus! {

/// `String::push` appends one character at the end of the string.
pub assume_specification[ String::push ](s: &mut String, c: char)
    ensures
        final(s)@ == old(s)@.push(c),
;

/// The characters of `s`, in order.
pub fn chars_of(s: &str) -> (v: Vec<char>)
    ensures
        v@ == s@,
{
    let mut v: Vec<char> = Vec::new();
    for c in it: s.chars()
        invariant
            it.seq() == s@,
            v@ == s@.take(it.index() as int),
    {
        v.push(c);
        assert(s@.take(it.index() as int + 1) =~= s@.take(it.index() as int).push(c));
    }
    assert(s@.take(s@.len() as int) =~= s@);
    v
}

/// Whether `a` and `b` hold the same characters.
pub fn same(a: &str, b: &str) -> (r: bool)
    ensures
        r == (a@ == b@),
{
    a.to_owned() == b.to_owned()
}

/// `before`, then `middle`, then `after`.
pub fn around(before: &str, middle: &str, after: &str) -> (r: String)
    ensures
        r@ == before@ + middle@ + after@,
{
    let mut r = before.to_owned();
    r.append(middle);
    r.append(after);
    r
}

/// The characters that Unicode calls white space.
pub open spec fn is_whitespace(c: char) -> bool {
    let n = c as u32;
    ||| 0x09 <= n <= 0x0d
    ||| n == 0x20
    ||| n == 0x85
    ||| n == 0xa0
    ||| n == 0x1680
    ||| 0x2000 <= n <= 0x200a
    ||| n == 0x2028
    ||| n == 0x2029
    ||| n == 0x202f
    ||| n == 0x205f
    ||| n == 0x3000
}

/// Tells white space from everything else.
pub fn whitespace(c: char) -> (r: bool)
    ensures
        r == is_whitespace(c),
{
    let n: u32 = c as u32;
    (0x09 <= n && n <= 0x0d) || n == 0x20 || n == 0x85 || n == 0xa0 || n == 0x1680 || (0x2000 <= n
        && n <= 0x200a) || n == 0x2028 || n == 0x2029 || n == 0x202f || n == 0x205f || n == 0x3000
}

/// `s` without its leading white space.
pub open spec fn trim_start(s: Seq<char>) -> Seq<char>
    decreases s.len(),
{
    if s.len() > 0 && is_whitespace(s[0]) {
        trim_start(s.drop_first())
    } else {
        s
    }
}

/// `s` without its trailing white space.
pub open spec fn trim_end(s: Seq<char>) -> Seq<char>
    decreases s.len(),
{
    if s.len() > 0 && is_whitespace(s.last()) {
        trim_end(s.drop_last())
    } else {
        s
    }
}

/// `s` without its leading and trailing white space.
pub open spec fn trimmed(s: Seq<char>) -> Seq<char> {
    trim_end(trim_start(s))
}

proof fn lemma_trim_start(s: Seq<char>, k: int)
    requires
        0 <= k <= s.len(),
        forall|i: int| 0 <= i < k ==> is_whitespace(#[trigger] s[i]),
        k < s.len() ==> !is_whitespace(s[k]),
    ensures
        trim_start(s) == s.skip(k),
    decreases k,
{
    if k == 0 {
        assert(s.skip(0) =~= s);
    } else {
        let t = s.drop_first();
        assert forall|i: int| 0 <= i < k - 1 implies is_whitespace(#[trigger] t[i]) by {
            assert(t[i] == s[i + 1]);
        }
        assert(is_whitespace(s[0]));
        lemma_trim_start(t, k - 1);
        assert(t.skip(k - 1) =~= s.skip(k));
    }
}

proof fn lemma_trim_end(s: Seq<char>, k: int)
    requires
        0 <= k <= s.len(),
        forall|i: int| k <= i < s.len() ==> is_whitespace(#[trigger] s[i]),
        k > 0 ==> !is_whitespace(s[k - 1]),
    ensures
        trim_end(s) == s.take(k),
    decreases s.len() - k,
{
    if k == s.len() {
        assert(s.take(k) =~= s);
    } else {
        let t = s.drop_last();
        assert(is_whitespace(s[s.len() - 1]));
        lemma_trim_end(t, k);
        assert(t.take(k) =~= s.take(k));
    }
}

/// `s` without its leading and trailing white space.
pub fn trim(s: &str) -> (r: &str)
    ensures
        r@ == trimmed(s@),
{
    let v = chars_of(s);
    let n = v.len();
    let mut from: usize = 0;
    while from < n && whitespace(v[from])
        invariant
            from <= n == v@.len(),
            forall|i: int| 0 <= i < from ==> is_whitespace(#[trigger] v@[i]),
        decreases n - from,
    {
        from += 1;
    }
    let mut to: usize = n;
    while to > from && whitespace(v[to - 1])
        invariant
            from <= to <= n == v@.len(),
            forall|i: int| to <= i < n ==> is_whitespace(#[trigger] v@[i]),
        decreases to,
    {
        to -= 1;
    }
    proof {
        lemma_trim_start(s@, from as int);
        let t = s@.skip(from as int);
        assert forall|i: int| to - from <= i < t.len() implies is_whitespace(#[trigger] t[i]) by {
            assert(t[i] == v@[i + from]);
        }
        if to > from {
            assert(t[to - from - 1] == v@[to - 1]);
        }
        lemma_trim_end(t, to - from);
        assert(t.take(to - from) =~= s@.subrange(from as int, to as int));
    }
    s.substring_char(from, to)
}

/// `c` with `A` to `Z` mapped to `a` to `z` and every other character kept.
pub open spec fn lower_char(c: char) -> char {
    if 'A' <= c && c <= 'Z' {
        (c as u8 + 32) as char
    } else {
        c
    }
}

/// `s` with each of its characters mapped by [`lower_char`].
pub open spec fn lowered(s: Seq<char>) -> Seq<char> {
    s.map_values(|c: char| lower_char(c))
}

/// `c` in ASCII lower case.
pub fn to_lower_char(c: char) -> (r: char)
    ensures
        r == lower_char(c),
{
    if 'A' <= c && c <= 'Z' {
        (c as u8 + 32) as char
    } else {
        c
    }
}

/// `s` in ASCII lower case.
pub fn to_lower(s: &str) -> (r: String)
    ensures
        r@ == lowered(s@),
{
    let v = chars_of(s);
    let mut r = String::new();
    for i in 0..v.len()
        invariant
            v@ == s@,
            r@ == lowered(s@).take(i as int),
    {
        r.push(to_lower_char(v[i]));
        assert(lowered(s@).take(i + 1) =~= lowered(s@).take(i as int).push(lowered(s@)[i as int]));
    }
    assert(lowered(s@).take(s@.len() as int) =~= lowered(s@));
    r
}

/// Whether `a` and `b` are equal once both are in ASCII lower case.
pub fn same_ignoring_case(a: &str, b: &str) -> (r: bool)
    ensures
        r == (lowered(a@) == lowered(b@)),
{
    to_lower(a) == to_lower(b)
}

/// Whether `p` is the beginning of `s`.
pub open spec fn begins_with(s: Seq<char>, p: Seq<char>) -> bool {
    p.len() <= s.len() && s.take(p.len() as int) == p
}

/// Whether `p` is the beginning of `s`.
pub fn starts_with(s: &str, p: &str) -> (r: bool)
    ensures
        r == begins_with(s@, p@),
{
    let n = p.unicode_len();
    if s.unicode_len() < n {
        return false;
    }
    let head = s.substring_char(0, n);
    proof {
        assert(s@.subrange(0, n as int) =~= s@.take(n as int));
    }
    same(head, p)
}

/// Whether `c` is one of `0` to `9`.
pub open spec fn is_digit(c: char) -> bool {
    '0' <= c && c <= '9'
}

/// The number that the digit `c` stands for.
pub open spec fn digit_value(c: char) -> nat {
    (c as u32 - '0' as u32) as nat
}

/// The digit that stands for `d`, a number below ten.
pub open spec fn digit_char(d: nat) -> char {
    ('0' as u8 + d) as u8 as char
}

/// The number that a run of decimal digits stands for, most significant first.
pub open spec fn number(s: Seq<char>) -> nat
    decreases s.len(),
{
    if s.len() == 0 {
        0
    } else {
        number(s.drop_last()) * 10 + digit_value(s.last())
    }
}

/// `n` in decimal digits, without leading zeros.
pub open spec fn decimal(n: nat) -> Seq<char>
    decreases n,
{
    if n < 10 {
        seq![digit_char(n)]
    } else {
        decimal(n / 10).push(digit_char(n % 10))
    }
}

/// Writing a number in decimal and reading it back gives the number, and every
/// character written is a digit.
pub proof fn decimal_reads_back(n: nat)
    ensures
        number(decimal(n)) == n,
        decimal(n).len() > 0,
        forall|i: int| 0 <= i < decimal(n).len() ==> is_digit(#[trigger] decimal(n)[i]),
    decreases n,
{
    if n < 10 {
        let s = decimal(n);
        assert(s.drop_last() =~= Seq::<char>::empty());
        assert(number(s.drop_last()) == 0);
        assert(digit_value(digit_char(n)) == n);
    } else {
        decimal_reads_back(n / 10);
        let s = decimal(n);
        assert(s.drop_last() =~= decimal(n / 10));
        assert(digit_value(digit_char(n % 10)) == n % 10);
        assert forall|i: int| 0 <= i < s.len() implies is_digit(#[trigger] s[i]) by {
            if i < s.len() - 1 {
                assert(s[i] == decimal(n / 10)[i]);
            }
        }
    }
}

/// Appends `n` in decimal to `out`.
pub fn push_decimal(out: &mut String, n: u64)
    ensures
        final(out)@ == old(out)@ + decimal(n as nat),
    decreases n,
{
    if n < 10 {
        out.push((48 + n as u8) as char);
        assert(old(out)@.push(digit_char(n as nat)) =~= old(out)@ + decimal(n as nat));
    } else {
        push_decimal(out, n / 10);
        out.push((48 + (n % 10) as u8) as char);
        assert(old(out)@ + decimal(n as nat) =~= (old(out)@ + decimal(n as nat / 10)).push(
            digit_char(n as nat % 10),
        ));
    }
}

/// `n` in exactly `width` decimal digits, the most significant of them dropped
/// where there are more.
pub open spec fn padded(n: nat, width: nat) -> Seq<char>
    decreases width,
{
    if width == 0 {
        Seq::empty()
    } else {
        padded(n / 10, (width - 1) as nat).push(digit_char(n % 10))
    }
}

/// The digits behind the point for `n` units of which `10^width` make one,
/// without trailing zeros.
pub open spec fn fraction(n: nat, width: nat) -> Seq<char>
    decreases width,
{
    if width == 0 {
        Seq::empty()
    } else if n % 10 == 0 {
        fraction(n / 10, (width - 1) as nat)
    } else {
        padded(n, width)
    }
}

/// `whole`, and behind a point the digits of `rest`, where any are left.
pub open spec fn point(whole: nat, rest: nat, width: nat) -> Seq<char> {
    if fraction(rest, width).len() == 0 {
        decimal(whole)
    } else {
        decimal(whole) + "."@ + fraction(rest, width)
    }
}

proof fn lemma_padded_len(n: nat, width: nat)
    ensures
        padded(n, width).len() == width,
    decreases width,
{
    if width > 0 {
        lemma_padded_len(n / 10, (width - 1) as nat);
    }
}

/// Appends `n` in `width` digits to `out`.
fn push_padded(out: &mut String, n: u64, width: u32)
    ensures
        final(out)@ == old(out)@ + padded(n as nat, width as nat),
    decreases width,
{
    if width > 0 {
        push_padded(out, n / 10, width - 1);
        out.push((48 + (n % 10) as u8) as char);
        assert(old(out)@ + padded(n as nat, width as nat) =~= (old(out)@ + padded(
            n as nat / 10,
            (width - 1) as nat,
        )).push(digit_char(n as nat % 10)));
    } else {
        assert(old(out)@ + padded(n as nat, 0) =~= old(out)@);
    }
}

/// Appends `whole` to `out`, and behind a point the digits of `rest`, where any
/// are left.
pub fn push_point(out: &mut String, whole: u64, rest: u64, width: u32)
    ensures
        final(out)@ == old(out)@ + point(whole as nat, rest as nat, width as nat),
{
    push_decimal(out, whole);
    let mut n: u64 = rest;
    let mut w: u32 = width;
    while w > 0 && n % 10 == 0
        invariant
            fraction(rest as nat, width as nat) == fraction(n as nat, w as nat),
        decreases w,
    {
        n = n / 10;
        w = w - 1;
    }
    proof {
        lemma_padded_len(n as nat, w as nat);
    }
    if w > 0 {
        out.push('.');
        push_padded(out, n, w);
        proof {
            reveal_strlit(".");
        }
        assert(old(out)@ + point(whole as nat, rest as nat, width as nat) =~= (old(out)@ + decimal(
            whole as nat,
        )).push('.') + padded(n as nat, w as nat));
    }
}

/// How many of the first characters of `s` are digits.
pub open spec fn digit_run(s: Seq<char>) -> nat
    decreases s.len(),
{
    if s.len() > 0 && is_digit(s[0]) {
        1 + digit_run(s.drop_first())
    } else {
        0
    }
}

/// Where the first `k` characters are digits and the next one is none, the run
/// of digits is `k` long.
pub proof fn digit_run_ends(s: Seq<char>, k: int)
    requires
        0 <= k <= s.len(),
        forall|i: int| 0 <= i < k ==> is_digit(#[trigger] s[i]),
        k < s.len() ==> !is_digit(s[k]),
    ensures
        digit_run(s) == k,
    decreases k,
{
    if k > 0 {
        let t = s.drop_first();
        assert forall|i: int| 0 <= i < k - 1 implies is_digit(#[trigger] t[i]) by {
            assert(t[i] == s[i + 1]);
        }
        assert(is_digit(s[0]));
        digit_run_ends(t, k - 1);
    }
}

/// How many of the first characters of `s` are digits.
pub fn count_digits(s: &str) -> (k: usize)
    ensures
        k == digit_run(s@),
        k <= s@.len(),
        forall|i: int| 0 <= i < k ==> is_digit(#[trigger] s@[i]),
{
    let v = chars_of(s);
    let mut k: usize = 0;
    while k < v.len() && '0' <= v[k] && v[k] <= '9'
        invariant
            v@ == s@,
            k <= v@.len(),
            forall|i: int| 0 <= i < k ==> is_digit(#[trigger] v@[i]),
        decreases v@.len() - k,
    {
        k += 1;
    }
    proof {
        digit_run_ends(s@, k as int);
    }
    k
}

proof fn lemma_number_grows(s: Seq<char>, k: int)
    requires
        0 <= k <= s.len(),
    ensures
        number(s.take(k)) <= number(s),
    decreases s.len() - k,
{
    if k == s.len() {
        assert(s.take(k) =~= s);
    } else {
        lemma_number_grows(s, k + 1);
        assert(s.take(k + 1).drop_last() =~= s.take(k));
    }
}

/// Reads a run of decimal digits; `None` if the number does not fit.
pub fn parse_number(s: &str) -> (r: Option<u64>)
    requires
        forall|i: int| 0 <= i < s@.len() ==> is_digit(#[trigger] s@[i]),
    ensures
        match r {
            Some(n) => n == number(s@),
            None => number(s@) > u64::MAX,
        },
{
    let v = chars_of(s);
    let mut n: u64 = 0;
    for i in 0..v.len()
        invariant
            v@ == s@,
            n == number(s@.take(i as int)),
            forall|i: int| 0 <= i < s@.len() ==> is_digit(#[trigger] s@[i]),
    {
        let d: u64 = (v[i] as u32 - '0' as u32) as u64;
        proof {
            assert(s@.take(i + 1).drop_last() =~= s@.take(i as int));
            assert(number(s@.take(i + 1)) == number(s@.take(i as int)) * 10 + d);
            lemma_number_grows(s@, i + 1);
        }
        if n > (u64::MAX - d) / 10 {
            return None;
        }
        n = n * 10 + d;
    }
    assert(s@.take(s@.len() as int) =~= s@);
    Some(n)
}

/// Whether `a` comes before `b` in the order of their characters' code points.
pub open spec fn before(a: Seq<char>, b: Seq<char>) -> bool
    decreases a.len(),
{
    if b.len() == 0 {
        false
    } else if a.len() == 0 {
        true
    } else if a[0] != b[0] {
        a[0] < b[0]
    } else {
        before(a.drop_first(), b.drop_first())
    }
}

/// No text comes before itself, and of two texts at most one comes before the
/// other.
pub proof fn before_is_asymmetric(a: Seq<char>, b: Seq<char>)
    requires
        before(a, b),
    ensures
        !before(b, a),
    decreases a.len(),
{
    if a.len() > 0 && b.len() > 0 && a[0] == b[0] {
        before_is_asymmetric(a.drop_first(), b.drop_first());
    }
}

/// What comes before a text also comes before everything that does not come
/// before that text.
pub proof fn before_carries_over(a: Seq<char>, b: Seq<char>, c: Seq<char>)
    requires
        before(a, b),
        !before(c, b),
    ensures
        before(a, c),
    decreases a.len(),
{
    if a.len() > 0 && b.len() > 0 && c.len() > 0 && a[0] == b[0] && b[0] == c[0] {
        before_carries_over(a.drop_first(), b.drop_first(), c.drop_first());
    }
}

/// Whether `a` comes before `b`.
pub fn is_before(a: &str, b: &str) -> (r: bool)
    ensures
        r == before(a@, b@),
{
    let x = chars_of(a);
    let y = chars_of(b);
    let mut i: usize = 0;
    assert(a@.skip(0) =~= a@);
    assert(b@.skip(0) =~= b@);
    while i < x.len() && i < y.len()
        invariant
            x@ == a@,
            y@ == b@,
            i <= x@.len(),
            i <= y@.len(),
            before(a@, b@) == before(a@.skip(i as int), b@.skip(i as int)),
        decreases x@.len() - i,
    {
        assert(a@.skip(i as int)[0] == x@[i as int]);
        assert(b@.skip(i as int)[0] == y@[i as int]);
        if x[i] != y[i] {
            return x[i] < y[i];
        }
        assert(a@.skip(i as int).drop_first() =~= a@.skip(i + 1));
        assert(b@.skip(i as int).drop_first() =~= b@.skip(i + 1));
        i += 1;
    }
    i < y.len()
}

/// Two strings are the same without regard to case exactly where they agree in
/// every place but for ASCII letters of which one is the other's capital.
pub proof fn case_folds_letters_only(a: Seq<char>, b: Seq<char>)
    ensures
        lowered(a) == lowered(b) <==> a.len() == b.len() && forall|i: int|
            #![trigger a[i]]
            #![trigger b[i]]
            0 <= i < a.len() ==> a[i] == b[i] || ('A' <= a[i] && a[i] <= 'Z' && b[i] as u32
                == a[i] as u32 + 32) || ('A' <= b[i] && b[i] <= 'Z' && a[i] as u32 == b[i] as u32
                + 32),
{
    let same = a.len() == b.len() && forall|i: int|
        #![trigger a[i]]
        #![trigger b[i]]
        0 <= i < a.len() ==> a[i] == b[i] || ('A' <= a[i] && a[i] <= 'Z' && b[i] as u32 == a[i] as u32
            + 32) || ('A' <= b[i] && b[i] <= 'Z' && a[i] as u32 == b[i] as u32 + 32);
    if lowered(a) == lowered(b) {
        assert(lowered(a).len() == a.len() && lowered(b).len() == b.len());
        assert forall|i: int|
            #![trigger a[i]]
            #![trigger b[i]]
            0 <= i < a.len() implies a[i] == b[i] || ('A' <= a[i] && a[i] <= 'Z' && b[i] as u32
            == a[i] as u32 + 32) || ('A' <= b[i] && b[i] <= 'Z' && a[i] as u32 == b[i] as u32
            + 32) by {
            assert(lowered(a)[i] == lower_char(a[i]));
            assert(lowered(b)[i] == lower_char(b[i]));
        }
    }
    if same {
        assert forall|i: int| 0 <= i < a.len() implies lowered(a)[i] == lowered(b)[i] by {
            assert(a[i] == a[i]);
            assert(lowered(a)[i] == lower_char(a[i]));
            assert(lowered(b)[i] == lower_char(b[i]));
        }
        assert(lowered(a) =~= lowered(b));
    }
}

/// What comes first of two strings is decided by the first place where they differ;
/// where one ends there, the shorter one comes first.
pub proof fn first_difference_decides(
    common: Seq<char>,
    a: Seq<char>,
    b: Seq<char>,
)
    ensures
        before(common + a, common + b) == before(a, b),
        a.len() == 0 && b.len() > 0 ==> before(common + a, common + b),
        b.len() == 0 ==> !before(common + a, common + b),
        a.len() > 0 && b.len() > 0 && a[0] != b[0] ==> before(common + a, common + b) == (a[0]
            < b[0]),
    decreases common.len(),
{
    if common.len() == 0 {
        assert(common + a =~= a);
        assert(common + b =~= b);
    } else {
        first_difference_decides(common.drop_first(), a, b);
        assert((common + a).drop_first() =~= common.drop_first() + a);
        assert((common + b).drop_first() =~= common.drop_first() + b);
    }
}

/// Trimming takes white space off both ends and nothing else: what is between the
/// first and the last character that is none stays as it is.
pub proof fn trimming_takes_off_the_ends(left: Seq<char>, middle: Seq<char>, right: Seq<char>)
    requires
        forall|i: int| 0 <= i < left.len() ==> is_whitespace(#[trigger] left[i]),
        forall|i: int| 0 <= i < right.len() ==> is_whitespace(#[trigger] right[i]),
        middle.len() > 0,
        !is_whitespace(middle[0]),
        !is_whitespace(middle.last()),
    ensures
        trimmed(left + middle + right) == middle,
{
    let s = left + middle + right;
    let k = left.len() as int;
    assert forall|i: int| 0 <= i < k implies is_whitespace(#[trigger] s[i]) by {
        assert(s[i] == left[i]);
    }
    assert(s[k] == middle[0]);
    lemma_trim_start(s, k);
    let t = s.skip(k);
    assert(t =~= middle + right);
    let m = middle.len() as int;
    assert forall|i: int| m <= i < t.len() implies is_whitespace(#[trigger] t[i]) by {
        assert(t[i] == right[i - m]);
    }
    assert(t[m - 1] == middle.last());
    lemma_trim_end(t, m);
    assert(t.take(m) =~= middle);
}

/// The leading digits of a string are digits, are no more than the string holds, and
/// end where the string does or where no digit follows.
pub proof fn digit_run_is_the_leading_digits(s: Seq<char>)
    ensures
        digit_run(s) <= s.len(),
        forall|i: int| 0 <= i < digit_run(s) ==> is_digit(#[trigger] s[i]),
        digit_run(s) < s.len() ==> !is_digit(s[digit_run(s) as int]),
    decreases s.len(),
{
    if s.len() > 0 && is_digit(s[0]) {
        let t = s.drop_first();
        digit_run_is_the_leading_digits(t);
        assert forall|i: int| 0 <= i < digit_run(s) implies is_digit(#[trigger] s[i]) by {
            if i > 0 {
                assert(t[i - 1] == s[i]);
            }
        }
        if digit_run(s) < s.len() {
            assert(t[digit_run(t) as int] == s[digit_run(s) as int]);
        }
    }
}

/// Whether `text` holds `piece` somewhere.
pub open spec fn holds(text: Seq<char>, piece: Seq<char>) -> bool {
    exists|left: Seq<char>, right: Seq<char>| text == #[trigger] (left + piece + right)
}

/// What a text holds, it still holds with more behind it.
pub proof fn held_with_more_behind(text: Seq<char>, piece: Seq<char>, more: Seq<char>)
    requires
        holds(text, piece),
    ensures
        holds(text + more, piece),
{
    let (left, right) = choose|left: Seq<char>, right: Seq<char>|
        text == #[trigger] (left + piece + right);
    assert(text + more =~= left + piece + (right + more));
}

/// `10` to the power of `n`.
pub open spec fn power_of_ten(n: nat) -> nat
    decreases n,
{
    if n == 0 {
        1
    } else {
        10 * power_of_ten((n - 1) as nat)
    }
}

proof fn lemma_digit(d: nat)
    requires
        d < 10,
    ensures
        digit_value(digit_char(d)) == d,
        is_digit(digit_char(d)),
        d != 0 ==> digit_char(d) != '0',
{
}

proof fn lemma_padded_number(n: nat, width: nat)
    requires
        n < power_of_ten(width),
    ensures
        number(padded(n, width)) == n,
    decreases width,
{
    if width > 0 {
        let rest = padded(n / 10, (width - 1) as nat);
        lemma_padded_number(n / 10, (width - 1) as nat);
        lemma_digit(n % 10);
        assert(padded(n, width).drop_last() =~= rest);
    }
}

/// The digits behind the point mean what they stand for: written out to `width`
/// digits with zeros behind them they are `n` again, and the last one is no zero.
pub proof fn fraction_means_its_number(n: nat, width: nat)
    requires
        n < power_of_ten(width),
    ensures
        fraction(n, width).len() <= width,
        number(fraction(n, width)) * power_of_ten((width - fraction(n, width).len()) as nat) == n,
        fraction(n, width).len() > 0 ==> fraction(n, width).last() != '0',
        fraction(n, width).len() == 0 <==> n == 0,
    decreases width,
{
    let f = fraction(n, width);
    let a = number(f) as int;
    if width == 0 {
        assert(a * power_of_ten(0) == 0) by (nonlinear_arith)
            requires
                a == 0,
        ;
    } else if n % 10 == 0 {
        fraction_means_its_number(n / 10, (width - 1) as nat);
        let left = (width - 1 - f.len()) as nat;
        let b = power_of_ten(left) as int;
        assert((width - f.len()) as nat == left + 1);
        assert(power_of_ten(left + 1) == 10 * b);
        assert(a * (10 * b) == 10 * (a * b)) by (nonlinear_arith);
    } else {
        lemma_padded_len(n, width);
        lemma_padded_number(n, width);
        lemma_digit(n % 10);
        let b = power_of_ten((width - f.len()) as nat) as int;
        assert(b == 1);
        assert(a * b == a) by (nonlinear_arith)
            requires
                b == 1,
        ;
    }
}

/// A number with a fraction is the number, a point, and the digits of the fraction;
/// without a fraction it is the number alone.
pub proof fn point_stands_before_a_fraction(whole: nat, rest: nat, width: nat)
    requires
        rest < power_of_ten(width),
    ensures
        rest == 0 ==> point(whole, rest, width) == decimal(whole),
        rest != 0 ==> point(whole, rest, width) == decimal(whole) + "."@ + fraction(rest, width),
{
    fraction_means_its_number(rest, width);
}

} // verus!

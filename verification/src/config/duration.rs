//! Duration strings: `"100ms"`, `"5s"`, `"10m"`, `"2h"`.
use vstd::prelude::*;
use vstd::string::*;

use crate::text;
use crate::time::Duration;

verus! {

/// A [`Duration`] read from a human-readable string.
///
/// Accepted units: `ms`, `s`, `m`, `h`. The number is a non-negative integer.
/// White space may stand at both ends and between number and unit.
#[derive(Debug, Clone, Copy, PartialEq, Eq, Structural)]
pub struct DurationStr(pub Duration);

impl DurationStr {
    /// Wraps `d`.
    pub fn new(d: Duration) -> (r: DurationStr)
        ensures
            r.0 == d,
    {
        DurationStr(d)
    }

    /// A whole number of seconds.
    pub fn from_secs(s: u64) -> (r: DurationStr)
        ensures
            r.0@ == s * 1_000_000_000,
    {
        DurationStr(Duration::from_secs(s))
    }

    /// The wrapped [`Duration`].
    pub fn get(self) -> (d: Duration)
        ensures
            d == self.0,
    {
        self.0
    }
}

impl From<DurationStr> for Duration {
    fn from(d: DurationStr) -> (r: Duration) {
        d.0
    }
}

impl vstd::std_specs::convert::FromSpecImpl<DurationStr> for Duration {
    open spec fn obeys_from_spec() -> bool {
        true
    }

    open spec fn from_spec(d: DurationStr) -> Duration {
        d.0
    }
}

/// Wrapping keeps the span: what is taken out is what was put in, and two
/// wrapped spans are equal only where the spans are.
pub proof fn wrapping_keeps_the_span(a: Duration, b: Duration)
    ensures
        DurationStr(a).0 == a,
        <Duration as vstd::std_specs::convert::FromSpec<DurationStr>>::from_spec(DurationStr(a))
            == a,
        DurationStr(a) == DurationStr(b) ==> a == b,
{
}

/// Why a string is not a duration.
#[derive(Debug)]
pub enum ParseError {
    /// The string holds nothing but white space.
    Empty,
    /// Nothing follows the number.
    MissingUnit,
    /// The string does not begin with a digit.
    MissingNumber,
    /// The number, or the span it stands for, is out of range.
    Overflow,
    /// The unit is none of `ms`, `s`, `m`, `h`.
    UnknownUnit(String),
}

impl ParseError {
    /// The error as one line of text.
    pub fn message(&self) -> (r: String)
        ensures
            r@ == match *self {
                ParseError::Empty => "duration string is empty"@,
                ParseError::MissingUnit => "duration is missing a unit (expected ms, s, m, or h)"@,
                ParseError::MissingNumber => "duration is missing a number"@,
                ParseError::Overflow => "duration value overflows"@,
                ParseError::UnknownUnit(u) => "unknown duration unit `"@ + u@
                    + "` (expected ms, s, m, or h)"@,
            },
    {
        match self {
            ParseError::Empty => "duration string is empty".to_owned(),
            ParseError::MissingUnit => {
                "duration is missing a unit (expected ms, s, m, or h)".to_owned()
            },
            ParseError::MissingNumber => "duration is missing a number".to_owned(),
            ParseError::Overflow => "duration value overflows".to_owned(),
            ParseError::UnknownUnit(u) => text::around(
                "unknown duration unit `",
                u,
                "` (expected ms, s, m, or h)",
            ),
        }
    }
}

/// What a duration string means: a span in nanoseconds, or why it means none.
pub enum Meaning {
    Span(nat),
    Empty,
    MissingUnit,
    MissingNumber,
    Overflow,
    UnknownUnit(Seq<char>),
}

/// Seconds in one `unit` of a duration string, for the units that count seconds.
pub open spec fn unit_secs(unit: Seq<char>) -> Option<nat> {
    if unit == "s"@ {
        Some(1)
    } else if unit == "m"@ {
        Some(60)
    } else if unit == "h"@ {
        Some(3600)
    } else {
        None
    }
}

/// What the number `n` followed by `unit` means.
pub open spec fn scaled(n: nat, unit: Seq<char>) -> Meaning {
    if n > u64::MAX {
        Meaning::Overflow
    } else if unit == "ms"@ {
        Meaning::Span(n * 1_000_000)
    } else {
        match unit_secs(unit) {
            None => Meaning::UnknownUnit(unit),
            Some(k) => if n * k > u64::MAX {
                Meaning::Overflow
            } else {
                Meaning::Span(n * k * 1_000_000_000)
            },
        }
    }
}

/// What a duration string means: leading digits are the number, the rest,
/// trimmed, is the unit.
pub open spec fn meaning(input: Seq<char>) -> Meaning {
    let s = text::trimmed(input);
    let k = text::digit_run(s) as int;
    if s.len() == 0 {
        Meaning::Empty
    } else if k == s.len() {
        Meaning::MissingUnit
    } else if k == 0 {
        Meaning::MissingNumber
    } else {
        scaled(text::number(s.take(k)), text::trimmed(s.skip(k)))
    }
}

/// Whether `r` is the answer that `m` calls for.
pub open spec fn answers(r: Result<Duration, ParseError>, m: Meaning) -> bool {
    match m {
        Meaning::Span(nanos) => r matches Ok(d) && d@ == nanos,
        Meaning::Empty => r == Err::<Duration, ParseError>(ParseError::Empty),
        Meaning::MissingUnit => r == Err::<Duration, ParseError>(ParseError::MissingUnit),
        Meaning::MissingNumber => r == Err::<Duration, ParseError>(ParseError::MissingNumber),
        Meaning::Overflow => r == Err::<Duration, ParseError>(ParseError::Overflow),
        Meaning::UnknownUnit(u) => r matches Err(ParseError::UnknownUnit(v)) && v@ == u,
    }
}

/// Reads a duration string.
pub fn parse(input: &str) -> (r: Result<Duration, ParseError>)
    ensures
        answers(r, meaning(input@)),
{
    let s = text::trim(input);
    if s.is_empty() {
        return Err(ParseError::Empty);
    }
    let len = s.unicode_len();
    let split = text::count_digits(s);
    if split == len {
        return Err(ParseError::MissingUnit);
    }
    if split == 0 {
        return Err(ParseError::MissingNumber);
    }
    let digits = s.substring_char(0, split);
    let rest = s.substring_char(split, len);
    proof {
        assert(digits@ =~= s@.take(split as int));
        assert(rest@ =~= s@.skip(split as int));
    }
    let n: u64 = match text::parse_number(digits) {
        Some(n) => n,
        None => return Err(ParseError::Overflow),
    };
    let unit = text::trim(rest);
    if text::same(unit, "ms") {
        return Ok(Duration::from_millis(n));
    }
    let secs_mul: u64 = if text::same(unit, "s") {
        1
    } else if text::same(unit, "m") {
        60
    } else if text::same(unit, "h") {
        3600
    } else {
        return Err(ParseError::UnknownUnit(unit.to_owned()));
    };
    match n.checked_mul(secs_mul) {
        Some(secs) => Ok(Duration::from_secs(secs)),
        None => Err(ParseError::Overflow),
    }
}

/// A number written in decimal with a unit behind it means that many of the
/// unit, with or without white space at the end of the whole.
pub proof fn written_span_reads_back(n: nat, unit: Seq<char>)
    requires
        unit.len() > 0,
        !text::is_digit(unit[0]),
        !text::is_whitespace(unit[0]),
        !text::is_whitespace(unit.last()),
    ensures
        meaning(text::decimal(n) + unit) == scaled(n, unit),
        meaning((text::decimal(n) + unit).push(' ')) == scaled(n, unit),
{
    let d = text::decimal(n);
    let s = d + unit;
    text::decimal_reads_back(n);
    assert(text::is_digit(d[0]));
    assert(s[0] == d[0]);
    assert(s.last() == unit.last());
    let spaced = s.push(' ');
    assert(spaced[0] == d[0]);
    assert(spaced.drop_last() =~= s);
    assert(text::trim_end(spaced) == text::trim_end(s));
    let k = d.len() as int;
    assert forall|i: int| 0 <= i < k implies text::is_digit(#[trigger] s[i]) by {
        assert(s[i] == d[i]);
    }
    assert(s[k] == unit[0]);
    text::digit_run_ends(s, k);
    assert(s.take(k) =~= d);
    assert(s.skip(k) =~= unit);
}

/// What a number with a unit behind it means, for every number: so many
/// milliseconds, seconds, minutes or hours, as long as the number fits and, of the
/// units from the second on, as long as the seconds fit. White space may stand
/// between the two and around them.
pub proof fn number_with_unit_means_so_many(
    n: nat,
    left: Seq<char>,
    gap: Seq<char>,
    right: Seq<char>,
)
    requires
        n <= u64::MAX,
        forall|i: int| 0 <= i < left.len() ==> text::is_whitespace(#[trigger] left[i]),
        forall|i: int| 0 <= i < gap.len() ==> text::is_whitespace(#[trigger] gap[i]),
        forall|i: int| 0 <= i < right.len() ==> text::is_whitespace(#[trigger] right[i]),
    ensures
        meaning(left + (text::decimal(n) + gap + "ms"@) + right) == Meaning::Span(n * 1_000_000),
        meaning(left + (text::decimal(n) + gap + "s"@) + right) == Meaning::Span(
            n * 1_000_000_000,
        ),
        n * 60 <= u64::MAX ==> meaning(left + (text::decimal(n) + gap + "m"@) + right)
            == Meaning::Span(n * 60 * 1_000_000_000),
        n * 3600 <= u64::MAX ==> meaning(left + (text::decimal(n) + gap + "h"@) + right)
            == Meaning::Span(n * 3600 * 1_000_000_000),
        n * 60 > u64::MAX ==> meaning(left + (text::decimal(n) + gap + "m"@) + right)
            == Meaning::Overflow,
        n * 3600 > u64::MAX ==> meaning(left + (text::decimal(n) + gap + "h"@) + right)
            == Meaning::Overflow,
{
    reveal_strlit("ms");
    reveal_strlit("s");
    reveal_strlit("m");
    reveal_strlit("h");
    lemma_spaced(n, left, gap, "ms"@, right);
    lemma_spaced(n, left, gap, "s"@, right);
    lemma_spaced(n, left, gap, "m"@, right);
    lemma_spaced(n, left, gap, "h"@, right);
    assert("ms"@.len() == 2 && "s"@.len() == 1 && "m"@.len() == 1 && "h"@.len() == 1);
    assert("s"@[0] == 's' && "m"@[0] == 'm' && "h"@[0] == 'h');
}

proof fn lemma_spaced(
    n: nat,
    left: Seq<char>,
    gap: Seq<char>,
    unit: Seq<char>,
    right: Seq<char>,
)
    requires
        forall|i: int| 0 <= i < left.len() ==> text::is_whitespace(#[trigger] left[i]),
        forall|i: int| 0 <= i < gap.len() ==> text::is_whitespace(#[trigger] gap[i]),
        forall|i: int| 0 <= i < right.len() ==> text::is_whitespace(#[trigger] right[i]),
        unit.len() > 0,
        !text::is_digit(unit[0]),
        !text::is_whitespace(unit[0]),
        !text::is_whitespace(unit.last()),
    ensures
        meaning(left + (text::decimal(n) + gap + unit) + right) == scaled(n, unit),
{
    let d = text::decimal(n);
    let s = d + gap + unit;
    text::decimal_reads_back(n);
    assert(s[0] == d[0]);
    assert(text::is_digit(d[0]));
    assert(s.last() == unit.last());
    text::trimming_takes_off_the_ends(left, s, right);
    let k = d.len() as int;
    assert forall|i: int| 0 <= i < k implies text::is_digit(#[trigger] s[i]) by {
        assert(s[i] == d[i]);
    }
    assert(!text::is_digit(s[k])) by {
        if gap.len() > 0 {
            assert(s[k] == gap[0]);
            assert(text::is_whitespace(gap[0]));
        } else {
            assert(s[k] == unit[0]);
        }
    }
    text::digit_run_ends(s, k);
    assert(s.take(k) =~= d);
    assert(s.skip(k) =~= gap + unit);
    text::trimming_takes_off_the_ends(gap, unit, Seq::empty());
    assert(gap + unit + Seq::<char>::empty() =~= gap + unit);
}

/// What means no span, for every string: nothing but white space, a number without a
/// unit, something else than a digit in front, a number that does not fit, and a unit
/// that is none.
pub proof fn every_other_string_is_refused(input: Seq<char>)
    ensures
        meaning(input) matches Meaning::Span(_) ==> {
            let s = text::trimmed(input);
            let k = text::digit_run(s) as int;
            let unit = text::trimmed(s.skip(k));
            0 < k < s.len() && (unit == "ms"@ || unit == "s"@ || unit == "m"@ || unit == "h"@)
        },
        meaning(input) is Empty <==> text::trimmed(input).len() == 0,
        meaning(input) is MissingUnit ==> text::trimmed(input).len() > 0,
        meaning(input) is MissingNumber ==> text::trimmed(input).len() > 0 && text::digit_run(
            text::trimmed(input),
        ) == 0,
{
    text::digit_run_is_the_leading_digits(text::trimmed(input));
}

} // verus!

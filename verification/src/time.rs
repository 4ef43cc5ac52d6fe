//! Spans of time, counted in whole nanoseconds.
use vstd::prelude::*;
use vstd::string::*;

use crate::text;

verus! {

/// Nanoseconds in one second.
pub const NANOS_PER_SEC: u128 = 1_000_000_000;

/// Nanoseconds in one millisecond.
pub const NANOS_PER_MILLI: u128 = 1_000_000;

/// Nanoseconds in one microsecond.
pub const NANOS_PER_MICRO: u128 = 1_000;

/// A span of time: at most `u64::MAX` seconds and 999 999 999 nanoseconds.
#[derive(Debug, Clone, Copy, PartialEq, Eq, Structural)]
pub struct Duration {
    nanos: u128,
}

impl View for Duration {
    type V = nat;

    /// The span in nanoseconds.
    closed spec fn view(&self) -> nat {
        self.nanos as nat
    }
}

impl Duration {
    #[verifier::type_invariant]
    spec fn inv(self) -> bool {
        self.nanos <= u64::MAX * 1_000_000_000 + 999_999_999
    }

    /// A span of `secs` whole seconds.
    pub fn from_secs(secs: u64) -> (d: Duration)
        ensures
            d@ == secs * 1_000_000_000,
    {
        Duration { nanos: secs as u128 * NANOS_PER_SEC }
    }

    /// A span of `millis` whole milliseconds.
    pub fn from_millis(millis: u64) -> (d: Duration)
        ensures
            d@ == millis * 1_000_000,
    {
        Duration { nanos: millis as u128 * NANOS_PER_MILLI }
    }

    /// A span of `secs` seconds and `nanos` nanoseconds.
    pub fn new(secs: u64, nanos: u32) -> (d: Duration)
        requires
            nanos < 1_000_000_000,
        ensures
            d@ == secs * 1_000_000_000 + nanos,
    {
        Duration { nanos: secs as u128 * NANOS_PER_SEC + nanos as u128 }
    }

    /// The whole seconds of the span.
    pub fn as_secs(&self) -> (n: u64)
        ensures
            n == self@ / 1_000_000_000,
    {
        proof {
            use_type_invariant(self);
        }
        (self.nanos / NANOS_PER_SEC) as u64
    }

    /// The nanoseconds past the whole seconds.
    pub fn subsec_nanos(&self) -> (n: u32)
        ensures
            n == self@ % 1_000_000_000,
    {
        (self.nanos % NANOS_PER_SEC) as u32
    }

    /// The whole milliseconds of the span.
    pub fn as_millis(&self) -> (n: u128)
        ensures
            n == self@ / 1_000_000,
    {
        self.nanos / NANOS_PER_MILLI
    }

    /// The whole microseconds of the span.
    pub fn as_micros(&self) -> (n: u128)
        ensures
            n == self@ / 1_000,
    {
        self.nanos / NANOS_PER_MICRO
    }

    /// The nanoseconds of the span.
    pub fn as_nanos(&self) -> (n: u128)
        ensures
            n == self@,
    {
        self.nanos
    }

    /// Whether the span is empty.
    pub fn is_zero(&self) -> (r: bool)
        ensures
            r == (self@ == 0),
    {
        self.nanos == 0
    }

    /// The span as text: a number of the largest unit that it fills, as exact
    /// as needed, and the unit.
    pub open spec fn text(self) -> Seq<char> {
        let n = self@;
        if n >= 1_000_000_000 {
            text::point(n / 1_000_000_000, n % 1_000_000_000, 9) + "s"@
        } else if n >= 1_000_000 {
            text::point(n / 1_000_000, n % 1_000_000, 6) + "ms"@
        } else if n >= 1_000 {
            text::point(n / 1_000, n % 1_000, 3) + "\u{b5}s"@
        } else {
            text::decimal(n) + "ns"@
        }
    }

    /// Appends the span as text to `out`.
    pub fn push_text(&self, out: &mut String)
        ensures
            final(out)@ == old(out)@ + self.text(),
    {
        proof {
            use_type_invariant(self);
        }
        let n: u128 = self.nanos;
        if n >= NANOS_PER_SEC {
            text::push_point(out, (n / NANOS_PER_SEC) as u64, (n % NANOS_PER_SEC) as u64, 9);
            out.append("s");
        } else if n >= NANOS_PER_MILLI {
            text::push_point(out, (n / NANOS_PER_MILLI) as u64, (n % NANOS_PER_MILLI) as u64, 6);
            out.append("ms");
        } else if n >= NANOS_PER_MICRO {
            text::push_point(out, (n / NANOS_PER_MICRO) as u64, (n % NANOS_PER_MICRO) as u64, 3);
            out.append("\u{b5}s");
        } else {
            text::push_decimal(out, n as u64);
            out.append("ns");
        }
        assert(out@ =~= old(out)@ + self.text());
    }

    /// The shorter of the two spans.
    pub fn shorter(self, other: Duration) -> (d: Duration)
        ensures
            d == if self@ <= other@ { self } else { other },
    {
        if self.nanos <= other.nanos {
            self
        } else {
            other
        }
    }

    /// What is left of the span once `other` has passed; nothing if `other`
    /// is longer.
    pub fn saturating_sub(self, other: Duration) -> (d: Duration)
        ensures
            d@ == if other@ <= self@ { self@ - other@ } else { 0 },
    {
        proof {
            use_type_invariant(&self);
        }
        if other.nanos <= self.nanos {
            Duration { nanos: self.nanos - other.nanos }
        } else {
            Duration { nanos: 0 }
        }
    }
}

/// `n`, or the largest `u64` where `n` does not fit.
pub open spec fn saturated(n: nat) -> u64 {
    if n <= u64::MAX {
        n as u64
    } else {
        u64::MAX
    }
}

/// `n`, or the largest `u64` where `n` does not fit.
pub fn saturate(n: u128) -> (r: u64)
    ensures
        r == saturated(n as nat),
{
    if n <= u64::MAX as u128 {
        n as u64
    } else {
        u64::MAX
    }
}

/// A span of so many whole seconds, milliseconds, microseconds or nanoseconds is told
/// as that number with its unit.
pub proof fn whole_units_are_told_plainly(d: Duration, n: nat)
    ensures
        d@ == n * 1_000_000_000 && n > 0 ==> d.text() == text::decimal(n) + "s"@,
        d@ == n * 1_000_000 && 0 < n < 1_000 ==> d.text() == text::decimal(n) + "ms"@,
        d@ == n * 1_000 && 0 < n < 1_000 ==> d.text() == text::decimal(n) + "\u{b5}s"@,
        d@ == n && n < 1_000 ==> d.text() == text::decimal(n) + "ns"@,
{
    reveal_with_fuel(text::power_of_ten, 10);
    text::point_stands_before_a_fraction(n, 0, 9);
    text::point_stands_before_a_fraction(n, 0, 6);
    text::point_stands_before_a_fraction(n, 0, 3);
}

} // verus!

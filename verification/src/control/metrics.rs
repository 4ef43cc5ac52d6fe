//! Counters fed by the data plane, and their Prometheus text.
use vstd::prelude::*;
use vstd::string::*;

use crate::text;
use crate::time;
use crate::time::Duration;

verus! {

/// How many latency buckets there are, without the last one, which holds every
/// observation.
pub const BUCKETS: usize = 12;

/// `n + 1`, starting again at 0 behind the largest number.
pub open spec fn bumped(n: u64) -> u64 {
    if n == u64::MAX {
        0
    } else {
        (n + 1) as u64
    }
}

/// `a + b`, starting again at 0 behind the largest number.
pub open spec fn wrapped(a: u64, b: u64) -> u64 {
    if a + b > u64::MAX {
        (a + b - u64::MAX - 1) as u64
    } else {
        (a + b) as u64
    }
}

/// The upper bound of the bucket at `i`, in nanoseconds.
pub open spec fn bound(i: int) -> nat {
    if i == 0 {
        1_000_000
    } else if i == 1 {
        5_000_000
    } else if i == 2 {
        10_000_000
    } else if i == 3 {
        25_000_000
    } else if i == 4 {
        50_000_000
    } else if i == 5 {
        100_000_000
    } else if i == 6 {
        250_000_000
    } else if i == 7 {
        500_000_000
    } else if i == 8 {
        1_000_000_000
    } else if i == 9 {
        2_500_000_000
    } else if i == 10 {
        5_000_000_000
    } else {
        10_000_000_000
    }
}

/// The upper bound of the bucket at `i`, in nanoseconds.
fn bucket_bound(i: usize) -> (r: u128)
    requires
        i < BUCKETS,
    ensures
        r == bound(i as int),
{
    match i {
        0 => 1_000_000,
        1 => 5_000_000,
        2 => 10_000_000,
        3 => 25_000_000,
        4 => 50_000_000,
        5 => 100_000_000,
        6 => 250_000_000,
        7 => 500_000_000,
        8 => 1_000_000_000,
        9 => 2_500_000_000,
        10 => 5_000_000_000,
        _ => 10_000_000_000,
    }
}

/// The upper bound of the bucket at `i`, in seconds, as text.
pub open spec fn label(i: int) -> Seq<char> {
    text::point(bound(i) / 1_000_000_000, bound(i) % 1_000_000_000, 9)
}

/// The buckets `b` after a request that took `nanos`: one more in each whose
/// bound is not below that.
pub open spec fn filled(b: Seq<u64>, nanos: nat) -> Seq<u64> {
    Seq::new(
        12,
        |i: int|
            if nanos <= bound(i) {
                bumped(b[i])
            } else {
                b[i]
            },
    )
}

fn fill(b: &mut [u64; 12], nanos: u128)
    ensures
        final(b)@ == filled(old(b)@, nanos as nat),
{
    let mut i: usize = 0;
    while i < BUCKETS
        invariant
            i <= BUCKETS,
            b@.len() == 12,
            old(b)@.len() == 12,
            forall|j: int|
                0 <= j < i ==> #[trigger] b@[j] == filled(old(b)@, nanos as nat)[j],
            forall|j: int| i <= j < 12 ==> #[trigger] b@[j] == old(b)@[j],
        decreases BUCKETS - i,
    {
        if nanos <= bucket_bound(i) {
            let n: u64 = b[i].wrapping_add(1);
            b[i] = n;
        }
        i += 1;
    }
    assert(b@ =~= filled(old(b)@, nanos as nat));
}

/// The durations of the requests of one status class.
#[derive(Debug)]
pub struct ClassDurations {
    /// For each bucket, how many requests took no longer than its bound.
    pub buckets: [u64; 12],
    /// How many requests there were.
    pub count: u64,
    /// Their durations, added up, in microseconds.
    pub us_sum: u64,
}

/// The durations of the requests of one status class, by their values.
#[verifier::ext_equal]
pub struct Durations {
    /// For each bucket, how many requests took no longer than its bound.
    pub buckets: Seq<u64>,
    /// How many requests there were.
    pub count: u64,
    /// Their durations, added up, in microseconds.
    pub us_sum: u64,
}

impl Durations {
    /// No request yet.
    pub open spec fn zero() -> Durations {
        Durations { buckets: Seq::new(12, |i: int| 0u64), count: 0, us_sum: 0 }
    }

    /// After one more request, which took `nanos`.
    pub open spec fn timed(self, nanos: nat) -> Durations {
        Durations {
            buckets: filled(self.buckets, nanos),
            count: bumped(self.count),
            us_sum: wrapped(self.us_sum, time::saturated(nanos / 1_000)),
        }
    }

    /// `before`, and behind it one line of the class `class` for each of the
    /// first `n` buckets.
    pub open spec fn with_buckets(self, before: Seq<char>, class: Seq<char>, n: nat) -> Seq<char>
        decreases n,
    {
        if n == 0 {
            before
        } else {
            self.with_buckets(before, class, (n - 1) as nat)
                + "conduit_request_duration_seconds_by_class_bucket{class=\""@ + class
                + "\",le=\""@ + label(n - 1) + "\"} "@ + text::decimal(
                self.buckets[n - 1] as nat,
            ) + "\n"@
        }
    }

    /// `before`, and behind it the histogram of the class `class`.
    pub open spec fn with_class(self, before: Seq<char>, class: Seq<char>) -> Seq<char> {
        self.with_buckets(before, class, 12)
            + "conduit_request_duration_seconds_by_class_bucket{class=\""@ + class
            + "\",le=\"+Inf\"} "@ + text::decimal(self.count as nat)
            + "\nconduit_request_duration_seconds_by_class_count{class=\""@ + class + "\"} "@
            + text::decimal(self.count as nat)
            + "\nconduit_request_duration_seconds_by_class_sum{class=\""@ + class + "\"} "@
            + text::point(
            self.us_sum as nat / 1_000_000,
            self.us_sum as nat % 1_000_000,
            6,
        ) + "\n"@
    }
}

impl ClassDurations {
    /// The durations by their values.
    pub open spec fn values(self) -> Durations {
        Durations { buckets: self.buckets@, count: self.count, us_sum: self.us_sum }
    }

    fn new() -> (r: ClassDurations)
        ensures
            r.values() == Durations::zero(),
    {
        let r = ClassDurations {
            buckets: [0, 0, 0, 0, 0, 0, 0, 0, 0, 0, 0, 0],
            count: 0,
            us_sum: 0,
        };
        assert(r.values() =~= Durations::zero());
        r
    }

    fn observe(&mut self, elapsed: Duration)
        ensures
            final(self).values() == old(self).values().timed(elapsed@),
    {
        fill(&mut self.buckets, elapsed.as_nanos());
        self.count = self.count.wrapping_add(1);
        self.us_sum = self.us_sum.wrapping_add(time::saturate(elapsed.as_micros()));
        assert(self.values() =~= old(self).values().timed(elapsed@));
    }

    fn push_class(&self, out: &mut String, class: &str)
        ensures
            final(out)@ == self.values().with_class(old(out)@, class@),
    {
        let mut i: usize = 0;
        while i < BUCKETS
            invariant
                i <= BUCKETS,
                self.buckets@.len() == 12,
                out@ == self.values().with_buckets(old(out)@, class@, i as nat),
            decreases BUCKETS - i,
        {
            out.append("conduit_request_duration_seconds_by_class_bucket{class=\"");
            out.append(class);
            out.append("\",le=\"");
            push_bound(out, i);
            out.append("\"} ");
            text::push_decimal(out, self.buckets[i]);
            out.append("\n");
            i += 1;
        }
        out.append("conduit_request_duration_seconds_by_class_bucket{class=\"");
        out.append(class);
        out.append("\",le=\"+Inf\"} ");
        text::push_decimal(out, self.count);
        out.append("\nconduit_request_duration_seconds_by_class_count{class=\"");
        out.append(class);
        out.append("\"} ");
        text::push_decimal(out, self.count);
        out.append("\nconduit_request_duration_seconds_by_class_sum{class=\"");
        out.append(class);
        out.append("\"} ");
        text::push_point(out, self.us_sum / 1_000_000, self.us_sum % 1_000_000, 6);
        out.append("\n");
    }
}

/// Writes the upper bound of the bucket at `i`, in seconds.
fn push_bound(out: &mut String, i: usize)
    requires
        i < BUCKETS,
    ensures
        final(out)@ == old(out)@ + label(i as int),
{
    let b: u128 = bucket_bound(i);
    text::push_point(out, (b / 1_000_000_000) as u64, (b % 1_000_000_000) as u64, 9);
}

/// Counters fed by the data plane. Each starts again at 0 behind its largest
/// value.
#[derive(Debug)]
pub struct MetricsHandle {
    /// Requests seen.
    pub requests_total: u64,
    /// Requests that matched no route.
    pub requests_no_route: u64,
    /// Requests whose route names an unregistered upstream.
    pub requests_upstream_unknown: u64,
    /// Requests that the upstream did not answer.
    pub requests_upstream_failed: u64,
    /// Responses with a 2xx status.
    pub responses_2xx: u64,
    /// Responses with a 3xx status.
    pub responses_3xx: u64,
    /// Responses with a 4xx status.
    pub responses_4xx: u64,
    /// Responses with a 5xx status.
    pub responses_5xx: u64,
    /// Durations of all requests, added up, in microseconds.
    pub request_duration_us_sum: u64,
    /// For each bucket, how many requests took no longer than its bound.
    pub buckets: [u64; 12],
    /// The durations of the requests that were answered with a 2xx status.
    pub class_2xx: ClassDurations,
    /// The durations of the requests that were answered with a 3xx status.
    pub class_3xx: ClassDurations,
    /// The durations of the requests that were answered with a 4xx status.
    pub class_4xx: ClassDurations,
    /// The durations of the requests that were answered with a 5xx status.
    pub class_5xx: ClassDurations,
}

impl Default for MetricsHandle {
    fn default() -> (r: MetricsHandle)
        ensures
            r.is_zero(),
    {
        let r = MetricsHandle {
            requests_total: 0,
            requests_no_route: 0,
            requests_upstream_unknown: 0,
            requests_upstream_failed: 0,
            responses_2xx: 0,
            responses_3xx: 0,
            responses_4xx: 0,
            responses_5xx: 0,
            request_duration_us_sum: 0,
            buckets: [0, 0, 0, 0, 0, 0, 0, 0, 0, 0, 0, 0],
            class_2xx: ClassDurations::new(),
            class_3xx: ClassDurations::new(),
            class_4xx: ClassDurations::new(),
            class_5xx: ClassDurations::new(),
        };
        assert(r@ =~= Counters::zero());
        r
    }
}

/// All counters by their values.
#[verifier::ext_equal]
pub struct Counters {
    /// See [`MetricsHandle::requests_total`].
    pub requests_total: u64,
    /// See [`MetricsHandle::requests_no_route`].
    pub requests_no_route: u64,
    /// See [`MetricsHandle::requests_upstream_unknown`].
    pub requests_upstream_unknown: u64,
    /// See [`MetricsHandle::requests_upstream_failed`].
    pub requests_upstream_failed: u64,
    /// See [`MetricsHandle::responses_2xx`].
    pub responses_2xx: u64,
    /// See [`MetricsHandle::responses_3xx`].
    pub responses_3xx: u64,
    /// See [`MetricsHandle::responses_4xx`].
    pub responses_4xx: u64,
    /// See [`MetricsHandle::responses_5xx`].
    pub responses_5xx: u64,
    /// See [`MetricsHandle::request_duration_us_sum`].
    pub request_duration_us_sum: u64,
    /// For each bucket, how many requests took no longer than its bound.
    pub buckets: Seq<u64>,
    /// The durations of the requests that were answered with a 2xx status.
    pub class_2xx: Durations,
    /// The durations of the requests that were answered with a 3xx status.
    pub class_3xx: Durations,
    /// The durations of the requests that were answered with a 4xx status.
    pub class_4xx: Durations,
    /// The durations of the requests that were answered with a 5xx status.
    pub class_5xx: Durations,
}

impl View for MetricsHandle {
    type V = Counters;

    open spec fn view(&self) -> Counters {
        Counters {
            requests_total: self.requests_total,
            requests_no_route: self.requests_no_route,
            requests_upstream_unknown: self.requests_upstream_unknown,
            requests_upstream_failed: self.requests_upstream_failed,
            responses_2xx: self.responses_2xx,
            responses_3xx: self.responses_3xx,
            responses_4xx: self.responses_4xx,
            responses_5xx: self.responses_5xx,
            request_duration_us_sum: self.request_duration_us_sum,
            buckets: self.buckets@,
            class_2xx: self.class_2xx.values(),
            class_3xx: self.class_3xx.values(),
            class_4xx: self.class_4xx.values(),
            class_5xx: self.class_5xx.values(),
        }
    }
}

impl Counters {
    /// No request yet.
    pub open spec fn zero() -> Counters {
        Counters {
            requests_total: 0,
            requests_no_route: 0,
            requests_upstream_unknown: 0,
            requests_upstream_failed: 0,
            responses_2xx: 0,
            responses_3xx: 0,
            responses_4xx: 0,
            responses_5xx: 0,
            request_duration_us_sum: 0,
            buckets: Seq::new(12, |i: int| 0u64),
            class_2xx: Durations::zero(),
            class_3xx: Durations::zero(),
            class_4xx: Durations::zero(),
            class_5xx: Durations::zero(),
        }
    }

    /// After the start of a request.
    pub open spec fn started(self) -> Counters {
        Counters { requests_total: bumped(self.requests_total), ..self }
    }

    /// After a request that took `nanos`.
    pub open spec fn timed(self, nanos: nat) -> Counters {
        Counters {
            request_duration_us_sum: wrapped(
                self.request_duration_us_sum,
                time::saturated(nanos / 1_000),
            ),
            buckets: filled(self.buckets, nanos),
            ..self
        }
    }

    /// After a request that took `nanos` and was answered with this status.
    pub open spec fn timed_by_class(self, nanos: nat, status: u16) -> Counters {
        if 200 <= status < 300 {
            Counters { class_2xx: self.class_2xx.timed(nanos), ..self }
        } else if 300 <= status < 400 {
            Counters { class_3xx: self.class_3xx.timed(nanos), ..self }
        } else if 400 <= status < 500 {
            Counters { class_4xx: self.class_4xx.timed(nanos), ..self }
        } else if 500 <= status < 600 {
            Counters { class_5xx: self.class_5xx.timed(nanos), ..self }
        } else {
            self
        }
    }

    /// After a request that matched no route.
    pub open spec fn unrouted(self) -> Counters {
        Counters { requests_no_route: bumped(self.requests_no_route), ..self }
    }

    /// After a request whose route names an unregistered upstream.
    pub open spec fn unregistered(self) -> Counters {
        Counters { requests_upstream_unknown: bumped(self.requests_upstream_unknown), ..self }
    }

    /// After a request that the upstream did not answer.
    pub open spec fn unanswered(self) -> Counters {
        Counters { requests_upstream_failed: bumped(self.requests_upstream_failed), ..self }
    }

    /// After a response with this status.
    pub open spec fn responded(self, status: u16) -> Counters {
        if 200 <= status < 300 {
            Counters { responses_2xx: bumped(self.responses_2xx), ..self }
        } else if 300 <= status < 400 {
            Counters { responses_3xx: bumped(self.responses_3xx), ..self }
        } else if 400 <= status < 500 {
            Counters { responses_4xx: bumped(self.responses_4xx), ..self }
        } else if 500 <= status < 600 {
            Counters { responses_5xx: bumped(self.responses_5xx), ..self }
        } else {
            self
        }
    }

    /// The text of the plain counters.
    pub open spec fn head_text(self) -> Seq<char> {
        "# HELP conduit_requests_total Total requests observed by the data plane.\n"@
            + "# TYPE conduit_requests_total counter\nconduit_requests_total "@ + text::decimal(
            self.requests_total as nat,
        ) + "\n# HELP conduit_requests_no_route_total Requests that did not match any route.\n"@
            + "# TYPE conduit_requests_no_route_total counter\nconduit_requests_no_route_total "@
            + text::decimal(self.requests_no_route as nat)
            + "\n# HELP conduit_requests_upstream_unknown_total Routes referencing an unregistered upstream.\n"@
            + "# TYPE conduit_requests_upstream_unknown_total counter\nconduit_requests_upstream_unknown_total "@
            + text::decimal(self.requests_upstream_unknown as nat)
            + "\n# HELP conduit_requests_upstream_failed_total Upstream forward failures.\n"@
            + "# TYPE conduit_requests_upstream_failed_total counter\nconduit_requests_upstream_failed_total "@
            + text::decimal(self.requests_upstream_failed as nat)
            + "\n# HELP conduit_responses_total Responses by status class.\n"@
            + "# TYPE conduit_responses_total counter\nconduit_responses_total{class=\"2xx\"} "@
            + text::decimal(self.responses_2xx as nat)
            + "\nconduit_responses_total{class=\"3xx\"} "@ + text::decimal(
            self.responses_3xx as nat,
        ) + "\nconduit_responses_total{class=\"4xx\"} "@ + text::decimal(self.responses_4xx as nat)
            + "\nconduit_responses_total{class=\"5xx\"} "@ + text::decimal(
            self.responses_5xx as nat,
        ) + "\n"@
            + "# HELP conduit_request_duration_seconds Wall-clock latency of proxied requests.\n"@
            + "# TYPE conduit_request_duration_seconds histogram\n"@
    }

    /// `before`, and behind it one line for each of the first `n` buckets.
    pub open spec fn with_buckets(self, before: Seq<char>, n: nat) -> Seq<char>
        decreases n,
    {
        if n == 0 {
            before
        } else {
            self.with_buckets(before, (n - 1) as nat)
                + "conduit_request_duration_seconds_bucket{le=\""@ + label(n - 1) + "\"} "@
                + text::decimal(self.buckets[n - 1] as nat) + "\n"@
        }
    }

    /// The Prometheus text of all counters. The last bucket and the count of
    /// the histogram are the number of requests.
    pub open spec fn exposition(self) -> Seq<char> {
        self.with_buckets(self.head_text(), 12)
            + "conduit_request_duration_seconds_bucket{le=\"+Inf\"} "@ + text::decimal(
            self.requests_total as nat,
        ) + "\nconduit_request_duration_seconds_count "@ + text::decimal(
            self.requests_total as nat,
        ) + "\nconduit_request_duration_seconds_sum "@ + text::point(
            self.request_duration_us_sum as nat / 1_000_000,
            self.request_duration_us_sum as nat % 1_000_000,
            6,
        ) + "\n"@
    }

    /// The Prometheus text of the histograms by status class, one behind the
    /// other.
    pub open spec fn exposition_by_class(self) -> Seq<char> {
        let head =
            "# HELP conduit_request_duration_seconds_by_class Wall-clock latency of proxied requests by status class.\n"@
            + "# TYPE conduit_request_duration_seconds_by_class histogram\n"@;
        let upto_2xx = self.class_2xx.with_class(head, "2xx"@);
        let upto_3xx = self.class_3xx.with_class(upto_2xx, "3xx"@);
        let upto_4xx = self.class_4xx.with_class(upto_3xx, "4xx"@);
        self.class_5xx.with_class(upto_4xx, "5xx"@)
    }
}

impl MetricsHandle {
    /// Whether every counter is zero.
    pub open spec fn is_zero(self) -> bool {
        self@ == Counters::zero()
    }

    /// Counters that start at zero.
    pub fn new() -> (r: MetricsHandle)
        ensures
            r.is_zero(),
    {
        MetricsHandle::default()
    }

    /// Records the start of a request.
    pub fn observe_request_start(&mut self)
        ensures
            final(self)@ == old(self)@.started(),
    {
        self.requests_total = self.requests_total.wrapping_add(1);
    }

    /// Records how long a request took: in every bucket whose bound is not
    /// below that, and in the sum.
    pub fn observe_request_duration(&mut self, elapsed: Duration)
        ensures
            final(self)@ == old(self)@.timed(elapsed@),
    {
        let ghost before = self@;
        fill(&mut self.buckets, elapsed.as_nanos());
        let us: u64 = time::saturate(elapsed.as_micros());
        self.request_duration_us_sum = self.request_duration_us_sum.wrapping_add(us);
        assert(self@ =~= before.timed(elapsed@));
    }

    /// Records how long a request took that was answered with `status`, by the
    /// class of the status. Informational responses are not counted.
    pub fn observe_class_duration(&mut self, elapsed: Duration, status: u16)
        ensures
            final(self)@ == old(self)@.timed_by_class(elapsed@, status),
    {
        match status / 100 {
            2 => self.class_2xx.observe(elapsed),
            3 => self.class_3xx.observe(elapsed),
            4 => self.class_4xx.observe(elapsed),
            5 => self.class_5xx.observe(elapsed),
            _ => {},
        }
    }

    /// Records a request that matched no route.
    pub fn observe_no_route(&mut self)
        ensures
            final(self)@ == old(self)@.unrouted(),
    {
        self.requests_no_route = self.requests_no_route.wrapping_add(1);
    }

    /// Records a request whose route names an unregistered upstream.
    pub fn observe_upstream_unknown(&mut self)
        ensures
            final(self)@ == old(self)@.unregistered(),
    {
        self.requests_upstream_unknown = self.requests_upstream_unknown.wrapping_add(1);
    }

    /// Records a request that the upstream did not answer.
    pub fn observe_upstream_failed(&mut self)
        ensures
            final(self)@ == old(self)@.unanswered(),
    {
        self.requests_upstream_failed = self.requests_upstream_failed.wrapping_add(1);
    }

    /// Records the status of a response, by its class. Informational responses
    /// are not counted.
    pub fn observe_status(&mut self, status: u16)
        ensures
            final(self)@ == old(self)@.responded(status),
    {
        match status / 100 {
            2 => {
                self.responses_2xx = self.responses_2xx.wrapping_add(1);
            },
            3 => {
                self.responses_3xx = self.responses_3xx.wrapping_add(1);
            },
            4 => {
                self.responses_4xx = self.responses_4xx.wrapping_add(1);
            },
            5 => {
                self.responses_5xx = self.responses_5xx.wrapping_add(1);
            },
            _ => {},
        }
    }

    fn push_head(&self, out: &mut String)
        requires
            old(out)@.len() == 0,
        ensures
            final(out)@ == self@.head_text(),
    {
        out.append("# HELP conduit_requests_total Total requests observed by the data plane.\n");
        assert(out@ =~= "# HELP conduit_requests_total Total requests observed by the data plane.\n"@);
        out.append("# TYPE conduit_requests_total counter\nconduit_requests_total ");
        text::push_decimal(out, self.requests_total);
        out.append(
            "\n# HELP conduit_requests_no_route_total Requests that did not match any route.\n",
        );
        out.append(
            "# TYPE conduit_requests_no_route_total counter\nconduit_requests_no_route_total ",
        );
        text::push_decimal(out, self.requests_no_route);
        out.append(
            "\n# HELP conduit_requests_upstream_unknown_total Routes referencing an unregistered upstream.\n",
        );
        out.append(
            "# TYPE conduit_requests_upstream_unknown_total counter\nconduit_requests_upstream_unknown_total ",
        );
        text::push_decimal(out, self.requests_upstream_unknown);
        out.append("\n# HELP conduit_requests_upstream_failed_total Upstream forward failures.\n");
        out.append(
            "# TYPE conduit_requests_upstream_failed_total counter\nconduit_requests_upstream_failed_total ",
        );
        text::push_decimal(out, self.requests_upstream_failed);
        out.append("\n# HELP conduit_responses_total Responses by status class.\n");
        out.append("# TYPE conduit_responses_total counter\nconduit_responses_total{class=\"2xx\"} ");
        text::push_decimal(out, self.responses_2xx);
        out.append("\nconduit_responses_total{class=\"3xx\"} ");
        text::push_decimal(out, self.responses_3xx);
        out.append("\nconduit_responses_total{class=\"4xx\"} ");
        text::push_decimal(out, self.responses_4xx);
        out.append("\nconduit_responses_total{class=\"5xx\"} ");
        text::push_decimal(out, self.responses_5xx);
        out.append("\n");
        out.append(
            "# HELP conduit_request_duration_seconds Wall-clock latency of proxied requests.\n",
        );
        out.append("# TYPE conduit_request_duration_seconds histogram\n");
    }

    /// The Prometheus text of all counters.
    pub fn render(&self) -> (r: String)
        ensures
            r@ == self@.exposition(),
    {
        let mut out = String::new();
        self.push_head(&mut out);
        let mut i: usize = 0;
        while i < BUCKETS
            invariant
                i <= BUCKETS,
                self.buckets@.len() == 12,
                out@ == self@.with_buckets(self@.head_text(), i as nat),
            decreases BUCKETS - i,
        {
            out.append("conduit_request_duration_seconds_bucket{le=\"");
            push_bound(&mut out, i);
            out.append("\"} ");
            text::push_decimal(&mut out, self.buckets[i]);
            out.append("\n");
            i += 1;
        }
        out.append("conduit_request_duration_seconds_bucket{le=\"+Inf\"} ");
        text::push_decimal(&mut out, self.requests_total);
        out.append("\nconduit_request_duration_seconds_count ");
        text::push_decimal(&mut out, self.requests_total);
        out.append("\nconduit_request_duration_seconds_sum ");
        let sum: u64 = self.request_duration_us_sum;
        text::push_point(&mut out, sum / 1_000_000, sum % 1_000_000, 6);
        out.append("\n");
        out
    }

    /// The Prometheus text of the histograms by status class.
    pub fn render_by_class(&self) -> (r: String)
        ensures
            r@ == self@.exposition_by_class(),
    {
        let mut out =
            "# HELP conduit_request_duration_seconds_by_class Wall-clock latency of proxied requests by status class.\n".to_owned();
        out.append("# TYPE conduit_request_duration_seconds_by_class histogram\n");
        self.class_2xx.push_class(&mut out, "2xx");
        self.class_3xx.push_class(&mut out, "3xx");
        self.class_4xx.push_class(&mut out, "4xx");
        self.class_5xx.push_class(&mut out, "5xx");
        out
    }
}

/// What the data plane tells the counters.
pub enum Event {
    /// A request starts.
    Started,
    /// A request took so many nanoseconds.
    Timed(nat),
    /// A request took so many nanoseconds and was answered with this status.
    TimedByClass(nat, u16),
    /// A request matched no route.
    Unrouted,
    /// A request's route names an unregistered upstream.
    Unregistered,
    /// The upstream did not answer a request.
    Unanswered,
    /// A response has this status.
    Responded(u16),
}

impl Counters {
    /// After one more event.
    pub open spec fn told(self, e: Event) -> Counters {
        match e {
            Event::Started => self.started(),
            Event::Timed(nanos) => self.timed(nanos),
            Event::TimedByClass(nanos, status) => self.timed_by_class(nanos, status),
            Event::Unrouted => self.unrouted(),
            Event::Unregistered => self.unregistered(),
            Event::Unanswered => self.unanswered(),
            Event::Responded(status) => self.responded(status),
        }
    }

    /// The durations of the requests that were answered with a status of the
    /// class `class`, its first digit.
    pub open spec fn durations(self, class: int) -> Durations {
        if class == 2 {
            self.class_2xx
        } else if class == 3 {
            self.class_3xx
        } else if class == 4 {
            self.class_4xx
        } else {
            self.class_5xx
        }
    }

    /// The number of responses with a status of the class `class`.
    pub open spec fn responses(self, class: int) -> u64 {
        if class == 2 {
            self.responses_2xx
        } else if class == 3 {
            self.responses_3xx
        } else if class == 4 {
            self.responses_4xx
        } else {
            self.responses_5xx
        }
    }
}

/// The counters after the events `events`, in order, from zero.
pub open spec fn after_events(events: Seq<Event>) -> Counters
    decreases events.len(),
{
    if events.len() == 0 {
        Counters::zero()
    } else {
        after_events(events.drop_last()).told(events.last())
    }
}

/// How many of `events` are `e`.
pub open spec fn tally(events: Seq<Event>, e: Event) -> nat
    decreases events.len(),
{
    if events.len() == 0 {
        0
    } else {
        tally(events.drop_last(), e) + if events.last() == e {
            1nat
        } else {
            0
        }
    }
}

/// Whether `status` is of the class `class`, its first digit.
pub open spec fn in_class(status: u16, class: int) -> bool {
    100 * class <= status < 100 * class + 100
}

/// How many of `events` are responses with a status of the class `class`.
pub open spec fn tally_class(events: Seq<Event>, class: int) -> nat
    decreases events.len(),
{
    if events.len() == 0 {
        0
    } else {
        tally_class(events.drop_last(), class) + match events.last() {
            Event::Responded(status) => if in_class(status, class) {
                1nat
            } else {
                0
            },
            _ => 0,
        }
    }
}

/// The durations that `events` tell of.
pub open spec fn spans(events: Seq<Event>) -> Seq<nat>
    decreases events.len(),
{
    if events.len() == 0 {
        Seq::empty()
    } else {
        let before = spans(events.drop_last());
        match events.last() {
            Event::Timed(nanos) => before.push(nanos),
            _ => before,
        }
    }
}

/// The durations that `events` tell of, of the requests that were answered with
/// a status of the class `class`.
pub open spec fn class_spans(events: Seq<Event>, class: int) -> Seq<nat>
    decreases events.len(),
{
    if events.len() == 0 {
        Seq::empty()
    } else {
        let before = class_spans(events.drop_last(), class);
        match events.last() {
            Event::TimedByClass(nanos, status) => if in_class(status, class) {
                before.push(nanos)
            } else {
                before
            },
            _ => before,
        }
    }
}

/// How many of `nanos` are not above `limit`.
pub open spec fn not_above(nanos: Seq<nat>, limit: nat) -> nat
    decreases nanos.len(),
{
    if nanos.len() == 0 {
        0
    } else {
        not_above(nanos.drop_last(), limit) + if nanos.last() <= limit {
            1nat
        } else {
            0
        }
    }
}

proof fn lemma_not_above(nanos: Seq<nat>, low: nat, high: nat)
    requires
        low <= high,
    ensures
        not_above(nanos, low) <= not_above(nanos, high) <= nanos.len(),
    decreases nanos.len(),
{
    if nanos.len() > 0 {
        lemma_not_above(nanos.drop_last(), low, high);
    }
}

/// Each counter counts what it is named for, in whatever order the events come,
/// and no event touches the counter of another. It does so as far as it can
/// count.
pub proof fn counters_count_events(events: Seq<Event>, class: int)
    requires
        2 <= class <= 5,
    ensures
        tally(events, Event::Started) <= u64::MAX ==> after_events(events).requests_total == tally(
            events,
            Event::Started,
        ),
        tally(events, Event::Unrouted) <= u64::MAX ==> after_events(events).requests_no_route
            == tally(events, Event::Unrouted),
        tally(events, Event::Unregistered) <= u64::MAX ==> after_events(
            events,
        ).requests_upstream_unknown == tally(events, Event::Unregistered),
        tally(events, Event::Unanswered) <= u64::MAX ==> after_events(
            events,
        ).requests_upstream_failed == tally(events, Event::Unanswered),
        tally_class(events, class) <= u64::MAX ==> after_events(events).responses(class)
            == tally_class(events, class),
        class_spans(events, class).len() <= u64::MAX ==> after_events(events).durations(class).count
            == class_spans(events, class).len(),
    decreases events.len(),
{
    if events.len() > 0 {
        counters_count_events(events.drop_last(), class);
    }
}

/// A bucket counts exactly the requests that took no longer than its bound,
/// whatever else the counters were told in between, as far as it can count.
pub proof fn buckets_count_requests(events: Seq<Event>, i: int)
    requires
        0 <= i < 12,
    ensures
        after_events(events).buckets.len() == 12,
        not_above(spans(events), bound(i)) <= u64::MAX ==> after_events(events).buckets[i]
            == not_above(spans(events), bound(i)),
    decreases events.len(),
{
    if events.len() > 0 {
        let before = events.drop_last();
        buckets_count_requests(before, i);
        if let Event::Timed(nanos) = events.last() {
            assert(spans(before).push(nanos).drop_last() =~= spans(before));
        }
    }
}

/// After `n` requests have started and no more than `n` have been timed, in any
/// order and with anything else in between, the buckets are cumulative: one with
/// a higher bound counts at least as many requests, none counts more than `n`,
/// and `n` is what the text gives as the last bucket and as the count. The
/// counters start again behind their largest value, so `n` is no larger.
pub proof fn histogram_is_cumulative(events: Seq<Event>, n: nat, i: int, j: int)
    requires
        n <= u64::MAX,
        tally(events, Event::Started) == n,
        spans(events).len() <= n,
        0 <= i <= j < 12,
    ensures
        after_events(events).buckets[i] == not_above(spans(events), bound(i)),
        after_events(events).buckets[i] <= after_events(events).buckets[j] <= n,
        after_events(events).requests_total == n,
        ({
            let c = after_events(events);
            c.exposition() == c.with_buckets(c.head_text(), 12)
                + "conduit_request_duration_seconds_bucket{le=\"+Inf\"} "@ + text::decimal(n)
                + "\nconduit_request_duration_seconds_count "@ + text::decimal(n)
                + "\nconduit_request_duration_seconds_sum "@ + text::point(
                c.request_duration_us_sum as nat / 1_000_000,
                c.request_duration_us_sum as nat % 1_000_000,
                6,
            ) + "\n"@
        }),
{
    lemma_not_above(spans(events), bound(i), bound(j));
    lemma_not_above(spans(events), bound(j), bound(j));
    buckets_count_requests(events, i);
    buckets_count_requests(events, j);
    counters_count_events(events, 2);
}

/// The same of the histogram of a status class, whose count is its own: a bucket
/// counts the requests of the class that took no longer than its bound, one with
/// a higher bound at least as many, and none more than there were.
pub proof fn class_buckets_count_requests(events: Seq<Event>, class: int, i: int, j: int)
    requires
        class_spans(events, class).len() <= u64::MAX,
        2 <= class <= 5,
        0 <= i <= j < 12,
    ensures
        after_events(events).durations(class).buckets[i] == not_above(
            class_spans(events, class),
            bound(i),
        ),
        after_events(events).durations(class).buckets[i] <= after_events(events).durations(
            class,
        ).buckets[j] <= after_events(events).durations(class).count,
{
    lemma_not_above(class_spans(events, class), bound(i), bound(j));
    lemma_not_above(class_spans(events, class), bound(j), bound(j));
    lemma_class_bucket(events, class, i);
    lemma_class_bucket(events, class, j);
    counters_count_events(events, class);
}

proof fn lemma_class_bucket(events: Seq<Event>, class: int, i: int)
    requires
        2 <= class <= 5,
        0 <= i < 12,
    ensures
        after_events(events).durations(class).buckets.len() == 12,
        not_above(class_spans(events, class), bound(i)) <= u64::MAX ==> after_events(
            events,
        ).durations(class).buckets[i] == not_above(class_spans(events, class), bound(i)),
    decreases events.len(),
{
    if events.len() > 0 {
        let before = events.drop_last();
        lemma_class_bucket(before, class, i);
        if let Event::TimedByClass(nanos, status) = events.last() {
            assert(class_spans(before, class).push(nanos).drop_last() =~= class_spans(
                before,
                class,
            ));
        }
    }
}

proof fn lemma_buckets_hold(c: Counters, before: Seq<char>, n: nat, piece: Seq<char>)
    requires
        text::holds(before, piece),
    ensures
        text::holds(c.with_buckets(before, n), piece),
    decreases n,
{
    if n > 0 {
        lemma_buckets_hold(c, before, (n - 1) as nat, piece);
        let rest = c.with_buckets(before, (n - 1) as nat);
        let line = "conduit_request_duration_seconds_bucket{le=\""@ + label(n - 1) + "\"} "@
            + text::decimal(c.buckets[n - 1] as nat) + "\n"@;
        text::held_with_more_behind(rest, piece, line);
        assert(c.with_buckets(before, n) =~= rest + line);
    }
}

proof fn lemma_exposition_holds(c: Counters, piece: Seq<char>)
    requires
        text::holds(c.head_text(), piece),
    ensures
        text::holds(c.exposition(), piece),
{
    lemma_buckets_hold(c, c.head_text(), 12, piece);
    let rest = c.with_buckets(c.head_text(), 12);
    let end = "conduit_request_duration_seconds_bucket{le=\"+Inf\"} "@ + text::decimal(
        c.requests_total as nat,
    ) + "\nconduit_request_duration_seconds_count "@ + text::decimal(c.requests_total as nat)
        + "\nconduit_request_duration_seconds_sum "@ + text::point(
        c.request_duration_us_sum as nat / 1_000_000,
        c.request_duration_us_sum as nat % 1_000_000,
        6,
    ) + "\n"@;
    text::held_with_more_behind(rest, piece, end);
    assert(c.exposition() =~= rest + end);
}

proof fn lemma_grouped(a: Seq<char>, b: Seq<char>, c: Seq<char>)
    ensures
        a + b + c == a + (b + c),
{
    assert(a + b + c =~= a + (b + c));
}

proof fn lemma_moved(a: Seq<char>, b: Seq<char>, c: Seq<char>, d: Seq<char>)
    ensures
        (a + b) + c + d == a + (b + c + d),
{
    assert((a + b) + c + d =~= a + (b + c + d));
}

/// The page tells each counter behind its name, and the responses of each class
/// behind that class.
pub proof fn page_tells_each_counter(c: Counters)
    ensures
        text::holds(
            c.exposition(),
            "# TYPE conduit_requests_total counter\nconduit_requests_total "@
                + text::decimal(c.requests_total as nat),
        ),
        text::holds(
            c.exposition(),
            "# TYPE conduit_requests_no_route_total counter\nconduit_requests_no_route_total "@
                + text::decimal(c.requests_no_route as nat),
        ),
        text::holds(
            c.exposition(),
            "# TYPE conduit_requests_upstream_unknown_total counter\nconduit_requests_upstream_unknown_total "@
                + text::decimal(c.requests_upstream_unknown as nat),
        ),
        text::holds(
            c.exposition(),
            "# TYPE conduit_requests_upstream_failed_total counter\nconduit_requests_upstream_failed_total "@
                + text::decimal(c.requests_upstream_failed as nat),
        ),
        text::holds(
            c.exposition(),
            "# TYPE conduit_responses_total counter\nconduit_responses_total{class=\"2xx\"} "@
                + text::decimal(c.responses_2xx as nat),
        ),
        text::holds(
            c.exposition(),
            "\nconduit_responses_total{class=\"3xx\"} "@
                + text::decimal(c.responses_3xx as nat),
        ),
        text::holds(
            c.exposition(),
            "\nconduit_responses_total{class=\"4xx\"} "@
                + text::decimal(c.responses_4xx as nat),
        ),
        text::holds(
            c.exposition(),
            "\nconduit_responses_total{class=\"5xx\"} "@
                + text::decimal(c.responses_5xx as nat),
        ),
{
    let total =
        "# TYPE conduit_requests_total counter\nconduit_requests_total "@
        + text::decimal(c.requests_total as nat);
    let no_route =
        "# TYPE conduit_requests_no_route_total counter\nconduit_requests_no_route_total "@
        + text::decimal(c.requests_no_route as nat);
    let unknown =
        "# TYPE conduit_requests_upstream_unknown_total counter\nconduit_requests_upstream_unknown_total "@
        + text::decimal(c.requests_upstream_unknown as nat);
    let failed =
        "# TYPE conduit_requests_upstream_failed_total counter\nconduit_requests_upstream_failed_total "@
        + text::decimal(c.requests_upstream_failed as nat);
    let r2 =
        "# TYPE conduit_responses_total counter\nconduit_responses_total{class=\"2xx\"} "@
        + text::decimal(c.responses_2xx as nat);
    let r3 = "\nconduit_responses_total{class=\"3xx\"} "@ + text::decimal(c.responses_3xx as nat);
    let r4 = "\nconduit_responses_total{class=\"4xx\"} "@ + text::decimal(c.responses_4xx as nat);
    let r5 = "\nconduit_responses_total{class=\"5xx\"} "@ + text::decimal(c.responses_5xx as nat);
    // What stands before each of them, and what stands behind it.
    let before_total = "# HELP conduit_requests_total Total requests observed by the data plane.\n"@;
    let before_no_route = before_total + total
        + "\n# HELP conduit_requests_no_route_total Requests that did not match any route.\n"@;
    let before_unknown = before_no_route + no_route
        + "\n# HELP conduit_requests_upstream_unknown_total Routes referencing an unregistered upstream.\n"@;
    let before_failed = before_unknown + unknown
        + "\n# HELP conduit_requests_upstream_failed_total Upstream forward failures.\n"@;
    let before_r2 = before_failed + failed
        + "\n# HELP conduit_responses_total Responses by status class.\n"@;
    let before_r3 = before_r2 + r2;
    let before_r4 = before_r3 + r3;
    let before_r5 = before_r4 + r4;
    let h = "# HELP conduit_request_duration_seconds Wall-clock latency of proxied requests.\n"@;
    let t = "# TYPE conduit_request_duration_seconds histogram\n"@;
    let behind_r5 = "\n"@ + h + t;
    let behind_r4 = r5 + behind_r5;
    let behind_r3 = r4 + behind_r4;
    let behind_r2 = r3 + behind_r3;
    let behind_failed =
        "\n# HELP conduit_responses_total Responses by status class.\n"@
        + r2 + behind_r2;
    let behind_unknown =
        "\n# HELP conduit_requests_upstream_failed_total Upstream forward failures.\n"@
        + failed + behind_failed;
    let behind_no_route =
        "\n# HELP conduit_requests_upstream_unknown_total Routes referencing an unregistered upstream.\n"@
        + unknown + behind_unknown;
    let behind_total =
        "\n# HELP conduit_requests_no_route_total Requests that did not match any route.\n"@
        + no_route + behind_no_route;
    lemma_grouped(
        before_total,
        "# TYPE conduit_requests_total counter\nconduit_requests_total "@,
        text::decimal(c.requests_total as nat),
    );
    lemma_grouped(
        before_no_route,
        "# TYPE conduit_requests_no_route_total counter\nconduit_requests_no_route_total "@,
        text::decimal(c.requests_no_route as nat),
    );
    lemma_grouped(
        before_unknown,
        "# TYPE conduit_requests_upstream_unknown_total counter\nconduit_requests_upstream_unknown_total "@,
        text::decimal(c.requests_upstream_unknown as nat),
    );
    lemma_grouped(
        before_failed,
        "# TYPE conduit_requests_upstream_failed_total counter\nconduit_requests_upstream_failed_total "@,
        text::decimal(c.requests_upstream_failed as nat),
    );
    lemma_grouped(
        before_r2,
        "# TYPE conduit_responses_total counter\nconduit_responses_total{class=\"2xx\"} "@,
        text::decimal(c.responses_2xx as nat),
    );
    lemma_grouped(
        before_r3,
        "\nconduit_responses_total{class=\"3xx\"} "@,
        text::decimal(c.responses_3xx as nat),
    );
    lemma_grouped(
        before_r4,
        "\nconduit_responses_total{class=\"4xx\"} "@,
        text::decimal(c.responses_4xx as nat),
    );
    lemma_grouped(
        before_r5,
        "\nconduit_responses_total{class=\"5xx\"} "@,
        text::decimal(c.responses_5xx as nat),
    );
    lemma_grouped(before_r5 + r5 + "\n"@, h, t);
    lemma_grouped(before_r5 + r5, "\n"@, h + t);
    lemma_grouped("\n"@, h, t);
    assert(c.head_text() == before_r5 + r5 + behind_r5);
    lemma_grouped(before_r4 + r4, r5, behind_r5);
    lemma_grouped(before_r3 + r3, r4, behind_r4);
    lemma_grouped(before_r2 + r2, r3, behind_r3);
    lemma_moved(
        before_failed + failed,
        "\n# HELP conduit_responses_total Responses by status class.\n"@,
        r2,
        behind_r2,
    );
    lemma_moved(
        before_unknown + unknown,
        "\n# HELP conduit_requests_upstream_failed_total Upstream forward failures.\n"@,
        failed,
        behind_failed,
    );
    lemma_moved(
        before_no_route + no_route,
        "\n# HELP conduit_requests_upstream_unknown_total Routes referencing an unregistered upstream.\n"@,
        unknown,
        behind_unknown,
    );
    lemma_moved(
        before_total + total,
        "\n# HELP conduit_requests_no_route_total Requests that did not match any route.\n"@,
        no_route,
        behind_no_route,
    );
    assert(text::holds(c.head_text(), total));
    lemma_exposition_holds(c, total);
    assert(text::holds(c.head_text(), no_route));
    lemma_exposition_holds(c, no_route);
    assert(text::holds(c.head_text(), unknown));
    lemma_exposition_holds(c, unknown);
    assert(text::holds(c.head_text(), failed));
    lemma_exposition_holds(c, failed);
    assert(text::holds(c.head_text(), r2));
    lemma_exposition_holds(c, r2);
    assert(text::holds(c.head_text(), r3));
    lemma_exposition_holds(c, r3);
    assert(text::holds(c.head_text(), r4));
    lemma_exposition_holds(c, r4);
    assert(text::holds(c.head_text(), r5));
    lemma_exposition_holds(c, r5);
}

/// The page has a line for each bucket, which tells its bound and how many requests
/// took no longer; and all requests, with the seconds that they took, at the end.
pub proof fn page_tells_each_bucket(c: Counters, i: int)
    requires
        0 <= i < 12,
    ensures
        text::holds(
            c.exposition(),
            "conduit_request_duration_seconds_bucket{le=\""@ + label(i) + "\"} "@ + text::decimal(
                c.buckets[i] as nat,
            ) + "\n"@,
        ),
        text::holds(
            c.exposition(),
            "\nconduit_request_duration_seconds_count "@ + text::decimal(c.requests_total as nat),
        ),
{
    let piece = "conduit_request_duration_seconds_bucket{le=\""@ + label(i) + "\"} "@
        + text::decimal(c.buckets[i] as nat) + "\n"@;
    lemma_bucket_is_held(c, c.head_text(), 12, i);
    let rest = c.with_buckets(c.head_text(), 12);
    let start = "conduit_request_duration_seconds_bucket{le=\"+Inf\"} "@ + text::decimal(
        c.requests_total as nat,
    );
    let count = "\nconduit_request_duration_seconds_count "@ + text::decimal(
        c.requests_total as nat,
    );
    let sum = "\nconduit_request_duration_seconds_sum "@ + text::point(
        c.request_duration_us_sum as nat / 1_000_000,
        c.request_duration_us_sum as nat % 1_000_000,
        6,
    ) + "\n"@;
    text::held_with_more_behind(rest, piece, start + count + sum);
    assert(c.exposition() =~= rest + (start + count + sum));
    assert(c.exposition() =~= (rest + start) + count + sum);
}

proof fn lemma_bucket_is_held(c: Counters, before: Seq<char>, n: nat, i: int)
    requires
        0 <= i < n,
    ensures
        text::holds(
            c.with_buckets(before, n),
            "conduit_request_duration_seconds_bucket{le=\""@ + label(i) + "\"} "@ + text::decimal(
                c.buckets[i] as nat,
            ) + "\n"@,
        ),
    decreases n,
{
    let rest = c.with_buckets(before, (n - 1) as nat);
    let line = "conduit_request_duration_seconds_bucket{le=\""@ + label(n - 1) + "\"} "@
        + text::decimal(c.buckets[n - 1] as nat) + "\n"@;
    assert(c.with_buckets(before, n) =~= rest + line);
    if i == n - 1 {
        assert(c.with_buckets(before, n) =~= rest + line + Seq::empty());
    } else {
        lemma_bucket_is_held(c, before, (n - 1) as nat, i);
        text::held_with_more_behind(
            rest,
            "conduit_request_duration_seconds_bucket{le=\""@ + label(i) + "\"} "@ + text::decimal(
                c.buckets[i] as nat,
            ) + "\n"@,
            line,
        );
    }
}

/// The bounds of the buckets grow, and none is zero: a request that is in one bucket
/// is in every later one.
pub proof fn bounds_grow(i: int, j: int)
    requires
        0 <= i < j < 12,
    ensures
        0 < bound(i) < bound(j),
        bound(0) == 1_000_000,
        bound(11) == 10_000_000_000,
{
}

/// The line of the bucket at `i` in the histogram of the class `class`.
spec fn class_line(d: Durations, class: Seq<char>, i: int) -> Seq<char> {
    "conduit_request_duration_seconds_by_class_bucket{class=\""@ + class + "\",le=\""@ + label(i)
        + "\"} "@ + text::decimal(d.buckets[i] as nat) + "\n"@
}

/// What stands behind the buckets in the histogram of the class `class`.
spec fn class_end(d: Durations, class: Seq<char>) -> Seq<char> {
    "conduit_request_duration_seconds_by_class_bucket{class=\""@ + class + "\",le=\"+Inf\"} "@
        + text::decimal(d.count as nat)
        + "\nconduit_request_duration_seconds_by_class_count{class=\""@ + class + "\"} "@
        + text::decimal(d.count as nat)
        + "\nconduit_request_duration_seconds_by_class_sum{class=\""@ + class + "\"} "@
        + text::point(d.us_sum as nat / 1_000_000, d.us_sum as nat % 1_000_000, 6) + "\n"@
}

proof fn lemma_class_buckets(
    d: Durations,
    before: Seq<char>,
    class: Seq<char>,
    n: nat,
    piece: Seq<char>,
    i: int,
)
    ensures
        text::holds(before, piece) ==> text::holds(d.with_buckets(before, class, n), piece),
        0 <= i < n ==> text::holds(d.with_buckets(before, class, n), class_line(d, class, i)),
    decreases n,
{
    if n > 0 {
        lemma_class_buckets(d, before, class, (n - 1) as nat, piece, i);
        let rest = d.with_buckets(before, class, (n - 1) as nat);
        let line = class_line(d, class, n - 1);
        let all = d.with_buckets(before, class, n);
        assert(all =~= rest + line);
        if text::holds(before, piece) {
            text::held_with_more_behind(rest, piece, line);
        }
        if i == n - 1 {
            assert(all =~= rest + line + Seq::empty());
        } else if 0 <= i < n {
            text::held_with_more_behind(rest, class_line(d, class, i), line);
        }
    }
}

proof fn lemma_class(
    d: Durations,
    before: Seq<char>,
    class: Seq<char>,
    piece: Seq<char>,
    i: int,
)
    requires
        0 <= i < 12,
    ensures
        text::holds(before, piece) ==> text::holds(d.with_class(before, class), piece),
        text::holds(d.with_class(before, class), class_line(d, class, i)),
        text::holds(d.with_class(before, class), class_end(d, class)),
{
    lemma_class_buckets(d, before, class, 12, piece, i);
    let rest = d.with_buckets(before, class, 12);
    let end = class_end(d, class);
    let all = d.with_class(before, class);
    assert(all =~= rest + end);
    assert(all =~= rest + end + Seq::empty());
    if text::holds(before, piece) {
        text::held_with_more_behind(rest, piece, end);
    }
    text::held_with_more_behind(rest, class_line(d, class, i), end);
}

/// The page by class has the histogram of each class under the name of that class:
/// each bucket with its bound, and at the end the number of responses and the seconds
/// that they took.
pub proof fn page_by_class_tells_each_class(c: Counters, class: int, i: int)
    requires
        2 <= class <= 5,
        0 <= i < 12,
    ensures
        ({
            let d = c.durations(class);
            let name = if class == 2 {
                "2xx"@
            } else if class == 3 {
                "3xx"@
            } else if class == 4 {
                "4xx"@
            } else {
                "5xx"@
            };
            &&& text::holds(
                c.exposition_by_class(),
                "conduit_request_duration_seconds_by_class_bucket{class=\""@ + name + "\",le=\""@
                    + label(i) + "\"} "@ + text::decimal(d.buckets[i] as nat) + "\n"@,
            )
            &&& text::holds(
                c.exposition_by_class(),
                "conduit_request_duration_seconds_by_class_bucket{class=\""@ + name
                    + "\",le=\"+Inf\"} "@ + text::decimal(d.count as nat)
                    + "\nconduit_request_duration_seconds_by_class_count{class=\""@ + name
                    + "\"} "@ + text::decimal(d.count as nat)
                    + "\nconduit_request_duration_seconds_by_class_sum{class=\""@ + name
                    + "\"} "@ + text::point(
                    d.us_sum as nat / 1_000_000,
                    d.us_sum as nat % 1_000_000,
                    6,
                ) + "\n"@,
            )
        }),
{
    let head =
        "# HELP conduit_request_duration_seconds_by_class Wall-clock latency of proxied requests by status class.\n"@
        + "# TYPE conduit_request_duration_seconds_by_class histogram\n"@;
    let upto_2xx = c.class_2xx.with_class(head, "2xx"@);
    let upto_3xx = c.class_3xx.with_class(upto_2xx, "3xx"@);
    let upto_4xx = c.class_4xx.with_class(upto_3xx, "4xx"@);
    let d = c.durations(class);
    let name = if class == 2 {
        "2xx"@
    } else if class == 3 {
        "3xx"@
    } else if class == 4 {
        "4xx"@
    } else {
        "5xx"@
    };
    let line = class_line(d, name, i);
    let end = class_end(d, name);
    lemma_class(c.class_2xx, head, "2xx"@, line, i);
    lemma_class(c.class_3xx, upto_2xx, "3xx"@, line, i);
    lemma_class(c.class_3xx, upto_2xx, "3xx"@, end, i);
    lemma_class(c.class_4xx, upto_3xx, "4xx"@, line, i);
    lemma_class(c.class_4xx, upto_3xx, "4xx"@, end, i);
    lemma_class(c.class_5xx, upto_4xx, "5xx"@, line, i);
    lemma_class(c.class_5xx, upto_4xx, "5xx"@, end, i);
}

/// The whole microseconds of each of `nanos`, added up.
pub open spec fn micros(nanos: Seq<nat>) -> nat
    decreases nanos.len(),
{
    if nanos.len() == 0 {
        0
    } else {
        micros(nanos.drop_last()) + nanos.last() / 1_000
    }
}

/// The sum of the durations is that of all requests that were timed, and that of a
/// class is of those that were answered with a status of the class, each in whole
/// microseconds, as far as it can count.
pub proof fn sums_add_up_the_durations(events: Seq<Event>, class: int)
    requires
        2 <= class <= 5,
    ensures
        micros(spans(events)) <= u64::MAX ==> after_events(events).request_duration_us_sum
            == micros(spans(events)),
        micros(class_spans(events, class)) <= u64::MAX ==> after_events(events).durations(
            class,
        ).us_sum == micros(class_spans(events, class)),
    decreases events.len(),
{
    if events.len() > 0 {
        let before = events.drop_last();
        sums_add_up_the_durations(before, class);
        match events.last() {
            Event::Timed(nanos) => {
                assert(spans(before).push(nanos).drop_last() =~= spans(before));
            },
            Event::TimedByClass(nanos, status) => {
                let rest = class_spans(before, class);
                assert(rest.push(nanos).drop_last() =~= rest);
            },
            _ => {},
        }
    }
}

} // verus!

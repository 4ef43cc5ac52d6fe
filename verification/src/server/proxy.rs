//! One proxied request: what the client gets, and what is counted.
use vstd::prelude::*;

use crate::control::metrics;
use crate::control::metrics::{Counters, MetricsHandle};
use crate::lifecycle::table;
use crate::lifecycle::table::{Dispatch, DispatchError, Plan};
use crate::proto::head::Field;
use crate::time::Duration;
use crate::upstream::forward::ForwardError;

verus! {

/// Content type of an answer that the proxy gives itself.
pub const ERROR_CONTENT_TYPE: &'static str = "text/plain";

/// An answer that the proxy gives itself.
#[derive(Debug, Clone, Copy)]
pub struct ErrorReply {
    /// Status code.
    pub status: u16,
    /// Value of the `content-type` header.
    pub content_type: &'static str,
    /// The body.
    pub body: &'static str,
}

/// What came of sending a request to its upstream.
#[derive(Debug)]
pub enum Sent {
    /// The upstream answered with this status.
    Answered(u16),
    /// The upstream did not answer.
    Failed(ForwardError),
    /// The time that the route allows was over first.
    TimedOut,
}

/// What a request comes to that was sent with this outcome, on a route that
/// allows it `total`.
pub open spec fn outcome_of(sent: Sent, total: Duration) -> Result<u16, DispatchError> {
    match sent {
        Sent::Answered(status) => Ok(status),
        Sent::Failed(e) => Err(DispatchError::Upstream(e)),
        Sent::TimedOut => Err(DispatchError::Timeout(total)),
    }
}

/// What a request comes to that was sent with this outcome, on a route that
/// allows it `total`.
pub fn conclude(sent: Sent, total: Duration) -> (r: Result<u16, DispatchError>)
    ensures
        r == outcome_of(sent, total),
{
    match sent {
        Sent::Answered(status) => Ok(status),
        Sent::Failed(e) => Err(DispatchError::Upstream(e)),
        Sent::TimedOut => Err(DispatchError::Timeout(total)),
    }
}

/// The status that the client sees for `result`: that of the upstream, or one
/// that says what went wrong.
pub open spec fn status_of(result: Result<u16, DispatchError>) -> u16 {
    match result {
        Ok(status) => status,
        Err(DispatchError::NoRoute) => 404,
        Err(DispatchError::UpstreamNotRegistered { .. }) => 500,
        Err(DispatchError::Upstream(ForwardError::BreakerOpen)) => 503,
        Err(DispatchError::Upstream(_)) => 502,
        Err(DispatchError::Timeout(_)) => 504,
    }
}

/// The body that the client sees for an error.
pub open spec fn body_of(e: DispatchError) -> Seq<char> {
    match e {
        DispatchError::NoRoute => "conduit: no route matched\n"@,
        DispatchError::UpstreamNotRegistered { .. } =>
            "conduit: route references unknown upstream\n"@,
        DispatchError::Upstream(ForwardError::BreakerOpen) => "conduit: upstream breaker open\n"@,
        DispatchError::Upstream(_) => "conduit: upstream unavailable\n"@,
        DispatchError::Timeout(_) => "conduit: upstream timed out\n"@,
    }
}

/// The counters once a request that took `nanos` came to `result`.
pub open spec fn settled(c: Counters, result: Result<u16, DispatchError>, nanos: nat) -> Counters {
    let c = c.timed(nanos).timed_by_class(nanos, status_of(result));
    let c = match result {
        Ok(_) => c,
        Err(DispatchError::NoRoute) => c.unrouted(),
        Err(DispatchError::UpstreamNotRegistered { .. }) => c.unregistered(),
        Err(DispatchError::Upstream(_)) => c.unanswered(),
        Err(DispatchError::Timeout(_)) => c.unanswered(),
    };
    c.responded(status_of(result))
}

/// The answer with this status and body.
pub fn error_response(status: u16, body: &'static str) -> (r: ErrorReply)
    ensures
        r.status == status,
        r.content_type@ == "text/plain"@,
        r.body@ == body@,
{
    ErrorReply { status, content_type: ERROR_CONTENT_TYPE, body }
}

/// The answer to a request that came to `result`: `None` where the upstream's
/// response goes through, and the proxy's own answer otherwise.
pub fn answer(result: &Result<u16, DispatchError>) -> (r: Option<ErrorReply>)
    ensures
        match *result {
            Ok(_) => r is None,
            Err(e) => r matches Some(t) && t.status == status_of(*result) && t.body@ == body_of(e)
                && t.content_type@ == "text/plain"@,
        },
{
    match result {
        Ok(_) => None,
        Err(DispatchError::NoRoute) => Some(error_response(404, "conduit: no route matched\n")),
        Err(DispatchError::UpstreamNotRegistered { .. }) => Some(
            error_response(500, "conduit: route references unknown upstream\n"),
        ),
        Err(DispatchError::Upstream(ForwardError::BreakerOpen)) => Some(
            error_response(503, "conduit: upstream breaker open\n"),
        ),
        Err(DispatchError::Upstream(_)) => Some(
            error_response(502, "conduit: upstream unavailable\n"),
        ),
        Err(DispatchError::Timeout(_)) => Some(
            error_response(504, "conduit: upstream timed out\n"),
        ),
    }
}

/// The status that the client sees for `result`.
pub fn surfaced(result: &Result<u16, DispatchError>) -> (r: u16)
    ensures
        r == status_of(*result),
{
    match result {
        Ok(status) => *status,
        Err(DispatchError::NoRoute) => 404,
        Err(DispatchError::UpstreamNotRegistered { .. }) => 500,
        Err(DispatchError::Upstream(ForwardError::BreakerOpen)) => 503,
        Err(DispatchError::Upstream(_)) => 502,
        Err(DispatchError::Timeout(_)) => 504,
    }
}

/// Counts a request that came to `result` after `elapsed`, and gives the answer
/// to it. The start of the request was counted before.
pub fn finish(
    metrics: &mut MetricsHandle,
    result: &Result<u16, DispatchError>,
    elapsed: Duration,
) -> (r: Option<ErrorReply>)
    ensures
        final(metrics)@ == settled(old(metrics)@, *result, elapsed@),
        match *result {
            Ok(_) => r is None,
            Err(e) => r matches Some(t) && t.status == status_of(*result) && t.body@ == body_of(e)
                && t.content_type@ == "text/plain"@,
        },
{
    let status: u16 = surfaced(result);
    metrics.observe_request_duration(elapsed);
    metrics.observe_class_duration(elapsed, status);
    match result {
        Ok(_) => {},
        Err(DispatchError::NoRoute) => metrics.observe_no_route(),
        Err(DispatchError::UpstreamNotRegistered { .. }) => metrics.observe_upstream_unknown(),
        Err(DispatchError::Upstream(_)) => metrics.observe_upstream_failed(),
        Err(DispatchError::Timeout(_)) => metrics.observe_upstream_failed(),
    }
    metrics.observe_status(status);
    answer(result)
}

/// What a request comes to for which `planned` was made and which was sent with
/// the outcome `sent`. Without a plan nothing is sent; a plan whose upstream
/// nothing can be sent to, which `None` says, names one that is not registered.
pub open spec fn handled(planned: Result<Plan, DispatchError>, sent: Option<Sent>) -> Result<
    u16,
    DispatchError,
> {
    match planned {
        Err(e) => Err(e),
        Ok(plan) => match sent {
            Some(s) => outcome_of(s, plan.total_timeout),
            None => Err(DispatchError::UpstreamNotRegistered { name: plan.name }),
        },
    }
}

/// What a request comes to for which `planned` was made and which was sent with
/// the outcome `sent`; `None` where nothing was sent.
pub fn handle(planned: Result<Plan, DispatchError>, sent: Option<Sent>) -> (r: Result<
    u16,
    DispatchError,
>)
    ensures
        r == handled(planned, sent),
{
    match planned {
        Err(e) => Err(e),
        Ok(plan) => match sent {
            Some(s) => conclude(s, plan.total_timeout),
            None => Err(DispatchError::UpstreamNotRegistered { name: plan.name }),
        },
    }
}

/// How a request is handled, from its route to its result. Where no route takes
/// it, it comes to that; where the first route that does names an upstream that
/// is not registered, to that, with the name; and nothing is sent. Otherwise it
/// goes to the upstream of that name, with its backends and breakers, under the
/// rules of the route or, where it has none, of the upstream, and comes to what
/// forwarding it comes to, or to a timeout where the time of the route is over
/// first.
pub proof fn requests_are_handled_by_their_route(
    d: Dispatch,
    host: Option<&str>,
    fields: Seq<Field>,
    path: Seq<char>,
    planned: Result<Plan, DispatchError>,
    sent: Option<Sent>,
)
    requires
        d.planned(host, fields, path, planned),
    ensures
        match table::first_match(d.routes(), host, fields, path, 0) {
            None => planned is Err && handled(planned, sent) == Err::<u16, DispatchError>(
                DispatchError::NoRoute,
            ),
            Some(i) => {
                let route = d.routes()[i];
                if !d.table().contains_key(route.upstream@) {
                    &&& planned is Err
                    &&& handled(planned, sent) == Err::<u16, DispatchError>(
                        DispatchError::UpstreamNotRegistered { name: route.upstream },
                    )
                } else {
                    let up = d.table()[route.upstream@];
                    &&& planned matches Ok(p)
                    &&& p.upstream.shared() == up.shared()
                    &&& p.upstream.addr_list() == up.addr_list()
                    &&& p.upstream.timeout() == up.timeout()
                    &&& p.upstream.material() == up.material()
                    &&& table::same_policy(p.retry, table::rules_in_force(route, up))
                    &&& route.retry is None ==> table::same_policy(p.retry, up.retry_policy())
                    &&& sent matches Some(s) ==> handled(planned, sent) == match s {
                        Sent::Answered(status) => Ok::<u16, DispatchError>(status),
                        Sent::Failed(e) => Err(DispatchError::Upstream(e)),
                        Sent::TimedOut => Err(DispatchError::Timeout(route.total_timeout)),
                    }
                }
            },
        },
{
}

/// A request that fails is always answered with an error status, and that
/// status is the one that is counted: 4xx where no route matches, 5xx where the
/// fault lies behind the proxy.
pub proof fn failures_get_an_error_status(e: DispatchError)
    ensures
        e is NoRoute ==> status_of(Err(e)) == 404,
        !(e is NoRoute) ==> 500 <= status_of(Err(e)) < 600,
{
}

/// A response goes through with the status that the upstream gave it; a request
/// that is not answered comes back as 503 where every backend is barred, as 504
/// where its time is over, and as 502 otherwise.
pub proof fn sent_requests_are_answered(sent: Sent, total: Duration)
    ensures
        status_of(outcome_of(sent, total)) == match sent {
            Sent::Answered(status) => status,
            Sent::Failed(ForwardError::BreakerOpen) => 503,
            Sent::Failed(_) => 502,
            Sent::TimedOut => 504,
        },
{
}

/// Two failures look the same to the client only where they are answered with
/// the same status.
pub proof fn equal_status_means_equal_body(a: DispatchError, b: DispatchError)
    requires
        status_of(Err(a)) == status_of(Err(b)),
    ensures
        body_of(a) == body_of(b),
{
}

/// Whether each histogram of a status class counts the responses of that class.
pub open spec fn classes_agree(c: Counters) -> bool {
    &&& c.class_2xx.count == c.responses_2xx
    &&& c.class_3xx.count == c.responses_3xx
    &&& c.class_4xx.count == c.responses_4xx
    &&& c.class_5xx.count == c.responses_5xx
}

/// The histograms by status class and the counters of responses agree at the
/// start, and every request keeps it so.
pub proof fn classes_stay_in_step(c: Counters, result: Result<u16, DispatchError>, nanos: nat)
    ensures
        classes_agree(Counters::zero()),
        classes_agree(c) ==> classes_agree(c.started()),
        classes_agree(c) ==> classes_agree(settled(c, result, nanos)),
{
}

/// Each request is counted in exactly one class of responses, or in none where
/// its status lies outside of them, and the counter of requests is not touched
/// once more.
pub proof fn one_response_per_request(c: Counters, result: Result<u16, DispatchError>, nanos: nat)
    ensures
        settled(c, result, nanos).requests_total == c.requests_total,
        ({
            let d = settled(c, result, nanos);
            let s = status_of(result);
            &&& d.responses_2xx != c.responses_2xx <==> 200 <= s < 300
            &&& d.responses_3xx != c.responses_3xx <==> 300 <= s < 400
            &&& d.responses_4xx != c.responses_4xx <==> 400 <= s < 500
            &&& d.responses_5xx != c.responses_5xx <==> 500 <= s < 600
        }),
{
}

/// What a request is counted as once it is through: its duration, in all and by the
/// class of its status; and of the failures exactly the one that it came to.
pub proof fn request_is_counted_as_what_it_came_to(
    c: Counters,
    result: Result<u16, DispatchError>,
    nanos: nat,
    i: int,
)
    requires
        0 <= i < 12,
        c.buckets.len() == 12,
        c.buckets[i] < u64::MAX,
        c.requests_no_route < u64::MAX,
        c.requests_upstream_unknown < u64::MAX,
        c.requests_upstream_failed < u64::MAX,
    ensures
        ({
            let d = settled(c, result, nanos);
            &&& d.requests_total == c.requests_total
            &&& d.requests_no_route == c.requests_no_route + if result matches Err(
                DispatchError::NoRoute,
            ) {
                1int
            } else {
                0
            }
            &&& d.requests_upstream_unknown == c.requests_upstream_unknown + if result matches Err(
                DispatchError::UpstreamNotRegistered { .. },
            ) {
                1int
            } else {
                0
            }
            &&& d.requests_upstream_failed == c.requests_upstream_failed + if result matches Err(
                DispatchError::Upstream(_),
            ) {
                1int
            } else if result matches Err(DispatchError::Timeout(_)) {
                1int
            } else {
                0
            }
            &&& d.buckets[i] == c.buckets[i] + if nanos <= metrics::bound(i) {
                1int
            } else {
                0
            }
        }),
{
}

/// What the client reads of each failure.
pub proof fn failures_say_what_went_wrong(e: DispatchError)
    ensures
        e is NoRoute ==> status_of(Err(e)) == 404 && body_of(e) == "conduit: no route matched\n"@,
        e is UpstreamNotRegistered ==> status_of(Err(e)) == 500 && body_of(e)
            == "conduit: route references unknown upstream\n"@,
        e is Timeout ==> status_of(Err(e)) == 504 && body_of(e) == "conduit: upstream timed out\n"@,
        e matches DispatchError::Upstream(f) ==> if f is BreakerOpen {
            status_of(Err(e)) == 503 && body_of(e) == "conduit: upstream breaker open\n"@
        } else {
            status_of(Err(e)) == 502 && body_of(e) == "conduit: upstream unavailable\n"@
        },
{
}

} // verus!

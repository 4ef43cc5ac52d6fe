//! The admin endpoint: what each request to it is answered.
use vstd::prelude::*;
use vstd::string::*;

use crate::text;

verus! {

/// Content type of every answer.
pub const CONTENT_TYPE: &'static str = "text/plain; charset=utf-8";

/// How long the accept loop waits before it looks at the cancellation flag, in
/// milliseconds.
pub const POLL_MS: u64 = 100;

/// Why the admin endpoint is not served.
#[derive(Debug)]
#[non_exhaustive]
pub enum AdminError {
    /// The listener could not be bound.
    Bind {
        /// Address attempted.
        addr: String,
        /// What the operating system answered.
        source: String,
    },
}

impl AdminError {
    /// The error as one line of text.
    pub fn message(&self) -> (r: String)
        ensures
            r@ == "admin bind failed for "@ + self->addr@,
    {
        match self {
            AdminError::Bind { addr, .. } => {
                let mut r = "admin bind failed for ".to_owned();
                r.append(addr);
                r
            },
        }
    }
}

/// An answer of the admin endpoint.
#[derive(Debug)]
pub struct AdminReply {
    /// Status code.
    pub status: u16,
    /// Value of the `content-type` header.
    pub content_type: &'static str,
    /// The body.
    pub body: String,
}

/// The answer with this status and body.
pub fn plain_text(status: u16, body: &str) -> (r: AdminReply)
    ensures
        r.status == status,
        r.content_type@ == "text/plain; charset=utf-8"@,
        r.body@ == body@,
{
    AdminReply { status, content_type: CONTENT_TYPE, body: body.to_owned() }
}

/// Status and body of the answer to `method` at `path`, where `metrics` and
/// `upstreams` are the texts of those two pages.
pub open spec fn answer(
    method: Seq<char>,
    path: Seq<char>,
    metrics: Seq<char>,
    upstreams: Seq<char>,
) -> (u16, Seq<char>) {
    if method == "GET"@ && path == "/health"@ {
        (200, "ok\n"@)
    } else if method == "GET"@ && path == "/ready"@ {
        (200, "ready\n"@)
    } else if method == "GET"@ && path == "/metrics"@ {
        (200, metrics)
    } else if method == "GET"@ && path == "/upstreams"@ {
        (200, upstreams)
    } else if method == "GET"@ && path == "/"@ {
        (200, "conduit admin\nendpoints: /health /ready\n"@)
    } else {
        (404, "not found\n"@)
    }
}

/// Answers a request to the admin endpoint.
pub fn handle(method: &str, path: &str, metrics: &str, upstreams: &str) -> (r: AdminReply)
    ensures
        (r.status, r.body@) == answer(method@, path@, metrics@, upstreams@),
        r.content_type@ == "text/plain; charset=utf-8"@,
{
    let get = text::same(method, "GET");
    if get && text::same(path, "/health") {
        plain_text(200, "ok\n")
    } else if get && text::same(path, "/ready") {
        plain_text(200, "ready\n")
    } else if get && text::same(path, "/metrics") {
        plain_text(200, metrics)
    } else if get && text::same(path, "/upstreams") {
        plain_text(200, upstreams)
    } else if get && text::same(path, "/") {
        plain_text(200, "conduit admin\nendpoints: /health /ready\n")
    } else {
        plain_text(404, "not found\n")
    }
}

/// The gauges of a process of this version that runs for `seconds`.
pub open spec fn gauge_text(seconds: nat, version: Seq<char>) -> Seq<char> {
    "# HELP conduit_uptime_seconds Seconds since the process started.\n"@
        + "# TYPE conduit_uptime_seconds gauge\nconduit_uptime_seconds "@ + text::decimal(seconds)
        + "\n# HELP conduit_build_info Build information.\n"@
        + "# TYPE conduit_build_info gauge\nconduit_build_info{version=\""@ + version + "\"} 1\n"@
}

/// The gauges of a process of this version that runs for `seconds`. They stand
/// in front of the counters on the metrics page.
pub fn gauges(seconds: u64, version: &str) -> (r: String)
    ensures
        r@ == gauge_text(seconds as nat, version@),
{
    let mut r = "# HELP conduit_uptime_seconds Seconds since the process started.\n".to_owned();
    r.append("# TYPE conduit_uptime_seconds gauge\nconduit_uptime_seconds ");
    text::push_decimal(&mut r, seconds);
    r.append("\n# HELP conduit_build_info Build information.\n");
    r.append("# TYPE conduit_build_info gauge\nconduit_build_info{version=\"");
    r.append(version);
    r.append("\"} 1\n");
    r
}

/// Only GET is answered: every other method gets a 404, whatever the path.
pub proof fn only_get_is_answered(
    method: Seq<char>,
    path: Seq<char>,
    metrics: Seq<char>,
    upstreams: Seq<char>,
)
    requires
        method != "GET"@,
    ensures
        answer(method, path, metrics, upstreams) == (404u16, "not found\n"@),
{
}

/// What each page holds, whatever the texts are that it is given: liveness and
/// readiness are always answered, the counters and the upstreams are handed out as
/// they are, and every other path is not found.
pub proof fn pages_hold_what_they_are_given(
    path: Seq<char>,
    metrics: Seq<char>,
    upstreams: Seq<char>,
)
    ensures
        answer("GET"@, "/health"@, metrics, upstreams) == (200u16, "ok\n"@),
        answer("GET"@, "/ready"@, metrics, upstreams) == (200u16, "ready\n"@),
        answer("GET"@, "/metrics"@, metrics, upstreams) == (200u16, metrics),
        answer("GET"@, "/upstreams"@, metrics, upstreams) == (200u16, upstreams),
        answer("GET"@, "/"@, metrics, upstreams).0 == 200,
        path != "/health"@ && path != "/ready"@ && path != "/metrics"@ && path != "/upstreams"@
            && path != "/"@ ==> answer("GET"@, path, metrics, upstreams) == (
            404u16,
            "not found\n"@,
        ),
{
    reveal_strlit("/health");
    reveal_strlit("/ready");
    reveal_strlit("/metrics");
    reveal_strlit("/upstreams");
    reveal_strlit("/");
    assert("/health"@[1] == 'h');
    assert("/ready"@[1] == 'r');
    assert("/metrics"@[1] == 'm');
    assert("/upstreams"@[1] == 'u');
    assert("/"@.len() == 1);
}

/// The gauges tell how many seconds the process runs, and its version.
pub proof fn gauges_tell_uptime_and_version(seconds: nat, version: Seq<char>)
    ensures
        text::holds(
            gauge_text(seconds, version),
            "# TYPE conduit_uptime_seconds gauge\nconduit_uptime_seconds "@ + text::decimal(
                seconds,
            ),
        ),
        text::holds(
            gauge_text(seconds, version),
            "# TYPE conduit_build_info gauge\nconduit_build_info{version=\""@ + version
                + "\"} 1\n"@,
        ),
{
    let help = "# HELP conduit_uptime_seconds Seconds since the process started.\n"@;
    let uptime = "# TYPE conduit_uptime_seconds gauge\nconduit_uptime_seconds "@ + text::decimal(
        seconds,
    );
    let between = "\n# HELP conduit_build_info Build information.\n"@;
    let build = "# TYPE conduit_build_info gauge\nconduit_build_info{version=\""@ + version
        + "\"} 1\n"@;
    let all = gauge_text(seconds, version);
    assert(all =~= help + uptime + (between + build));
    assert(all =~= (help + uptime + between) + build + Seq::empty());
}

} // verus!

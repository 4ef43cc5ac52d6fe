//! Forwarding one request: where it goes, how often it is sent, and what comes
//! of each reply.
use vstd::prelude::*;
use vstd::string::*;

use crate::proto::head;
use crate::proto::head::{Head, Request, Version};
use crate::text;
use crate::upstream::retry::{RetryDecision, RetryPolicy};

verus! {

/// Why a request was not answered by an upstream.
#[derive(Debug)]
#[non_exhaustive]
pub enum ForwardError {
    /// The upstream could not be connected to, or the connection broke before
    /// a complete response was received.
    Client {
        /// What went wrong.
        source: String,
        /// Whether it went wrong while connecting, before any byte of the
        /// request was sent.
        connect_error: bool,
    },
    /// The request could not be made ready for sending.
    Body(String),
    /// All attempts were used up without a final response.
    RetriesExhausted {
        /// Status code of the most recent attempt.
        last_status: u16,
    },
    /// The circuit breaker of every backend is open.
    BreakerOpen,
}

/// `true` or `false` in letters.
pub open spec fn bool_text(b: bool) -> Seq<char> {
    if b {
        "true"@
    } else {
        "false"@
    }
}

/// The text that `http::StatusCode` prints for `code`: the number and the
/// reason phrase.
pub uninterp spec fn status_text(code: u16) -> Seq<char>;

/// `Display` of `http::StatusCode`: the number and its reason phrase. The text
/// is a function of the code; it is named, not described.
#[verifier::external_body]
fn print_status(code: u16) -> (r: String)
    requires
        100 <= code < 1000,
    ensures
        r@ == status_text(code),
{
    http::StatusCode::from_u16(code).unwrap().to_string()
}

impl ForwardError {
    /// The error as one line of text.
    pub fn message(&self) -> (r: String)
        requires
            *self matches ForwardError::RetriesExhausted { last_status } ==> 100 <= last_status
                < 1000,
        ensures
            r@ == match *self {
                ForwardError::Client { connect_error, .. } =>
                    "upstream client error (connect_error = "@ + bool_text(connect_error) + ")"@,
                ForwardError::Body(_) => "upstream request body buffering failed"@,
                ForwardError::RetriesExhausted { last_status } =>
                    "retries exhausted; last status was "@ + status_text(last_status),
                ForwardError::BreakerOpen => "upstream circuit breaker is open"@,
            },
    {
        match self {
            ForwardError::Client { connect_error, .. } => {
                let word = if *connect_error {
                    "true"
                } else {
                    "false"
                };
                text::around("upstream client error (connect_error = ", word, ")")
            },
            ForwardError::Body(_) => "upstream request body buffering failed".to_owned(),
            ForwardError::RetriesExhausted { last_status } => {
                let mut r = "retries exhausted; last status was ".to_owned();
                let status = print_status(*last_status);
                r.append(&status);
                r
            },
            ForwardError::BreakerOpen => "upstream circuit breaker is open".to_owned(),
        }
    }
}

/// Why `text` is no URI; `None` where it is one.
pub uninterp spec fn uri_error(text: Seq<char>) -> Option<Seq<char>>;

/// `http::Uri::from_str`: the text of its error, or `None`. The answer is a
/// function of the text; it is named, not described.
#[verifier::external_body]
pub(crate) fn uri_fault(text: &str) -> (r: Option<String>)
    ensures
        match r {
            Some(e) => uri_error(text@) == Some(e@),
            None => uri_error(text@) == None::<Seq<char>>,
        },
{
    match text.parse::<http::Uri>() {
        Ok(_) => None,
        Err(e) => Some(e.to_string()),
    }
}

/// Where a request is sent.
#[derive(Debug)]
pub struct Target {
    /// The absolute URI to send it to.
    pub uri: String,
    /// The position of the backend.
    pub backend: usize,
}

/// The absolute URI of a request to `addr`; a request without a path asks for
/// `/`.
pub open spec fn egress_uri(addr: Seq<char>, path_and_query: Option<&str>) -> Seq<char> {
    "http://"@ + addr + match path_and_query {
        Some(p) => p@,
        None => "/"@,
    }
}

/// Where a request goes once the load balancer has answered `pick`. An upstream
/// without addresses leaves the URI of the request as it is.
pub fn choose_target(
    no_addrs: bool,
    pick: Option<(String, usize)>,
    path_and_query: Option<&str>,
) -> (r: Result<Option<Target>, ForwardError>)
    ensures
        match r {
            Ok(None) => no_addrs,
            Ok(Some(t)) => !no_addrs && pick is Some && t.uri@ == egress_uri(
                (pick->0).0@,
                path_and_query,
            ) && t.backend == (pick->0).1,
            Err(e) => !no_addrs && pick is None && e is BreakerOpen,
        },
{
    if no_addrs {
        return Ok(None);
    }
    match pick {
        Some((addr, backend)) => {
            let rest = match path_and_query {
                Some(p) => p,
                None => "/",
            };
            let uri = text::around("http://", &addr, rest);
            Ok(Some(Target { uri, backend }))
        },
        None => Err(ForwardError::BreakerOpen),
    }
}

/// Takes `target` unless its URI is at `fault`.
pub fn accept_target(target: Target, fault: Option<String>) -> (r: Result<
    Option<Target>,
    ForwardError,
>)
    ensures
        r == match fault {
            Some(e) => Err(ForwardError::Body(e)),
            None => Ok(Some(target)),
        },
{
    match fault {
        Some(e) => Err(ForwardError::Body(e)),
        None => Ok(Some(target)),
    }
}

/// What becomes of the head of a request on its way to an upstream: it keeps its
/// method and is sent as HTTP/1.1, to the target where there is one, and without
/// the host that the client asked for, so that the host follows from where it is
/// sent.
pub fn for_egress(head: Head, target: Option<&Target>) -> (r: Head)
    ensures
        r.method == head.method,
        r.version == Version::Http11,
        r.uri@ == match target {
            Some(t) => t.uri@,
            None => head.uri@,
        },
        r.fields@ == head::without_host(head.fields@),
{
    let mut fields = head.fields;
    head::drop_host(&mut fields);
    let uri = match target {
        Some(t) => t.uri.clone(),
        None => head.uri,
    };
    Head { method: head.method, uri, version: Version::Http11, fields }
}

/// Whether `sent` is what becomes of the request `req` on its way to `target`: the
/// same method and the same body, as HTTP/1.1, to the target where there is one
/// and where its own URI says otherwise, with its header fields but for the host.
pub open spec fn is_egress(sent: Request, req: Request, target: Option<Target>) -> bool {
    &&& sent.head.method@ == req.head.method@
    &&& sent.head.uri@ == match target {
        Some(t) => t.uri@,
        None => req.head.uri@,
    }
    &&& sent.head.version == Version::Http11
    &&& sent.head.fields@ == head::without_host(req.head.fields@)
    &&& sent.body@ == req.body@
}

/// The answer to one attempt.
#[derive(Debug, Clone, Copy, PartialEq, Eq, Structural)]
pub enum Reply {
    /// A response with this status code.
    Response(u16),
    /// No response.
    Failed {
        /// Whether it failed while connecting.
        connect_error: bool,
    },
}

/// What follows an attempt.
#[derive(Debug, Clone, Copy, PartialEq, Eq, Structural)]
pub enum Step {
    /// Send the request again.
    Again,
    /// Hand the response to the caller.
    Deliver {
        /// How the attempt counts for the backend's breaker.
        success: bool,
    },
    /// Report the error to the caller; the attempt counts as a failure for the
    /// backend's breaker.
    GiveUp {
        /// Whether it failed while connecting.
        connect_error: bool,
    },
}

/// How a step counts for the breaker of the backend: `None` where nothing is
/// decided yet.
pub open spec fn verdict(step: Step) -> Option<bool> {
    match step {
        Step::Again => None,
        Step::Deliver { success } => Some(success),
        Step::GiveUp { .. } => Some(false),
    }
}

/// How a step counts for the breaker of the backend.
pub fn verdict_of(step: Step) -> (r: Option<bool>)
    ensures
        r == verdict(step),
{
    match step {
        Step::Again => None,
        Step::Deliver { success } => Some(success),
        Step::GiveUp { .. } => Some(false),
    }
}

/// Whether `status` says that the server is at fault.
pub open spec fn is_server_error(status: u16) -> bool {
    500 <= status < 600
}

/// What follows the zero-based `attempt` where the answer is `reply`.
pub open spec fn step(policy: RetryPolicy, attempt: nat, reply: Reply) -> Step {
    match reply {
        Reply::Response(status) => if policy.decision(status, attempt) == RetryDecision::Retry {
            Step::Again
        } else {
            Step::Deliver { success: !is_server_error(status) }
        },
        Reply::Failed { connect_error } => if connect_error && policy.on_connect_error && attempt
            + 1 < policy.attempts {
            Step::Again
        } else {
            Step::GiveUp { connect_error }
        },
    }
}

/// The attempts at one request, of which the policy grants only so many.
#[derive(Debug)]
pub struct Attempts {
    policy: RetryPolicy,
    attempt: u32,
}

impl Attempts {
    #[verifier::type_invariant]
    spec fn inv(self) -> bool {
        self.attempt < self.policy.budget()
    }

    /// The policy in force.
    pub closed spec fn policy(self) -> RetryPolicy {
        self.policy
    }

    /// The attempt that is under way, counted from zero.
    pub closed spec fn attempt(self) -> nat {
        self.attempt as nat
    }

    /// The first attempt.
    pub fn start(policy: RetryPolicy) -> (r: Attempts)
        ensures
            r.policy() == policy,
            r.attempt() == 0,
    {
        Attempts { policy, attempt: 0 }
    }

    /// Takes the answer to the attempt under way and says what follows.
    pub fn advance(&mut self, reply: Reply) -> (r: Step)
        ensures
            r == step(old(self).policy(), old(self).attempt(), reply),
            final(self).policy() == old(self).policy(),
            final(self).attempt() == if r == Step::Again {
                old(self).attempt() + 1
            } else {
                old(self).attempt()
            },
            old(self).attempt() < old(self).policy().budget(),
    {
        proof {
            use_type_invariant(&*self);
        }
        match reply {
            Reply::Response(status) => {
                match self.policy.decide_status(status, self.attempt) {
                    RetryDecision::Retry => {
                        self.attempt = self.attempt + 1;
                        Step::Again
                    },
                    RetryDecision::Stop => Step::Deliver { success: status < 500 || status >= 600 },
                }
            },
            Reply::Failed { connect_error } => {
                if connect_error && self.policy.on_connect_error && self.attempt + 1
                    < self.policy.attempts {
                    self.attempt = self.attempt + 1;
                    Step::Again
                } else {
                    Step::GiveUp { connect_error }
                }
            },
        }
    }
}

/// The outcome of a request whose attempts from `attempt` on are answered by
/// `replies`, in order: how many of them are used, and what follows the last.
/// `None` where the replies run out first.
pub open spec fn outcome(policy: RetryPolicy, attempt: nat, replies: Seq<Reply>) -> Option<
    (nat, Step),
>
    decreases replies.len(),
{
    if replies.len() == 0 {
        None
    } else {
        let s = step(policy, attempt, replies[0]);
        if s == Step::Again {
            match outcome(policy, attempt + 1, replies.drop_first()) {
                Some((n, last)) => Some((n + 1, last)),
                None => None,
            }
        } else {
            Some((1, s))
        }
    }
}

/// A request is sent at most as often as its policy grants, whatever the
/// answers are: the last attempt is always final, so no request ends without a
/// response or an error of its own.
pub proof fn request_ends_within_budget(policy: RetryPolicy, attempt: nat, replies: Seq<Reply>)
    requires
        attempt < policy.budget(),
        replies.len() >= policy.budget() - attempt,
    ensures
        outcome(policy, attempt, replies) is Some,
        ({
            let (sent, last) = outcome(policy, attempt, replies)->0;
            1 <= sent <= policy.budget() - attempt && last != Step::Again
        }),
    decreases replies.len(),
{
    if step(policy, attempt, replies[0]) == Step::Again {
        request_ends_within_budget(policy, attempt + 1, replies.drop_first());
    }
}

/// However often a request is sent, the breaker of its backend learns of it once:
/// an attempt that is followed by another tells it nothing, and the last one is
/// a success exactly where a response without a server error is handed over.
pub proof fn breaker_learns_once(policy: RetryPolicy, attempt: nat, replies: Seq<Reply>)
    requires
        attempt < policy.budget(),
        replies.len() >= policy.budget() - attempt,
    ensures
        ({
            let (sent, last) = outcome(policy, attempt, replies)->0;
            &&& 1 <= sent <= replies.len()
            &&& forall|i: int|
                0 <= i < sent - 1 ==> verdict(
                    #[trigger] step(policy, (attempt + i) as nat, replies[i]),
                ) is None
            &&& last == step(policy, (attempt + sent - 1) as nat, replies[sent - 1])
            &&& verdict(last) == Some(
                replies[sent - 1] matches Reply::Response(status) && !is_server_error(status),
            )
        }),
    decreases replies.len(),
{
    request_ends_within_budget(policy, attempt, replies);
    if step(policy, attempt, replies[0]) == Step::Again {
        let rest = replies.drop_first();
        breaker_learns_once(policy, attempt + 1, rest);
        let (sent, last) = outcome(policy, attempt + 1, rest)->0;
        assert forall|i: int| 0 <= i < sent implies verdict(
            #[trigger] step(policy, (attempt + i) as nat, replies[i]),
        ) is None by {
            if i > 0 {
                assert(replies[i] == rest[i - 1]);
                assert(step(policy, (attempt + 1 + (i - 1)) as nat, rest[i - 1]) == step(
                    policy,
                    (attempt + i) as nat,
                    replies[i],
                ));
            }
        }
        assert(rest[sent - 1] == replies[sent as int]);
    }
}

/// A response whose status the policy does not list is handed over at once.
pub proof fn unlisted_status_is_final(policy: RetryPolicy, attempt: nat, status: u16)
    requires
        !policy.on_status@.contains(status),
    ensures
        step(policy, attempt, Reply::Response(status)) == (Step::Deliver {
            success: !is_server_error(status),
        }),
{
}

/// An error after the connect phase is never retried: the upstream may have
/// seen the request.
pub proof fn broken_connection_is_final(policy: RetryPolicy, attempt: nat)
    ensures
        step(policy, attempt, (Reply::Failed { connect_error: false })) == (Step::GiveUp {
            connect_error: false,
        }),
{
}

/// Where every attempt is answered by a listed status, the request is sent as
/// often as the policy grants, and the last response reaches the caller.
pub proof fn last_response_is_delivered(policy: RetryPolicy, attempt: nat, replies: Seq<Reply>)
    requires
        attempt < policy.budget(),
        replies.len() == policy.budget() - attempt,
        forall|i: int|
            0 <= i < replies.len() ==> (#[trigger] replies[i] matches Reply::Response(status)
                && policy.on_status@.contains(status)),
    ensures
        outcome(policy, attempt, replies) == Some(
            (
                replies.len(),
                Step::Deliver { success: !is_server_error(replies.last()->Response_0) },
            ),
        ),
    decreases replies.len(),
{
    assert(replies[0] is Response);
    if replies.len() > 1 {
        let rest = replies.drop_first();
        assert forall|i: int| 0 <= i < rest.len() implies (#[trigger] rest[i] matches Reply::Response(
            status,
        ) && policy.on_status@.contains(status)) by {
            assert(rest[i] == replies[i + 1]);
        }
        last_response_is_delivered(policy, attempt + 1, rest);
        assert(rest.last() == replies.last());
    }
}

/// When a request is sent again, and what follows otherwise. It is sent again
/// exactly where attempts are left and the policy lists the status of the
/// response, or the connection could not be made and the policy retries that.
/// Otherwise a response is delivered, as a success unless its status is 500 to
/// 599, and a failure is reported as it is.
pub proof fn request_is_sent_again_only_as_the_policy_says(
    policy: RetryPolicy,
    attempt: nat,
    reply: Reply,
)
    ensures
        step(policy, attempt, reply) is Again <==> attempt + 1 < policy.attempts && match reply {
            Reply::Response(status) => exists|i: int|
                0 <= i < policy.on_status@.len() && #[trigger] policy.on_status@[i] == status,
            Reply::Failed { connect_error } => connect_error && policy.on_connect_error,
        },
        reply matches Reply::Response(status) ==> step(policy, attempt, reply) is Again || step(
            policy,
            attempt,
            reply,
        ) == (Step::Deliver { success: status < 500 || status > 599 }),
        reply matches Reply::Failed { connect_error } ==> step(policy, attempt, reply) is Again
            || step(policy, attempt, reply) == (Step::GiveUp { connect_error }),
{
    if let Reply::Response(status) = reply {
        if policy.on_status@.contains(status) {
            let i = choose|i: int|
                0 <= i < policy.on_status@.len() && policy.on_status@[i] == status;
            assert(policy.on_status@[i] == status);
        }
    }
}

/// A step tells the breaker of the backend nothing as long as the request is sent
/// again, and otherwise whether a response was delivered that counts as a success.
pub proof fn verdict_follows_the_step(step: Step)
    ensures
        verdict(step) is None <==> step is Again,
        verdict(step) == Some(true) <==> step == (Step::Deliver { success: true }),
        verdict(step) == Some(false) <==> step == (Step::Deliver { success: false }) || step
            is GiveUp,
{
}

/// What is sent of a request: its method and its body byte for byte, as HTTP/1.1, to
/// the target or else to its own URI. No field that is sent names the host, and a
/// field that does not is sent.
pub proof fn what_is_sent_is_the_request(sent: Request, req: Request, target: Option<Target>)
    requires
        is_egress(sent, req, target),
    ensures
        sent.head.method@ == req.head.method@,
        sent.body@.len() == req.body@.len(),
        forall|i: int| 0 <= i < req.body@.len() ==> #[trigger] sent.body@[i] == req.body@[i],
        sent.head.version is Http11,
        target matches Some(t) ==> sent.head.uri@ == t.uri@,
        target is None ==> sent.head.uri@ == req.head.uri@,
        forall|i: int|
            0 <= i < sent.head.fields@.len() ==> text::lowered(
                (#[trigger] sent.head.fields@[i]).name@,
            ) != "host"@,
        forall|i: int|
            0 <= i < req.head.fields@.len() && text::lowered(
                (#[trigger] req.head.fields@[i]).name@,
            ) != "host"@ ==> sent.head.fields@.contains(req.head.fields@[i]),
{
    head::host_is_dropped_once(req.head.fields@);
    assert forall|i: int| 0 <= i < sent.head.fields@.len() implies text::lowered(
        (#[trigger] sent.head.fields@[i]).name@,
    ) != "host"@ by {
        assert(!head::is_host(head::without_host(req.head.fields@)[i]));
    }
    assert forall|i: int|
        0 <= i < req.head.fields@.len() && text::lowered((#[trigger] req.head.fields@[i]).name@)
            != "host"@ implies sent.head.fields@.contains(req.head.fields@[i]) by {
        assert(!head::is_host(req.head.fields@[i]));
    }
}

} // verus!

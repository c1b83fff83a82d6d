//! The way of one request through the gateway: admission, the request to the
//! upstream, and the kind of response.
//!
//! The gateway waits and talks to the network; what it does next is decided
//! here, step by step, from what it reports.

use crate::config::Config;
use crate::constants::{
    EVENT_STREAM, JSON, PERMITS_PER_REQUEST, STATUS_BAD_GATEWAY, STATUS_BAD_REQUEST,
    STATUS_INTERNAL_SERVER_ERROR, STATUS_TOO_MANY_REQUESTS, UPSTREAM_BASE,
};
use crate::text::{chars_of, contains, find};
use vstd::prelude::*;
use vstd::string::*;

verus! {

/// The health check: a fixed sign of life.
pub fn health_check() -> (reply: &'static str)
    ensures
        reply@ == "OK"@,
{
    "OK"
}

/// What the gateway reads of a client's request before its body: the path
/// below the route, and the value of the `Accept` header, `None` where the
/// request has none or one that is no text.
#[derive(Debug, PartialEq, Eq)]
pub struct ProxyRequest {
    pub path: String,
    pub accept: Option<String>,
}

/// The request that goes to the upstream.
#[derive(Debug, PartialEq, Eq)]
pub struct UpstreamRequest {
    pub url: String,
    pub headers: Vec<(String, String)>,
    pub body: Vec<u8>,
}

/// Where a request stands on its way.
#[derive(Debug, PartialEq, Eq)]
pub enum ProxyStage {
    /// Nothing has been reported yet.
    Idle,
    /// The request waits for a credit of the token bucket.
    AwaitingCredit(ProxyRequest),
    /// The request was admitted; its body is being read.
    ReadingBody(ProxyRequest),
    /// The request has gone to the upstream.
    Forwarding,
    /// The way has ended: a response mode was chosen, or the request was
    /// rejected.
    Done,
}

/// What the gateway reports.
#[derive(Debug, PartialEq, Eq)]
pub enum ProxyInput {
    /// A request has arrived.
    Request(ProxyRequest),
    /// The credit was obtained within the wait.
    Admitted,
    /// The wait ran out before a credit was obtained; the attempt to acquire
    /// one was abandoned with it.
    TimedOut,
    /// The body of the request has been read.
    Body(Vec<u8>),
    /// The body of the request could not be read.
    BodyUnreadable,
    /// The upstream has answered, with this status; `content_type` is the
    /// value of the header of that name, `None` where the response has none or
    /// one that is no text.
    Answered { status: u16, content_type: Option<String> },
    /// The request did not reach the upstream, or no answer came back.
    Unreachable,
}

/// What the gateway is to do next.
#[derive(Debug, PartialEq, Eq)]
pub enum ProxyAction {
    /// Acquire `permits` credits of the token bucket and wait for them, but
    /// for `timeout_secs` seconds at most: wait and acquisition are one
    /// operation, and giving up the wait gives up the acquisition.
    Acquire { permits: usize, timeout_secs: u64 },
    /// Read the body of the request.
    ReadBody,
    /// Send this request to the upstream, once.
    Forward(UpstreamRequest),
    /// Relay the upstream's response as a stream of events.
    Stream,
    /// Pass the upstream's response on as one body; `status` is the upstream's.
    Buffer { status: u16 },
    /// Answer the client with this status and nothing else.
    Reject(u16),
}

/// The address of the upstream for the path `path`.
pub open spec fn upstream_url(path: Seq<char>) -> Seq<char> {
    UPSTREAM_BASE@ + path
}

/// The value of the header that carries the credential `key`.
pub open spec fn bearer(key: Seq<char>) -> Seq<char> {
    "Bearer "@ + key
}

/// The headers of the request to the upstream: the credential, which is the
/// gateway's own and never the client's, the content type, and the client's
/// `Accept` where it sent one.
pub open spec fn upstream_headers(key: Seq<char>, accept: Option<Seq<char>>) -> Seq<
    (Seq<char>, Seq<char>),
> {
    let fixed = seq![("Authorization"@, bearer(key)), ("Content-Type"@, JSON@)];
    match accept {
        Some(value) => fixed.push(("Accept"@, value)),
        None => fixed,
    }
}

/// Names and values of `headers`, as sequences of characters.
pub open spec fn header_views(headers: Seq<(String, String)>) -> Seq<(Seq<char>, Seq<char>)> {
    Seq::new(headers.len(), |i: int| (headers[i].0@, headers[i].1@))
}

/// Whether a response with this content type is an event stream: the header
/// is there and holds `text/event-stream` somewhere.
pub open spec fn is_event_stream(content_type: Option<Seq<char>>) -> bool {
    match content_type {
        Some(value) => contains(value, EVENT_STREAM@),
        None => false,
    }
}

/// Whether `upstream` is the request that forwards the body `body` of the
/// client's request `request` under the configuration `config`.
pub open spec fn forwards(
    upstream: UpstreamRequest,
    config: Config,
    request: ProxyRequest,
    body: Vec<u8>,
) -> bool {
    &&& upstream.url@ == upstream_url(request.path@)
    &&& header_views(upstream.headers@) == upstream_headers(
        config.openai_api_key@,
        match request.accept {
            Some(value) => Some(value@),
            None => None,
        },
    )
    &&& upstream.body == body
}

/// The gateway's rule for one request: whether, at `stage` and on `input`, the
/// request goes on to `next` and the gateway is to do `action`.
///
/// A request first asks for one credit and is given the configured time to
/// wait for it. Admitted, its body is read; timed out, it is rejected as one
/// request too many. The body read, the request goes to the upstream; a body
/// that cannot be read is the client's fault. The upstream's answer decides
/// between stream and passthrough by its content type; no answer is a gateway
/// failure. Whatever is reported out of turn ends the way with a server error.
pub open spec fn proxy_rule(
    config: Config,
    stage: ProxyStage,
    input: ProxyInput,
    next: ProxyStage,
    action: ProxyAction,
) -> bool {
    match (stage, input) {
        (ProxyStage::Idle, ProxyInput::Request(request)) => {
            &&& next == ProxyStage::AwaitingCredit(request)
            &&& action == ProxyAction::Acquire {
                permits: PERMITS_PER_REQUEST,
                timeout_secs: config.rate_limit_timeout,
            }
        },
        (ProxyStage::AwaitingCredit(request), ProxyInput::Admitted) => {
            &&& next == ProxyStage::ReadingBody(request)
            &&& action == ProxyAction::ReadBody
        },
        (ProxyStage::AwaitingCredit(_), ProxyInput::TimedOut) => {
            &&& next == ProxyStage::Done
            &&& action == ProxyAction::Reject(STATUS_TOO_MANY_REQUESTS)
        },
        (ProxyStage::ReadingBody(request), ProxyInput::Body(body)) => {
            &&& next == ProxyStage::Forwarding
            &&& action matches ProxyAction::Forward(upstream)
            &&& forwards(upstream, config, request, body)
        },
        (ProxyStage::ReadingBody(_), ProxyInput::BodyUnreadable) => {
            &&& next == ProxyStage::Done
            &&& action == ProxyAction::Reject(STATUS_BAD_REQUEST)
        },
        (ProxyStage::Forwarding, ProxyInput::Answered { status, content_type }) => {
            &&& next == ProxyStage::Done
            &&& action == if is_event_stream(
                match content_type {
                    Some(value) => Some(value@),
                    None => None,
                },
            ) {
                ProxyAction::Stream
            } else {
                ProxyAction::Buffer { status }
            }
        },
        (ProxyStage::Forwarding, ProxyInput::Unreachable) => {
            &&& next == ProxyStage::Done
            &&& action == ProxyAction::Reject(STATUS_BAD_GATEWAY)
        },
        _ => {
            &&& next == ProxyStage::Done
            &&& action == ProxyAction::Reject(STATUS_INTERNAL_SERVER_ERROR)
        },
    }
}

/// How many steps a request at `stage` has before it at most.
pub open spec fn steps_left(stage: ProxyStage) -> nat {
    match stage {
        ProxyStage::Idle => 4,
        ProxyStage::AwaitingCredit(_) => 3,
        ProxyStage::ReadingBody(_) => 2,
        ProxyStage::Forwarding => 1,
        ProxyStage::Done => 0,
    }
}

/// No request stays on its way for ever: every step brings it nearer to the
/// end, which it reaches after four steps at most, and at the end it stays.
/// The one step that waits, the wait for a credit, is bounded by the
/// configured time.
pub proof fn lemma_request_ends(
    config: Config,
    stage: ProxyStage,
    input: ProxyInput,
    next: ProxyStage,
    action: ProxyAction,
)
    requires
        proxy_rule(config, stage, input, next, action),
    ensures
        stage != ProxyStage::Done ==> steps_left(next) < steps_left(stage),
        stage == ProxyStage::Done ==> next == ProxyStage::Done,
        action matches ProxyAction::Acquire { permits, timeout_secs } ==> {
            &&& stage == ProxyStage::Idle
            &&& permits == PERMITS_PER_REQUEST
            &&& timeout_secs == config.rate_limit_timeout
        },
{
}

/// The stage that follows `stage` on `input`, by the gateway's rule.
pub open spec fn next_stage(stage: ProxyStage, input: ProxyInput) -> ProxyStage {
    match (stage, input) {
        (ProxyStage::Idle, ProxyInput::Request(request)) => ProxyStage::AwaitingCredit(request),
        (ProxyStage::AwaitingCredit(request), ProxyInput::Admitted) => ProxyStage::ReadingBody(
            request,
        ),
        (ProxyStage::ReadingBody(_), ProxyInput::Body(_)) => ProxyStage::Forwarding,
        _ => ProxyStage::Done,
    }
}

/// The stage of a request of which `inputs` were reported, one after another,
/// from its arrival on.
pub open spec fn stage_after(inputs: Seq<ProxyInput>) -> ProxyStage
    decreases inputs.len(),
{
    if inputs.len() == 0 {
        ProxyStage::Idle
    } else {
        next_stage(stage_after(inputs.drop_last()), inputs.last())
    }
}

/// What the rule asks for tells where the request stands: a body is read only
/// on admission, a request is forwarded only once its body was read, and a
/// response mode is chosen only for an answer of the upstream. The stage that
/// the rule gives is `next_stage`.
pub proof fn lemma_rule_in_turn(
    config: Config,
    stage: ProxyStage,
    input: ProxyInput,
    next: ProxyStage,
    action: ProxyAction,
)
    requires
        proxy_rule(config, stage, input, next, action),
    ensures
        next == next_stage(stage, input),
        action is ReadBody ==> stage is AwaitingCredit && input is Admitted,
        action is Forward ==> stage is ReadingBody && input is Body,
        action is Stream || action is Buffer ==> stage is Forwarding && input is Answered,
{
}

/// There is one way through the gateway, and it leads through admission: a
/// request that waits for a credit has arrived and no more; one whose body is
/// read has arrived and was admitted; one that has gone to the upstream has
/// arrived, was admitted, and had its body read. So no request reaches the
/// upstream without a credit, and none that timed out goes on.
pub proof fn lemma_one_way(inputs: Seq<ProxyInput>)
    ensures
        match stage_after(inputs) {
            ProxyStage::Idle => inputs.len() == 0,
            ProxyStage::AwaitingCredit(request) => {
                &&& inputs.len() == 1
                &&& inputs[0] == ProxyInput::Request(request)
            },
            ProxyStage::ReadingBody(request) => {
                &&& inputs.len() == 2
                &&& inputs[0] == ProxyInput::Request(request)
                &&& inputs[1] is Admitted
            },
            ProxyStage::Forwarding => {
                &&& inputs.len() == 3
                &&& inputs[0] is Request
                &&& inputs[1] is Admitted
                &&& inputs[2] is Body
            },
            ProxyStage::Done => inputs.len() > 0,
        },
    decreases inputs.len(),
{
    if inputs.len() > 0 {
        lemma_one_way(inputs.drop_last());
    }
}

/// Whether a response with this content type is an event stream.
pub fn is_streaming(content_type: Option<&str>) -> (streaming: bool)
    ensures
        streaming == is_event_stream(
            match content_type {
                Some(value) => Some(value@),
                None => None,
            },
        ),
{
    match content_type {
        Some(value) => {
            let text = chars_of(value);
            let needle = chars_of(EVENT_STREAM);
            find(text.as_slice(), needle.as_slice())
        },
        None => false,
    }
}

/// The request that forwards `body` for `request`.
pub fn forward_request(config: &Config, request: ProxyRequest, body: Vec<u8>) -> (upstream:
    UpstreamRequest)
    ensures
        forwards(upstream, *config, request, body),
{
    let mut url = UPSTREAM_BASE.to_owned();
    url.append(request.path.as_str());
    let mut credential = "Bearer ".to_owned();
    credential.append(config.openai_api_key.as_str());
    let mut headers: Vec<(String, String)> = Vec::new();
    headers.push(("Authorization".to_owned(), credential));
    headers.push(("Content-Type".to_owned(), JSON.to_owned()));
    match request.accept {
        Some(value) => {
            headers.push(("Accept".to_owned(), value));
            proof {
                assert(header_views(headers@) =~= upstream_headers(
                    config.openai_api_key@,
                    Some(value@),
                ));
            }
        },
        None => {
            proof {
                assert(header_views(headers@) =~= upstream_headers(config.openai_api_key@, None));
            }
        },
    }
    UpstreamRequest { url, headers, body }
}

/// Takes what the gateway reports of one request and says how the request
/// goes on and what the gateway is to do, by the gateway's rule.
pub fn proxy_handler(config: &Config, stage: ProxyStage, input: ProxyInput) -> (step: (
    ProxyStage,
    ProxyAction,
))
    ensures
        proxy_rule(*config, stage, input, step.0, step.1),
{
    match (stage, input) {
        (ProxyStage::Idle, ProxyInput::Request(request)) => (
            ProxyStage::AwaitingCredit(request),
            ProxyAction::Acquire {
                permits: PERMITS_PER_REQUEST,
                timeout_secs: config.rate_limit_timeout,
            },
        ),
        (ProxyStage::AwaitingCredit(request), ProxyInput::Admitted) => (
            ProxyStage::ReadingBody(request),
            ProxyAction::ReadBody,
        ),
        (ProxyStage::AwaitingCredit(_), ProxyInput::TimedOut) => (
            ProxyStage::Done,
            ProxyAction::Reject(STATUS_TOO_MANY_REQUESTS),
        ),
        (ProxyStage::ReadingBody(request), ProxyInput::Body(body)) => (
            ProxyStage::Forwarding,
            ProxyAction::Forward(forward_request(config, request, body)),
        ),
        (ProxyStage::ReadingBody(_), ProxyInput::BodyUnreadable) => (
            ProxyStage::Done,
            ProxyAction::Reject(STATUS_BAD_REQUEST),
        ),
        (ProxyStage::Forwarding, ProxyInput::Answered { status, content_type }) => {
            let streaming = match content_type {
                Some(value) => is_streaming(Some(value.as_str())),
                None => is_streaming(None),
            };
            if streaming {
                (ProxyStage::Done, ProxyAction::Stream)
            } else {
                (ProxyStage::Done, ProxyAction::Buffer { status })
            }
        },
        (ProxyStage::Forwarding, ProxyInput::Unreachable) => (
            ProxyStage::Done,
            ProxyAction::Reject(STATUS_BAD_GATEWAY),
        ),
        _ => (ProxyStage::Done, ProxyAction::Reject(STATUS_INTERNAL_SERVER_ERROR)),
    }
}

} // verus!

//! The shared forwarder and per-request handler shape of both gateways:
//! build the outbound request from the inbound one, relay the upstream's
//! response with the gateway's marker header appended, and translate a
//! denial, a store outage or a forwarding failure into a terminal
//! response.
//!
//! Every branch returns a well-formed response: no inbound request is
//! ever left without one, and a forwarding failure produces exactly one
//! error response — the forwarder never retries.

use crate::http::{
    build_target_uri, contains_header, copy_bytes, copy_headers, InboundRequest, OutboundRequest,
    Response,
};
use vstd::prelude::*;
use vstd::string::*;
use vstd::utf8::encode_utf8;

verus! {

/// Which of the two gateways is deployed; the policies are mutually
/// exclusive per deployment, and each stamps its own marker header.
#[derive(Clone, Copy, Debug, PartialEq, Eq, Structural)]
pub enum GatewayKind {
    LoadBalancer,
    RateLimiter,
}

/// The name of the marker header the gateway appends to every relayed
/// response.
pub open spec fn marker_name_chars(kind: GatewayKind) -> Seq<char> {
    match kind {
        GatewayKind::LoadBalancer => "load-balancer-status"@,
        GatewayKind::RateLimiter => "rate-limiter-status"@,
    }
}

/// The marker header name as a string slice.
pub fn marker_name(kind: GatewayKind) -> (r: &'static str)
    ensures
        r@ == marker_name_chars(kind),
{
    match kind {
        GatewayKind::LoadBalancer => "load-balancer-status",
        GatewayKind::RateLimiter => "rate-limiter-status",
    }
}

/// Builds the outbound request for a chosen upstream: the target URI is
/// the upstream base with the inbound path and query appended verbatim;
/// method, headers and body are copied unmodified.
pub fn outbound_request(inbound: &InboundRequest, target_base: &str) -> (out: OutboundRequest)
    ensures
        out.method@ == inbound.method@,
        out.uri@ == target_base@ + inbound.path_and_query@,
        out.headers@ == inbound.headers@,
        out.body@ == inbound.body@,
{
    OutboundRequest {
        method: inbound.method.clone(),
        uri: build_target_uri(target_base, inbound.path_and_query.as_str()),
        headers: copy_headers(&inbound.headers),
        body: copy_bytes(&inbound.body),
    }
}

/// Relays an upstream response: status, headers and body are kept
/// verbatim, and exactly one marker header — the gateway's name set to
/// `ok` — is appended after the upstream's own headers.
pub fn relay_response(upstream: Response, kind: GatewayKind) -> (r: Response)
    ensures
        r.status == upstream.status,
        r.headers@.len() == upstream.headers@.len() + 1,
        r.headers@.subrange(0, upstream.headers@.len() as int) == upstream.headers@,
        r.headers@.last().0@ == marker_name_chars(kind),
        r.headers@.last().1@ == "ok"@,
        r.body@ == upstream.body@,
{
    let mut headers = upstream.headers;
    let ghost h0 = headers@;
    headers.push((String::from_str(marker_name(kind)), String::from_str("ok")));
    proof {
        assert(headers@.subrange(0, h0.len() as int) =~= h0);
    }
    Response { status: upstream.status, headers, body: upstream.body }
}

/// The JSON body of the deny response.
pub open spec fn deny_body_chars() -> Seq<char> {
    "{\"error\": \"Rate limit exceeded. Please try again later.\"}"@
}

/// The terminal response for an over-limit caller: HTTP 429 with a
/// structured JSON error body; the upstream is never contacted.
pub fn deny_response() -> (r: Response)
    ensures
        r.status == 429,
        r.headers@.len() == 1,
        r.headers@[0].0@ == "Content-Type"@,
        r.headers@[0].1@ == "application/json"@,
        r.body@ == encode_utf8(deny_body_chars()),
{
    let mut headers: Vec<(String, String)> = Vec::new();
    headers.push((String::from_str("Content-Type"), String::from_str("application/json")));
    let body = "{\"error\": \"Rate limit exceeded. Please try again later.\"}".as_bytes_vec();
    Response { status: 429, headers, body }
}

/// The terminal response when the counter store cannot be reached.
///
/// The store being unreachable is a dependency failure, distinct from a
/// denial: it is deliberately not rendered as an admission or as a 429,
/// but surfaced to the caller as its own service-unavailable error.
pub fn store_unavailable_response() -> (r: Response)
    ensures
        r.status == 503,
        r.headers@.len() == 1,
        r.headers@[0].0@ == "Content-Type"@,
        r.headers@[0].1@ == "text/plain"@,
        r.body@ == encode_utf8("Counter store unavailable."@),
{
    let mut headers: Vec<(String, String)> = Vec::new();
    headers.push((String::from_str("Content-Type"), String::from_str("text/plain")));
    let body = "Counter store unavailable.".as_bytes_vec();
    Response { status: 503, headers, body }
}

/// The terminal response for a forwarding failure: HTTP 500 with a
/// human-readable description of the error.
pub fn failure_response(detail: &str) -> (r: Response)
    ensures
        r.status == 500,
        r.headers@.len() == 1,
        r.headers@[0].0@ == "Content-Type"@,
        r.headers@[0].1@ == "text/html"@,
        r.body@ == encode_utf8("Forwarding error: "@ + detail@),
{
    let mut headers: Vec<(String, String)> = Vec::new();
    headers.push((String::from_str("Content-Type"), String::from_str("text/html")));
    let mut msg = String::from_str("Forwarding error: ");
    msg.append(detail);
    let body = msg.as_str().as_bytes_vec();
    Response { status: 500, headers, body }
}

/// The policy decision of the rate-limiting gateway for one request.
#[derive(Clone, Copy, Debug, PartialEq, Eq, Structural)]
pub enum GateDecision {
    /// Within the limit: forward the request.
    Granted,
    /// Over the limit: deny with 429, without contacting the upstream.
    Denied,
    /// The counter store could not be reached.
    StoreUnavailable,
}

/// The decision for an observed post-increment count: granted while the
/// count is within the limit, denied once it exceeds it; no count at
/// all means the store was unreachable.
pub open spec fn decision_of(count: Option<u64>, limit: u64) -> GateDecision {
    match count {
        Some(c) => if c <= limit {
            GateDecision::Granted
        } else {
            GateDecision::Denied
        },
        None => GateDecision::StoreUnavailable,
    }
}

/// Maps the count observed from the counter store — or its absence,
/// when the store was unreachable — to the limiter's decision. The runtime
/// shell performs the store calls and hands the outcome here; the
/// decision is then total over every possible outcome.
pub fn gate_decision(count: Option<u64>, limit: u64) -> (d: GateDecision)
    ensures
        d == decision_of(count, limit),
{
    match count {
        Some(c) => if c <= limit {
            GateDecision::Granted
        } else {
            GateDecision::Denied
        },
        None => GateDecision::StoreUnavailable,
    }
}

/// The terminal response owed before forwarding, if any: a granted
/// request produces none and is forwarded; a denied one gets the 429
/// JSON error; a store outage gets its own 503.
pub fn decision_response(d: &GateDecision) -> (r: Option<Response>)
    ensures
        match d {
            GateDecision::Granted => r is None,
            GateDecision::Denied => match r {
                Some(resp) => resp.status == 429 && resp.headers@.len() == 1
                    && resp.headers@[0].0@ == "Content-Type"@ && resp.headers@[0].1@
                    == "application/json"@ && resp.body@ == encode_utf8(deny_body_chars()),
                None => false,
            },
            GateDecision::StoreUnavailable => match r {
                Some(resp) => resp.status == 503 && resp.body@ == encode_utf8(
                    "Counter store unavailable."@,
                ),
                None => false,
            },
        },
{
    match d {
        GateDecision::Granted => None,
        GateDecision::Denied => Some(deny_response()),
        GateDecision::StoreUnavailable => Some(store_unavailable_response()),
    }
}

/// Finishes a request after the forwarding attempt: a successful
/// attempt is relayed verbatim with the gateway's marker appended; a
/// failed one is mapped to exactly one HTTP 500 response — never a
/// retry, never a crash of the handling task.
pub fn complete(kind: GatewayKind, outcome: Result<Response, String>) -> (r: Response)
    ensures
        match outcome {
            Ok(upstream) => r.status == upstream.status && r.headers@.len() == upstream.headers@.len()
                + 1 && r.headers@.subrange(0, upstream.headers@.len() as int) == upstream.headers@
                && r.headers@.last().0@ == marker_name_chars(kind) && r.headers@.last().1@ == "ok"@
                && r.body@ == upstream.body@,
            Err(detail) => r.status == 500 && r.headers@.len() == 1 && r.headers@[0].0@
                == "Content-Type"@ && r.headers@[0].1@ == "text/html"@ && r.body@ == encode_utf8(
                "Forwarding error: "@ + detail@,
            ),
        },
{
    match outcome {
        Ok(upstream) => relay_response(upstream, kind),
        Err(detail) => failure_response(detail.as_str()),
    }
}

/// Header passthrough with marker: the forwarder hands every inbound
/// header to the upstream unmodified, so when the upstream echoes the
/// forwarded headers back, the relayed response still contains each
/// inbound header — and it additionally carries the gateway's marker
/// header set to `ok`.
pub proof fn lemma_header_passthrough(
    inbound: Seq<(String, String)>,
    relayed: Seq<(String, String)>,
    kind: GatewayKind,
)
    requires
        relayed.len() == inbound.len() + 1,
        relayed.subrange(0, inbound.len() as int) == inbound,
        relayed.last().0@ == marker_name_chars(kind),
        relayed.last().1@ == "ok"@,
    ensures
        forall|n: Seq<char>, v: Seq<char>|
            contains_header(inbound, n, v) ==> contains_header(relayed, n, v),
        contains_header(relayed, marker_name_chars(kind), "ok"@),
{
    assert forall|n: Seq<char>, v: Seq<char>|
        contains_header(inbound, n, v) implies contains_header(relayed, n, v) by {
        let i = choose|i: int|
            0 <= i < inbound.len() && inbound[i].0@ == n && inbound[i].1@ == v;
        assert(relayed.subrange(0, inbound.len() as int)[i] == inbound[i]);
        assert(relayed[i] == inbound[i]);
    }
    assert(relayed[relayed.len() - 1].0@ == marker_name_chars(kind));
}

} // verus!

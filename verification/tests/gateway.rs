use edge_gateway::gateway::{
    complete, decision_response, deny_response, failure_response, gate_decision, marker_name,
    outbound_request, relay_response, store_unavailable_response, GateDecision, GatewayKind,
};
use edge_gateway::http::{build_target_uri, header_value, InboundRequest, Response};

fn inbound(method: &str, path_and_query: &str, headers: &[(&str, &str)]) -> InboundRequest {
    InboundRequest {
        method: method.to_string(),
        path_and_query: path_and_query.to_string(),
        headers: headers
            .iter()
            .map(|(n, v)| (n.to_string(), v.to_string()))
            .collect(),
        body: b"payload".to_vec(),
    }
}

#[test]
fn path_and_query_preserved_verbatim() {
    let uri = build_target_uri("http://127.0.0.1:8081", "/a/b?x=1");
    assert_eq!(uri, "http://127.0.0.1:8081/a/b?x=1");
    let req = inbound("GET", "/a/b?x=1", &[]);
    let out = outbound_request(&req, "http://127.0.0.1:8081");
    assert_eq!(out.uri, "http://127.0.0.1:8081/a/b?x=1");
    assert_eq!(out.method, "GET");
    assert_eq!(out.body, b"payload".to_vec());
}

#[test]
fn headers_pass_through_with_marker() {
    // Forward a request carrying `X-Test: 1` to an upstream that echoes
    // the headers back: the relayed response still contains `X-Test: 1`
    // and additionally the gateway's marker header.
    let req = inbound("GET", "/echo", &[("X-Test", "1"), ("Accept", "*/*")]);
    let out = outbound_request(&req, "http://127.0.0.1:9000");
    let echoed = Response { status: 200, headers: out.headers, body: out.body };
    let relayed = complete(GatewayKind::LoadBalancer, Ok(echoed));
    assert_eq!(relayed.status, 200);
    assert_eq!(
        header_value(&relayed.headers, &"X-Test".to_string()),
        Some("1".to_string())
    );
    assert_eq!(
        header_value(&relayed.headers, &"load-balancer-status".to_string()),
        Some("ok".to_string())
    );
    // Exactly one header was added.
    assert_eq!(relayed.headers.len(), req.headers.len() + 1);
    assert_eq!(relayed.body, b"payload".to_vec());
}

#[test]
fn rate_limiter_stamps_its_own_marker() {
    let upstream = Response { status: 204, headers: Vec::new(), body: Vec::new() };
    let relayed = relay_response(upstream, GatewayKind::RateLimiter);
    assert_eq!(relayed.status, 204);
    assert_eq!(
        header_value(&relayed.headers, &"rate-limiter-status".to_string()),
        Some("ok".to_string())
    );
    assert_eq!(marker_name(GatewayKind::LoadBalancer), "load-balancer-status");
    assert_eq!(marker_name(GatewayKind::RateLimiter), "rate-limiter-status");
}

#[test]
fn forwarding_failure_maps_to_single_500() {
    let r = complete(GatewayKind::LoadBalancer, Err("connection refused".to_string()));
    assert_eq!(r.status, 500);
    assert_eq!(
        header_value(&r.headers, &"Content-Type".to_string()),
        Some("text/html".to_string())
    );
    assert_eq!(r.body, b"Forwarding error: connection refused".to_vec());
    let direct = failure_response("upstream timed out");
    assert_eq!(direct.status, 500);
    assert_eq!(direct.body, b"Forwarding error: upstream timed out".to_vec());
}

#[test]
fn deny_response_is_429_with_json_body() {
    let r = deny_response();
    assert_eq!(r.status, 429);
    assert_eq!(
        header_value(&r.headers, &"Content-Type".to_string()),
        Some("application/json".to_string())
    );
    assert_eq!(
        r.body,
        b"{\"error\": \"Rate limit exceeded. Please try again later.\"}".to_vec()
    );
}

#[test]
fn gate_decisions_cover_every_outcome() {
    assert_eq!(gate_decision(Some(0), 5), GateDecision::Granted);
    assert_eq!(gate_decision(Some(5), 5), GateDecision::Granted);
    assert_eq!(gate_decision(Some(6), 5), GateDecision::Denied);
    assert_eq!(gate_decision(None, 5), GateDecision::StoreUnavailable);
}

#[test]
fn decision_responses_match_decisions() {
    assert!(decision_response(&GateDecision::Granted).is_none());
    let denied = decision_response(&GateDecision::Denied).unwrap();
    assert_eq!(denied.status, 429);
    let outage = decision_response(&GateDecision::StoreUnavailable).unwrap();
    assert_eq!(outage.status, 503);
    assert_eq!(outage.body, b"Counter store unavailable.".to_vec());
    let direct = store_unavailable_response();
    assert_eq!(direct.status, 503);
    assert_eq!(
        header_value(&direct.headers, &"Content-Type".to_string()),
        Some("text/plain".to_string())
    );
}

use gateway::forward::{
    bad_gateway_response, build_outbound_request, build_response, build_uri, forward_headers,
    is_host_header, log_line, response_with_status, InboundRequest, UpstreamOutcome,
};

fn pairs(items: &[(&str, &str)]) -> Vec<(String, String)> {
    items
        .iter()
        .map(|(k, v)| (k.to_string(), v.to_string()))
        .collect()
}

fn sample_request(method: &str, body: &[u8]) -> InboundRequest {
    InboundRequest {
        method: method.to_string(),
        path: "/anything".to_string(),
        headers: pairs(&[("accept", "*/*"), ("host", "proxy.local"), ("x-token", "abc")]),
        query: pairs(&[("a", "1"), ("b", "two")]),
        body: body.to_vec(),
    }
}

#[test]
fn uri_is_host_plus_path() {
    let uri = build_uri("https://httpbin.org", "/anything/sub?x");
    assert_eq!(uri, "https://httpbin.org/anything/sub?x");
}

#[test]
fn host_header_is_recognized_case_insensitively() {
    assert!(is_host_header("host"));
    assert!(is_host_header("Host"));
    assert!(is_host_header("HOST"));
    assert!(is_host_header("hOsT"));
    assert!(!is_host_header("hosts"));
    assert!(!is_host_header("x-host"));
    assert!(!is_host_header("hos"));
    assert!(!is_host_header("accept"));
}

#[test]
fn headers_forwarded_minus_host() {
    let headers = pairs(&[
        ("accept", "*/*"),
        ("Host", "proxy.local"),
        ("x-token", "abc"),
        ("HOST", "other.local"),
    ]);
    let forwarded = forward_headers(&headers);
    assert_eq!(forwarded, pairs(&[("accept", "*/*"), ("x-token", "abc")]));
}

#[test]
fn header_values_kept_exactly() {
    let headers = pairs(&[("x-mixed", "CaSe KePt"), ("hostile", "stays")]);
    let forwarded = forward_headers(&headers);
    assert_eq!(forwarded, headers);
}

#[test]
fn every_query_parameter_reaches_the_outbound_request() {
    let inbound = sample_request("GET", b"");
    let outbound = build_outbound_request(&inbound, "https://httpbin.org");
    for pair in &inbound.query {
        assert!(outbound.query.contains(pair));
    }
    assert_eq!(outbound.query.len(), inbound.query.len());
}

#[test]
fn get_with_empty_body_is_bodyless() {
    let inbound = sample_request("GET", b"");
    let outbound = build_outbound_request(&inbound, "https://httpbin.org");
    assert!(outbound.body.is_none());
    assert_eq!(outbound.uri, "https://httpbin.org/anything");
    assert_eq!(outbound.method, "GET");
}

#[test]
fn get_with_body_carries_the_body() {
    let inbound = sample_request("GET", b"payload");
    let outbound = build_outbound_request(&inbound, "https://httpbin.org");
    assert_eq!(outbound.body.as_deref(), Some(b"payload".as_slice()));
}

#[test]
fn post_with_empty_body_still_carries_a_body() {
    let inbound = sample_request("POST", b"");
    let outbound = build_outbound_request(&inbound, "https://httpbin.org");
    assert_eq!(outbound.body.as_deref(), Some(b"".as_slice()));
}

#[test]
fn upstream_success_is_passed_through() {
    let response = build_response(UpstreamOutcome::Success {
        status: 200,
        body: "{\"a\":1}".to_string(),
    });
    assert_eq!(response.status, 200);
    assert_eq!(response.body, "{\"a\":1}");
    assert_eq!(response.content_type, "application/json");
}

#[test]
fn upstream_error_status_is_passed_through() {
    let response = build_response(UpstreamOutcome::Success {
        status: 404,
        body: "not found".to_string(),
    });
    assert_eq!(response.status, 404);
    assert_eq!(response.body, "not found");
    assert_eq!(response.content_type, "application/json");
}

#[test]
fn transport_failure_becomes_bad_gateway() {
    let response = build_response(UpstreamOutcome::TransportFailure);
    assert_eq!(response.status, 502);
    assert_eq!(response.body, "Bad Gateway");
    assert_eq!(response.content_type, "application/json");
}

#[test]
fn out_of_range_status_becomes_bad_gateway() {
    for status in [0u16, 42, 99, 1000, u16::MAX] {
        let response = response_with_status(status, "ignored".to_string());
        assert_eq!(response.status, 502);
        assert_eq!(response.body, "Bad Gateway");
        assert_eq!(response.content_type, "application/json");
    }
}

#[test]
fn bad_gateway_response_is_fixed() {
    let response = bad_gateway_response();
    assert_eq!(response.status, 502);
    assert_eq!(response.body, "Bad Gateway");
    assert_eq!(response.content_type, "application/json");
}

#[test]
fn repeating_the_same_request_gives_the_same_response() {
    let inbound = sample_request("GET", b"");
    let first = build_outbound_request(&inbound, "https://httpbin.org");
    let second = build_outbound_request(&inbound, "https://httpbin.org");
    assert_eq!(first.uri, second.uri);
    assert_eq!(first.method, second.method);
    assert_eq!(first.headers, second.headers);
    assert_eq!(first.query, second.query);
    assert_eq!(first.body, second.body);

    let outcome = || UpstreamOutcome::Success { status: 200, body: "same".to_string() };
    let r1 = build_response(outcome());
    let r2 = build_response(outcome());
    assert_eq!(r1.status, r2.status);
    assert_eq!(r1.body, r2.body);
    assert_eq!(r1.content_type, r2.content_type);
}

#[test]
fn log_line_formats_status_method_and_uri() {
    let line = log_line(502, "GET", "https://httpbin.org/anything");
    assert_eq!(line, "502 GET https://httpbin.org/anything");
    let line = log_line(7, "POST", "u");
    assert_eq!(line, "7 POST u");
    let line = log_line(65535, "PUT", "https://httpbin.org/");
    assert_eq!(line, "65535 PUT https://httpbin.org/");
}

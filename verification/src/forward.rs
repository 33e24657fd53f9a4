//! The forwarder: derives the outbound upstream request from an inbound
//! request and maps the upstream outcome to the caller's response.
//!
//! The caller-facing flow is `build_outbound_request` (inbound request plus
//! fixed upstream host gives the outbound request), then one network attempt
//! performed outside this crate, then `build_response` (upstream outcome
//! gives the response the caller sees).

use vstd::prelude::*;
use vstd::string::*;

verus! {

/// An inbound HTTP request, as handed over by the serving layer: method and
/// path as plain strings, headers as an ordered sequence of name/value pairs,
/// query parameters as name/value pairs (single value per name), and the raw
/// body bytes.
pub struct InboundRequest {
    pub method: String,
    pub path: String,
    pub headers: Vec<(String, String)>,
    pub query: Vec<(String, String)>,
    pub body: Vec<u8>,
}

/// The outbound request to replay against the upstream host. `body` is
/// `None` exactly when the bodyless call path is to be used.
pub struct OutboundRequest {
    pub uri: String,
    pub method: String,
    pub headers: Vec<(String, String)>,
    pub query: Vec<(String, String)>,
    pub body: Option<Vec<u8>>,
}

/// What came back from the single outbound attempt: either a status-bearing
/// reply (any status, including 4xx/5xx), or a transport failure that carries
/// no usable status (connection refused, DNS failure, timeout, I/O error).
pub enum UpstreamOutcome {
    Success { status: u16, body: String },
    TransportFailure,
}

/// The response returned to the original caller. The content type is fixed
/// to `application/json` whatever the upstream sent.
pub struct OutboundResponse {
    pub status: u16,
    pub content_type: String,
    pub body: String,
}

/// Holds exactly when `name` is the `host` header name, compared
/// case-insensitively (ASCII letter case only, as HTTP header names allow).
pub open spec fn is_host_name(name: Seq<char>) -> bool {
    &&& name.len() == 4
    &&& (name[0] == 'h' || name[0] == 'H')
    &&& (name[1] == 'o' || name[1] == 'O')
    &&& (name[2] == 's' || name[2] == 'S')
    &&& (name[3] == 't' || name[3] == 'T')
}

/// The headers forwarded upstream: the inbound headers with every `host`
/// header removed, order and all other pairs kept exactly.
pub open spec fn spec_forward_headers(headers: Seq<(String, String)>) -> Seq<(String, String)> {
    headers.filter(|h: (String, String)| !is_host_name(h.0@))
}

/// Decides whether a header name is the `host` header (case-insensitive).
pub fn is_host_header(name: &str) -> (r: bool)
    ensures
        r == is_host_name(name@),
{
    if name.unicode_len() != 4 {
        return false;
    }
    let c0 = name.get_char(0);
    let c1 = name.get_char(1);
    let c2 = name.get_char(2);
    let c3 = name.get_char(3);
    (c0 == 'h' || c0 == 'H') && (c1 == 'o' || c1 == 'O') && (c2 == 's' || c2 == 'S') && (c3 == 't'
        || c3 == 'T')
}

proof fn lemma_forward_headers_push(s: Seq<(String, String)>, x: (String, String))
    ensures
        spec_forward_headers(s.push(x)) == if !is_host_name(x.0@) {
            spec_forward_headers(s).push(x)
        } else {
            spec_forward_headers(s)
        },
{
    reveal(Seq::filter);
    assert(s.push(x).drop_last() =~= s);
    assert(s.push(x).last() == x);
}

/// Copies the inbound headers onto the outbound request, dropping every
/// `host` header (case-insensitive) and keeping each remaining header's name
/// and value exactly, in order.
pub fn forward_headers(headers: &Vec<(String, String)>) -> (r: Vec<(String, String)>)
    ensures
        r@ == spec_forward_headers(headers@),
{
    let mut out: Vec<(String, String)> = Vec::new();
    let mut i: usize = 0;
    while i < headers.len()
        invariant
            i <= headers@.len(),
            out@ == spec_forward_headers(headers@.subrange(0, i as int)),
        decreases headers@.len() - i,
    {
        let name = headers[i].0.clone();
        let value = headers[i].1.clone();
        let keep = !is_host_header(name.as_str());
        proof {
            let pre = headers@.subrange(0, i as int);
            assert(headers@.subrange(0, i as int + 1) =~= pre.push(headers@[i as int]));
            lemma_forward_headers_push(pre, headers@[i as int]);
            assert((name, value) == headers@[i as int]);
        }
        if keep {
            out.push((name, value));
        }
        i += 1;
    }
    proof {
        assert(headers@.subrange(0, headers@.len() as int) =~= headers@);
    }
    out
}

/// Decides whether the method is GET (HTTP methods are case-sensitive).
pub fn is_get_method(method: &String) -> (r: bool)
    ensures
        r == (method@ == "GET"@),
{
    let g: String = "GET".to_owned();
    *method == g
}

/// Holds exactly when the outbound call must carry the body: every
/// method/body combination except GET with an empty body.
pub open spec fn spec_sends_body(method: Seq<char>, body: Seq<u8>) -> bool {
    !(method == "GET"@ && body.len() == 0)
}

/// Copies the query parameters onto the outbound request, each name/value
/// pair kept exactly.
pub fn forward_query(query: &Vec<(String, String)>) -> (r: Vec<(String, String)>)
    ensures
        r@ == query@,
{
    let mut out: Vec<(String, String)> = Vec::new();
    let mut i: usize = 0;
    while i < query.len()
        invariant
            i <= query@.len(),
            out@ == query@.subrange(0, i as int),
        decreases query@.len() - i,
    {
        let name = query[i].0.clone();
        let value = query[i].1.clone();
        proof {
            assert(query@.subrange(0, i as int + 1) =~= query@.subrange(0, i as int).push(
                query@[i as int],
            ));
            assert((name, value) == query@[i as int]);
        }
        out.push((name, value));
        i += 1;
    }
    proof {
        assert(query@.subrange(0, query@.len() as int) =~= query@);
    }
    out
}

/// Copies the raw body bytes.
pub fn copy_bytes(bytes: &Vec<u8>) -> (r: Vec<u8>)
    ensures
        r@ == bytes@,
{
    let mut out: Vec<u8> = Vec::new();
    let mut i: usize = 0;
    while i < bytes.len()
        invariant
            i <= bytes@.len(),
            out@ == bytes@.subrange(0, i as int),
        decreases bytes@.len() - i,
    {
        proof {
            assert(bytes@.subrange(0, i as int + 1) =~= bytes@.subrange(0, i as int).push(
                bytes@[i as int],
            ));
        }
        out.push(bytes[i]);
        i += 1;
    }
    proof {
        assert(bytes@.subrange(0, bytes@.len() as int) =~= bytes@);
    }
    out
}

/// The target URI: the fixed upstream host concatenated with the inbound
/// path verbatim (no normalization, no re-encoding). Query parameters are
/// not part of the URI; they travel separately on the outbound request.
pub fn build_uri(host: &str, path: &str) -> (r: String)
    ensures
        r@ == host@ + path@,
{
    let mut uri: String = host.to_owned();
    uri.append(path);
    uri
}

/// Holds exactly when `r` is the outbound request that `inbound` determines
/// for the upstream `host`: host-plus-path URI, same method, headers minus
/// `host`, the same query pairs, and the body attached unless the call is a
/// bodyless GET.
pub open spec fn outbound_for(inbound: InboundRequest, host: Seq<char>, r: OutboundRequest) -> bool {
    &&& r.uri@ == host + inbound.path@
    &&& r.method@ == inbound.method@
    &&& r.headers@ == spec_forward_headers(inbound.headers@)
    &&& r.query@ == inbound.query@
    &&& match r.body {
        Some(b) => spec_sends_body(inbound.method@, inbound.body@) && b@ == inbound.body@,
        None => !spec_sends_body(inbound.method@, inbound.body@),
    }
}

/// Derives the outbound request for the fixed upstream `host` from the
/// inbound request: concatenates host and path, strips any `host` header,
/// reattaches every query parameter, and chooses the bodyless call exactly
/// for GET with an empty body.
pub fn build_outbound_request(inbound: &InboundRequest, host: &str) -> (r: OutboundRequest)
    ensures
        outbound_for(*inbound, host@, r),
{
    let uri = build_uri(host, inbound.path.as_str());
    let method = inbound.method.clone();
    let headers = if inbound.headers.is_empty() {
        Vec::new()
    } else {
        forward_headers(&inbound.headers)
    };
    let query = if inbound.query.is_empty() {
        Vec::new()
    } else {
        forward_query(&inbound.query)
    };
    let body = if is_get_method(&inbound.method) && inbound.body.is_empty() {
        None
    } else {
        Some(copy_bytes(&inbound.body))
    };
    proof {
        if inbound.headers@.len() == 0 {
            reveal(Seq::filter);
            assert(spec_forward_headers(inbound.headers@) =~= Seq::<(String, String)>::empty());
        }
        if inbound.query@.len() == 0 {
            assert(inbound.query@ =~= Seq::<(String, String)>::empty());
        }
    }
    OutboundRequest { uri, method, headers, query, body }
}

/// Holds exactly for the numeric codes that name a well-formed HTTP status.
pub open spec fn valid_status(code: u16) -> bool {
    100 <= code && code <= 999
}

/// Holds exactly when `r` is the response owed to the caller for `outcome`:
/// a status-bearing upstream reply is passed through verbatim (status and
/// body), a transport failure or an out-of-range status code becomes the
/// synthesized gateway error, and the content type is always fixed to
/// `application/json`.
pub open spec fn response_matches(outcome: UpstreamOutcome, r: OutboundResponse) -> bool {
    &&& r.content_type@ == "application/json"@
    &&& match outcome {
        UpstreamOutcome::Success { status, body } => if valid_status(status) {
            r.status == status && r.body@ == body@
        } else {
            r.status == 502 && r.body@ == "Bad Gateway"@
        },
        UpstreamOutcome::TransportFailure => r.status == 502 && r.body@ == "Bad Gateway"@,
    }
}

/// The synthesized gateway error: status 502, body exactly `Bad Gateway`,
/// and the fixed content type.
pub fn bad_gateway_response() -> (r: OutboundResponse)
    ensures
        r.status == 502,
        r.body@ == "Bad Gateway"@,
        r.content_type@ == "application/json"@,
{
    OutboundResponse {
        status: 502,
        content_type: "application/json".to_owned(),
        body: "Bad Gateway".to_owned(),
    }
}

/// Builds the caller's response from a status-bearing upstream reply: the
/// upstream status and body are kept verbatim and the content type is fixed
/// to `application/json`. A status code outside the well-formed range is an
/// upstream invariant violation and yields the gateway error instead, so
/// that one malformed reply cannot abort the request handler.
pub fn response_with_status(status: u16, body: String) -> (r: OutboundResponse)
    ensures
        valid_status(status) ==> r.status == status && r.body@ == body@,
        !valid_status(status) ==> r.status == 502 && r.body@ == "Bad Gateway"@,
        r.content_type@ == "application/json"@,
{
    if status < 100 || status > 999 {
        return bad_gateway_response();
    }
    OutboundResponse { status, content_type: "application/json".to_owned(), body }
}

/// Maps the outcome of the single outbound attempt to the response returned
/// to the original caller. Total: every outcome yields exactly one response.
pub fn build_response(outcome: UpstreamOutcome) -> (r: OutboundResponse)
    ensures
        response_matches(outcome, r),
{
    match outcome {
        UpstreamOutcome::Success { status, body } => response_with_status(status, body),
        UpstreamOutcome::TransportFailure => bad_gateway_response(),
    }
}

/// The character for one decimal digit.
pub open spec fn digit_char(d: nat) -> char {
    if d == 0 {
        '0'
    } else if d == 1 {
        '1'
    } else if d == 2 {
        '2'
    } else if d == 3 {
        '3'
    } else if d == 4 {
        '4'
    } else if d == 5 {
        '5'
    } else if d == 6 {
        '6'
    } else if d == 7 {
        '7'
    } else if d == 8 {
        '8'
    } else {
        '9'
    }
}

/// The decimal digits of `n`, most significant first, no leading zeros.
pub open spec fn spec_decimal(n: nat) -> Seq<char>
    decreases n,
{
    if n < 10 {
        seq![digit_char(n)]
    } else {
        spec_decimal(n / 10).push(digit_char(n % 10))
    }
}

fn digit_str(d: u16) -> (r: &'static str)
    requires
        d < 10,
    ensures
        r@ == seq![digit_char(d as nat)],
{
    match d {
        0 => {
            proof {
                reveal_strlit("0");
                assert("0"@ =~= seq![digit_char(0)]);
            }
            "0"
        },
        1 => {
            proof {
                reveal_strlit("1");
                assert("1"@ =~= seq![digit_char(1)]);
            }
            "1"
        },
        2 => {
            proof {
                reveal_strlit("2");
                assert("2"@ =~= seq![digit_char(2)]);
            }
            "2"
        },
        3 => {
            proof {
                reveal_strlit("3");
                assert("3"@ =~= seq![digit_char(3)]);
            }
            "3"
        },
        4 => {
            proof {
                reveal_strlit("4");
                assert("4"@ =~= seq![digit_char(4)]);
            }
            "4"
        },
        5 => {
            proof {
                reveal_strlit("5");
                assert("5"@ =~= seq![digit_char(5)]);
            }
            "5"
        },
        6 => {
            proof {
                reveal_strlit("6");
                assert("6"@ =~= seq![digit_char(6)]);
            }
            "6"
        },
        7 => {
            proof {
                reveal_strlit("7");
                assert("7"@ =~= seq![digit_char(7)]);
            }
            "7"
        },
        8 => {
            proof {
                reveal_strlit("8");
                assert("8"@ =~= seq![digit_char(8)]);
            }
            "8"
        },
        _ => {
            proof {
                reveal_strlit("9");
                assert("9"@ =~= seq![digit_char(9)]);
            }
            "9"
        },
    }
}

fn append_decimal(s: &mut String, n: u16)
    ensures
        final(s)@ == old(s)@ + spec_decimal(n as nat),
    decreases n,
{
    let ghost start = s@;
    if n >= 10 {
        append_decimal(s, n / 10);
    }
    let d = digit_str(n % 10);
    s.append(d);
    proof {
        assert(s@ =~= start + spec_decimal(n as nat));
    }
}

/// The observability line emitted once per completed forward: the resulting
/// status code, the inbound method, and the target URI, space-separated.
pub fn log_line(status: u16, method: &str, uri: &str) -> (r: String)
    ensures
        r@ == spec_decimal(status as nat) + seq![' '] + method@ + seq![' '] + uri@,
{
    let mut line = String::new();
    append_decimal(&mut line, status);
    line.append(" ");
    line.append(method);
    line.append(" ");
    line.append(uri);
    proof {
        reveal_strlit(" ");
        assert(" "@ =~= seq![' ']);
        assert(line@ =~= spec_decimal(status as nat) + seq![' '] + method@ + seq![' '] + uri@);
    }
    line
}

proof fn lemma_forward_headers_no_host(s: Seq<(String, String)>)
    ensures
        forall|i: int|
            0 <= i < spec_forward_headers(s).len() ==> !is_host_name(
                #[trigger] spec_forward_headers(s)[i].0@,
            ),
    decreases s.len(),
{
    if s.len() == 0 {
        reveal(Seq::filter);
    } else {
        let pre = s.drop_last();
        lemma_forward_headers_no_host(pre);
        assert(pre.push(s.last()) =~= s);
        lemma_forward_headers_push(pre, s.last());
        if !is_host_name(s.last().0@) {
            assert forall|i: int| 0 <= i < spec_forward_headers(s).len() implies !is_host_name(
                spec_forward_headers(s)[i].0@,
            ) by {
                if i < spec_forward_headers(pre).len() {
                    assert(spec_forward_headers(s)[i] == spec_forward_headers(pre)[i]);
                } else {
                    assert(spec_forward_headers(s)[i] == s.last());
                }
            }
        }
    }
}

proof fn lemma_forward_headers_subset(s: Seq<(String, String)>)
    ensures
        forall|p: (String, String)| #[trigger]
            spec_forward_headers(s).contains(p) ==> s.contains(p),
    decreases s.len(),
{
    if s.len() == 0 {
        reveal(Seq::filter);
    } else {
        let pre = s.drop_last();
        lemma_forward_headers_subset(pre);
        assert(pre.push(s.last()) =~= s);
        lemma_forward_headers_push(pre, s.last());
        assert forall|p: (String, String)| #[trigger]
            spec_forward_headers(s).contains(p) implies s.contains(p) by {
            if spec_forward_headers(pre).contains(p) {
                let i = choose|i: int| 0 <= i < pre.len() && pre[i] == p;
                assert(s[i] == p);
            } else {
                let i = choose|i: int|
                    0 <= i < spec_forward_headers(s).len() && spec_forward_headers(s)[i] == p;
                assert(p == s.last());
                assert(s[s.len() - 1] == p);
            }
        }
    }
}

proof fn lemma_forward_headers_complete(s: Seq<(String, String)>)
    ensures
        forall|p: (String, String)| #[trigger]
            s.contains(p) && !is_host_name(p.0@) ==> spec_forward_headers(s).contains(p),
    decreases s.len(),
{
    if s.len() == 0 {
    } else {
        let pre = s.drop_last();
        lemma_forward_headers_complete(pre);
        assert(pre.push(s.last()) =~= s);
        lemma_forward_headers_push(pre, s.last());
        assert forall|p: (String, String)| #[trigger]
            s.contains(p) && !is_host_name(p.0@) implies spec_forward_headers(s).contains(p) by {
            let i = choose|i: int| 0 <= i < s.len() && s[i] == p;
            if i < pre.len() {
                assert(pre[i] == p);
                assert(pre.contains(p));
                assert(spec_forward_headers(pre).contains(p));
                let j = choose|j: int|
                    0 <= j < spec_forward_headers(pre).len() && spec_forward_headers(pre)[j] == p;
                assert(spec_forward_headers(s)[j] == p);
            } else {
                assert(p == s.last());
                let n = spec_forward_headers(pre).len() as int;
                assert(spec_forward_headers(s)[n] == p);
            }
        }
    }
}

/// Law: the outbound request's headers equal the inbound headers minus any
/// `host` header (case-insensitive) — no forwarded header is a `host`
/// header, every forwarded header occurs inbound with its name and value
/// kept exactly, and every non-`host` inbound header is forwarded.
pub proof fn lemma_header_propagation(inbound: InboundRequest, host: Seq<char>, r: OutboundRequest)
    requires
        outbound_for(inbound, host, r),
    ensures
        r.headers@ == spec_forward_headers(inbound.headers@),
        forall|i: int| 0 <= i < r.headers@.len() ==> !is_host_name(#[trigger] r.headers@[i].0@),
        forall|p: (String, String)| #[trigger] r.headers@.contains(p) ==> inbound.headers@.contains(p),
        forall|p: (String, String)| #[trigger]
            inbound.headers@.contains(p) && !is_host_name(p.0@) ==> r.headers@.contains(p),
{
    lemma_forward_headers_no_host(inbound.headers@);
    lemma_forward_headers_subset(inbound.headers@);
    lemma_forward_headers_complete(inbound.headers@);
}

/// Law: every inbound query parameter reaches the outbound request and no
/// other parameter appears there — the name/value pair sets are equal.
pub proof fn lemma_query_propagation(inbound: InboundRequest, host: Seq<char>, r: OutboundRequest)
    requires
        outbound_for(inbound, host, r),
    ensures
        forall|p: (String, String)|
            #![trigger r.query@.contains(p)]
            #![trigger inbound.query@.contains(p)]
            r.query@.contains(p) <==> inbound.query@.contains(p),
{
}

/// Law: GET with an empty body issues the bodyless outbound call; every
/// other method/body combination carries the inbound body verbatim,
/// including a non-GET method with an empty body.
pub proof fn lemma_body_policy(inbound: InboundRequest, host: Seq<char>, r: OutboundRequest)
    requires
        outbound_for(inbound, host, r),
    ensures
        (inbound.method@ == "GET"@ && inbound.body@.len() == 0) ==> r.body is None,
        !(inbound.method@ == "GET"@ && inbound.body@.len() == 0) ==> (r.body matches Some(b)
            && b@ == inbound.body@),
{
}

/// Law: forwarding is deterministic, so one inbound request yields exactly
/// one outbound request, and repeating the same inbound request against an
/// unchanged upstream (the same outcome) yields the same response each time.
pub proof fn lemma_forward_deterministic(
    inbound: InboundRequest,
    host: Seq<char>,
    r1: OutboundRequest,
    r2: OutboundRequest,
    outcome: UpstreamOutcome,
    resp1: OutboundResponse,
    resp2: OutboundResponse,
)
    requires
        outbound_for(inbound, host, r1),
        outbound_for(inbound, host, r2),
        response_matches(outcome, resp1),
        response_matches(outcome, resp2),
    ensures
        r1.uri@ == r2.uri@,
        r1.method@ == r2.method@,
        r1.headers@ == r2.headers@,
        r1.query@ == r2.query@,
        r1.body is Some <==> r2.body is Some,
        (r1.body is Some && r2.body is Some) ==> r1.body->0@ == r2.body->0@,
        resp1.status == resp2.status,
        resp1.body@ == resp2.body@,
        resp1.content_type@ == resp2.content_type@,
{
}

} // verus!

use base64::engine::general_purpose::STANDARD;
use base64::Engine;
use cmux_preview_proxy::handlers::{
    classify_request, handle_request, is_upgrade_request, log_line, parse_host_port,
    parse_proxy_request_target, plan_connect, plan_forward, plan_upgrade, response_headers,
    upgrade_outcome, upstream_failure_response, LogDetail, ProxyAction, RequestHead,
    RequestKind, UpgradeOutcome,
};
use cmux_preview_proxy::response::{bad_gateway_bytes, connect_established_response};
use cmux_preview_proxy::types::{ProxyContext, ProxyState};
use http::header::{HeaderName, HeaderValue};
use http::HeaderMap;

fn headers(pairs: &[(&str, &str)]) -> HeaderMap {
    let mut map = HeaderMap::new();
    for (name, value) in pairs {
        map.append(
            HeaderName::from_bytes(name.as_bytes()).unwrap(),
            HeaderValue::from_str(value).unwrap(),
        );
    }
    map
}

fn names(map: &HeaderMap) -> Vec<String> {
    let mut names: Vec<String> = map.keys().map(|k| k.as_str().to_string()).collect();
    names.sort();
    names
}

fn request(method: &str, uri: &str, pairs: &[(&str, &str)]) -> RequestHead {
    let uri: http::Uri = uri.parse().unwrap();
    RequestHead {
        method: method.to_string(),
        scheme: uri.scheme_str().map(|s| s.to_string()),
        authority: uri.authority().map(|a| a.as_str().to_string()),
        path: uri.path().to_string(),
        query: uri.query().map(|q| q.to_string()),
        headers: headers(pairs),
    }
}

fn registered() -> (ProxyState, String) {
    let mut state = ProxyState::new();
    let cred = state
        .register_context(1, "https://cmux-abc-base-3000.cmux.app/", None)
        .unwrap();
    let auth = format!(
        "Basic {}",
        STANDARD.encode(format!("{}:{}", cred.username, cred.password))
    );
    (state, auth)
}

fn context() -> ProxyContext {
    let (state, _) = registered();
    state.get_context_by_web_contents_id(1).unwrap()
}

#[test]
fn loopback_connect_is_rewritten() {
    let (state, auth) = registered();
    let req = request("CONNECT", "127.0.0.1:7000", &[("Proxy-Authorization", &auth)]);
    match handle_request(&req, &state) {
        ProxyAction::Connect(plan) => {
            assert_eq!(plan.response.status, 200);
            assert_eq!(plan.response.headers.len(), 1);
            assert_eq!(plan.response.headers[0].name, "connection");
            assert_eq!(plan.response.headers[0].value, "upgrade");
            assert_eq!(plan.response.body, "");
            assert_eq!(plan.host, "cmux-abc-base-7000.cmux.app");
            assert_eq!(plan.port, 443);
        }
        _ => panic!("a tunnel was expected"),
    }
}

#[test]
fn missing_credentials_get_407() {
    let (state, _) = registered();
    let req = request("GET", "http://127.0.0.1/", &[]);
    match handle_request(&req, &state) {
        ProxyAction::Respond(resp) => {
            assert_eq!(resp.status, 407);
            assert_eq!(resp.headers[0].name, "Proxy-Authenticate");
            assert_eq!(resp.headers[0].value, "Basic realm=\"Cmux Preview Proxy\"");
        }
        _ => panic!("a response was expected"),
    }
}

#[test]
fn wrong_credentials_get_407_for_every_kind_of_request() {
    let (state, _) = registered();
    let wrong = format!("Basic {}", STANDARD.encode("wc-1-00000000:nope"));
    for req in [
        request("GET", "http://127.0.0.1/", &[("Proxy-Authorization", &wrong)]),
        request("CONNECT", "127.0.0.1:7000", &[("Proxy-Authorization", &wrong)]),
        request(
            "GET",
            "http://localhost/ws",
            &[("Proxy-Authorization", &wrong), ("Connection", "upgrade"), ("Upgrade", "websocket")],
        ),
        request("GET", "http://127.0.0.1/", &[("Proxy-Authorization", "Basic")]),
        request("GET", "http://127.0.0.1/", &[("Authorization", &wrong)]),
    ] {
        match handle_request(&req, &state) {
            ProxyAction::Respond(resp) => assert_eq!(resp.status, 407),
            _ => panic!("a response was expected"),
        }
    }
}

#[test]
fn other_host_passes_through() {
    let (state, auth) = registered();
    let req = request(
        "GET",
        "http://example.com:8443/foo",
        &[("Proxy-Authorization", &auth), ("Accept", "*/*")],
    );
    match handle_request(&req, &state) {
        ProxyAction::Forward(plan) => {
            assert_eq!(plan.method, "GET");
            assert_eq!(plan.uri, "http://example.com:8443/foo");
            assert_eq!(plan.target.connect_port, 8443);
            assert_eq!(plan.headers.get("host").unwrap(), "example.com:8443");
            assert_eq!(names(&plan.headers), vec!["accept", "host"]);
        }
        _ => panic!("a forwarded request was expected"),
    }
}

#[test]
fn web_socket_upgrade_to_loopback() {
    let (state, auth) = registered();
    let req = request(
        "GET",
        "ws://localhost:4000/ws",
        &[
            ("Proxy-Authorization", &auth),
            ("Upgrade", "websocket"),
            ("Connection", "upgrade"),
            ("Sec-WebSocket-Key", "dGhlIHNhbXBsZSBub25jZQ=="),
            ("Sec-WebSocket-Version", "13"),
            ("Proxy-Connection", "keep-alive"),
            ("Keep-Alive", "timeout=5"),
            ("TE", "trailers"),
        ],
    );
    match handle_request(&req, &state) {
        ProxyAction::Upgrade(plan) => {
            assert_eq!(plan.uri, "https://cmux-abc-base-4000.cmux.app/ws");
            assert_eq!(plan.target.connect_port, 443);
            assert_eq!(plan.headers.get("host").unwrap(), "cmux-abc-base-4000.cmux.app");
            assert_eq!(plan.headers.get("upgrade").unwrap(), "websocket");
            assert_eq!(plan.headers.get("connection").unwrap(), "upgrade");
            assert_eq!(
                names(&plan.headers),
                vec!["connection", "host", "sec-websocket-key", "sec-websocket-version", "upgrade"]
            );
        }
        _ => panic!("an upgrade was expected"),
    }
    let upstream = headers(&[("Upgrade", "websocket"), ("Sec-WebSocket-Accept", "x")]);
    match upgrade_outcome(101, &upstream) {
        UpgradeOutcome::Switch { headers } => {
            assert_eq!(headers.get("connection").unwrap(), "upgrade");
            assert_eq!(headers.get("upgrade").unwrap(), "websocket");
            assert_eq!(headers.get("sec-websocket-accept").unwrap(), "x");
        }
        _ => panic!("a switch was expected"),
    }
}

#[test]
fn upstream_that_declines_the_upgrade_is_mirrored() {
    let upstream = headers(&[("Connection", "close"), ("Content-Type", "text/plain")]);
    match upgrade_outcome(403, &upstream) {
        UpgradeOutcome::Mirror { status, headers } => {
            assert_eq!(status, 403);
            assert_eq!(headers, upstream);
        }
        _ => panic!("a mirrored response was expected"),
    }
    match upgrade_outcome(200, &upstream) {
        UpgradeOutcome::Mirror { status, .. } => assert_eq!(status, 200),
        _ => panic!("a mirrored response was expected"),
    }
}

#[test]
fn request_kinds() {
    let connect = request("CONNECT", "example.com:443", &[]);
    assert_eq!(classify_request(&connect), RequestKind::Connect);
    let upgrade = request(
        "GET",
        "http://example.com/",
        &[("Connection", "keep-alive, Upgrade"), ("Upgrade", "websocket")],
    );
    assert!(is_upgrade_request(&upgrade));
    assert_eq!(classify_request(&upgrade), RequestKind::Upgrade);
    let no_upgrade_header = request("GET", "http://example.com/", &[("Connection", "upgrade")]);
    assert!(!is_upgrade_request(&no_upgrade_header));
    assert_eq!(classify_request(&no_upgrade_header), RequestKind::Http);
    let no_token = request(
        "GET",
        "http://example.com/",
        &[("Connection", "keep-alive"), ("Upgrade", "websocket")],
    );
    assert!(!is_upgrade_request(&no_token));
    let part_of_a_token = request(
        "GET",
        "http://example.com/",
        &[("Connection", "upgrade-insecure"), ("Upgrade", "websocket")],
    );
    assert!(!is_upgrade_request(&part_of_a_token));
    let connect_wins = request(
        "CONNECT",
        "example.com:443",
        &[("Connection", "upgrade"), ("Upgrade", "websocket")],
    );
    assert_eq!(classify_request(&connect_wins), RequestKind::Connect);
    let lower_case_method = request("connect", "example.com:443", &[]);
    assert_eq!(classify_request(&lower_case_method), RequestKind::Http);
}

#[test]
fn origin_form_requests_take_the_host_header() {
    let req = request("GET", "/path?x=1", &[("Host", "localhost:3000")]);
    let url = parse_proxy_request_target(&req).unwrap();
    assert_eq!(url.scheme, "http");
    assert_eq!(url.host.as_deref(), Some("localhost"));
    assert_eq!(url.port, Some(3000));
    assert_eq!(url.path, "/path");
    assert_eq!(url.query.as_deref(), Some("x=1"));

    let plan = plan_forward(&req, &context()).unwrap();
    assert_eq!(plan.uri, "https://cmux-abc-base-3000.cmux.app/path?x=1");
}

#[test]
fn request_without_any_host_is_refused() {
    let req = request("GET", "/path", &[]);
    let resp = parse_proxy_request_target(&req).unwrap_err();
    assert_eq!(resp.status, 400);
    assert_eq!(resp.body, "missing host header for proxy request");
    assert_eq!(resp.headers[0].name, "content-type");
    assert_eq!(resp.headers[0].value, "text/plain; charset=utf-8");

    let req = request("GET", "/path", &[("Host", "exa mple")]);
    let resp = parse_proxy_request_target(&req).unwrap_err();
    assert_eq!(resp.status, 400);
    assert_eq!(resp.body, "failed to parse proxy request target");
}

#[test]
fn forwarded_request_drops_credentials_and_hop_headers() {
    let req = request(
        "POST",
        "http://localhost:8080/api",
        &[
            ("Proxy-Authorization", "Basic abc"),
            ("Host", "localhost:8080"),
            ("Connection", "close, x-trace"),
            ("X-Trace", "1"),
            ("Upgrade", "h2c"),
            ("Content-Type", "application/json"),
            ("Authorization", "Bearer t"),
        ],
    );
    let plan = plan_forward(&req, &context()).unwrap();
    assert_eq!(plan.uri, "https://cmux-abc-base-8080.cmux.app/api");
    assert_eq!(plan.headers.get("host").unwrap(), "cmux-abc-base-8080.cmux.app");
    assert_eq!(names(&plan.headers), vec!["authorization", "content-type", "host"]);
}

#[test]
fn upgrade_plan_keeps_what_the_handshake_needs() {
    let req = request(
        "GET",
        "http://example.com/ws",
        &[
            ("Proxy-Authorization", "Basic abc"),
            ("Connection", "Upgrade"),
            ("Upgrade", "websocket"),
            ("Transfer-Encoding", "chunked"),
            ("Trailers", "x"),
        ],
    );
    let plan = plan_upgrade(&req, &context()).unwrap();
    assert_eq!(plan.uri, "http://example.com/ws");
    assert_eq!(names(&plan.headers), vec!["connection", "host", "upgrade"]);
}

#[test]
fn connect_needs_host_and_port() {
    let ctx = context();
    let mut req = request("CONNECT", "example.com:8443", &[]);
    let plan = plan_connect(&req, &ctx).unwrap();
    assert_eq!(plan.host, "example.com");
    assert_eq!(plan.port, 8443);

    req.authority = Some("example.com".to_string());
    let resp = plan_connect(&req, &ctx).unwrap_err();
    assert_eq!(resp.status, 400);
    assert_eq!(resp.body, "failed to parse CONNECT authority");

    req.authority = None;
    let resp = plan_connect(&req, &ctx).unwrap_err();
    assert_eq!(resp.status, 400);
    assert_eq!(resp.body, "CONNECT missing authority");

    req.authority = Some("[::1]:9000".to_string());
    let plan = plan_connect(&req, &ctx).unwrap();
    assert_eq!(plan.host, "cmux-abc-base-9000.cmux.app");
    assert_eq!(plan.port, 443);
}

#[test]
fn host_and_port_are_cut_at_the_last_colon() {
    assert_eq!(parse_host_port("example.com:80"), Some(("example.com".to_string(), 80)));
    assert_eq!(parse_host_port("[::1]:443"), Some(("[::1]".to_string(), 443)));
    assert_eq!(parse_host_port("a:b:0"), Some(("a:b".to_string(), 0)));
    assert_eq!(parse_host_port(":65535"), Some(("".to_string(), 65535)));
    assert_eq!(parse_host_port("example.com"), None);
    assert_eq!(parse_host_port("example.com:"), None);
    assert_eq!(parse_host_port("example.com:65536"), None);
    assert_eq!(parse_host_port("example.com:+80"), None);
    assert_eq!(parse_host_port("example.com:8o"), None);
    assert_eq!(parse_host_port(""), None);
}

#[test]
fn response_headers_lose_the_hop_headers() {
    let upstream = headers(&[
        ("Content-Type", "text/html"),
        ("Connection", "keep-alive"),
        ("Keep-Alive", "timeout=5"),
        ("Transfer-Encoding", "chunked"),
        ("Set-Cookie", "a=1"),
        ("Set-Cookie", "b=2"),
    ]);
    let out = response_headers(&upstream);
    assert_eq!(names(&out), vec!["content-type", "set-cookie"]);
    assert_eq!(out.get_all("set-cookie").iter().count(), 2);
}

#[test]
fn fixed_responses() {
    let resp = upstream_failure_response("connection refused");
    assert_eq!(resp.status, 502);
    assert_eq!(resp.body, "upstream request failed: connection refused");
    assert_eq!(
        bad_gateway_bytes(),
        b"HTTP/1.1 502 Bad Gateway\r\nContent-Length: 0\r\n\r\n".to_vec()
    );
    let resp = connect_established_response();
    assert_eq!(resp.status, 200);
    assert_eq!(resp.body, "");
}

#[test]
fn log_lines_are_written_only_while_logging_is_on() {
    let mut state = ProxyState::new();
    let details = vec![
        LogDetail { key: "username".to_string(), value: "wc-1-ab".to_string() },
        LogDetail { key: "port".to_string(), value: "443".to_string() },
    ];
    assert_eq!(log_line(&state, "connect-request", &details), None);
    state.set_logging_enabled(true);
    assert_eq!(
        log_line(&state, "connect-request", &details).unwrap(),
        "[cmux-preview-proxy] event=connect-request username=wc-1-ab port=443"
    );
    assert_eq!(
        log_line(&state, "e", &vec![]).unwrap(),
        "[cmux-preview-proxy] event=e"
    );
}

#[test]
fn authority_that_no_header_can_hold_is_refused() {
    let mut context = context();
    let route = context.route.as_mut().unwrap();
    route.scope = "ba\nse".to_string();
    let req = request("GET", "http://localhost:8080/api", &[("Accept", "*/*")]);
    for planned in [plan_forward(&req, &context), plan_upgrade(&req, &context)] {
        let refusal = planned.unwrap_err();
        assert_eq!(refusal.status, 502);
        assert_eq!(refusal.body, "failed to build host header for upstream");
    }
    let route = context.route.as_mut().unwrap();
    route.scope = "b\u{e4}se\t".to_string();
    let plan = plan_forward(&req, &context).unwrap();
    assert_eq!(
        plan.headers.get("host").unwrap().as_bytes(),
        "cmux-abc-b\u{e4}se\t-8080.cmux.app".as_bytes()
    );
    assert_eq!(names(&plan.headers), vec!["accept", "host"]);
}

#[test]
fn connect_authority_goes_through_the_url_parser() {
    let ctx = context();
    for short in ["127.1:8080", "0x7f.0.0.1:8080", "2130706433:8080", "LOCALHOST:8080"] {
        let req = request("CONNECT", "example.com:1", &[]);
        let req = RequestHead { authority: Some(short.to_string()), ..req };
        let plan = plan_connect(&req, &ctx).unwrap();
        assert_eq!(plan.host, "cmux-abc-base-8080.cmux.app", "{short}");
        assert_eq!(plan.port, 443);
    }
    for refused in [":80", "exa mple.com:80", "example.com:80:x", "[::1:80"] {
        let req = request("CONNECT", "example.com:1", &[]);
        let req = RequestHead { authority: Some(refused.to_string()), ..req };
        let resp = plan_connect(&req, &ctx).unwrap_err();
        assert_eq!(resp.status, 400, "{refused}");
        assert_eq!(resp.body, "failed to parse CONNECT authority");
    }
    let req = request("CONNECT", "Example.COM:443", &[]);
    let plan = plan_connect(&req, &ctx).unwrap();
    assert_eq!(plan.host, "example.com");
    assert_eq!(plan.port, 443);
}

#[test]
fn a_plan_is_owed_where_the_map_has_room() {
    let ctx = context();
    let mut pairs: Vec<(String, String)> = Vec::new();
    for i in 0..6000 {
        pairs.push((format!("x-h{i}"), "v".to_string()));
    }
    let borrowed: Vec<(&str, &str)> = pairs.iter().map(|(n, v)| (n.as_str(), v.as_str())).collect();
    let req = request("GET", "http://localhost:8080/api", &borrowed);
    assert_eq!(cmux_preview_proxy::headers::header_names(&req.headers), 6000);
    let plan = plan_forward(&req, &ctx).unwrap();
    assert_eq!(plan.headers.len(), 6001);
    let plan = plan_upgrade(&req, &ctx).unwrap();
    assert_eq!(plan.headers.get("host").unwrap(), "cmux-abc-base-8080.cmux.app");
    match upgrade_outcome(101, &req.headers) {
        UpgradeOutcome::Switch { headers } => {
            assert_eq!(headers.get("connection").unwrap(), "upgrade");
            assert_eq!(headers.len(), 6001);
        }
        other => panic!("unexpected outcome {other:?}"),
    }
}

use cmux_preview_proxy::handlers::RequestHead;
use cmux_preview_proxy::novnc_proxy::{
    accept_key, build_upgrade_response, detect_content_type, header_contains_token,
    is_websocket_upgrade, map_uri_to_path, on_tcp_data, on_ws_message, plan_static,
    static_refusal, DataEncoding, FileProbe, ProxyConfig, ProxyError, WsAction, WsMessage,
};
use http::header::{HeaderName, HeaderValue};
use http::HeaderMap;

fn request(method: &str, path: &str, pairs: &[(&str, &str)]) -> RequestHead {
    let mut headers = HeaderMap::new();
    for (name, value) in pairs {
        headers.append(
            HeaderName::from_bytes(name.as_bytes()).unwrap(),
            HeaderValue::from_str(value).unwrap(),
        );
    }
    RequestHead {
        method: method.to_string(),
        scheme: None,
        authority: None,
        path: path.to_string(),
        query: None,
        headers,
    }
}

#[test]
fn sanitize_paths() {
    assert_eq!(map_uri_to_path("/vnc.html").unwrap(), "vnc.html");
    assert_eq!(map_uri_to_path("/subdir/app.js").unwrap(), "subdir/app.js");
    assert_eq!(map_uri_to_path("/").unwrap(), "vnc.html");
    assert!(map_uri_to_path("/../secret").is_none());
}

#[test]
fn paths_are_decoded_and_kept_inside() {
    assert_eq!(map_uri_to_path("").unwrap(), "vnc.html");
    assert_eq!(map_uri_to_path("///").unwrap(), "vnc.html");
    assert_eq!(map_uri_to_path("/a%20b/c%2fd").unwrap(), "a b/c/d");
    assert_eq!(map_uri_to_path("/a//b/./c").unwrap(), "a/b/c");
    assert_eq!(map_uri_to_path("/sub/").unwrap(), "sub/index.html");
    assert_eq!(map_uri_to_path("/./").unwrap(), "index.html");
    assert_eq!(map_uri_to_path("/.").unwrap(), "");
    assert_eq!(map_uri_to_path("/...").unwrap(), "...");
    assert_eq!(map_uri_to_path("/a/..b").unwrap(), "a/..b");
    assert_eq!(map_uri_to_path("/100%").unwrap(), "100%");
    assert_eq!(map_uri_to_path("/%zz").unwrap(), "%zz");
    assert_eq!(map_uri_to_path("/%41%6a").unwrap(), "Aj");
    assert_eq!(map_uri_to_path("/%C3%A9").unwrap(), "é");
    assert!(map_uri_to_path("/a/../b").is_none());
    assert!(map_uri_to_path("/a/..").is_none());
    assert!(map_uri_to_path("/%2e%2e/secret").is_none());
    assert!(map_uri_to_path("/a/%2E%2E/").is_none());
    assert!(map_uri_to_path("/%ff").is_none());
}

#[test]
fn content_types_follow_the_extension() {
    assert_eq!(detect_content_type("vnc.html"), "text/html; charset=utf-8");
    assert_eq!(detect_content_type("a/b/page.htm"), "text/html; charset=utf-8");
    assert_eq!(detect_content_type("sub/app.js"), "application/javascript");
    assert_eq!(detect_content_type("s.css"), "text/css; charset=utf-8");
    assert_eq!(detect_content_type("d.json"), "application/json");
    assert_eq!(detect_content_type("i.png"), "image/png");
    assert_eq!(detect_content_type("i.jpg"), "image/jpeg");
    assert_eq!(detect_content_type("i.jpeg"), "image/jpeg");
    assert_eq!(detect_content_type("i.svg"), "image/svg+xml");
    assert_eq!(detect_content_type("m.wasm"), "application/wasm");
    assert_eq!(detect_content_type("f.woff"), "font/woff");
    assert_eq!(detect_content_type("f.woff2"), "font/woff2");
    assert_eq!(detect_content_type("r.txt"), "text/plain; charset=utf-8");
    assert_eq!(detect_content_type("r.TXT"), "application/octet-stream");
    assert_eq!(detect_content_type("archive.tar.gz"), "application/octet-stream");
    assert_eq!(detect_content_type("noext"), "application/octet-stream");
    assert_eq!(detect_content_type(".html"), "application/octet-stream");
    assert_eq!(detect_content_type("dir.html/file"), "application/octet-stream");
    assert_eq!(detect_content_type(""), "application/octet-stream");
}

#[test]
fn tokens_of_a_header_value() {
    let value = b"keep-alive, Upgrade".to_vec();
    assert!(header_contains_token(Some(&value), "upgrade"));
    assert!(header_contains_token(Some(&value), "KEEP-ALIVE"));
    assert!(!header_contains_token(Some(&value), "keep"));
    assert!(!header_contains_token(None, "upgrade"));
    assert!(!header_contains_token(Some(&vec![0xff]), "upgrade"));
    assert!(header_contains_token(Some(&b"a,,b".to_vec()), ""));
    assert!(!header_contains_token(Some(&b"a,b".to_vec()), ""));
}

#[test]
fn web_socket_requests() {
    let ok = request("GET", "/", &[("Upgrade", "WebSocket"), ("Connection", "keep-alive, Upgrade")]);
    assert!(is_websocket_upgrade(&ok));
    let post = request("POST", "/", &[("Upgrade", "websocket"), ("Connection", "Upgrade")]);
    assert!(!is_websocket_upgrade(&post));
    let other = request("GET", "/", &[("Upgrade", "h2c"), ("Connection", "Upgrade")]);
    assert!(!is_websocket_upgrade(&other));
    let no_token = request("GET", "/", &[("Upgrade", "websocket"), ("Connection", "close")]);
    assert!(!is_websocket_upgrade(&no_token));
    let plain = request("GET", "/", &[]);
    assert!(!is_websocket_upgrade(&plain));
}

#[test]
fn handshake_computes_the_accept_value() {
    // The example of RFC 6455, section 1.3.
    assert_eq!(
        accept_key(&b"dGhlIHNhbXBsZSBub25jZQ==".to_vec()),
        "s3pPLMBiTxaQ9kYGzzhZRbK+xOo="
    );
    let req = request(
        "GET",
        "/",
        &[
            ("Sec-WebSocket-Version", " 13 "),
            ("Sec-WebSocket-Key", "dGhlIHNhbXBsZSBub25jZQ=="),
            ("Sec-WebSocket-Protocol", "binary"),
        ],
    );
    let resp = build_upgrade_response(&req).unwrap();
    assert_eq!(resp.status, 101);
    assert_eq!(resp.body, "");
    let headers: Vec<(&str, &str)> =
        resp.headers.iter().map(|h| (h.name.as_str(), h.value.as_str())).collect();
    assert_eq!(
        headers,
        vec![
            ("Upgrade", "websocket"),
            ("Connection", "Upgrade"),
            ("Sec-WebSocket-Accept", "s3pPLMBiTxaQ9kYGzzhZRbK+xOo="),
            ("Sec-WebSocket-Protocol", "binary"),
        ]
    );
}

#[test]
fn handshake_refusals() {
    let resp = build_upgrade_response(&request("GET", "/", &[("Sec-WebSocket-Key", "k")]))
        .unwrap_err();
    assert_eq!((resp.status, resp.body.as_str()), (400, "unsupported websocket version"));
    let resp = build_upgrade_response(&request(
        "GET",
        "/",
        &[("Sec-WebSocket-Version", "12"), ("Sec-WebSocket-Key", "k")],
    ))
    .unwrap_err();
    assert_eq!((resp.status, resp.body.as_str()), (400, "unsupported websocket version"));
    let resp = build_upgrade_response(&request("GET", "/", &[("Sec-WebSocket-Version", "13")]))
        .unwrap_err();
    assert_eq!((resp.status, resp.body.as_str()), (400, "missing Sec-WebSocket-Key header"));
    let mut req = request("GET", "/", &[("Sec-WebSocket-Version", "13")]);
    req.headers.insert("sec-websocket-key", HeaderValue::from_bytes(b"k\xff").unwrap());
    let resp = build_upgrade_response(&req).unwrap_err();
    assert_eq!((resp.status, resp.body.as_str()), (400, "invalid Sec-WebSocket-Key header"));
    let ok = build_upgrade_response(&request(
        "GET",
        "/",
        &[("Sec-WebSocket-Version", "13"), ("Sec-WebSocket-Key", "k")],
    ))
    .unwrap();
    assert_eq!(ok.headers.len(), 3);
}

#[test]
fn static_requests() {
    let lookup = plan_static(true, "GET", "/sub/app.js").unwrap();
    assert_eq!(lookup.file, "sub/app.js");
    assert!(!lookup.head_only);
    let lookup = plan_static(true, "HEAD", "/").unwrap();
    assert_eq!(lookup.file, "vnc.html");
    assert!(lookup.head_only);
    let resp = plan_static(false, "GET", "/").unwrap_err();
    assert_eq!((resp.status, resp.body.as_str()), (404, "static content disabled"));
    let resp = plan_static(true, "POST", "/").unwrap_err();
    assert_eq!((resp.status, resp.body.as_str()), (405, "method not allowed"));
    let resp = plan_static(true, "GET", "/../x").unwrap_err();
    assert_eq!((resp.status, resp.body.as_str()), (400, "invalid request path"));
    let resp = plan_static(false, "POST", "/../x").unwrap_err();
    assert_eq!(resp.status, 404);

    assert!(static_refusal(FileProbe::File).is_none());
    let resp = static_refusal(FileProbe::NotAFile).unwrap();
    assert_eq!((resp.status, resp.body.as_str()), (404, "not found"));
    let resp = static_refusal(FileProbe::NotFound).unwrap();
    assert_eq!((resp.status, resp.body.as_str()), (404, "not found"));
    let resp = static_refusal(FileProbe::StatFailed).unwrap();
    assert_eq!((resp.status, resp.body.as_str()), (500, "filesystem error"));
    let resp = static_refusal(FileProbe::ReadFailed).unwrap();
    assert_eq!((resp.status, resp.body.as_str()), (500, "failed to read file"));
}

#[test]
fn frames_from_the_client() {
    match on_ws_message(DataEncoding::Unknown, WsMessage::Binary(b"hello".to_vec())) {
        (WsAction::WriteTcp(bytes), DataEncoding::Binary) => assert_eq!(bytes, b"hello"),
        _ => panic!("payload was expected"),
    }
    match on_ws_message(DataEncoding::Binary, WsMessage::Text(" cGluZw==\n".to_string())) {
        (WsAction::WriteTcp(bytes), DataEncoding::Base64) => assert_eq!(bytes, b"ping"),
        _ => panic!("payload was expected"),
    }
    match on_ws_message(DataEncoding::Binary, WsMessage::Text("cGluZw".to_string())) {
        (WsAction::Fail(ProxyError::Protocol(message)), DataEncoding::Base64) => {
            assert_eq!(message, "failed to decode base64 text frame")
        }
        _ => panic!("a protocol error was expected"),
    }
    match on_ws_message(DataEncoding::Base64, WsMessage::Ping(vec![1, 2])) {
        (WsAction::SendPong(payload), DataEncoding::Base64) => assert_eq!(payload, vec![1, 2]),
        _ => panic!("a pong was expected"),
    }
    assert!(matches!(
        on_ws_message(DataEncoding::Binary, WsMessage::Pong(vec![])),
        (WsAction::Ignore, DataEncoding::Binary)
    ));
    assert!(matches!(
        on_ws_message(DataEncoding::Unknown, WsMessage::Frame),
        (WsAction::Ignore, DataEncoding::Unknown)
    ));
    assert!(matches!(
        on_ws_message(DataEncoding::Base64, WsMessage::Close),
        (WsAction::Stop, DataEncoding::Base64)
    ));
}

#[test]
fn frames_to_the_client() {
    match on_tcp_data(DataEncoding::Base64, b"ping".to_vec()) {
        WsMessage::Text(text) => assert_eq!(text, "cGluZw=="),
        _ => panic!("a text frame was expected"),
    }
    for encoding in [DataEncoding::Unknown, DataEncoding::Binary] {
        match on_tcp_data(encoding, b"ping".to_vec()) {
            WsMessage::Binary(bytes) => assert_eq!(bytes, b"ping"),
            _ => panic!("a binary frame was expected"),
        }
    }
}

#[test]
fn settings_and_errors() {
    let config = ProxyConfig::new("127.0.0.1:0".to_string(), "127.0.0.1".to_string(), 5901);
    assert_eq!(config.listen, "127.0.0.1:0");
    assert_eq!(config.target_host, "127.0.0.1");
    assert_eq!(config.target_port, 5901);
    assert_eq!(config.web_root, None);
    assert_eq!(config.connect_timeout_secs, 5);
    assert_eq!(DataEncoding::default(), DataEncoding::Unknown);
    assert_eq!(ProxyError::Io("x".to_string()).message(), "io error: x");
    assert_eq!(ProxyError::Ws("y".to_string()).message(), "websocket error: y");
    assert_eq!(ProxyError::Protocol("z".to_string()).message(), "protocol error: z");
}

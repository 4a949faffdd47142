use cmux_preview_proxy::loopback::is_loopback_hostname;
use cmux_preview_proxy::rewrite::{
    derive_route, determine_requested_port, rewrite_target, TargetUrl,
};
use cmux_preview_proxy::route::build_cmux_host;
use cmux_preview_proxy::types::{ProxyContext, ProxyRoute};

#[test]
fn rewrite_test_derive_route_morph_pattern() {
    let url = "http://port-8080-morphvm-test123.http.cloud.morph.so/path";
    let route = derive_route(url).unwrap();
    assert_eq!(route.morph_id, "test123");
    assert_eq!(route.scope, "base");
    assert_eq!(route.domain_suffix, "cmux.app");
}

#[test]
fn rewrite_test_derive_route_cmux_pattern() {
    let url = "http://cmux-morphid-base-8080.cmux.sh/path";
    let route = derive_route(url).unwrap();
    assert_eq!(route.morph_id, "morphid");
    assert_eq!(route.scope, "base");
    assert_eq!(route.domain_suffix, "cmux.sh");
}

#[test]
fn rewrite_test_derive_route_cmux_multi_segment_morph() {
    let url = "http://cmux-my-long-morph-id-base-3000.cmux.app/";
    let route = derive_route(url).unwrap();
    assert_eq!(route.morph_id, "my-long-morph-id");
    assert_eq!(route.scope, "base");
    assert_eq!(route.domain_suffix, "cmux.app");
}

#[test]
fn rewrite_test_is_loopback_hostname() {
    assert!(is_loopback_hostname("localhost"));
    assert!(is_loopback_hostname("127.0.0.1"));
    assert!(is_loopback_hostname("127.18.0.5"));
    assert!(is_loopback_hostname("::1"));
    assert!(is_loopback_hostname("[::1]"));
    assert!(!is_loopback_hostname("cmux.app"));
    assert!(!is_loopback_hostname("example.com"));
}

#[test]
fn test_determine_requested_port() {
    let url = TargetUrl::parse("http://localhost:8080/").unwrap();
    assert_eq!(determine_requested_port(&url), 8080);

    let url = TargetUrl::parse("https://localhost/").unwrap();
    assert_eq!(determine_requested_port(&url), 443);

    let url = TargetUrl::parse("http://localhost/").unwrap();
    assert_eq!(determine_requested_port(&url), 80);
}

#[test]
fn rewrite_test_build_cmux_host() {
    let route = ProxyRoute {
        morph_id: "test".to_string(),
        scope: "base".to_string(),
        domain_suffix: "cmux.sh".to_string(),
    };
    assert_eq!(build_cmux_host(&route, 8080), "cmux-test-base-8080.cmux.sh");
}

#[test]
fn rewrite_loopback_host_rewrites_to_cmux() {
    let route = ProxyRoute {
        morph_id: "abc123".to_string(),
        scope: "base".to_string(),
        domain_suffix: "cmux.dev".to_string(),
    };
    let ctx = ProxyContext {
        username: "wc-1-test".into(),
        password: "secret".into(),
        route: Some(route),
        web_contents_id: 1,
        persist_key: None,
    };
    let url = TargetUrl::parse("http://127.0.0.1:39378/path").unwrap();
    let rewritten = rewrite_target(&url, &ctx).expect("rewrite");
    assert_eq!(rewritten.hostname, "cmux-abc123-base-39378.cmux.dev");
    assert_eq!(rewritten.scheme, "https");
    assert_eq!(rewritten.connect_port, 443);
}

#[test]
fn rewrite_non_loopback_preserves_host() {
    let ctx = ProxyContext {
        username: "wc-2-test".into(),
        password: "secret".into(),
        route: None,
        web_contents_id: 2,
        persist_key: None,
    };
    let url = TargetUrl::parse("https://example.com:8443/foo").unwrap();
    let rewritten = rewrite_target(&url, &ctx).expect("rewrite");
    assert_eq!(rewritten.uri(), "https://example.com:8443/foo");
    assert_eq!(rewritten.connect_port, 8443);
}

#[test]
fn loopback_detection_covers_localhost_suffix() {
    assert!(is_loopback_hostname("test.localhost"));
    assert!(is_loopback_hostname("127.0.0.1"));
    assert!(!is_loopback_hostname("example.com"));
}

fn context_with_route(morph_id: &str, scope: &str, domain_suffix: &str) -> ProxyContext {
    ProxyContext {
        username: "wc-7-0a0b0c0d".to_string(),
        password: "secret".to_string(),
        route: Some(ProxyRoute {
            morph_id: morph_id.to_string(),
            scope: scope.to_string(),
            domain_suffix: domain_suffix.to_string(),
        }),
        web_contents_id: 7,
        persist_key: None,
    }
}

fn target(scheme: &str, host: &str, port: Option<u16>, path: &str) -> TargetUrl {
    TargetUrl {
        scheme: scheme.to_string(),
        host: Some(host.to_string()),
        port,
        path: path.to_string(),
        query: None,
    }
}

#[test]
fn every_scheme_of_a_loopback_target_is_rewritten_to_https() {
    let ctx = context_with_route("m", "s", "cmux.sh");
    for scheme in ["http", "https", "ws", "wss"] {
        for host in ["localhost", "LOCALHOST", "127.0.0.1", "[::1]", "app.localhost", "127.9.8.7"] {
            for port in [0u16, 1, 80, 443, 3000, 65535] {
                let t = rewrite_target(&target(scheme, host, Some(port), "/x"), &ctx).unwrap();
                assert_eq!(t.scheme, "https");
                assert_eq!(t.authority(), format!("cmux-m-s-{}.cmux.sh", port));
                assert_eq!(t.uri(), format!("https://cmux-m-s-{}.cmux.sh/x", port));
                assert_eq!(t.connect_port, 443);
                assert!(t.secure);
                assert_eq!(t.port, None);
            }
        }
    }
}

#[test]
fn loopback_target_without_port_takes_the_default_of_its_scheme() {
    let ctx = context_with_route("m", "s", "cmux.dev");
    let t = rewrite_target(&target("http", "localhost", None, "/"), &ctx).unwrap();
    assert_eq!(t.hostname, "cmux-m-s-80.cmux.dev");
    let t = rewrite_target(&target("ws", "localhost", None, "/"), &ctx).unwrap();
    assert_eq!(t.hostname, "cmux-m-s-80.cmux.dev");
    let t = rewrite_target(&target("https", "localhost", None, "/"), &ctx).unwrap();
    assert_eq!(t.hostname, "cmux-m-s-443.cmux.dev");
    let t = rewrite_target(&target("wss", "localhost", None, "/"), &ctx).unwrap();
    assert_eq!(t.hostname, "cmux-m-s-443.cmux.dev");
}

#[test]
fn other_hosts_pass_through_with_their_port() {
    let ctx = context_with_route("m", "s", "cmux.app");
    let t = rewrite_target(&target("http", "example.com", Some(8443), "/foo"), &ctx).unwrap();
    assert_eq!(t.uri(), "http://example.com:8443/foo");
    assert_eq!(t.authority(), "example.com:8443");
    assert_eq!(t.connect_port, 8443);
    assert!(!t.secure);

    let t = rewrite_target(&target("https", "example.com", None, "/"), &ctx).unwrap();
    assert_eq!(t.authority(), "example.com");
    assert_eq!(t.connect_port, 443);
    assert!(t.secure);

    let t = rewrite_target(&target("http", "example.com", None, ""), &ctx).unwrap();
    assert_eq!(t.uri(), "http://example.com/");
    assert_eq!(t.connect_port, 80);
}

#[test]
fn web_socket_schemes_are_forwarded_as_http() {
    let ctx = context_with_route("m", "s", "cmux.app");
    let t = rewrite_target(&target("ws", "example.com", Some(81), "/ws"), &ctx).unwrap();
    assert_eq!(t.scheme, "http");
    assert_eq!(t.uri(), "http://example.com:81/ws");
    let t = rewrite_target(&target("wss", "example.com", None, "/ws"), &ctx).unwrap();
    assert_eq!(t.scheme, "https");
    assert_eq!(t.connect_port, 443);
}

#[test]
fn query_is_kept_behind_the_path() {
    let ctx = context_with_route("m", "s", "cmux.app");
    let mut url = target("http", "localhost", Some(5173), "/a/b");
    url.query = Some("x=1&y=2".to_string());
    let t = rewrite_target(&url, &ctx).unwrap();
    assert_eq!(t.uri(), "https://cmux-m-s-5173.cmux.app/a/b?x=1&y=2");
}

#[test]
fn target_without_host_is_refused_with_400() {
    let ctx = context_with_route("m", "s", "cmux.app");
    let url = TargetUrl {
        scheme: "http".to_string(),
        host: None,
        port: None,
        path: "/".to_string(),
        query: None,
    };
    let err = rewrite_target(&url, &ctx).unwrap_err();
    assert_eq!(err.status(), 400);
}

#[test]
fn context_without_route_rewrites_nothing() {
    let ctx = ProxyContext {
        username: "u".to_string(),
        password: "p".to_string(),
        route: None,
        web_contents_id: 3,
        persist_key: None,
    };
    let t = rewrite_target(&target("http", "localhost", Some(3000), "/"), &ctx).unwrap();
    assert_eq!(t.uri(), "http://localhost:3000/");
    assert_eq!(t.connect_port, 3000);
}

#[test]
fn parsed_url_hands_out_its_parts() {
    let url = TargetUrl::parse("https://Example.COM:8443/a/b?c=d").unwrap();
    assert_eq!(url.scheme, "https");
    assert_eq!(url.host.as_deref(), Some("example.com"));
    assert_eq!(url.port, Some(8443));
    assert_eq!(url.path, "/a/b");
    assert_eq!(url.query.as_deref(), Some("c=d"));
    assert!(TargetUrl::parse("not a url").is_none());
}

#[test]
fn derive_route_refuses_and_reads_morph_hosts() {
    assert!(derive_route("https://example.com").is_none());
    let route =
        derive_route("https://port-3000-morphvm-quick-frog.http.cloud.morph.so").unwrap();
    assert_eq!(route.morph_id, "quick-frog");
    assert_eq!(route.scope, "base");
    assert_eq!(route.domain_suffix, "cmux.app");
    assert!(derive_route("no url at all").is_none());
}

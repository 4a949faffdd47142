use cmux_preview_proxy::attach::{attach_url, websocket_base};

#[test]
fn base_addresses_become_web_socket_addresses() {
    assert_eq!(websocket_base("http://localhost:46831"), "ws://localhost:46831");
    assert_eq!(websocket_base("https://sandbox.example/"), "wss://sandbox.example");
    assert_eq!(websocket_base("https://sandbox.example///"), "wss://sandbox.example");
    assert_eq!(websocket_base("ws://already"), "ws://already");
    assert_eq!(websocket_base(""), "");
    assert_eq!(websocket_base("///"), "");
    assert_eq!(websocket_base("http:/"), "http:");
    assert_eq!(websocket_base("http://a/http://b"), "ws://a/ws://b");
    assert_eq!(websocket_base("hhttp://x"), "hws://x");
    assert_eq!(websocket_base("https://a?u=https://b"), "wss://a?u=wss://b");
}

#[test]
fn web_socket_base_agrees_with_the_standard_library() {
    for base in ["http://a/", "https://b//", "xhttps://http://", "http//", "é http://é/", "https:/"] {
        let expected =
            base.replace("http://", "ws://").replace("https://", "wss://").trim_end_matches('/').to_string();
        assert_eq!(websocket_base(base), expected, "{base}");
    }
}

#[test]
fn attach_address_carries_the_command_as_a_form_does() {
    assert_eq!(
        attach_url("http://localhost:46831/", "sb-1", "codex-acp"),
        "ws://localhost:46831/sandboxes/sb-1/attach?cols=80&rows=24&tty=false&command=codex-acp"
    );
    assert_eq!(
        attach_url("https://host", "7", "npx -y @scope/tool --acp"),
        "wss://host/sandboxes/7/attach?cols=80&rows=24&tty=false&command=npx+-y+%40scope%2Ftool+--acp"
    );
    assert_eq!(
        attach_url("", "", "a*b_c.d~e\u{e9}\n"),
        "/sandboxes//attach?cols=80&rows=24&tty=false&command=a*b_c.d%7Ee%C3%A9%0A"
    );
}

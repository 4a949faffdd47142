use base64::engine::general_purpose::STANDARD;
use base64::Engine;
use cmux_preview_proxy::auth::{
    authenticate_request, credentials_from_decoded, credentials_from_header,
};
use cmux_preview_proxy::response::{proxy_auth_required_bytes, proxy_auth_required_response};
use cmux_preview_proxy::types::{ProxyContext, ProxyState};
use http::header::{HeaderValue, PROXY_AUTHORIZATION};
use http::HeaderMap;

fn state_with(username: &str, password: &str) -> ProxyState {
    let mut state = ProxyState::new();
    state.add_context(ProxyContext {
        username: username.to_string(),
        password: password.to_string(),
        route: None,
        web_contents_id: 1,
        persist_key: None,
    });
    state
}

fn basic(credentials: &str) -> HeaderMap {
    let mut headers = HeaderMap::new();
    let value = format!("Basic {}", STANDARD.encode(credentials));
    headers.insert(PROXY_AUTHORIZATION, HeaderValue::from_str(&value).unwrap());
    headers
}

#[test]
fn decoded_credentials_are_cut_at_the_first_colon() {
    let pair = credentials_from_decoded(Some(b"user:pa:ss".to_vec())).unwrap();
    assert_eq!(pair.0, "user");
    assert_eq!(pair.1, "pa:ss");
    assert!(credentials_from_decoded(None).is_none());
    assert!(credentials_from_decoded(Some(b"nocolon".to_vec())).is_none());
    assert!(credentials_from_decoded(Some(b":pass".to_vec())).is_none());
    assert!(credentials_from_decoded(Some(b"user:".to_vec())).is_none());
    assert!(credentials_from_decoded(Some(b":".to_vec())).is_none());
    assert!(credentials_from_decoded(Some(vec![])).is_none());
    assert!(credentials_from_decoded(Some(vec![0xff, b':', b'x'])).is_none());
    let pair = credentials_from_decoded(Some("né:ü".as_bytes().to_vec())).unwrap();
    assert_eq!(pair.0, "né");
    assert_eq!(pair.1, "ü");
}

#[test]
fn header_value_is_decoded_from_base64() {
    // "dXNlcjpwYXNz" is the encoding of "user:pass".
    let pair = credentials_from_header(&b"Basic dXNlcjpwYXNz".to_vec()).unwrap();
    assert_eq!(pair.0, "user");
    assert_eq!(pair.1, "pass");
    assert!(credentials_from_header(&b"Basic user:pass".to_vec()).is_none());
    assert!(credentials_from_header(&b"basic dXNlcjpwYXNz".to_vec()).is_none());
    assert!(credentials_from_header(&b"Bearer dXNlcjpwYXNz".to_vec()).is_none());
    assert!(credentials_from_header(&b"BasicdXNlcjpwYXNz".to_vec()).is_none());
    assert!(credentials_from_header(&b"Basic ".to_vec()).is_none());
    assert!(credentials_from_header(&b"Basic dXNlcjpwYXNz!".to_vec()).is_none());
    assert!(credentials_from_header(&b"".to_vec()).is_none());
    assert!(credentials_from_header(&vec![b'B', b'a', b's', b'i', b'c', b' ', 0xe9]).is_none());
}

#[test]
fn registered_credentials_authenticate() {
    let state = state_with("wc-1-abcd", "s3cret");
    let ctx = authenticate_request(&basic("wc-1-abcd:s3cret"), &state).unwrap();
    assert_eq!(ctx.username, "wc-1-abcd");
    assert_eq!(ctx.web_contents_id, 1);
}

#[test]
fn anything_else_does_not_authenticate() {
    let state = state_with("wc-1-abcd", "s3cret");
    assert!(authenticate_request(&HeaderMap::new(), &state).is_none());
    assert!(authenticate_request(&basic("wc-1-abcd:s3cre"), &state).is_none());
    assert!(authenticate_request(&basic("wc-1-abcd:s3cret "), &state).is_none());
    assert!(authenticate_request(&basic("wc-1-abcd:S3cret"), &state).is_none());
    assert!(authenticate_request(&basic("wc-1-abc:s3cret"), &state).is_none());
    assert!(authenticate_request(&basic("wc-1-abcd"), &state).is_none());
    assert!(authenticate_request(&basic(":s3cret"), &state).is_none());
    assert!(authenticate_request(&basic("wc-1-abcd:"), &state).is_none());

    let mut headers = HeaderMap::new();
    headers.insert(PROXY_AUTHORIZATION, HeaderValue::from_static("Basic !!!"));
    assert!(authenticate_request(&headers, &state).is_none());

    let mut headers = HeaderMap::new();
    headers.insert(
        PROXY_AUTHORIZATION,
        HeaderValue::from_bytes(b"Basic \xff\xfe").unwrap(),
    );
    assert!(authenticate_request(&headers, &state).is_none());

    // The authorization for the origin is not the one for the proxy.
    let mut headers = HeaderMap::new();
    let value = format!("Basic {}", STANDARD.encode("wc-1-abcd:s3cret"));
    headers.insert(http::header::AUTHORIZATION, HeaderValue::from_str(&value).unwrap());
    assert!(authenticate_request(&headers, &state).is_none());
}

#[test]
fn released_context_no_longer_authenticates() {
    let mut state = state_with("wc-1-abcd", "s3cret");
    assert!(authenticate_request(&basic("wc-1-abcd:s3cret"), &state).is_some());
    state.release_context(1);
    assert!(authenticate_request(&basic("wc-1-abcd:s3cret"), &state).is_none());
}

#[test]
fn auth_required_response_carries_the_challenge() {
    let resp = proxy_auth_required_response();
    assert_eq!(resp.status, 407);
    assert_eq!(resp.headers.len(), 1);
    assert_eq!(resp.headers[0].name, "Proxy-Authenticate");
    assert_eq!(resp.headers[0].value, "Basic realm=\"Cmux Preview Proxy\"");
    assert_eq!(resp.body, "Proxy Authentication Required");
    assert_eq!(
        proxy_auth_required_bytes(),
        b"HTTP/1.1 407 Proxy Authentication Required\r\nProxy-Authenticate: Basic realm=\"Cmux Preview Proxy\"\r\n\r\n".to_vec()
    );
}

use cmux_preview_proxy::headers::{
    first_value, has_token, remove_headers, strip_hop_by_hop_headers, text_value, tokens_of,
};
use http::header::{HeaderName, HeaderValue};
use http::HeaderMap;

fn headers(pairs: &[(&str, &str)]) -> HeaderMap {
    let mut map = HeaderMap::new();
    for (name, value) in pairs {
        map.append(
            HeaderName::from_bytes(name.as_bytes()).unwrap(),
            HeaderValue::from_str(value).unwrap(),
        );
    }
    map
}

fn names(map: &HeaderMap) -> Vec<String> {
    let mut names: Vec<String> = map.keys().map(|k| k.as_str().to_string()).collect();
    names.sort();
    names
}

fn chars(s: &str) -> Vec<char> {
    s.chars().collect()
}

#[test]
fn tokens_are_trimmed_lowered_and_not_empty() {
    let tokens = tokens_of(&chars(" Keep-Alive ,\tUpgrade,, x-Foo ,"));
    assert_eq!(tokens, vec![chars("keep-alive"), chars("upgrade"), chars("x-foo")]);
    assert!(tokens_of(&chars("")).is_empty());
    assert!(tokens_of(&chars(" , ,")).is_empty());
    assert!(has_token(&tokens, "upgrade"));
    assert!(!has_token(&tokens, "Upgrade"));
    assert!(!has_token(&tokens, "up"));
}

#[test]
fn values_are_found_without_regard_to_case() {
    let map = headers(&[("Host", "a"), ("host", "b"), ("X-Bin", "v")]);
    assert_eq!(first_value(&map, "HOST"), Some(b"a".to_vec()));
    assert_eq!(text_value(&map, "x-bin"), Some(chars("v")));
    assert_eq!(first_value(&map, "missing"), None);
    assert_eq!(first_value(&map, "not a name"), None);

    let mut map = HeaderMap::new();
    map.insert("x-bin", HeaderValue::from_bytes(b"\xffab").unwrap());
    assert_eq!(first_value(&map, "x-bin"), Some(vec![0xff, b'a', b'b']));
    assert_eq!(text_value(&map, "x-bin"), None);
}

#[test]
fn hop_by_hop_headers_are_stripped() {
    let mut map = headers(&[
        ("Connection", "keep-alive, X-Custom"),
        ("Keep-Alive", "timeout=5"),
        ("Proxy-Authenticate", "Basic"),
        ("Proxy-Authorization", "Basic abc"),
        ("TE", "trailers"),
        ("Trailers", "x"),
        ("Transfer-Encoding", "chunked"),
        ("Upgrade", "websocket"),
        ("Proxy-Connection", "keep-alive"),
        ("X-Custom", "1"),
        ("X-Other", "2"),
        ("Content-Type", "text/plain"),
        ("Host", "example.com"),
    ]);
    strip_hop_by_hop_headers(&mut map);
    assert_eq!(names(&map), vec!["content-type", "host", "x-other"]);
}

#[test]
fn stripping_twice_is_stripping_once() {
    let mut once = headers(&[
        ("Connection", "x-a, x-b"),
        ("X-A", "1"),
        ("X-B", "2"),
        ("X-C", "3"),
        ("Accept", "*/*"),
        ("Accept", "text/html"),
    ]);
    strip_hop_by_hop_headers(&mut once);
    let mut twice = once.clone();
    strip_hop_by_hop_headers(&mut twice);
    assert_eq!(once, twice);
    assert_eq!(names(&once), vec!["accept", "x-c"]);
    assert_eq!(once.get_all("accept").iter().count(), 2);
}

#[test]
fn connection_value_that_is_no_text_lists_nothing() {
    let mut map = headers(&[("X-A", "1")]);
    map.insert("connection", HeaderValue::from_bytes(b"x-a\xff").unwrap());
    strip_hop_by_hop_headers(&mut map);
    assert_eq!(names(&map), vec!["x-a"]);
}

#[test]
fn remove_headers_takes_all_values_out() {
    let mut map = headers(&[("X-A", "1"), ("x-a", "2"), ("X-B", "3")]);
    remove_headers(&mut map, &vec![chars("x-a"), chars("x-missing")]);
    assert_eq!(names(&map), vec!["x-b"]);
}

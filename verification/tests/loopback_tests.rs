use cmux_preview_proxy::loopback::is_loopback_hostname;

#[test]
fn fixed_names_are_loopback_in_any_case() {
    for name in [
        "localhost",
        "LocalHost",
        "127.0.0.1",
        "0.0.0.0",
        "::1",
        "[::1]",
        "::ffff:127.0.0.1",
        "::FFFF:127.0.0.1",
        "[::ffff:127.0.0.1]",
    ] {
        assert!(is_loopback_hostname(name), "{}", name);
    }
}

#[test]
fn localhost_suffix_is_loopback() {
    assert!(is_loopback_hostname("a.localhost"));
    assert!(is_loopback_hostname("A.B.LOCALHOST"));
    assert!(is_loopback_hostname(".localhost"));
    assert!(!is_loopback_hostname("alocalhost"));
    assert!(!is_loopback_hostname("localhost.example.com"));
}

#[test]
fn ipv4_addresses_of_block_127_are_loopback() {
    assert!(is_loopback_hostname("127.0.0.2"));
    assert!(is_loopback_hostname("127.255.255.255"));
    assert!(is_loopback_hostname("[127.1.2.3]"));
    assert!(!is_loopback_hostname("128.0.0.1"));
    assert!(!is_loopback_hostname("126.0.0.1"));
    assert!(!is_loopback_hostname("127.0.0"));
    assert!(!is_loopback_hostname("127.0.0.1.1"));
    assert!(!is_loopback_hostname("127.0.0.256"));
    assert!(!is_loopback_hostname("127.0.0.01"));
    assert!(!is_loopback_hostname("127.0.0."));
    assert!(!is_loopback_hostname("127.0.0.1 "));
    assert!(!is_loopback_hostname("0127.0.0.1"));
    assert!(!is_loopback_hostname("1270.0.0.1"));
}

#[test]
fn ipv6_loopback_in_all_its_spellings() {
    for name in [
        "0:0:0:0:0:0:0:1",
        "0000:0000:0000:0000:0000:0000:0000:0001",
        "::0001",
        "0::1",
        "0:0::1",
        "::0:1",
        "0:0:0:0:0:0::1",
        "[0:0:0:0:0:0:0:1]",
        "::0.0.0.1",
        "0:0:0:0:0:0:0.0.0.1",
    ] {
        assert!(is_loopback_hostname(name), "{}", name);
    }
}

#[test]
fn other_ipv6_texts_are_not_loopback() {
    for name in [
        "::",
        "::2",
        "1::1",
        "::1:1",
        "::1::",
        ":::1",
        "0:0:0:0:0:0:0:0:1",
        "0:0:0:0:0:0:1",
        "::00001",
        "::g",
        ":1",
        "1:",
        "0:0:0:0:0:0:0::1",
        "::0.0.0.1.1",
        "0.0.0.1::",
        "fe80::1",
        "",
        "[",
        "[]",
    ] {
        assert!(!is_loopback_hostname(name), "{}", name);
    }
}

use cmux_preview_proxy::rewrite::derive_route;
use cmux_preview_proxy::route::{build_cmux_host, derive_route_from_host};
use cmux_preview_proxy::types::ProxyRoute;

fn route(morph_id: &str, scope: &str, domain_suffix: &str) -> ProxyRoute {
    ProxyRoute {
        morph_id: morph_id.to_string(),
        scope: scope.to_string(),
        domain_suffix: domain_suffix.to_string(),
    }
}

#[test]
fn built_hostname_reads_back_as_its_route() {
    let domains = [
        "cmux.app",
        "cmux.sh",
        "cmux.dev",
        "cmux.local",
        "cmux.localhost",
        "autobuild.app",
    ];
    for domain in domains {
        for morph in ["abc", "my-long-id", "a.b", "x1"] {
            for scope in ["base", "s", "dev2"] {
                for port in [0u16, 80, 3000, 65535] {
                    let r = route(morph, scope, domain);
                    let host = build_cmux_host(&r, port);
                    let back = derive_route_from_host(&host).unwrap();
                    assert_eq!(back.morph_id, morph);
                    assert_eq!(back.scope, scope);
                    assert_eq!(back.domain_suffix, domain);
                    let back = derive_route(&format!("https://{}", host)).unwrap();
                    assert_eq!(back.morph_id, morph);
                    assert_eq!(back.scope, scope);
                    assert_eq!(back.domain_suffix, domain);
                }
            }
        }
    }
}

#[test]
fn ambiguous_spellings_do_not_read_back() {
    let r = route("a--b", "base", "cmux.app");
    let back = derive_route_from_host(&build_cmux_host(&r, 80)).unwrap();
    assert_eq!(back.morph_id, "a-b");

    let r = route("m", "x-y", "cmux.app");
    let back = derive_route_from_host(&build_cmux_host(&r, 80)).unwrap();
    assert_eq!(back.morph_id, "m-x");
    assert_eq!(back.scope, "y");

    let r = route("Upper", "base", "cmux.app");
    let back = derive_route_from_host(&build_cmux_host(&r, 80)).unwrap();
    assert_eq!(back.morph_id, "upper");
}

#[test]
fn hostname_case_does_not_matter() {
    let r = derive_route_from_host("CMUX-Abc-Base-8080.CMUX.SH").unwrap();
    assert_eq!(r.morph_id, "abc");
    assert_eq!(r.scope, "base");
    assert_eq!(r.domain_suffix, "cmux.sh");
    let r = derive_route_from_host("PORT-1-MORPHVM-X.HTTP.CLOUD.MORPH.SO").unwrap();
    assert_eq!(r.morph_id, "x");
}

#[test]
fn cmux_pattern_needs_three_pieces_and_a_port() {
    assert!(derive_route_from_host("cmux-a-8080.cmux.sh").is_none());
    assert!(derive_route_from_host("cmux-a-b-c.cmux.sh").is_none());
    assert!(derive_route_from_host("cmux-a-b-65536.cmux.sh").is_none());
    assert!(derive_route_from_host("cmux-a-b-65535.cmux.sh").is_some());
    assert!(derive_route_from_host("cmux-a-b-080.cmux.sh").is_some());
    assert!(derive_route_from_host("cmux--a--b--80.cmux.sh").is_some());
    assert!(derive_route_from_host("cmuxa-b-c-80.cmux.sh").is_none());
    assert!(derive_route_from_host("cmux-a-b-80.cmux.org").is_none());
    assert!(derive_route_from_host("cmux-a-b-80.cmuxxapp").is_none());
    assert!(derive_route_from_host("").is_none());
}

#[test]
fn morph_pattern_needs_digits_and_an_identifier() {
    assert!(derive_route_from_host("port--morphvm-x.http.cloud.morph.so").is_none());
    assert!(derive_route_from_host("port-80-morphvm-.http.cloud.morph.so").is_none());
    assert!(derive_route_from_host("port-8a-morphvm-x.http.cloud.morph.so").is_none());
    assert!(derive_route_from_host("port-80-morph-x.http.cloud.morph.so").is_none());
    assert!(derive_route_from_host("port-80-morphvm-x.http.cloud.morph.com").is_none());
    let r = derive_route_from_host("port-80-morphvm-a-morphvm-b.http.cloud.morph.so").unwrap();
    assert_eq!(r.morph_id, "a-morphvm-b");
}

#[test]
fn build_cmux_host_spells_every_port() {
    let r = route("id", "base", "cmux.local");
    assert_eq!(build_cmux_host(&r, 0), "cmux-id-base-0.cmux.local");
    assert_eq!(build_cmux_host(&r, 9), "cmux-id-base-9.cmux.local");
    assert_eq!(build_cmux_host(&r, 10), "cmux-id-base-10.cmux.local");
    assert_eq!(build_cmux_host(&r, 65535), "cmux-id-base-65535.cmux.local");
}

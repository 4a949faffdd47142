//! The workspace variant of the proxy: requests name their workspace and port
//! in two headers of their own, or in a `Host` of the shape
//! `<workspace>-<port>.localhost`, and go to a loopback address that is
//! derived from the workspace name.

use crate::handlers::upgrade_blockers;
use crate::headers::{
    first_value, header_copy, header_fields, header_text, header_value, lemma_lowered_keeps,
    remove_headers, strip_hop_by_hop_headers, stripped, text_value,
};
use crate::response::{plain_text, ProxyResponse, response_with, ResponseView};
use crate::text::{
    all_digits, ascii_text, chars_of, decimal_digits, decimal_value, ends_with, find_char,
    find_last_char, first_index, format_u32, is_digit, last_index, lemma_decimal_value_grows, lower,
    parse_u16, slice_of, string_of, to_lower, trim_blanks, trimmed, views, visible_text,
};
use http::HeaderMap;
use vstd::prelude::*;
use vstd::string::{StringExecFns, StrSliceExecFns};
use vstd::utf8::encode_utf8;

verus! {

/// The part of a name behind its last `/`, or the whole name.
pub open spec fn base_name(name: Seq<char>) -> Seq<char> {
    match last_index(name, '/') {
        Some(i) => name.skip(i + 1),
        None => name,
    }
}

/// The number of ASCII digits that `s` ends with.
pub open spec fn trailing_digits(s: Seq<char>) -> nat
    decreases s.len(),
{
    if s.len() > 0 && is_digit(s.last()) {
        1 + trailing_digits(s.drop_last())
    } else {
        0
    }
}

/// ASCII lower-casing of one byte.
pub open spec fn lower_byte(b: u8) -> u8 {
    if 65 <= b && b <= 90 {
        (b + 32) as u8
    } else {
        b
    }
}

/// The 32-bit FNV-1a hash of the bytes, each lower-cased first.
pub open spec fn fnv1a_lower(bytes: Seq<u8>) -> u32
    decreases bytes.len(),
{
    if bytes.len() == 0 {
        0x811C9DC5u32
    } else {
        (fnv1a_lower(bytes.drop_last()) ^ (lower_byte(bytes.last()) as u32)).wrapping_mul(
            0x01000193u32,
        )
    }
}

/// The number of a workspace: the digits that its base name ends with, read
/// in base ten, which must fit in 32 bits; or, where it ends with none, the
/// low 16 bits of the FNV-1a hash of the lower-cased base name.
pub open spec fn workspace_number(name: Seq<char>) -> Option<u32> {
    let base = base_name(name);
    let k = trailing_digits(base);
    if k > 0 {
        let digits = base.skip(base.len() - k);
        if decimal_value(digits) <= u32::MAX {
            Some(decimal_value(digits) as u32)
        } else {
            None
        }
    } else {
        Some(fnv1a_lower(encode_utf8(base)) & 0xFFFFu32)
    }
}

/// The address `127.18.x.y` of a workspace, where `x` and `y` are the two low
/// bytes of its number.
pub open spec fn workspace_ip(name: Seq<char>) -> Option<Seq<u8>> {
    match workspace_number(name) {
        Some(n) => Some(seq![127u8, 18u8, ((n >> 8) & 0xFF) as u8, (n & 0xFF) as u8]),
        None => None,
    }
}

/// An address in dotted decimal notation.
pub open spec fn dotted(ip: Seq<u8>) -> Seq<char> {
    decimal_digits(ip[0] as nat) + seq!['.'] + decimal_digits(ip[1] as nat) + seq!['.']
        + decimal_digits(ip[2] as nat) + seq!['.'] + decimal_digits(ip[3] as nat)
}

/// If the last `k` characters of `s` are digits and the one before them, if
/// any, is not, then `s` ends with exactly `k` digits.
proof fn lemma_trailing_digits(s: Seq<char>, k: int)
    requires
        0 <= k <= s.len(),
        forall|i: int| s.len() - k <= i < s.len() ==> is_digit(#[trigger] s[i]),
        k == s.len() || !is_digit(s[s.len() - k - 1]),
    ensures
        trailing_digits(s) == k,
    decreases k,
{
    if k > 0 {
        assert(is_digit(s[s.len() - 1]));
        let rest = s.drop_last();
        assert forall|i: int| rest.len() - (k - 1) <= i < rest.len() implies is_digit(
            #[trigger] rest[i],
        ) by {
            assert(rest[i] == s[i]);
        }
        lemma_trailing_digits(s.drop_last(), k - 1);
    }
}

/// Reads a run of digits as a number that fits in 32 bits.
fn parse_u32_digits(v: &Vec<char>) -> (r: Option<u32>)
    requires
        all_digits(v@),
    ensures
        match r {
            Some(n) => n == decimal_value(v@),
            None => decimal_value(v@) > u32::MAX,
        },
{
    let mut acc: u64 = 0;
    let mut i: usize = 0;
    assert(v@.take(0).len() == 0);
    while i < v.len()
        invariant
            i <= v.len(),
            all_digits(v@),
            acc == decimal_value(v@.take(i as int)),
            acc <= u32::MAX,
        decreases v.len() - i,
    {
        let c = v[i];
        assert(is_digit(v@[i as int]));
        assert(v@.take(i + 1).drop_last() == v@.take(i as int));
        let next: u64 = acc * 10 + (c as u8 - '0' as u8) as u64;
        if next > u32::MAX as u64 {
            proof {
                lemma_decimal_value_grows(v@, i + 1);
            }
            return None;
        }
        acc = next;
        i += 1;
    }
    assert(v@ == v@.take(v.len() as int));
    Some(acc as u32)
}

/// The hash of the lower-cased bytes.
fn hash_lower(bytes: &Vec<u8>) -> (h: u32)
    ensures
        h == fnv1a_lower(bytes@),
{
    let mut h: u32 = 0x811C9DC5;
    let mut i: usize = 0;
    assert(bytes@.take(0).len() == 0);
    while i < bytes.len()
        invariant
            i <= bytes.len(),
            h == fnv1a_lower(bytes@.take(i as int)),
        decreases bytes.len() - i,
    {
        let b = bytes[i];
        assert(bytes@.take(i + 1).drop_last() == bytes@.take(i as int));
        let low: u8 = if 65 <= b && b <= 90 {
            b + 32
        } else {
            b
        };
        h = (h ^ (low as u32)).wrapping_mul(0x01000193);
        i += 1;
    }
    assert(bytes@ == bytes@.take(bytes.len() as int));
    h
}

/// The loopback address of a workspace, as its four octets. There is none
/// where the name ends in digits that do not fit in 32 bits.
pub fn workspace_ip_from_name(name: &str) -> (r: Option<[u8; 4]>)
    ensures
        match r {
            Some(ip) => workspace_ip(name@) == Some(ip@),
            None => workspace_ip(name@) is None,
        },
{
    let all = chars_of(name);
    let base = match find_last_char(&all, '/') {
        Some(i) => {
            let b = slice_of(&all, i + 1, all.len());
            assert(b@ == all@.skip(i + 1));
            b
        },
        None => all,
    };
    let mut from: usize = base.len();
    while from > 0 && '0' <= base[from - 1] && base[from - 1] <= '9'
        invariant
            from <= base.len(),
            forall|i: int| from <= i < base@.len() ==> is_digit(#[trigger] base@[i]),
        decreases from,
    {
        from -= 1;
    }
    proof {
        lemma_trailing_digits(base@, base.len() - from);
    }
    let n: u32 = if from < base.len() {
        let digits = slice_of(&base, from, base.len());
        assert(digits@ == base@.skip(base@.len() - trailing_digits(base@)));
        assert(all_digits(digits@)) by {
            assert forall|i: int| 0 <= i < digits@.len() implies is_digit(
                #[trigger] digits@[i],
            ) by {
                assert(digits@[i] == base@[from + i]);
            }
        }
        match parse_u32_digits(&digits) {
            Some(n) => n,
            None => {
                return None;
            },
        }
    } else {
        let text = string_of(&base);
        let bytes = text.as_str().as_bytes_vec();
        hash_lower(&bytes) & 0xFFFF
    };
    let hi: u32 = (n >> 8) & 0xFF;
    let lo: u32 = n & 0xFF;
    assert(hi < 256 && lo < 256) by (bit_vector)
        requires
            hi == (n >> 8) & 0xFF,
            lo == n & 0xFF,
    ;
    let ip: [u8; 4] = [127, 18, hi as u8, lo as u8];
    assert(ip@ =~= seq![127u8, 18u8, ((n >> 8) & 0xFF) as u8, (n & 0xFF) as u8]);
    Some(ip)
}

/// Writes an address in dotted decimal notation.
pub fn format_ip(ip: &[u8; 4]) -> (r: String)
    ensures
        r@ == dotted(ip@),
{
    let mut r = string_of(&format_u32(ip[0] as u32));
    r.push('.');
    let b = string_of(&format_u32(ip[1] as u32));
    r.append(b.as_str());
    r.push('.');
    let c = string_of(&format_u32(ip[2] as u32));
    r.append(c.as_str());
    r.push('.');
    let d = string_of(&format_u32(ip[3] as u32));
    r.append(d.as_str());
    r
}

/// A port as `str::parse::<u16>` reads it: ASCII digits with a value of at
/// most 65535, which one `+` may precede.
pub open spec fn signed_port(s: Seq<char>) -> Option<u16> {
    let digits = if s.len() > 0 && s[0] == '+' {
        s.skip(1)
    } else {
        s
    };
    if digits.len() > 0 && all_digits(digits) && decimal_value(digits) <= 65535 {
        Some(decimal_value(digits) as u16)
    } else {
        None
    }
}

/// Reads a port.
pub fn parse_port(v: &Vec<char>) -> (r: Option<u16>)
    ensures
        r == signed_port(v@),
{
    if v.len() > 0 && v[0] == '+' {
        let digits = slice_of(v, 1, v.len());
        assert(digits@ == v@.skip(1));
        parse_u16(&digits)
    } else {
        parse_u16(v)
    }
}

/// Workspace and port in a host of the shape `<workspace>-<port>.localhost`,
/// which a `:` and a port of its own may follow. The workspace is what
/// stands before the last `-` of the label, and is not empty.
pub open spec fn workspace_and_port_in(host: Seq<char>) -> Option<(Seq<char>, u16)> {
    let value = trim_blanks(host);
    let name = match first_index(value, ':') {
        Some(i) => value.take(i),
        None => value,
    };
    if value.len() > 0 && ".localhost"@.is_suffix_of(lower(name)) {
        let label = name.take(name.len() - ".localhost"@.len());
        match last_index(label, '-') {
            Some(i) => match signed_port(label.skip(i + 1)) {
                Some(port) => if i > 0 {
                    Some((label.take(i), port))
                } else {
                    None
                },
                None => None,
            },
            None => None,
        }
    } else {
        None
    }
}

/// Workspace and port as the `Host` header of a request names them.
pub open spec fn workspace_and_port(fields: Map<Seq<char>, Seq<Seq<u8>>>) -> Option<
    (Seq<char>, u16),
> {
    match header_text(fields, "host"@) {
        Some(host) => workspace_and_port_in(host),
        None => None,
    }
}

/// Reads workspace and port off a host.
pub fn parse_workspace_port(host: &Vec<char>) -> (r: Option<(String, u16)>)
    ensures
        match r {
            Some(pair) => workspace_and_port_in(host@) == Some((pair.0@, pair.1)),
            None => workspace_and_port_in(host@) is None,
        },
{
    proof {
        reveal_strlit(".localhost");
    }
    let value = trimmed(host, ' ', '\t');
    if value.len() == 0 {
        return None;
    }
    let name = match find_char(&value, ':') {
        Some(i) => {
            let n = slice_of(&value, 0, i);
            assert(n@ == value@.take(i as int));
            n
        },
        None => value,
    };
    let suffix = chars_of(".localhost");
    if !ends_with(&to_lower(&name), &suffix) {
        return None;
    }
    assert(lower(name@).len() == name@.len());
    let label = slice_of(&name, 0, name.len() - suffix.len());
    assert(label@ == name@.take(name@.len() - ".localhost"@.len()));
    match find_last_char(&label, '-') {
        Some(i) => {
            let port_text = slice_of(&label, i + 1, label.len());
            assert(port_text@ == label@.skip(i + 1));
            match parse_port(&port_text) {
                Some(port) => {
                    if i > 0 {
                        let ws = slice_of(&label, 0, i);
                        assert(ws@ == label@.take(i as int));
                        Some((string_of(&ws), port))
                    } else {
                        None
                    }
                },
                None => None,
            }
        },
        None => None,
    }
}

/// Reads workspace and port off the `Host` header.
pub fn parse_workspace_port_from_host(headers: &HeaderMap) -> (r: Option<(String, u16)>)
    ensures
        match r {
            Some(pair) => workspace_and_port(header_fields(*headers)) == Some((pair.0@, pair.1)),
            None => workspace_and_port(header_fields(*headers)) is None,
        },
{
    match text_value(headers, "host") {
        Some(host) => parse_workspace_port(&host),
        None => None,
    }
}

/// The port that a request names, or the response that refuses the request.
/// The header `X-Cmux-Port-Internal` decides where it is there; else the
/// `Host` header may name the port.
pub open spec fn port_of_request(fields: Map<Seq<char>, Seq<Seq<u8>>>) -> Result<
    u16,
    ResponseView,
> {
    match header_value(fields, "x-cmux-port-internal"@) {
        Some(value) => match ascii_text(value) {
            None => Err(plain_text(400, "invalid header value (not UTF-8)"@)),
            Some(text) => if trim_blanks(text).len() == 0 {
                Err(plain_text(400, "header value cannot be empty"@))
            } else {
                match signed_port(trim_blanks(text)) {
                    Some(port) => Ok(port),
                    None => Err(plain_text(400, "invalid port in X-Cmux-Port-Internal"@)),
                }
            },
        },
        None => match workspace_and_port(fields) {
            Some(pair) => Ok(pair.1),
            None => Err(plain_text(400, "missing required header: X-Cmux-Port-Internal"@)),
        },
    }
}

/// The port that a request names.
pub fn get_port_from_header(headers: &HeaderMap) -> (r: Result<u16, ProxyResponse>)
    ensures
        match r {
            Ok(port) => port_of_request(header_fields(*headers)) == Ok::<u16, ResponseView>(port),
            Err(resp) => port_of_request(header_fields(*headers)) == Err::<u16, ResponseView>(
                resp@,
            ),
        },
{
    match first_value(headers, "x-cmux-port-internal") {
        Some(value) => {
            let text = match visible_text(&value) {
                Some(t) => t,
                None => {
                    return Err(
                        response_with(400, String::from_str("invalid header value (not UTF-8)")),
                    );
                },
            };
            let s = trimmed(&text, ' ', '\t');
            if s.len() == 0 {
                return Err(response_with(400, String::from_str("header value cannot be empty")));
            }
            match parse_port(&s) {
                Some(port) => Ok(port),
                None => Err(
                    response_with(400, String::from_str("invalid port in X-Cmux-Port-Internal")),
                ),
            }
        },
        None => match parse_workspace_port_from_host(headers) {
            Some(pair) => Ok(pair.1),
            None => Err(
                response_with(
                    400,
                    String::from_str("missing required header: X-Cmux-Port-Internal"),
                ),
            ),
        },
    }
}

/// The host of a workspace, or the response that says that its name gives no
/// address.
pub open spec fn host_of_workspace(ws: Seq<char>) -> Result<Seq<char>, ResponseView> {
    match workspace_ip(ws) {
        Some(ip) => Ok(dotted(ip)),
        None => Err(plain_text(400, "invalid workspace name: "@ + ws)),
    }
}

/// The upstream host of a request, or the response that refuses the request.
/// The header `X-Cmux-Workspace-Internal` decides where it is there; else
/// the default host is taken where that is allowed without a workspace; else
/// the `Host` header may name the workspace; else the default host is taken.
pub open spec fn upstream_host_of(
    fields: Map<Seq<char>, Seq<Seq<u8>>>,
    default_host: Seq<char>,
    allow_default: bool,
) -> Result<Seq<char>, ResponseView> {
    match header_value(fields, "x-cmux-workspace-internal"@) {
        Some(value) => match ascii_text(value) {
            None => Err(
                plain_text(400, "invalid header value (not UTF-8): X-Cmux-Workspace-Internal"@),
            ),
            Some(text) => if trim_blanks(text).len() == 0 {
                Err(plain_text(400, "X-Cmux-Workspace-Internal cannot be empty"@))
            } else {
                host_of_workspace(trim_blanks(text))
            },
        },
        None => if allow_default {
            Ok(default_host)
        } else {
            match workspace_and_port(fields) {
                Some(pair) => host_of_workspace(pair.0),
                None => Ok(default_host),
            }
        },
    }
}

/// The host of a workspace.
fn workspace_host(ws: &str) -> (r: Result<String, ProxyResponse>)
    ensures
        match r {
            Ok(host) => host_of_workspace(ws@) == Ok::<Seq<char>, ResponseView>(host@),
            Err(resp) => host_of_workspace(ws@) == Err::<Seq<char>, ResponseView>(resp@),
        },
{
    match workspace_ip_from_name(ws) {
        Some(ip) => Ok(format_ip(&ip)),
        None => {
            let mut message = String::from_str("invalid workspace name: ");
            message.append(ws);
            Err(response_with(400, message))
        },
    }
}

/// The upstream host of a request.
pub fn upstream_host_from_headers(
    headers: &HeaderMap,
    default_host: &str,
    allow_default_without_workspace: bool,
) -> (r: Result<String, ProxyResponse>)
    ensures
        match r {
            Ok(host) => upstream_host_of(
                header_fields(*headers),
                default_host@,
                allow_default_without_workspace,
            ) == Ok::<Seq<char>, ResponseView>(host@),
            Err(resp) => upstream_host_of(
                header_fields(*headers),
                default_host@,
                allow_default_without_workspace,
            ) == Err::<Seq<char>, ResponseView>(resp@),
        },
{
    match first_value(headers, "x-cmux-workspace-internal") {
        Some(value) => {
            let text = match visible_text(&value) {
                Some(t) => t,
                None => {
                    return Err(
                        response_with(
                            400,
                            String::from_str(
                                "invalid header value (not UTF-8): X-Cmux-Workspace-Internal",
                            ),
                        ),
                    );
                },
            };
            let ws = trimmed(&text, ' ', '\t');
            if ws.len() == 0 {
                return Err(
                    response_with(
                        400,
                        String::from_str("X-Cmux-Workspace-Internal cannot be empty"),
                    ),
                );
            }
            let name = string_of(&ws);
            workspace_host(name.as_str())
        },
        None => {
            if allow_default_without_workspace {
                return Ok(String::from_str(default_host));
            }
            match parse_workspace_port_from_host(headers) {
                Some(pair) => workspace_host(pair.0.as_str()),
                None => Ok(String::from_str(default_host)),
            }
        },
    }
}

/// The upstream URI `http://{host}:{port}{path-and-query}`; `/` stands for a
/// request without a path.
pub open spec fn upstream_uri(host: Seq<char>, port: u16, path_and_query: Option<Seq<char>>) -> Seq<
    char,
> {
    "http://"@ + host + seq![':'] + decimal_digits(port as nat) + match path_and_query {
        Some(p) => p,
        None => "/"@,
    }
}

/// Builds the upstream URI.
pub fn build_upstream_uri(upstream_host: &str, port: u16, path_and_query: Option<&str>) -> (r:
    String)
    ensures
        r@ == upstream_uri(
            upstream_host@,
            port,
            match path_and_query {
                Some(p) => Some(p@),
                None => None,
            },
        ),
{
    let mut r = String::from_str("http://");
    r.append(upstream_host);
    r.push(':');
    let digits = string_of(&format_u32(port as u32));
    r.append(digits.as_str());
    match path_and_query {
        Some(p) => r.append(p),
        None => r.append("/"),
    }
    r
}

/// The two headers by which a request names its workspace and port.
pub open spec fn internal_names() -> Seq<Seq<char>> {
    seq!["x-cmux-port-internal"@, "x-cmux-workspace-internal"@]
}

/// The names in [`internal_names`].
fn internal_name_list() -> (r: Vec<Vec<char>>)
    ensures
        views(r@) == internal_names(),
        forall|i: int| 0 <= i < r@.len() ==> lower(#[trigger] views(r@)[i]) == views(r@)[i],
{
    proof {
        reveal_strlit("x-cmux-port-internal");
        reveal_strlit("x-cmux-workspace-internal");
    }
    let mut r: Vec<Vec<char>> = Vec::new();
    r.push(chars_of("x-cmux-port-internal"));
    r.push(chars_of("x-cmux-workspace-internal"));
    assert(views(r@) =~= internal_names());
    assert forall|i: int| 0 <= i < r@.len() implies lower(#[trigger] views(r@)[i]) == views(
        r@,
    )[i] by {
        assert(lower(views(r@)[i]) =~= views(r@)[i]);
    }
    r
}

/// The headers that go upstream with a forwarded request: the two internal
/// headers and the hop-by-hop headers are taken out.
pub fn forwarded_headers(headers: &HeaderMap) -> (r: HeaderMap)
    ensures
        header_fields(r) == stripped(
            header_fields(*headers).remove_keys(internal_names().to_set()),
        ),
{
    let mut out = header_copy(headers);
    let internal = internal_name_list();
    proof {
        lemma_lowered_keeps(views(internal@));
    }
    remove_headers(&mut out, &internal);
    strip_hop_by_hop_headers(&mut out);
    out
}

/// The headers that go upstream with an upgrade request: the two internal
/// headers and those that would break the handshake are taken out.
pub fn upgrade_headers(headers: &HeaderMap) -> (r: HeaderMap)
    ensures
        header_fields(r) == header_fields(*headers).remove_keys(
            internal_names().to_set(),
        ).remove_keys(upgrade_blockers().to_set()),
{
    proof {
        reveal_strlit("proxy-connection");
        reveal_strlit("keep-alive");
        reveal_strlit("te");
        reveal_strlit("transfer-encoding");
        reveal_strlit("trailers");
    }
    let mut out = header_copy(headers);
    let internal = internal_name_list();
    proof {
        lemma_lowered_keeps(views(internal@));
    }
    remove_headers(&mut out, &internal);
    let mut names: Vec<Vec<char>> = Vec::new();
    names.push(chars_of("proxy-connection"));
    names.push(chars_of("keep-alive"));
    names.push(chars_of("te"));
    names.push(chars_of("transfer-encoding"));
    names.push(chars_of("trailers"));
    assert(views(names@) =~= upgrade_blockers());
    assert forall|i: int| 0 <= i < names@.len() implies lower(#[trigger] views(names@)[i])
        == views(names@)[i] by {
        assert(lower(views(names@)[i]) =~= views(names@)[i]);
    }
    proof {
        lemma_lowered_keeps(views(names@));
    }
    remove_headers(&mut out, &names);
    out
}

/// The settings of a workspace proxy: the host that stands in for a request
/// without a workspace, and whether it may.
#[derive(Debug, Clone)]
pub struct ProxyConfig {
    pub upstream_host: String,
    pub allow_default_upstream: bool,
}

/// Where a request of the workspace proxy goes.
#[derive(Debug, Clone)]
pub struct Upstream {
    pub host: String,
    pub port: u16,
}

/// The upstream of a request: host and port as its headers name them.
pub fn upstream_of(headers: &HeaderMap, config: &ProxyConfig) -> (r: Result<
    Upstream,
    ProxyResponse,
>)
    ensures
        match port_of_request(header_fields(*headers)) {
            Err(e) => r matches Err(resp) && resp@ == e,
            Ok(port) => match upstream_host_of(
                header_fields(*headers),
                config.upstream_host@,
                config.allow_default_upstream,
            ) {
                Err(e) => r matches Err(resp) && resp@ == e,
                Ok(host) => r matches Ok(up) && up.host@ == host && up.port == port,
            },
        },
{
    let port = match get_port_from_header(headers) {
        Ok(p) => p,
        Err(resp) => {
            return Err(resp);
        },
    };
    let host = match upstream_host_from_headers(
        headers,
        config.upstream_host.as_str(),
        config.allow_default_upstream,
    ) {
        Ok(h) => h,
        Err(resp) => {
            return Err(resp);
        },
    };
    Ok(Upstream { host: host, port: port })
}

/// The address `host:port` that a tunnel dials.
pub fn tunnel_target(upstream: &Upstream) -> (r: String)
    ensures
        r@ == upstream.host@ + seq![':'] + decimal_digits(upstream.port as nat),
{
    let mut r = upstream.host.clone();
    r.push(':');
    let digits = string_of(&format_u32(upstream.port as u32));
    r.append(digits.as_str());
    r
}

} // verus!

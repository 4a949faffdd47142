//! A bridge between web socket clients and a TCP server, with a small static
//! file server beside it: the handshake, the frames and the paths.

use crate::codec::{
    base64_decode, base64_decoded, base64_encode, base64_encoded, percent_decode, percent_decoded,
    sha1, sha1_digest, trim_text, unicode_trimmed, utf8_text,
};
use crate::handlers::RequestHead;
use crate::headers::{first_value, header_text, header_value, text_value, tidy};
use crate::response::{Header, HeaderView, plain_text, ProxyResponse, response_with, ResponseView};
use crate::templates::extension_of;
use crate::text::{
    ascii_text, chars_of, find_last_char, join, join_range, last_index, lower, same_text, slice_of,
    split, split_on, str_eq, string_of, text_of, to_lower, trim_blanks, trimmed, views,
    visible_text,
};
use vstd::prelude::*;
use vstd::string::{StringExecFns, StringSliceAdditionalSpecFns, StrSliceExecFns};
use vstd::utf8::{decode_utf8, encode_utf8, valid_utf8};

verus! {

/// How the payload travels in web socket frames.
#[derive(Debug, Clone, Copy, PartialEq, Eq, Structural)]
pub enum DataEncoding {
    /// The client has not sent anything yet.
    Unknown,
    /// As it is, in binary frames.
    Binary,
    /// As base64, in text frames.
    Base64,
}

impl Default for DataEncoding {
    fn default() -> (e: DataEncoding)
        ensures
            e == DataEncoding::Unknown,
    {
        DataEncoding::Unknown
    }
}

/// The settings of a bridge: where it listens, the TCP server behind it, the
/// directory of static files if there is one, and how long a connect may
/// take.
#[derive(Debug, Clone)]
pub struct ProxyConfig {
    pub listen: String,
    pub target_host: String,
    pub target_port: u16,
    pub web_root: Option<String>,
    pub connect_timeout_secs: u64,
}

impl ProxyConfig {
    /// Settings without static files and with five seconds to connect.
    pub fn new(listen: String, target_host: String, target_port: u16) -> (c: ProxyConfig)
        ensures
            c.listen == listen,
            c.target_host == target_host,
            c.target_port == target_port,
            c.web_root is None,
            c.connect_timeout_secs == 5,
    {
        ProxyConfig {
            listen: listen,
            target_host: target_host,
            target_port: target_port,
            web_root: None,
            connect_timeout_secs: 5,
        }
    }
}

/// Whether a comma-separated header value lists `token`, without regard to
/// ASCII case and to blanks around the pieces.
pub open spec fn lists_token(text: Seq<char>, token: Seq<char>) -> bool {
    tidy(split_on(text, ',')).contains(lower(token))
}

/// Whether a header value, if it is there and is text, lists `token`.
pub fn header_contains_token(value: Option<&Vec<u8>>, token: &str) -> (r: bool)
    ensures
        r == match value {
            Some(v) => match ascii_text(v@) {
                Some(text) => lists_token(text, token@),
                None => false,
            },
            None => false,
        },
{
    let text = match value {
        Some(v) => match visible_text(v) {
            Some(t) => t,
            None => {
                return false;
            },
        },
        None => {
            return false;
        },
    };
    let wanted = to_lower(&chars_of(token));
    let pieces = split(&text, ',');
    let ghost all = views(pieces@);
    let mut i: usize = 0;
    while i < pieces.len()
        invariant
            i <= pieces.len(),
            all == views(pieces@),
            all == split_on(text@, ','),
            value matches Some(v) && ascii_text(v@) == Some(text@),
            wanted@ == lower(token@),
            forall|k: int| 0 <= k < i ==> tidy(all)[k] != lower(token@),
        decreases pieces.len() - i,
    {
        assert(all[i as int] == pieces@[i as int]@);
        if same_text(&to_lower(&trimmed(&pieces[i], ' ', '\t')), &wanted) {
            assert(tidy(all)[i as int] == lower(token@));
            assert(tidy(all).contains(lower(token@)));
            return true;
        }
        i += 1;
    }
    false
}

/// Whether a request asks for a web socket: a `GET` whose `Upgrade` header
/// says `websocket` and whose `Connection` header lists `upgrade`.
pub open spec fn asks_websocket(method: Seq<char>, fields: Map<Seq<char>, Seq<Seq<u8>>>) -> bool {
    &&& method == "GET"@
    &&& header_text(fields, "upgrade"@) matches Some(u) && lower(u) == "websocket"@
    &&& header_text(fields, "connection"@) matches Some(c) && lists_token(c, "upgrade"@)
}

/// Whether a request asks for a web socket.
pub fn is_websocket_upgrade(req: &RequestHead) -> (r: bool)
    ensures
        r == asks_websocket(req@.method, req@.fields),
{
    if !str_eq(req.method.as_str(), "GET") {
        return false;
    }
    let has_upgrade = match text_value(&req.headers, "upgrade") {
        Some(u) => same_text(&to_lower(&u), &chars_of("websocket")),
        None => false,
    };
    if !has_upgrade {
        return false;
    }
    let connection = first_value(&req.headers, "connection");
    match &connection {
        Some(v) => header_contains_token(Some(v), "upgrade"),
        None => false,
    }
}

/// The bytes that are hashed with the key of a handshake.
pub open spec fn handshake_guid() -> Seq<u8> {
    "258EAFA5-E914-47DA-95CA-C5AB0DC85B11".spec_bytes()
}

/// The `Sec-WebSocket-Accept` value for a key: the base64 of the SHA-1 of the
/// key and the handshake identifier.
pub open spec fn accept_value(key: Seq<u8>) -> Seq<char> {
    base64_encoded(sha1_digest(key + handshake_guid()))
}

/// Computes the `Sec-WebSocket-Accept` value for a key.
pub fn accept_key(key: &Vec<u8>) -> (r: String)
    ensures
        r@ == accept_value(key@),
{
    let guid = "258EAFA5-E914-47DA-95CA-C5AB0DC85B11".as_bytes_vec();
    let mut input: Vec<u8> = Vec::new();
    let mut i: usize = 0;
    while i < key.len()
        invariant
            i <= key.len(),
            input@ == key@.take(i as int),
        decreases key.len() - i,
    {
        input.push(key[i]);
        i += 1;
    }
    assert(key@.take(key.len() as int) == key@);
    let mut j: usize = 0;
    while j < guid.len()
        invariant
            j <= guid.len(),
            input@ == key@ + guid@.take(j as int),
        decreases guid.len() - j,
    {
        input.push(guid[j]);
        assert(guid@.take(j + 1) == guid@.take(j as int).push(guid@[j as int]));
        j += 1;
    }
    assert(guid@.take(guid.len() as int) == guid@);
    base64_encode(&sha1(&input))
}

/// The headers of the `101` that completes a handshake; the protocol that the
/// client asked for is echoed where it asked for one.
pub open spec fn handshake_headers(accept: Seq<char>, protocol: Option<Seq<char>>) -> Seq<
    HeaderView,
> {
    let fixed = seq![
        HeaderView { name: "Upgrade"@, value: "websocket"@ },
        HeaderView { name: "Connection"@, value: "Upgrade"@ },
        HeaderView { name: "Sec-WebSocket-Accept"@, value: accept },
    ];
    match protocol {
        Some(p) => fixed.push(HeaderView { name: "Sec-WebSocket-Protocol"@, value: p }),
        None => fixed,
    }
}

/// The answer to a request for a web socket: `101` with the accept value for
/// its key, or the response that refuses it. The version must be 13 and the
/// key must be there and be text.
pub open spec fn handshake(fields: Map<Seq<char>, Seq<Seq<u8>>>) -> ResponseView {
    if !(header_text(fields, "sec-websocket-version"@) matches Some(v) && trim_blanks(v) == "13"@) {
        plain_text(400, "unsupported websocket version"@)
    } else {
        match header_value(fields, "sec-websocket-key"@) {
            None => plain_text(400, "missing Sec-WebSocket-Key header"@),
            Some(key) => if ascii_text(key) is None {
                plain_text(400, "invalid Sec-WebSocket-Key header"@)
            } else {
                ResponseView {
                    status: 101,
                    headers: handshake_headers(
                        accept_value(key),
                        header_text(fields, "sec-websocket-protocol"@),
                    ),
                    body: Seq::<char>::empty(),
                }
            },
        }
    }
}

/// Builds the answer to a request for a web socket: `Ok` for the `101`, `Err`
/// for a refusal.
pub fn build_upgrade_response(req: &RequestHead) -> (r: Result<ProxyResponse, ProxyResponse>)
    ensures
        match r {
            Ok(resp) => resp@ == handshake(req@.fields) && resp@.status == 101,
            Err(resp) => resp@ == handshake(req@.fields) && resp@.status == 400,
        },
{
    let version_ok = match text_value(&req.headers, "sec-websocket-version") {
        Some(v) => same_text(&trimmed(&v, ' ', '\t'), &chars_of("13")),
        None => false,
    };
    if !version_ok {
        return Err(response_with(400, String::from_str("unsupported websocket version")));
    }
    let key = match first_value(&req.headers, "sec-websocket-key") {
        Some(k) => k,
        None => {
            return Err(response_with(400, String::from_str("missing Sec-WebSocket-Key header")));
        },
    };
    if visible_text(&key).is_none() {
        return Err(response_with(400, String::from_str("invalid Sec-WebSocket-Key header")));
    }
    let accept = accept_key(&key);
    let mut headers: Vec<Header> = Vec::new();
    headers.push(
        Header { name: String::from_str("Upgrade"), value: String::from_str("websocket") },
    );
    headers.push(
        Header { name: String::from_str("Connection"), value: String::from_str("Upgrade") },
    );
    headers.push(Header { name: String::from_str("Sec-WebSocket-Accept"), value: accept });
    match text_value(&req.headers, "sec-websocket-protocol") {
        Some(p) => {
            headers.push(
                Header { name: String::from_str("Sec-WebSocket-Protocol"), value: string_of(&p) },
            );
        },
        None => {},
    }
    let resp = ProxyResponse { status: 101, headers: headers, body: String::new() };
    assert(resp@.headers =~= handshake_headers(
        accept_value(key@),
        header_text(req@.fields, "sec-websocket-protocol"@),
    ));
    Ok(resp)
}

/// The number of `/` that `s` begins with.
pub open spec fn leading_slashes(s: Seq<char>) -> nat {
    crate::text::leading_run(s, '/', '/')
}

/// The pieces of a path that name something: not empty and not `.`.
pub open spec fn named_pieces(pieces: Seq<Seq<char>>) -> Seq<Seq<char>> {
    pieces.filter(|p: Seq<char>| p.len() > 0 && p != seq!['.'])
}

/// The file, relative to the directory of static files, that a decoded
/// request path asks for. The path may not step out of the directory with
/// `..`; empty pieces and `.` are passed over; the root stands for
/// `vnc.html`, and any other path that ends in `/` for the `index.html`
/// beneath it.
pub open spec fn static_file(decoded: Seq<char>) -> Option<Seq<char>> {
    let rest = decoded.skip(leading_slashes(decoded) as int);
    if rest.len() == 0 {
        Some("vnc.html"@)
    } else {
        let pieces = split_on(rest, '/');
        if pieces.contains(".."@) {
            None
        } else {
            let kept = named_pieces(pieces);
            if rest.last() == '/' {
                Some(join(kept.push("index.html"@), '/'))
            } else {
                Some(join(kept, '/'))
            }
        }
    }
}

/// The file that a request path asks for, once its percent-encoding is taken
/// off; nothing where the path is not UTF-8 then, or steps out.
pub open spec fn static_file_of_uri(path: Seq<char>) -> Option<Seq<char>> {
    let bytes = percent_decoded(encode_utf8(path));
    if valid_utf8(bytes) {
        static_file(decode_utf8(bytes))
    } else {
        None
    }
}

/// Keeps the pieces that name something, or nothing at all where one of the
/// pieces is `..`.
fn keep_named(pieces: Vec<Vec<char>>) -> (r: Option<Vec<Vec<char>>>)
    ensures
        match r {
            Some(kept) => !views(pieces@).contains(".."@) && views(kept@) == named_pieces(
                views(pieces@),
            ),
            None => views(pieces@).contains(".."@),
        },
{
    proof {
        reveal_strlit("..");
    }
    let ghost all = views(pieces@);
    let ghost keep = |p: Seq<char>| p.len() > 0 && p != seq!['.'];
    let mut r: Vec<Vec<char>> = Vec::new();
    let mut i: usize = 0;
    assert(all.take(0).filter(keep) =~= Seq::<Seq<char>>::empty());
    while i < pieces.len()
        invariant
            i <= pieces.len(),
            all == views(pieces@),
            keep == |p: Seq<char>| p.len() > 0 && p != seq!['.'],
            views(r@) == all.take(i as int).filter(keep),
            forall|k: int| 0 <= k < i ==> all[k] != ".."@,
        decreases pieces.len() - i,
    {
        proof {
            assert(all.take(i + 1).drop_last() == all.take(i as int));
            reveal_with_fuel(Seq::filter, 2);
            reveal_strlit("..");
        }
        let p = &pieces[i];
        assert(p@ == all[i as int]);
        if p.len() == 2 && p[0] == '.' && p[1] == '.' {
            assert(p@ =~= ".."@);
            return None;
        }
        assert(p@ != ".."@) by {
            if p@ == ".."@ {
                assert(p@[0] == '.' && p@[1] == '.');
            }
        }
        if p.len() > 0 && !(p.len() == 1 && p[0] == '.') {
            assert(p@ != seq!['.']) by {
                if p@ == seq!['.'] {
                    assert(p@.len() == 1 && p@[0] == '.');
                }
            }
            let ghost old_r = views(r@);
            r.push(p.clone());
            assert(r@.last()@ == pieces@[i as int]@);
            assert(views(r@) =~= old_r.push(all[i as int]));
        } else {
            assert(!keep(p@)) by {
                if p.len() == 1 {
                    assert(p@ =~= seq!['.']);
                }
            }
        }
        i += 1;
    }
    assert(all == all.take(pieces.len() as int));
    Some(r)
}

/// The file that a decoded request path asks for.
pub fn static_file_for(decoded: &Vec<char>) -> (r: Option<String>)
    ensures
        text_of(r) == static_file(decoded@),
{
    let mut from: usize = 0;
    while from < decoded.len() && decoded[from] == '/'
        invariant
            from <= decoded.len(),
            forall|i: int| 0 <= i < from ==> (#[trigger] decoded@[i] == '/' || decoded@[i] == '/'),
        decreases decoded.len() - from,
    {
        from += 1;
    }
    proof {
        crate::text::lemma_leading_run(decoded@, '/', '/', from as int);
    }
    let rest = slice_of(decoded, from, decoded.len());
    assert(rest@ == decoded@.skip(from as int));
    if rest.len() == 0 {
        return Some(String::from_str("vnc.html"));
    }
    let mut kept = match keep_named(split(&rest, '/')) {
        Some(k) => k,
        None => {
            return None;
        },
    };
    if rest[rest.len() - 1] == '/' {
        let ghost before = views(kept@);
        kept.push(chars_of("index.html"));
        assert(views(kept@) =~= before.push("index.html"@));
    }
    let n = kept.len();
    let path = join_range(&kept, 0, n, '/');
    assert(views(kept@).subrange(0, n as int) == views(kept@));
    Some(string_of(&path))
}

/// The file that a request path asks for.
pub fn map_uri_to_path(path: &str) -> (r: Option<String>)
    ensures
        text_of(r) == static_file_of_uri(path@),
{
    let bytes = percent_decode(&path.as_bytes_vec());
    match utf8_text(bytes) {
        Some(decoded) => static_file_for(&chars_of(decoded.as_str())),
        None => None,
    }
}

/// The part of a path behind its last `/`, or the whole path.
pub open spec fn file_name_of(path: Seq<char>) -> Seq<char> {
    match last_index(path, '/') {
        Some(i) => path.skip(i + 1),
        None => path,
    }
}

/// The content type that goes with the extension of a file.
pub open spec fn content_type_of(extension: Option<Seq<char>>) -> Seq<char> {
    match extension {
        Some(e) => if e == "html"@ || e == "htm"@ {
            "text/html; charset=utf-8"@
        } else if e == "js"@ {
            "application/javascript"@
        } else if e == "css"@ {
            "text/css; charset=utf-8"@
        } else if e == "json"@ {
            "application/json"@
        } else if e == "png"@ {
            "image/png"@
        } else if e == "jpg"@ || e == "jpeg"@ {
            "image/jpeg"@
        } else if e == "svg"@ {
            "image/svg+xml"@
        } else if e == "wasm"@ {
            "application/wasm"@
        } else if e == "woff"@ {
            "font/woff"@
        } else if e == "woff2"@ {
            "font/woff2"@
        } else if e == "txt"@ {
            "text/plain; charset=utf-8"@
        } else {
            "application/octet-stream"@
        },
        None => "application/octet-stream"@,
    }
}

/// The content type of a file, by the extension of its name.
pub fn detect_content_type(path: &str) -> (r: &'static str)
    ensures
        r@ == content_type_of(extension_of(file_name_of(path@))),
{
    let all = chars_of(path);
    let name = match find_last_char(&all, '/') {
        Some(i) => {
            let n = slice_of(&all, i + 1, all.len());
            assert(n@ == all@.skip(i + 1));
            n
        },
        None => all,
    };
    let ext = match find_last_char(&name, '.') {
        Some(i) => {
            if i > 0 {
                let e = slice_of(&name, i + 1, name.len());
                assert(e@ == name@.skip(i + 1));
                e
            } else {
                return "application/octet-stream";
            }
        },
        None => {
            return "application/octet-stream";
        },
    };
    if same_text(&ext, &chars_of("html")) || same_text(&ext, &chars_of("htm")) {
        "text/html; charset=utf-8"
    } else if same_text(&ext, &chars_of("js")) {
        "application/javascript"
    } else if same_text(&ext, &chars_of("css")) {
        "text/css; charset=utf-8"
    } else if same_text(&ext, &chars_of("json")) {
        "application/json"
    } else if same_text(&ext, &chars_of("png")) {
        "image/png"
    } else if same_text(&ext, &chars_of("jpg")) || same_text(&ext, &chars_of("jpeg")) {
        "image/jpeg"
    } else if same_text(&ext, &chars_of("svg")) {
        "image/svg+xml"
    } else if same_text(&ext, &chars_of("wasm")) {
        "application/wasm"
    } else if same_text(&ext, &chars_of("woff")) {
        "font/woff"
    } else if same_text(&ext, &chars_of("woff2")) {
        "font/woff2"
    } else if same_text(&ext, &chars_of("txt")) {
        "text/plain; charset=utf-8"
    } else {
        "application/octet-stream"
    }
}

/// What is looked up on disk for a static request.
#[derive(Debug, Clone)]
pub struct StaticLookup {
    /// The file, relative to the directory of static files.
    pub file: String,
    /// Whether only the head of the response is wanted.
    pub head_only: bool,
}

/// What a static request leads to: a file to look up, or the response that
/// refuses the request. Static files must be switched on, the method must be
/// `GET` or `HEAD`, and the path must stay inside the directory.
pub open spec fn static_request(enabled: bool, method: Seq<char>, path: Seq<char>) -> Result<
    (Seq<char>, bool),
    ResponseView,
> {
    if !enabled {
        Err(plain_text(404, "static content disabled"@))
    } else if method != "GET"@ && method != "HEAD"@ {
        Err(plain_text(405, "method not allowed"@))
    } else {
        match static_file_of_uri(path) {
            Some(file) => Ok((file, method == "HEAD"@)),
            None => Err(plain_text(400, "invalid request path"@)),
        }
    }
}

/// Decides what a static request leads to.
pub fn plan_static(enabled: bool, method: &str, path: &str) -> (r: Result<
    StaticLookup,
    ProxyResponse,
>)
    ensures
        match r {
            Ok(lookup) => static_request(enabled, method@, path@) == Ok::<
                (Seq<char>, bool),
                ResponseView,
            >((lookup.file@, lookup.head_only)),
            Err(resp) => static_request(enabled, method@, path@) == Err::<
                (Seq<char>, bool),
                ResponseView,
            >(resp@),
        },
{
    if !enabled {
        return Err(response_with(404, String::from_str("static content disabled")));
    }
    let head_only = str_eq(method, "HEAD");
    if !str_eq(method, "GET") && !head_only {
        return Err(response_with(405, String::from_str("method not allowed")));
    }
    match map_uri_to_path(path) {
        Some(file) => Ok(StaticLookup { file: file, head_only: head_only }),
        None => Err(response_with(400, String::from_str("invalid request path"))),
    }
}

/// What the file system said of the file of a static request.
#[derive(Debug, Clone, Copy, PartialEq, Eq, Structural)]
pub enum FileProbe {
    /// A regular file.
    File,
    /// Something that is no regular file.
    NotAFile,
    /// Nothing of that name.
    NotFound,
    /// The file could not be examined.
    StatFailed,
    /// The file could not be read.
    ReadFailed,
}

/// The response that refuses a static request after the look-up, if the
/// look-up did not find a file that can be read.
pub open spec fn probe_refusal(probe: FileProbe) -> Option<ResponseView> {
    match probe {
        FileProbe::File => None,
        FileProbe::NotAFile => Some(plain_text(404, "not found"@)),
        FileProbe::NotFound => Some(plain_text(404, "not found"@)),
        FileProbe::StatFailed => Some(plain_text(500, "filesystem error"@)),
        FileProbe::ReadFailed => Some(plain_text(500, "failed to read file"@)),
    }
}

/// The response that refuses a static request after the look-up.
pub fn static_refusal(probe: FileProbe) -> (r: Option<ProxyResponse>)
    ensures
        match r {
            Some(resp) => probe_refusal(probe) == Some(resp@),
            None => probe_refusal(probe) is None,
        },
{
    match probe {
        FileProbe::File => None,
        FileProbe::NotAFile => Some(response_with(404, String::from_str("not found"))),
        FileProbe::NotFound => Some(response_with(404, String::from_str("not found"))),
        FileProbe::StatFailed => Some(response_with(500, String::from_str("filesystem error"))),
        FileProbe::ReadFailed => Some(
            response_with(500, String::from_str("failed to read file")),
        ),
    }
}

/// A message that arrived on the web socket.
#[derive(Debug, Clone)]
pub enum WsMessage {
    Binary(Vec<u8>),
    Text(String),
    Ping(Vec<u8>),
    Pong(Vec<u8>),
    Close,
    Frame,
}

/// What the bridge does with a message from the web socket.
#[derive(Debug, Clone)]
pub enum WsAction {
    /// Write these bytes to the TCP server.
    WriteTcp(Vec<u8>),
    /// Answer with a pong that carries this payload.
    SendPong(Vec<u8>),
    /// Nothing.
    Ignore,
    /// Stop reading from the web socket.
    Stop,
    /// End the session with this error.
    Fail(ProxyError),
}

/// Why a session ended.
#[derive(Debug, Clone)]
pub enum ProxyError {
    /// The TCP side failed.
    Io(String),
    /// The web socket side failed.
    Ws(String),
    /// The client broke the protocol of the bridge.
    Protocol(String),
}

impl ProxyError {
    /// The error in words.
    pub fn message(&self) -> (r: String)
        ensures
            r@ == match *self {
                ProxyError::Io(e) => "io error: "@ + e@,
                ProxyError::Ws(e) => "websocket error: "@ + e@,
                ProxyError::Protocol(e) => "protocol error: "@ + e@,
            },
    {
        match self {
            ProxyError::Io(e) => {
                let mut r = String::from_str("io error: ");
                r.append(e.as_str());
                r
            },
            ProxyError::Ws(e) => {
                let mut r = String::from_str("websocket error: ");
                r.append(e.as_str());
                r
            },
            ProxyError::Protocol(e) => {
                let mut r = String::from_str("protocol error: ");
                r.append(e.as_str());
                r
            },
        }
    }
}

/// The encoding that the bridge answers in after a message: binary frames
/// switch it to binary, text frames to base64, and nothing else changes it.
pub open spec fn encoding_after(encoding: DataEncoding, message: WsMessage) -> DataEncoding {
    match message {
        WsMessage::Binary(_) => DataEncoding::Binary,
        WsMessage::Text(_) => DataEncoding::Base64,
        _ => encoding,
    }
}

/// What the bridge does with a message from the web socket: payload goes to
/// the TCP server, text frames being base64 of it; a ping is answered; a
/// close ends the reading.
pub fn on_ws_message(encoding: DataEncoding, message: WsMessage) -> (r: (WsAction, DataEncoding))
    ensures
        r.1 == encoding_after(encoding, message),
        match message {
            WsMessage::Binary(data) => r.0 matches WsAction::WriteTcp(out) && out@ == data@,
            WsMessage::Text(text) => match base64_decoded(encode_utf8(unicode_trimmed(text@))) {
                Some(bytes) => r.0 matches WsAction::WriteTcp(out) && out@ == bytes,
                None => r.0 matches WsAction::Fail(ProxyError::Protocol(e)) && e@
                    == "failed to decode base64 text frame"@,
            },
            WsMessage::Ping(payload) => r.0 matches WsAction::SendPong(out) && out@ == payload@,
            WsMessage::Pong(_) => r.0 is Ignore,
            WsMessage::Close => r.0 is Stop,
            WsMessage::Frame => r.0 is Ignore,
        },
{
    match message {
        WsMessage::Binary(data) => (WsAction::WriteTcp(data), DataEncoding::Binary),
        WsMessage::Text(text) => {
            let trimmed_text = trim_text(text.as_str());
            let action = match base64_decode(&trimmed_text.as_bytes_vec()) {
                Some(bytes) => WsAction::WriteTcp(bytes),
                None => WsAction::Fail(
                    ProxyError::Protocol(String::from_str("failed to decode base64 text frame")),
                ),
            };
            (action, DataEncoding::Base64)
        },
        WsMessage::Ping(payload) => (WsAction::SendPong(payload), encoding),
        WsMessage::Pong(_) => (WsAction::Ignore, encoding),
        WsMessage::Close => (WsAction::Stop, encoding),
        WsMessage::Frame => (WsAction::Ignore, encoding),
    }
}

/// The message that carries bytes from the TCP server to the client: a text
/// frame of base64 where the client speaks base64, else a binary frame.
pub fn on_tcp_data(encoding: DataEncoding, data: Vec<u8>) -> (r: WsMessage)
    ensures
        match encoding {
            DataEncoding::Base64 => r matches WsMessage::Text(text) && text@ == base64_encoded(
                data@,
            ),
            _ => r matches WsMessage::Binary(out) && out@ == data@,
        },
{
    match encoding {
        DataEncoding::Base64 => WsMessage::Text(base64_encode(&data)),
        _ => WsMessage::Binary(data),
    }
}

} // verus!

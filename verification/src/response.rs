//! The responses that the proxy writes itself.

use vstd::prelude::*;
use vstd::string::{StringExecFns, StringSliceAdditionalSpecFns, StrSliceExecFns};
use vstd::utf8::encode_utf8;

verus! {

/// Mathematical model of a [`Header`].
pub struct HeaderView {
    pub name: Seq<char>,
    pub value: Seq<char>,
}

/// One header of a response that the proxy writes itself.
#[derive(Debug, Clone)]
pub struct Header {
    pub name: String,
    pub value: String,
}

impl View for Header {
    type V = HeaderView;

    open spec fn view(&self) -> HeaderView {
        HeaderView { name: self.name@, value: self.value@ }
    }
}

/// Mathematical model of a [`ProxyResponse`].
pub struct ResponseView {
    pub status: u16,
    pub headers: Seq<HeaderView>,
    pub body: Seq<char>,
}

/// A response that the proxy writes itself: a status, a few headers and a
/// short text body.
#[derive(Debug, Clone)]
pub struct ProxyResponse {
    pub status: u16,
    pub headers: Vec<Header>,
    pub body: String,
}

impl View for ProxyResponse {
    type V = ResponseView;

    open spec fn view(&self) -> ResponseView {
        ResponseView {
            status: self.status,
            headers: Seq::new(self.headers@.len(), |i: int| self.headers@[i]@),
            body: self.body@,
        }
    }
}

/// The realm that clients are asked to authenticate for.
pub open spec fn realm() -> Seq<char> {
    "Cmux Preview Proxy"@
}

/// The challenge `Basic realm="Cmux Preview Proxy"`.
pub open spec fn challenge() -> Seq<char> {
    "Basic realm=\""@ + realm() + "\""@
}

/// The response that asks the client for credentials.
pub open spec fn auth_required() -> ResponseView {
    ResponseView {
        status: 407,
        headers: seq![HeaderView { name: "Proxy-Authenticate"@, value: challenge() }],
        body: "Proxy Authentication Required"@,
    }
}

/// A plain-text response with the given status and message.
pub open spec fn plain_text(status: u16, message: Seq<char>) -> ResponseView {
    ResponseView {
        status: status,
        headers: seq![
            HeaderView { name: "content-type"@, value: "text/plain; charset=utf-8"@ },
        ],
        body: message,
    }
}

/// The response that tells the client that its tunnel is established.
pub open spec fn tunnel_established() -> ResponseView {
    ResponseView {
        status: 200,
        headers: seq![HeaderView { name: "connection"@, value: "upgrade"@ }],
        body: Seq::<char>::empty(),
    }
}

/// A response with one header.
fn respond(status: u16, name: &str, value: String, body: String) -> (r: ProxyResponse)
    ensures
        r@ == (ResponseView {
            status: status,
            headers: seq![HeaderView { name: name@, value: value@ }],
            body: body@,
        }),
{
    let mut headers: Vec<Header> = Vec::new();
    headers.push(Header { name: String::from_str(name), value: value });
    let r = ProxyResponse { status: status, headers: headers, body: body };
    assert(r@.headers =~= seq![HeaderView { name: name@, value: value@ }]);
    r
}

/// `407 Proxy Authentication Required` with the `Proxy-Authenticate`
/// challenge for the realm of this proxy.
pub fn proxy_auth_required_response() -> (r: ProxyResponse)
    ensures
        r@ == auth_required(),
{
    let mut value = String::from_str("Basic realm=\"");
    value.append("Cmux Preview Proxy");
    value.append("\"");
    respond(
        407,
        "Proxy-Authenticate",
        value,
        String::from_str("Proxy Authentication Required"),
    )
}

/// The head of the response that asks the client for credentials, as it
/// goes over the wire.
pub open spec fn auth_required_head() -> Seq<char> {
    "HTTP/1.1 407 Proxy Authentication Required\r\n"@
        + "Proxy-Authenticate: Basic realm=\"Cmux Preview Proxy\"\r\n\r\n"@
}

/// The same challenge as the bytes of an HTTP/1.1 response head.
pub fn proxy_auth_required_bytes() -> (r: Vec<u8>)
    ensures
        r@ == encode_utf8(auth_required_head()),
{
    let mut head = String::from_str("HTTP/1.1 407 Proxy Authentication Required\r\n");
    head.append("Proxy-Authenticate: Basic realm=\"Cmux Preview Proxy\"\r\n\r\n");
    head.as_str().as_bytes_vec()
}

/// The bytes written into a tunnel whose upstream could not be dialled.
pub fn bad_gateway_bytes() -> (r: Vec<u8>)
    ensures
        r@ == "HTTP/1.1 502 Bad Gateway\r\nContent-Length: 0\r\n\r\n".spec_bytes(),
{
    "HTTP/1.1 502 Bad Gateway\r\nContent-Length: 0\r\n\r\n".as_bytes_vec()
}

/// A plain-text response with the given status and message.
pub fn response_with(status: u16, message: String) -> (r: ProxyResponse)
    ensures
        r@ == plain_text(status, message@),
{
    respond(status, "content-type", String::from_str("text/plain; charset=utf-8"), message)
}

/// `200` with `Connection: upgrade` and no body: the answer to `CONNECT`.
pub fn connect_established_response() -> (r: ProxyResponse)
    ensures
        r@ == tunnel_established(),
{
    respond(200, "connection", String::from_str("upgrade"), String::new())
}

} // verus!

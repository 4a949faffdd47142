//! The decisions of the request pipeline: authenticate, classify, and plan
//! what is sent upstream and what is sent back.

use crate::auth::{authenticate_request, authenticated};
use crate::headers::{
    connection_names, has_token, header_copy, header_count, header_fields, header_has,
    header_remove, header_room, header_set, header_text, lemma_lowered_keeps, remove_headers,
    strip_hop_by_hop_headers, stripped, text_value, tokens_of, value_bytes_ok,
};
use crate::response::{
    auth_required, connect_established_response, plain_text, proxy_auth_required_response,
    ProxyResponse, response_with, ResponseView, tunnel_established,
};
use crate::rewrite::{
    authority_of, rewrite_target, RewriteError, rewritten, RewrittenTarget, RewrittenView,
    TargetUrl, TargetView, uri_of, url_parts,
};
use crate::route::is_port_text;
use crate::text::{
    chars_of, decimal_value, find_last_char, last_index, lower, parse_u16, slice_of, str_eq,
    string_of, text_of, views,
};
use crate::types::{ProxyContext, ProxyState, RouteView};
use http::HeaderMap;
use vstd::prelude::*;
use vstd::string::{StringExecFns, StrSliceExecFns};
use vstd::utf8::{encode_utf8, is_ascii_chars_encode_utf8};

verus! {

/// Mathematical model of a [`RequestHead`].
pub struct RequestView {
    pub method: Seq<char>,
    pub scheme: Option<Seq<char>>,
    pub authority: Option<Seq<char>>,
    pub path: Seq<char>,
    pub query: Option<Seq<char>>,
    pub fields: Map<Seq<char>, Seq<Seq<u8>>>,
}

/// The head of a client request: the method, the parts of the request URI
/// that are there, and the headers.
#[derive(Debug)]
pub struct RequestHead {
    pub method: String,
    pub scheme: Option<String>,
    pub authority: Option<String>,
    pub path: String,
    pub query: Option<String>,
    pub headers: HeaderMap,
}

impl View for RequestHead {
    type V = RequestView;

    open spec fn view(&self) -> RequestView {
        RequestView {
            method: self.method@,
            scheme: text_of(self.scheme),
            authority: text_of(self.authority),
            path: self.path@,
            query: text_of(self.query),
            fields: header_fields(self.headers),
        }
    }
}

/// The three ways in which a request is served.
#[derive(Debug, Clone, Copy, PartialEq, Eq, Structural)]
pub enum RequestKind {
    /// A raw TCP tunnel is asked for.
    Connect,
    /// The connection is to be handed over to another protocol.
    Upgrade,
    /// An ordinary request that is forwarded.
    Http,
}

/// Whether the headers ask for an upgrade: `Connection` lists the token
/// `upgrade`, and an `Upgrade` header is there.
pub open spec fn asks_upgrade(fields: Map<Seq<char>, Seq<Seq<u8>>>) -> bool {
    connection_names(fields).contains("upgrade"@) && fields.contains_key("upgrade"@)
}

/// How a request is served.
pub open spec fn kind_of(req: RequestView) -> RequestKind {
    if req.method == "CONNECT"@ {
        RequestKind::Connect
    } else if asks_upgrade(req.fields) {
        RequestKind::Upgrade
    } else {
        RequestKind::Http
    }
}

/// Whether the headers ask for an upgrade.
pub fn is_upgrade_request(req: &RequestHead) -> (r: bool)
    ensures
        r == asks_upgrade(req@.fields),
{
    proof {
        reveal_strlit("upgrade");
        assert(lower("upgrade"@) =~= "upgrade"@);
    }
    let listed = match text_value(&req.headers, "connection") {
        Some(text) => has_token(&tokens_of(&text), "upgrade"),
        None => false,
    };
    listed && header_has(&req.headers, "upgrade")
}

/// Decides how a request is served.
pub fn classify_request(req: &RequestHead) -> (kind: RequestKind)
    ensures
        kind == kind_of(req@),
{
    if str_eq(req.method.as_str(), "CONNECT") {
        RequestKind::Connect
    } else if is_upgrade_request(req) {
        RequestKind::Upgrade
    } else {
        RequestKind::Http
    }
}

/// `path`, or `path?query`.
pub open spec fn path_with_query(path: Seq<char>, query: Option<Seq<char>>) -> Seq<char> {
    match query {
        Some(q) => path + seq!['?'] + q,
        None => path,
    }
}

/// The URL that a request asks for, as a text. A request URI that has a
/// scheme and an authority is taken as it is; otherwise the `Host` header is
/// combined with the path and query under the scheme `http`.
pub open spec fn request_url_text(req: RequestView) -> Option<Seq<char>> {
    match (req.scheme, req.authority) {
        (Some(scheme), Some(authority)) => Some(
            scheme + "://"@ + authority + path_with_query(req.path, req.query),
        ),
        _ => match header_text(req.fields, "host"@) {
            Some(host) => Some("http://"@ + host + path_with_query(req.path, req.query)),
            None => None,
        },
    }
}

/// The target of a request, or the response that refuses it.
pub open spec fn request_target(req: RequestView) -> Result<TargetView, ResponseView> {
    match request_url_text(req) {
        Some(text) => match url_parts(text) {
            Some(u) => Ok(u),
            None => Err(plain_text(400, "failed to parse proxy request target"@)),
        },
        None => Err(plain_text(400, "missing host header for proxy request"@)),
    }
}

/// Appends `?query` where there is a query.
fn push_query(text: &mut String, query: &Option<String>)
    ensures
        final(text)@ == path_with_query(old(text)@, text_of(*query)),
{
    match query {
        Some(q) => {
            text.push('?');
            text.append(q.as_str());
        },
        None => {},
    }
}

/// The target URL of a request.
pub fn parse_proxy_request_target(req: &RequestHead) -> (r: Result<TargetUrl, ProxyResponse>)
    ensures
        match r {
            Ok(u) => request_target(req@) == Ok::<TargetView, ResponseView>(u@),
            Err(e) => request_target(req@) == Err::<TargetView, ResponseView>(e@),
        },
{
    let mut text: String;
    match (&req.scheme, &req.authority) {
        (Some(scheme), Some(authority)) => {
            text = scheme.clone();
            text.append("://");
            text.append(authority.as_str());
            text.append(req.path.as_str());
            push_query(&mut text, &req.query);
            assert(text@ =~= scheme@ + "://"@ + authority@ + path_with_query(
                req.path@,
                text_of(req.query),
            ));
        },
        _ => {
            let host = match text_value(&req.headers, "host") {
                Some(h) => string_of(&h),
                None => {
                    return Err(
                        response_with(
                            400,
                            String::from_str("missing host header for proxy request"),
                        ),
                    );
                },
            };
            text = String::from_str("http://");
            text.append(host.as_str());
            text.append(req.path.as_str());
            push_query(&mut text, &req.query);
            assert(text@ =~= "http://"@ + host@ + path_with_query(req.path@, text_of(req.query)));
        },
    }
    match TargetUrl::parse(text.as_str()) {
        Some(u) => Ok(u),
        None => Err(
            response_with(400, String::from_str("failed to parse proxy request target")),
        ),
    }
}

/// The headers that accompany an upgrade request but must not reach the
/// upstream.
pub open spec fn upgrade_blockers() -> Seq<Seq<char>> {
    seq!["proxy-connection"@, "keep-alive"@, "te"@, "transfer-encoding"@, "trailers"@]
}

/// The headers of a request with `Proxy-Authorization` taken out and `Host`
/// set to the upstream authority.
pub open spec fn addressed(fields: Map<Seq<char>, Seq<Seq<u8>>>, authority: Seq<char>) -> Map<
    Seq<char>,
    Seq<Seq<u8>>,
> {
    fields.remove("proxy-authorization"@).insert("host"@, seq![encode_utf8(authority)])
}

/// The headers that are sent upstream with a forwarded request.
pub open spec fn forward_fields(fields: Map<Seq<char>, Seq<Seq<u8>>>, authority: Seq<char>) -> Map<
    Seq<char>,
    Seq<Seq<u8>>,
> {
    stripped(addressed(fields, authority))
}

/// The headers that are sent upstream with an upgrade request: `Upgrade` and
/// `Connection` stay.
pub open spec fn upgrade_fields(fields: Map<Seq<char>, Seq<Seq<u8>>>, authority: Seq<char>) -> Map<
    Seq<char>,
    Seq<Seq<u8>>,
> {
    addressed(fields, authority).remove_keys(upgrade_blockers().to_set())
}

/// Mathematical model of a [`ForwardPlan`].
pub struct ForwardView {
    pub method: Seq<char>,
    pub target: RewrittenView,
    pub uri: Seq<char>,
    pub fields: Map<Seq<char>, Seq<Seq<u8>>>,
}

/// What is sent upstream for a request: the method, which is the client's,
/// where the request goes, the upstream URI and the headers. The body is the
/// client's, and the version is HTTP/1.1 whatever the client spoke.
#[derive(Debug)]
pub struct ForwardPlan {
    pub method: String,
    pub target: RewrittenTarget,
    pub uri: String,
    pub headers: HeaderMap,
}

impl View for ForwardPlan {
    type V = ForwardView;

    open spec fn view(&self) -> ForwardView {
        ForwardView {
            method: self.method@,
            target: self.target@,
            uri: self.uri@,
            fields: header_fields(self.headers),
        }
    }
}

/// The response to a target that cannot be rewritten.
pub open spec fn rewrite_refusal(e: RewriteError) -> ResponseView {
    plain_text(400, "request target has no host"@)
}

/// The response to a request whose `Host` header cannot be built.
pub open spec fn host_refusal() -> ResponseView {
    plain_text(502, "failed to build host header for upstream"@)
}

/// Whether the authority of a target can stand in a `Host` header: it holds
/// no control character but the tab.
pub open spec fn host_fits(t: RewrittenView) -> bool {
    value_bytes_ok(encode_utf8(authority_of(t)))
}

/// The headers of a request, addressed to the upstream.
fn address_headers(headers: &HeaderMap, target: &RewrittenTarget) -> (r: Option<HeaderMap>)
    ensures
        r matches Some(h) ==> header_fields(h) == addressed(
            header_fields(*headers),
            authority_of(target@),
        ),
        !host_fits(target@) ==> r is None,
        host_fits(target@) && header_count(*headers) < header_room() ==> r is Some,
{
    proof {
        reveal_strlit("proxy-authorization");
        reveal_strlit("host");
        assert(lower("proxy-authorization"@) =~= "proxy-authorization"@);
        assert(lower("host"@) =~= "host"@);
    }
    let mut out = header_copy(headers);
    header_remove(&mut out, "proxy-authorization");
    let authority = target.authority();
    let value = authority.as_str().as_bytes_vec();
    if header_set(&mut out, "host", &value) {
        Some(out)
    } else {
        None
    }
}

/// Rewrites the target of a request for a session.
fn rewrite_for(req: &RequestHead, context: &ProxyContext) -> (r: Result<
    RewrittenTarget,
    ProxyResponse,
>)
    ensures
        match request_target(req@) {
            Ok(u) => match rewritten(u, context@.route) {
                Ok(t) => r matches Ok(got) && got@ == t,
                Err(e) => r matches Err(resp) && resp@ == rewrite_refusal(e),
            },
            Err(e) => r matches Err(resp) && resp@ == e,
        },
{
    let url = match parse_proxy_request_target(req) {
        Ok(u) => u,
        Err(resp) => {
            return Err(resp);
        },
    };
    match rewrite_target(&url, context) {
        Ok(t) => Ok(t),
        Err(_) => Err(response_with(400, String::from_str("request target has no host"))),
    }
}

/// Plans a forwarded request: the target is rewritten, `Proxy-Authorization`
/// is dropped, `Host` names the upstream authority and the hop-by-hop headers
/// are taken out. A target that can be rewritten is refused only where its
/// authority cannot stand in a header; a request with fewer header names
/// than [`header_room`] is then sure of its plan.
pub fn plan_forward(req: &RequestHead, context: &ProxyContext) -> (r: Result<
    ForwardPlan,
    ProxyResponse,
>)
    ensures
        match request_target(req@) {
            Ok(u) => match rewritten(u, context@.route) {
                Ok(t) => {
                    &&& match r {
                        Ok(plan) => plan@ == (ForwardView {
                            method: req@.method,
                            target: t,
                            uri: uri_of(t),
                            fields: forward_fields(req@.fields, authority_of(t)),
                        }),
                        Err(resp) => resp@ == host_refusal(),
                    }
                    &&& (host_fits(t) && header_count(req.headers) < header_room() ==> r is Ok)
                    &&& (!host_fits(t) ==> r is Err)
                },
                Err(e) => r matches Err(resp) && resp@ == rewrite_refusal(e),
            },
            Err(e) => r matches Err(resp) && resp@ == e,
        },
{
    let target = match rewrite_for(req, context) {
        Ok(t) => t,
        Err(resp) => {
            return Err(resp);
        },
    };
    let mut headers = match address_headers(&req.headers, &target) {
        Some(h) => h,
        None => {
            return Err(
                response_with(502, String::from_str("failed to build host header for upstream")),
            );
        },
    };
    strip_hop_by_hop_headers(&mut headers);
    let uri = target.uri();
    Ok(ForwardPlan { method: req.method.clone(), target: target, uri: uri, headers: headers })
}

/// The names in [`upgrade_blockers`].
fn upgrade_blocker_list() -> (r: Vec<Vec<char>>)
    ensures
        views(r@) == upgrade_blockers(),
        forall|i: int| 0 <= i < r@.len() ==> lower(#[trigger] views(r@)[i]) == views(r@)[i],
{
    proof {
        reveal_strlit("proxy-connection");
        reveal_strlit("keep-alive");
        reveal_strlit("te");
        reveal_strlit("transfer-encoding");
        reveal_strlit("trailers");
    }
    let mut r: Vec<Vec<char>> = Vec::new();
    r.push(chars_of("proxy-connection"));
    r.push(chars_of("keep-alive"));
    r.push(chars_of("te"));
    r.push(chars_of("transfer-encoding"));
    r.push(chars_of("trailers"));
    assert(views(r@) =~= upgrade_blockers());
    assert forall|i: int| 0 <= i < r@.len() implies lower(#[trigger] views(r@)[i]) == views(
        r@,
    )[i] by {
        assert(lower(views(r@)[i]) =~= views(r@)[i]);
    }
    r
}

/// Plans an upgrade request: as a forwarded request, except that `Upgrade`
/// and `Connection` are kept and only the headers that would break the
/// handshake are taken out. The plan is owed on the same requests as that of
/// a forwarded request.
pub fn plan_upgrade(req: &RequestHead, context: &ProxyContext) -> (r: Result<
    ForwardPlan,
    ProxyResponse,
>)
    ensures
        match request_target(req@) {
            Ok(u) => match rewritten(u, context@.route) {
                Ok(t) => {
                    &&& match r {
                        Ok(plan) => plan@ == (ForwardView {
                            method: req@.method,
                            target: t,
                            uri: uri_of(t),
                            fields: upgrade_fields(req@.fields, authority_of(t)),
                        }),
                        Err(resp) => resp@ == host_refusal(),
                    }
                    &&& (host_fits(t) && header_count(req.headers) < header_room() ==> r is Ok)
                    &&& (!host_fits(t) ==> r is Err)
                },
                Err(e) => r matches Err(resp) && resp@ == rewrite_refusal(e),
            },
            Err(e) => r matches Err(resp) && resp@ == e,
        },
{
    let target = match rewrite_for(req, context) {
        Ok(t) => t,
        Err(resp) => {
            return Err(resp);
        },
    };
    let mut headers = match address_headers(&req.headers, &target) {
        Some(h) => h,
        None => {
            return Err(
                response_with(502, String::from_str("failed to build host header for upstream")),
            );
        },
    };
    let blockers = upgrade_blocker_list();
    proof {
        lemma_lowered_keeps(views(blockers@));
    }
    remove_headers(&mut headers, &blockers);
    let uri = target.uri();
    Ok(ForwardPlan { method: req.method.clone(), target: target, uri: uri, headers: headers })
}

/// Host and port of an authority `host:port`, cut at the last colon. The
/// port is a run of ASCII digits with a value of at most 65535.
pub open spec fn host_and_port(authority: Seq<char>) -> Option<(Seq<char>, u16)> {
    match last_index(authority, ':') {
        Some(i) => if is_port_text(authority.skip(i + 1)) {
            Some((authority.take(i), decimal_value(authority.skip(i + 1)) as u16))
        } else {
            None
        },
        None => None,
    }
}

/// Parses `host:port`.
pub fn parse_host_port(authority: &str) -> (r: Option<(String, u16)>)
    ensures
        match r {
            Some(pair) => host_and_port(authority@) == Some((pair.0@, pair.1)),
            None => host_and_port(authority@) is None,
        },
{
    let text = chars_of(authority);
    match find_last_char(&text, ':') {
        Some(i) => {
            let port_text = slice_of(&text, i + 1, text.len());
            assert(port_text@ == text@.skip(i + 1));
            match parse_u16(&port_text) {
                Some(port) => {
                    let host = slice_of(&text, 0, i);
                    assert(host@ == text@.take(i as int));
                    Some((string_of(&host), port))
                },
                None => None,
            }
        },
        None => None,
    }
}

/// Mathematical model of a [`ConnectPlan`].
pub struct ConnectView {
    pub response: ResponseView,
    pub host: Seq<char>,
    pub port: u16,
}

/// What a `CONNECT` request leads to: the response that is sent at once, and
/// the host and port that are dialled for the tunnel.
#[derive(Debug, Clone)]
pub struct ConnectPlan {
    pub response: ProxyResponse,
    pub host: String,
    pub port: u16,
}

impl View for ConnectPlan {
    type V = ConnectView;

    open spec fn view(&self) -> ConnectView {
        ConnectView { response: self.response@, host: self.host@, port: self.port }
    }
}

/// What a `CONNECT` request with the given authority leads to. The
/// authority must read `host:port`, and `https://` with the authority behind
/// it must be a URL; that URL is the target that is rewritten.
pub open spec fn connect_plan(authority: Option<Seq<char>>, route: Option<RouteView>) -> Result<
    ConnectView,
    ResponseView,
> {
    match authority {
        None => Err(plain_text(400, "CONNECT missing authority"@)),
        Some(a) => match host_and_port(a) {
            None => Err(plain_text(400, "failed to parse CONNECT authority"@)),
            Some(_) => match url_parts("https://"@ + a) {
                None => Err(plain_text(400, "failed to parse CONNECT authority"@)),
                Some(u) => match rewritten(u, route) {
                    Ok(t) => Ok(
                        ConnectView {
                            response: tunnel_established(),
                            host: t.hostname,
                            port: t.connect_port,
                        },
                    ),
                    Err(e) => Err(rewrite_refusal(e)),
                },
            },
        },
    }
}

/// Plans a `CONNECT` request: the authority must read `host:port`; the
/// target `https://host:port` is parsed as a URL and rewritten; the client is
/// told at once that the tunnel stands, and the rewritten host is dialled on
/// its connect port.
pub fn plan_connect(req: &RequestHead, context: &ProxyContext) -> (r: Result<
    ConnectPlan,
    ProxyResponse,
>)
    ensures
        match r {
            Ok(plan) => connect_plan(req@.authority, context@.route) == Ok::<
                ConnectView,
                ResponseView,
            >(plan@),
            Err(resp) => connect_plan(req@.authority, context@.route) == Err::<
                ConnectView,
                ResponseView,
            >(resp@),
        },
{
    let authority = match &req.authority {
        Some(a) => a,
        None => {
            return Err(response_with(400, String::from_str("CONNECT missing authority")));
        },
    };
    if parse_host_port(authority.as_str()).is_none() {
        return Err(response_with(400, String::from_str("failed to parse CONNECT authority")));
    }
    let mut text = String::from_str("https://");
    text.append(authority.as_str());
    let url = match TargetUrl::parse(text.as_str()) {
        Some(u) => u,
        None => {
            return Err(response_with(400, String::from_str("failed to parse CONNECT authority")));
        },
    };
    match rewrite_target(&url, context) {
        Ok(t) => Ok(
            ConnectPlan {
                response: connect_established_response(),
                host: t.hostname,
                port: t.connect_port,
            },
        ),
        Err(_) => Err(response_with(400, String::from_str("request target has no host"))),
    }
}

/// What the proxy does with a request.
#[derive(Debug)]
pub enum ProxyAction {
    /// Answer the client; nothing is sent upstream.
    Respond(ProxyResponse),
    /// Forward the request and stream the response back.
    Forward(ForwardPlan),
    /// Forward the upgrade request and, on `101`, splice the byte streams.
    Upgrade(ForwardPlan),
    /// Answer `200`, dial the upstream and splice the byte streams.
    Connect(ConnectPlan),
}

/// Decides what is done with a request. A request that does not authenticate
/// as a registered context is answered with `407` and the challenge, and
/// nothing is sent upstream; any other request is classified and planned for
/// the context it authenticated as.
pub fn handle_request(req: &RequestHead, state: &ProxyState) -> (action: ProxyAction)
    ensures
        match authenticated(req@.fields, state@) {
            None => action matches ProxyAction::Respond(resp) && resp@ == auth_required(),
            Some(context) => match kind_of(req@) {
                RequestKind::Connect => match connect_plan(req@.authority, context.route) {
                    Ok(plan) => action matches ProxyAction::Connect(got) && got@ == plan,
                    Err(e) => action matches ProxyAction::Respond(resp) && resp@ == e,
                },
                RequestKind::Upgrade => match request_target(req@) {
                    Ok(u) => match rewritten(u, context.route) {
                        Ok(t) => {
                            &&& match action {
                                ProxyAction::Upgrade(plan) => plan@ == (ForwardView {
                                    method: req@.method,
                                    target: t,
                                    uri: uri_of(t),
                                    fields: upgrade_fields(req@.fields, authority_of(t)),
                                }),
                                ProxyAction::Respond(resp) => resp@ == host_refusal(),
                                _ => false,
                            }
                            &&& (host_fits(t) && header_count(req.headers) < header_room()
                                ==> action is Upgrade)
                            &&& (!host_fits(t) ==> action is Respond)
                        },
                        Err(e) => action matches ProxyAction::Respond(resp) && resp@
                            == rewrite_refusal(e),
                    },
                    Err(e) => action matches ProxyAction::Respond(resp) && resp@ == e,
                },
                RequestKind::Http => match request_target(req@) {
                    Ok(u) => match rewritten(u, context.route) {
                        Ok(t) => {
                            &&& match action {
                                ProxyAction::Forward(plan) => plan@ == (ForwardView {
                                    method: req@.method,
                                    target: t,
                                    uri: uri_of(t),
                                    fields: forward_fields(req@.fields, authority_of(t)),
                                }),
                                ProxyAction::Respond(resp) => resp@ == host_refusal(),
                                _ => false,
                            }
                            &&& (host_fits(t) && header_count(req.headers) < header_room()
                                ==> action is Forward)
                            &&& (!host_fits(t) ==> action is Respond)
                        },
                        Err(e) => action matches ProxyAction::Respond(resp) && resp@
                            == rewrite_refusal(e),
                    },
                    Err(e) => action matches ProxyAction::Respond(resp) && resp@ == e,
                },
            },
        },
{
    let context = match authenticate_request(&req.headers, state) {
        Some(c) => c,
        None => {
            return ProxyAction::Respond(proxy_auth_required_response());
        },
    };
    match classify_request(req) {
        RequestKind::Connect => match plan_connect(req, &context) {
            Ok(plan) => ProxyAction::Connect(plan),
            Err(resp) => ProxyAction::Respond(resp),
        },
        RequestKind::Upgrade => match plan_upgrade(req, &context) {
            Ok(plan) => ProxyAction::Upgrade(plan),
            Err(resp) => ProxyAction::Respond(resp),
        },
        RequestKind::Http => match plan_forward(req, &context) {
            Ok(plan) => ProxyAction::Forward(plan),
            Err(resp) => ProxyAction::Respond(resp),
        },
    }
}

/// The headers of an upstream response that go back to the client: all but
/// the hop-by-hop headers.
pub fn response_headers(upstream: &HeaderMap) -> (r: HeaderMap)
    ensures
        header_fields(r) == stripped(header_fields(*upstream)),
{
    let mut out = header_copy(upstream);
    strip_hop_by_hop_headers(&mut out);
    out
}

/// What becomes of the upstream's answer to an upgrade request.
#[derive(Debug)]
pub enum UpgradeOutcome {
    /// The upstream declined: its response goes to the client as it is, and
    /// no tunnel is set up.
    Mirror { status: u16, headers: HeaderMap },
    /// The upstream switched protocols: `101` goes to the client with these
    /// headers, and the byte streams are spliced.
    Switch { headers: HeaderMap },
    /// The `101` for the client could not be built.
    Failed(ProxyResponse),
}

/// The headers of the `101` that the client gets: those of the upstream, with
/// `Connection: upgrade` in any case.
pub open spec fn switch_fields(fields: Map<Seq<char>, Seq<Seq<u8>>>) -> Map<
    Seq<char>,
    Seq<Seq<u8>>,
> {
    fields.insert("connection"@, seq![encode_utf8("upgrade"@)])
}

/// Decides what becomes of the upstream's answer to an upgrade request. Any
/// status but `101` is mirrored with its headers untouched; `101` is handed
/// on with `Connection: upgrade` forced, which is sure to succeed where the
/// upstream sent fewer header names than [`header_room`].
pub fn upgrade_outcome(status: u16, upstream: &HeaderMap) -> (r: UpgradeOutcome)
    ensures
        status != 101 ==> (r matches UpgradeOutcome::Mirror { status: s, headers: h } && s
            == status && header_fields(h) == header_fields(*upstream)),
        status == 101 ==> match r {
            UpgradeOutcome::Switch { headers: h } => header_fields(h) == switch_fields(
                header_fields(*upstream),
            ),
            UpgradeOutcome::Failed(resp) => resp@ == plain_text(
                500,
                "failed to build upgrade response"@,
            ),
            UpgradeOutcome::Mirror { .. } => false,
        },
        status == 101 && header_count(*upstream) < header_room() ==> r is Switch,
{
    let mut headers = header_copy(upstream);
    if status != 101 {
        return UpgradeOutcome::Mirror { status: status, headers: headers };
    }
    proof {
        reveal_strlit("connection");
        reveal_strlit("upgrade");
        assert(lower("connection"@) =~= "connection"@);
        is_ascii_chars_encode_utf8("upgrade"@);
        assert(value_bytes_ok(encode_utf8("upgrade"@)));
    }
    let value = "upgrade".as_bytes_vec();
    if header_set(&mut headers, "connection", &value) {
        UpgradeOutcome::Switch { headers: headers }
    } else {
        UpgradeOutcome::Failed(
            response_with(500, String::from_str("failed to build upgrade response")),
        )
    }
}

/// `502` with `upstream request failed: {cause}`: the answer to a request
/// whose upstream could not be reached or did not answer.
pub fn upstream_failure_response(cause: &str) -> (r: ProxyResponse)
    ensures
        r@ == plain_text(502, "upstream request failed: "@ + cause@),
{
    let mut message = String::from_str("upstream request failed: ");
    message.append(cause);
    response_with(502, message)
}

/// One detail of a log line.
#[derive(Debug, Clone)]
pub struct LogDetail {
    pub key: String,
    pub value: String,
}

/// ` key=value` for each detail, in order.
pub open spec fn details_text(details: Seq<LogDetail>) -> Seq<char>
    decreases details.len(),
{
    if details.len() == 0 {
        Seq::<char>::empty()
    } else {
        details_text(details.drop_last()) + seq![' '] + details.last().key@ + seq!['=']
            + details.last().value@
    }
}

/// The log line `[cmux-preview-proxy] event={event} key=value ...`.
pub open spec fn log_text(event: Seq<char>, details: Seq<LogDetail>) -> Seq<char> {
    "[cmux-preview-proxy] event="@ + event + details_text(details)
}

/// The line that is logged for an event, or nothing while logging is
/// switched off.
pub fn log_line(state: &ProxyState, event: &str, details: &Vec<LogDetail>) -> (r: Option<String>)
    ensures
        match r {
            Some(line) => state.logging() && line@ == log_text(event@, details@),
            None => !state.logging(),
        },
{
    if !state.is_logging_enabled() {
        return None;
    }
    let mut line = String::from_str("[cmux-preview-proxy] event=");
    line.append(event);
    let ghost head = line@;
    let mut i: usize = 0;
    assert(details@.take(0).len() == 0);
    assert(head + details_text(details@.take(0)) =~= head);
    while i < details.len()
        invariant
            i <= details.len(),
            line@ == head + details_text(details@.take(i as int)),
        decreases details.len() - i,
    {
        assert(details@.take(i + 1).drop_last() == details@.take(i as int));
        let ghost before = line@;
        line.push(' ');
        line.append(details[i].key.as_str());
        line.push('=');
        line.append(details[i].value.as_str());
        assert(line@ =~= before + seq![' '] + details@[i as int].key@ + seq!['=']
            + details@[i as int].value@);
        assert(line@ =~= head + details_text(details@.take(i + 1)));
        i += 1;
    }
    assert(details@ == details@.take(details.len() as int));
    Some(line)
}

} // verus!

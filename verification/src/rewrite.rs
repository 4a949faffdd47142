//! Rewriting a request target: loopback hosts are sent to the cloud hostname
//! of the session's route, all other hosts pass through.

use crate::loopback::{is_loopback, is_loopback_hostname};
use crate::route::{build_cmux_host, cmux_host, derive_route_from_host, host_route};
use crate::text::{decimal_digits, format_u32, lower, str_eq, string_of};
use crate::types::{ProxyContext, ProxyRoute, RouteView};
use vstd::prelude::*;
use vstd::string::StringExecFns;

verus! {

/// Mathematical model of a [`TargetUrl`].
pub struct TargetView {
    pub scheme: Seq<char>,
    pub host: Option<Seq<char>>,
    pub port: Option<u16>,
    pub path: Seq<char>,
    pub query: Option<Seq<char>>,
}

/// An absolute URL broken into the parts that the rewriter reads. `port` is
/// absent where the text names none or names the scheme's own default.
#[derive(Debug, Clone)]
pub struct TargetUrl {
    pub scheme: String,
    pub host: Option<String>,
    pub port: Option<u16>,
    pub path: String,
    pub query: Option<String>,
}

impl View for TargetUrl {
    type V = TargetView;

    open spec fn view(&self) -> TargetView {
        TargetView {
            scheme: self.scheme@,
            host: match self.host {
                Some(h) => Some(h@),
                None => None,
            },
            port: self.port,
            path: self.path@,
            query: match self.query {
                Some(q) => Some(q@),
                None => None,
            },
        }
    }
}

/// Mathematical model of a [`RewrittenTarget`].
pub struct RewrittenView {
    pub scheme: Seq<char>,
    pub hostname: Seq<char>,
    pub port: Option<u16>,
    pub path_and_query: Seq<char>,
    pub connect_port: u16,
    pub secure: bool,
}

/// Where one request goes: the upstream scheme, host and optional port, the
/// path with its query, the port to dial and whether the upstream speaks TLS.
#[derive(Debug, Clone)]
pub struct RewrittenTarget {
    pub scheme: String,
    pub hostname: String,
    pub port: Option<u16>,
    pub path_and_query: String,
    pub connect_port: u16,
    pub secure: bool,
}

impl View for RewrittenTarget {
    type V = RewrittenView;

    open spec fn view(&self) -> RewrittenView {
        RewrittenView {
            scheme: self.scheme@,
            hostname: self.hostname@,
            port: self.port,
            path_and_query: self.path_and_query@,
            connect_port: self.connect_port,
            secure: self.secure,
        }
    }
}

/// Why a target cannot be rewritten.
#[derive(Debug, Clone, Copy, PartialEq, Eq, Structural)]
pub enum RewriteError {
    /// The target names no host.
    MissingHost,
}

impl RewriteError {
    /// The status with which the proxy answers the client.
    pub fn status(&self) -> (code: u16)
        ensures
            code == 400,
    {
        400
    }
}

/// What `Url::parse` makes of a text, part by part: the scheme, the host as
/// `host_str` gives it, the port as `port` gives it, the path and the query.
pub uninterp spec fn url_parts(input: Seq<char>) -> Option<TargetView>;

/// Parses an absolute URL with `url::Url::parse` and hands out its parts as
/// the accessors `scheme`, `host_str`, `port`, `path` and `query` give them.
/// Nothing is claimed of the parts beyond that they are a function of the
/// text.
#[verifier::external_body]
fn parse_url(input: &str) -> (r: Option<TargetUrl>)
    ensures
        match r {
            Some(u) => url_parts(input@) == Some(u@),
            None => url_parts(input@) is None,
        },
{
    match url::Url::parse(input) {
        Ok(u) => Some(
            TargetUrl {
                scheme: u.scheme().to_string(),
                host: u.host_str().map(|h| h.to_string()),
                port: u.port(),
                path: u.path().to_string(),
                query: u.query().map(|q| q.to_string()),
            },
        ),
        Err(_) => None,
    }
}

impl TargetUrl {
    /// Parses an absolute URL.
    pub fn parse(input: &str) -> (r: Option<TargetUrl>)
        ensures
            match r {
                Some(u) => url_parts(input@) == Some(u@),
                None => url_parts(input@) is None,
            },
    {
        parse_url(input)
    }
}

/// The route that the hostname of a parsed URL stands for.
pub open spec fn route_of_parts(parts: Option<TargetView>) -> Option<RouteView> {
    match parts {
        Some(u) => match u.host {
            Some(h) => host_route(lower(h)),
            None => None,
        },
        None => None,
    }
}

/// The route of a URL that has been parsed, if its hostname has one of the two
/// recognized shapes.
pub fn derive_route_from_url(url: &TargetUrl) -> (r: Option<ProxyRoute>)
    ensures
        match r {
            Some(route) => route_of_parts(Some(url@)) == Some(route@),
            None => route_of_parts(Some(url@)) is None,
        },
{
    match &url.host {
        Some(h) => derive_route_from_host(h.as_str()),
        None => None,
    }
}

/// The route that an initial URL stands for, or nothing where the text is no
/// URL, has no host, or its hostname has neither recognized shape.
pub fn derive_route(url_str: &str) -> (r: Option<ProxyRoute>)
    ensures
        match r {
            Some(route) => route_of_parts(url_parts(url_str@)) == Some(route@),
            None => route_of_parts(url_parts(url_str@)) is None,
        },
{
    match parse_url(url_str) {
        Some(url) => derive_route_from_url(&url),
        None => None,
    }
}

/// The scheme under which a target is forwarded: `ws` and `wss` stand for
/// `http` and `https`.
pub open spec fn normal_scheme(scheme: Seq<char>) -> Seq<char> {
    if scheme == "ws"@ {
        "http"@
    } else if scheme == "wss"@ {
        "https"@
    } else {
        scheme
    }
}

/// The port that the client asked for: the one in the target, else the
/// default of its scheme.
pub open spec fn requested_port(u: TargetView) -> u16 {
    match u.port {
        Some(p) => p,
        None => if u.scheme == "https"@ || u.scheme == "wss"@ {
            443
        } else {
            80
        },
    }
}

/// `host` alone, or `host:port`.
pub open spec fn authority_text(host: Seq<char>, port: Option<u16>) -> Seq<char> {
    match port {
        Some(p) => host + seq![':'] + decimal_digits(p as nat),
        None => host,
    }
}

/// The path with `?` and the query behind it where there is one; `/` stands
/// for an empty path.
pub open spec fn path_and_query(u: TargetView) -> Seq<char> {
    let path = if u.path.len() == 0 {
        "/"@
    } else {
        u.path
    };
    match u.query {
        Some(q) => path + seq!['?'] + q,
        None => path,
    }
}

/// The outcome of rewriting `u` for a session with the given route.
pub open spec fn rewritten(u: TargetView, route: Option<RouteView>) -> Result<
    RewrittenView,
    RewriteError,
> {
    match u.host {
        None => Err(RewriteError::MissingHost),
        Some(h) => {
            if route is Some && is_loopback(h) {
                Ok(
                    RewrittenView {
                        scheme: "https"@,
                        hostname: cmux_host(route->0, requested_port(u)),
                        port: None,
                        path_and_query: path_and_query(u),
                        connect_port: 443,
                        secure: true,
                    },
                )
            } else {
                let scheme = normal_scheme(u.scheme);
                let secure = scheme == "https"@;
                Ok(
                    RewrittenView {
                        scheme: scheme,
                        hostname: h,
                        port: u.port,
                        path_and_query: path_and_query(u),
                        connect_port: match u.port {
                            Some(p) => p,
                            None => if secure {
                                443
                            } else {
                                80
                            },
                        },
                        secure: secure,
                    },
                )
            }
        },
    }
}

/// The authority of a rewritten target, which is also the `Host` header sent
/// upstream.
pub open spec fn authority_of(t: RewrittenView) -> Seq<char> {
    authority_text(t.hostname, t.port)
}

/// The upstream URI of a rewritten target.
pub open spec fn uri_of(t: RewrittenView) -> Seq<char> {
    t.scheme + "://"@ + authority_of(t) + t.path_and_query
}

/// The port that the client asked for.
pub fn determine_requested_port(url: &TargetUrl) -> (port: u16)
    ensures
        port == requested_port(url@),
{
    match url.port {
        Some(p) => p,
        None => {
            if str_eq(url.scheme.as_str(), "https") || str_eq(url.scheme.as_str(), "wss") {
                443
            } else {
                80
            }
        },
    }
}

/// The path and query of a target as they are sent upstream.
fn target_path(url: &TargetUrl) -> (r: String)
    ensures
        r@ == path_and_query(url@),
{
    let mut r = if url.path.as_str().unicode_len() == 0 {
        String::from_str("/")
    } else {
        url.path.clone()
    };
    match &url.query {
        Some(q) => {
            r.push('?');
            r.append(q.as_str());
        },
        None => {},
    }
    r
}

/// The forwarding scheme of a target.
fn normalize_scheme(scheme: &str) -> (r: String)
    ensures
        r@ == normal_scheme(scheme@),
{
    if str_eq(scheme, "ws") {
        String::from_str("http")
    } else if str_eq(scheme, "wss") {
        String::from_str("https")
    } else {
        String::from_str(scheme)
    }
}

/// Computes where a request goes. A loopback host is replaced by the cloud
/// hostname of the session's route, which carries the requested port in its
/// name, and is reached over TLS on port 443; any other host is kept with its
/// port.
pub fn rewrite_target(url: &TargetUrl, context: &ProxyContext) -> (r: Result<
    RewrittenTarget,
    RewriteError,
>)
    ensures
        match r {
            Ok(t) => rewritten(url@, context@.route) == Ok::<RewrittenView, RewriteError>(t@),
            Err(e) => rewritten(url@, context@.route) == Err::<RewrittenView, RewriteError>(e),
        },
{
    let host = match &url.host {
        Some(h) => h,
        None => {
            return Err(RewriteError::MissingHost);
        },
    };
    match &context.route {
        Some(route) => {
            if is_loopback_hostname(host.as_str()) {
                let port = determine_requested_port(url);
                return Ok(
                    RewrittenTarget {
                        scheme: String::from_str("https"),
                        hostname: build_cmux_host(route, port),
                        port: None,
                        path_and_query: target_path(url),
                        connect_port: 443,
                        secure: true,
                    },
                );
            }
        },
        None => {},
    }
    let scheme = normalize_scheme(url.scheme.as_str());
    let secure = str_eq(scheme.as_str(), "https");
    let connect_port: u16 = match url.port {
        Some(p) => p,
        None => if secure {
            443
        } else {
            80
        },
    };
    Ok(
        RewrittenTarget {
            scheme: scheme,
            hostname: host.clone(),
            port: url.port,
            path_and_query: target_path(url),
            connect_port: connect_port,
            secure: secure,
        },
    )
}

impl RewrittenTarget {
    /// `hostname` alone, or `hostname:port`: the `Host` header sent upstream.
    pub fn authority(&self) -> (r: String)
        ensures
            r@ == authority_of(self@),
    {
        let mut r = self.hostname.clone();
        match self.port {
            Some(p) => {
                r.push(':');
                let digits = string_of(&format_u32(p as u32));
                r.append(digits.as_str());
            },
            None => {},
        }
        r
    }

    /// The upstream URI `{scheme}://{authority}{path-and-query}`.
    pub fn uri(&self) -> (r: String)
        ensures
            r@ == uri_of(self@),
    {
        let mut r = self.scheme.clone();
        r.append("://");
        let authority = self.authority();
        r.append(authority.as_str());
        r.append(self.path_and_query.as_str());
        r
    }
}

/// Every loopback host is rewritten, whatever the scheme: the authority of
/// the upstream URI is the cloud hostname of the route with the requested port
/// in it, and the scheme is `https`. The requested port is the one that the
/// target names, or the default of its scheme where it names none.
pub proof fn lemma_loopback_rewrite(u: TargetView, route: RouteView, port: u16)
    requires
        u.host matches Some(h) && is_loopback(h),
        requested_port(u) == port,
    ensures
        rewritten(u, Some(route)) matches Ok(t) && t.scheme == "https"@ && authority_of(t)
            == cmux_host(route, port) && uri_of(t) == "https://"@ + cmux_host(route, port)
            + path_and_query(u) && t.connect_port == 443 && t.secure,
{
    reveal_strlit("https");
    reveal_strlit("://");
    reveal_strlit("https://");
    let t = rewritten(u, Some(route))->Ok_0;
    assert("https"@ + "://"@ =~= "https://"@);
    assert(uri_of(t) =~= "https://"@ + cmux_host(route, port) + path_and_query(u));
}

/// A host that is not loopback passes through: authority and scheme of the
/// upstream URI are those of the target, with `ws` and `wss` read as `http`
/// and `https`.
pub proof fn lemma_passthrough(u: TargetView, route: Option<RouteView>)
    requires
        u.host matches Some(h) && !is_loopback(h),
    ensures
        rewritten(u, route) matches Ok(t) && t.scheme == normal_scheme(u.scheme) && authority_of(t)
            == authority_text(u.host->0, u.port),
{
}

} // verus!

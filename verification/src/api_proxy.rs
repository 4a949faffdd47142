//! Forwarding the requests of agent command lines to the real API with the
//! key that they are not given themselves: the provider settings and the
//! rules for headers.

use crate::text::{chars_of, lower, same_text, to_lower};
use vstd::prelude::*;
use vstd::string::StringExecFns;

verus! {

/// How the API key is written into its header.
#[derive(Debug, Clone, Copy, PartialEq, Eq, Structural)]
pub enum AuthFormat {
    /// The key alone.
    Plain,
    /// `Bearer ` and the key.
    Bearer,
}

/// Mathematical model of a [`ProviderConfig`].
pub struct ProviderView {
    pub upstream_url: Seq<char>,
    pub api_key: Seq<char>,
    pub auth_header: Seq<char>,
    pub auth_format: AuthFormat,
}

/// The settings of one API provider: where its API lives, the key, and the
/// header that carries the key.
#[derive(Debug, Clone)]
pub struct ProviderConfig {
    pub upstream_url: String,
    pub api_key: String,
    pub auth_header: String,
    pub auth_format: AuthFormat,
}

impl View for ProviderConfig {
    type V = ProviderView;

    open spec fn view(&self) -> ProviderView {
        ProviderView {
            upstream_url: self.upstream_url@,
            api_key: self.api_key@,
            auth_header: self.auth_header@,
            auth_format: self.auth_format,
        }
    }
}

/// The value of the key header.
pub open spec fn auth_text(c: ProviderView) -> Seq<char> {
    match c.auth_format {
        AuthFormat::Plain => c.api_key,
        AuthFormat::Bearer => "Bearer "@ + c.api_key,
    }
}

/// The URL that a request for `path_and_query` is forwarded to; `/` stands
/// for a request without a path.
pub open spec fn upstream_text(c: ProviderView, path_and_query: Option<Seq<char>>) -> Seq<char> {
    match path_and_query {
        Some(p) => c.upstream_url + p,
        None => c.upstream_url + "/"@,
    }
}

/// The request headers that are not copied: those that the forwarding client
/// sets itself, and the key header.
pub open spec fn request_header_dropped(c: ProviderView, name: Seq<char>) -> bool {
    let n = lower(name);
    n == "host"@ || n == "content-length"@ || n == "transfer-encoding"@ || n == "connection"@ || n
        == lower(c.auth_header)
}

/// The response headers that are not copied.
pub open spec fn response_header_dropped(name: Seq<char>) -> bool {
    let n = lower(name);
    n == "transfer-encoding"@ || n == "connection"@
}

impl ProviderConfig {
    /// The settings for the Anthropic API.
    pub fn anthropic(api_key: String) -> (c: ProviderConfig)
        ensures
            c@ == (ProviderView {
                upstream_url: "https://api.anthropic.com"@,
                api_key: api_key@,
                auth_header: "x-api-key"@,
                auth_format: AuthFormat::Plain,
            }),
    {
        ProviderConfig {
            upstream_url: String::from_str("https://api.anthropic.com"),
            api_key: api_key,
            auth_header: String::from_str("x-api-key"),
            auth_format: AuthFormat::Plain,
        }
    }

    /// The settings for the OpenAI API.
    pub fn openai(api_key: String) -> (c: ProviderConfig)
        ensures
            c@ == (ProviderView {
                upstream_url: "https://api.openai.com"@,
                api_key: api_key@,
                auth_header: "authorization"@,
                auth_format: AuthFormat::Bearer,
            }),
    {
        ProviderConfig {
            upstream_url: String::from_str("https://api.openai.com"),
            api_key: api_key,
            auth_header: String::from_str("authorization"),
            auth_format: AuthFormat::Bearer,
        }
    }

    /// The settings for the Google AI API.
    pub fn google(api_key: String) -> (c: ProviderConfig)
        ensures
            c@ == (ProviderView {
                upstream_url: "https://generativelanguage.googleapis.com"@,
                api_key: api_key@,
                auth_header: "x-goog-api-key"@,
                auth_format: AuthFormat::Plain,
            }),
    {
        ProviderConfig {
            upstream_url: String::from_str("https://generativelanguage.googleapis.com"),
            api_key: api_key,
            auth_header: String::from_str("x-goog-api-key"),
            auth_format: AuthFormat::Plain,
        }
    }

    /// The value of the key header.
    pub fn auth_value(&self) -> (r: String)
        ensures
            r@ == auth_text(self@),
    {
        match self.auth_format {
            AuthFormat::Plain => self.api_key.clone(),
            AuthFormat::Bearer => {
                let mut r = String::from_str("Bearer ");
                r.append(self.api_key.as_str());
                r
            },
        }
    }

    /// The URL that a request is forwarded to.
    pub fn upstream_url_for(&self, path_and_query: Option<&str>) -> (r: String)
        ensures
            r@ == upstream_text(
                self@,
                match path_and_query {
                    Some(p) => Some(p@),
                    None => None,
                },
            ),
    {
        let mut r = self.upstream_url.clone();
        match path_and_query {
            Some(p) => r.append(p),
            None => r.append("/"),
        }
        r
    }

    /// Whether a request header is left out when the request is forwarded.
    pub fn drops_request_header(&self, name: &str) -> (r: bool)
        ensures
            r == request_header_dropped(self@, name@),
    {
        let n = to_lower(&chars_of(name));
        same_text(&n, &chars_of("host")) || same_text(&n, &chars_of("content-length"))
            || same_text(&n, &chars_of("transfer-encoding")) || same_text(
            &n,
            &chars_of("connection"),
        ) || same_text(&n, &to_lower(&chars_of(self.auth_header.as_str())))
    }
}

/// Whether a response header is left out when the response is handed back.
pub fn drops_response_header(name: &str) -> (r: bool)
    ensures
        r == response_header_dropped(name@),
{
    let n = to_lower(&chars_of(name));
    same_text(&n, &chars_of("transfer-encoding")) || same_text(&n, &chars_of("connection"))
}

/// Mathematical model of a reply of the proxy itself.
pub struct ReplyView {
    pub status: u16,
    pub body: Seq<char>,
}

/// What the proxy answers when it cannot read the request, reach the upstream
/// or read its response.
pub struct ProxyReply {
    pub status: u16,
    pub body: String,
}

impl View for ProxyReply {
    type V = ReplyView;

    open spec fn view(&self) -> ReplyView {
        ReplyView { status: self.status, body: self.body@ }
    }
}

/// The answer to a request whose body could not be read.
pub fn unreadable_request() -> (r: ProxyReply)
    ensures
        r@ == (ReplyView { status: 400, body: "Failed to read request body"@ }),
{
    ProxyReply { status: 400, body: String::from_str("Failed to read request body") }
}

/// The answer to a request whose upstream could not be reached.
pub fn upstream_failed(cause: &str) -> (r: ProxyReply)
    ensures
        r@ == (ReplyView { status: 502, body: "Upstream request failed: "@ + cause@ }),
{
    let mut body = String::from_str("Upstream request failed: ");
    body.append(cause);
    ProxyReply { status: 502, body: body }
}

/// The answer to a request whose upstream response could not be read.
pub fn unreadable_response() -> (r: ProxyReply)
    ensures
        r@ == (ReplyView { status: 502, body: "Failed to read upstream response"@ }),
{
    ProxyReply { status: 502, body: String::from_str("Failed to read upstream response") }
}

/// The base URL `http://{address}` of a proxy that listens on an address.
pub fn base_url(address: &str) -> (r: String)
    ensures
        r@ == "http://"@ + address@,
{
    let mut r = String::from_str("http://");
    r.append(address);
    r
}

/// The environment variables that point the command lines at the local
/// proxies: one for each proxy that runs and has a variable of its own.
pub open spec fn env_vars_of(anthropic: Option<Seq<char>>, openai: Option<Seq<char>>) -> Seq<
    (Seq<char>, Seq<char>),
> {
    let first = match anthropic {
        Some(url) => seq![("ANTHROPIC_BASE_URL"@, url)],
        None => Seq::empty(),
    };
    let second = match openai {
        Some(url) => seq![("OPENAI_BASE_URL"@, url)],
        None => Seq::empty(),
    };
    first + second
}

/// The pairs of a vector of string pairs, as texts.
pub open spec fn pair_views(v: Seq<(String, String)>) -> Seq<(Seq<char>, Seq<char>)> {
    Seq::new(v.len(), |i: int| (v[i].0@, v[i].1@))
}

/// The environment variables for the base URLs of the proxies that run.
pub fn env_vars(anthropic_base_url: Option<String>, openai_base_url: Option<String>) -> (r: Vec<
    (String, String),
>)
    ensures
        pair_views(r@) == env_vars_of(
            crate::text::text_of(anthropic_base_url),
            crate::text::text_of(openai_base_url),
        ),
{
    let mut vars: Vec<(String, String)> = Vec::new();
    match anthropic_base_url {
        Some(url) => {
            vars.push((String::from_str("ANTHROPIC_BASE_URL"), url));
        },
        None => {},
    }
    match openai_base_url {
        Some(url) => {
            vars.push((String::from_str("OPENAI_BASE_URL"), url));
        },
        None => {},
    }
    assert(pair_views(vars@) =~= env_vars_of(
        crate::text::text_of(anthropic_base_url),
        crate::text::text_of(openai_base_url),
    ));
    vars
}

} // verus!

//! Authenticating a request by its `Proxy-Authorization` header.

use crate::codec::{base64_decode, base64_decoded, utf8_text};
use crate::headers::{first_value, header_fields, header_value};
use crate::text::{
    ascii_text, chars_of, find_char, first_index, lower, same_text, slice_of, starts_with,
    string_of, visible_text,
};
use crate::types::{ContextView, ProxyContext, ProxyState, RegistryView};
use http::HeaderMap;
use vstd::prelude::*;
use vstd::utf8::{decode_utf8, valid_utf8};

verus! {

/// A user name and a password as texts.
pub struct CredentialsView {
    pub username: Seq<char>,
    pub password: Seq<char>,
}

/// The credentials in a text `username:password`, cut at the first colon.
/// Neither part may be empty.
pub open spec fn split_credentials(text: Seq<char>) -> Option<CredentialsView> {
    match first_index(text, ':') {
        Some(i) => if 0 < i && i + 1 < text.len() {
            Some(CredentialsView { username: text.take(i), password: text.skip(i + 1) })
        } else {
            None
        },
        None => None,
    }
}

/// The credentials that decoded bytes spell, where the bytes are UTF-8.
pub open spec fn credentials_in(decoded: Option<Seq<u8>>) -> Option<CredentialsView> {
    match decoded {
        Some(bytes) => if valid_utf8(bytes) {
            split_credentials(decode_utf8(bytes))
        } else {
            None
        },
        None => None,
    }
}

/// The base64 segment of a header value that begins with `Basic `.
pub open spec fn basic_segment(value: Seq<u8>) -> Option<Seq<u8>> {
    match ascii_text(value) {
        Some(text) => if "Basic "@.is_prefix_of(text) {
            Some(value.skip(6))
        } else {
            None
        },
        None => None,
    }
}

/// The credentials that a `Proxy-Authorization` value carries.
pub open spec fn basic_credentials(value: Seq<u8>) -> Option<CredentialsView> {
    match basic_segment(value) {
        Some(segment) => credentials_in(base64_decoded(segment)),
        None => None,
    }
}

/// The context that the credentials belong to: the user name must be
/// registered and the password must be the registered one, character for
/// character.
pub open spec fn context_for(
    registry: RegistryView,
    credentials: Option<CredentialsView>,
) -> Option<ContextView> {
    match credentials {
        Some(c) => match registry.context_named(c.username) {
            Some(context) => if context.password == c.password {
                Some(context)
            } else {
                None
            },
            None => None,
        },
        None => None,
    }
}

/// The context that a request with the given headers is authenticated as.
pub open spec fn authenticated(
    fields: Map<Seq<char>, Seq<Seq<u8>>>,
    registry: RegistryView,
) -> Option<ContextView> {
    match header_value(fields, "proxy-authorization"@) {
        Some(value) => context_for(registry, basic_credentials(value)),
        None => None,
    }
}

/// The credentials that a request presents, where its `Proxy-Authorization`
/// header is there and well formed.
pub open spec fn presented(fields: Map<Seq<char>, Seq<Seq<u8>>>) -> Option<CredentialsView> {
    match header_value(fields, "proxy-authorization"@) {
        Some(value) => basic_credentials(value),
        None => None,
    }
}

/// Whether the credentials are the user name and the password of a
/// registered context.
pub open spec fn registered(registry: RegistryView, c: CredentialsView) -> bool {
    registry.by_username.contains_key(c.username) && registry.by_username[c.username].password
        == c.password
}

/// A request is authenticated exactly where it presents credentials and
/// these are the user name and the password of a registered context, which
/// is then the context it is authenticated as. A request without the header,
/// with a malformed one, with an unknown user name or with another password
/// is not authenticated.
pub proof fn lemma_authenticated_exactly(
    fields: Map<Seq<char>, Seq<Seq<u8>>>,
    registry: RegistryView,
)
    ensures
        authenticated(fields, registry) is Some <==> (presented(fields) matches Some(c)
            && registered(registry, c)),
        authenticated(fields, registry) matches Some(context) ==> context
            == registry.by_username[presented(fields)->0.username],
        !fields.contains_key("proxy-authorization"@) ==> authenticated(fields, registry) is None,
{
    reveal_strlit("proxy-authorization");
    assert(lower("proxy-authorization"@) =~= "proxy-authorization"@);
}

/// Reads `username:password` off decoded credential bytes.
pub fn credentials_from_decoded(decoded: Option<Vec<u8>>) -> (r: Option<(String, String)>)
    ensures
        match r {
            Some(pair) => credentials_in(
                match decoded {
                    Some(b) => Some(b@),
                    None => None,
                },
            ) == Some(CredentialsView { username: pair.0@, password: pair.1@ }),
            None => credentials_in(
                match decoded {
                    Some(b) => Some(b@),
                    None => None,
                },
            ) is None,
        },
{
    let bytes = match decoded {
        Some(b) => b,
        None => {
            return None;
        },
    };
    let text = match utf8_text(bytes) {
        Some(t) => chars_of(t.as_str()),
        None => {
            return None;
        },
    };
    match find_char(&text, ':') {
        Some(i) => {
            if 0 < i && i + 1 < text.len() {
                let username = slice_of(&text, 0, i);
                let password = slice_of(&text, i + 1, text.len());
                assert(username@ == text@.take(i as int));
                assert(password@ == text@.skip(i + 1));
                Some((string_of(&username), string_of(&password)))
            } else {
                None
            }
        },
        None => None,
    }
}

/// Reads the credentials off a `Proxy-Authorization` value.
pub fn credentials_from_header(value: &Vec<u8>) -> (r: Option<(String, String)>)
    ensures
        match r {
            Some(pair) => basic_credentials(value@) == Some(
                CredentialsView { username: pair.0@, password: pair.1@ },
            ),
            None => basic_credentials(value@) is None,
        },
{
    let text = match visible_text(value) {
        Some(t) => t,
        None => {
            return None;
        },
    };
    let scheme = chars_of("Basic ");
    proof {
        reveal_strlit("Basic ");
    }
    if !starts_with(&text, &scheme) {
        return None;
    }
    let mut segment: Vec<u8> = Vec::new();
    let mut i: usize = 6;
    while i < value.len()
        invariant
            6 <= i <= value.len(),
            segment@ == value@.subrange(6, i as int),
        decreases value.len() - i,
    {
        segment.push(value[i]);
        assert(value@.subrange(6, i + 1) == value@.subrange(6, i as int).push(value@[i as int]));
        i += 1;
    }
    assert(segment@ == value@.skip(6));
    credentials_from_decoded(base64_decode(&segment))
}

/// Authenticates a request: its `Proxy-Authorization` header must carry
/// `Basic` credentials of a registered context.
pub fn authenticate_request(headers: &HeaderMap, state: &ProxyState) -> (r: Option<ProxyContext>)
    ensures
        match r {
            Some(c) => authenticated(header_fields(*headers), state@) == Some(c@),
            None => authenticated(header_fields(*headers), state@) is None,
        },
{
    let value = match first_value(headers, "proxy-authorization") {
        Some(v) => v,
        None => {
            return None;
        },
    };
    let (username, password) = match credentials_from_header(&value) {
        Some(pair) => pair,
        None => {
            return None;
        },
    };
    match state.get_context_by_username(username.as_str()) {
        Some(context) => {
            if same_text(&chars_of(context.password.as_str()), &chars_of(password.as_str())) {
                Some(context)
            } else {
                None
            }
        },
        None => None,
    }
}

} // verus!

//! Registering contexts: the persist-key filter, the route of the initial URL
//! and the generated credentials.

use crate::rewrite::{derive_route, route_of_parts, url_parts};
use crate::text::{chars_of, decimal_digits, format_u32, starts_with, string_of, text_of};
use crate::types::{
    ContextView, lemma_add_keeps_wf, lemma_release_keeps_wf, ProxyContext, ProxyCredentials,
    ProxyRoute, ProxyState, RegistryView, RouteView,
};
use rand::rngs::OsRng;
use rand::RngCore;
use vstd::prelude::*;
use vstd::string::StringExecFns;

verus! {

/// The lower-case hexadecimal digit for a value below sixteen.
pub open spec fn hex_char(n: nat) -> char {
    if n < 10 {
        (n as u8 + '0' as u8) as char
    } else {
        ((n - 10) as u8 + 'a' as u8) as char
    }
}

/// Two lower-case hexadecimal digits for each byte, high digit first.
pub open spec fn hex_text(bytes: Seq<u8>) -> Seq<char>
    decreases bytes.len(),
{
    if bytes.len() == 0 {
        Seq::<char>::empty()
    } else {
        hex_text(bytes.drop_last()).push(hex_char((bytes.last() / 16) as nat)).push(
            hex_char((bytes.last() % 16) as nat),
        )
    }
}

/// The user name `wc-{context_id}-{tag in hexadecimal}`.
pub open spec fn context_username(context_id: u32, tag: Seq<u8>) -> Seq<char> {
    "wc-"@ + decimal_digits(context_id as nat) + seq!['-'] + hex_text(tag)
}

/// Whether the filter on persist keys lets a key pass: without a filter every
/// key does, and none is needed; with one, the key must be there and begin
/// with the prefix.
pub open spec fn key_admitted(prefix: Option<Seq<char>>, key: Option<Seq<char>>) -> bool {
    match prefix {
        None => true,
        Some(p) => key matches Some(k) && p.is_prefix_of(k),
    }
}

/// The context that a registration stores.
pub open spec fn new_context(
    context_id: u32,
    route: RouteView,
    persist_key: Option<Seq<char>>,
    tag: Seq<u8>,
    secret: Seq<u8>,
) -> ContextView {
    ContextView {
        username: context_username(context_id, tag),
        password: hex_text(secret),
        route: Some(route),
        web_contents_id: context_id,
        persist_key: persist_key,
    }
}

/// Whether the user name made from `tag` is taken by a context with another
/// identifier.
pub open spec fn username_taken(r: RegistryView, context_id: u32, tag: Seq<u8>) -> bool {
    let name = context_username(context_id, tag);
    r.by_username.contains_key(name) && r.by_username[name].web_contents_id != context_id
}

/// The lower-case hexadecimal digit for a value below sixteen.
fn hex_digit(n: u8) -> (c: char)
    requires
        n < 16,
    ensures
        c == hex_char(n as nat),
{
    if n < 10 {
        (n + '0' as u8) as char
    } else {
        (n - 10 + 'a' as u8) as char
    }
}

/// Spells bytes as lower-case hexadecimal digits, two for each byte.
pub fn hex_lower(bytes: &Vec<u8>) -> (r: String)
    ensures
        r@ == hex_text(bytes@),
{
    let mut r = String::new();
    let mut i: usize = 0;
    assert(bytes@.take(0).len() == 0);
    while i < bytes.len()
        invariant
            i <= bytes.len(),
            r@ == hex_text(bytes@.take(i as int)),
        decreases bytes.len() - i,
    {
        let b = bytes[i];
        assert(bytes@.take(i + 1).drop_last() == bytes@.take(i as int));
        r.push(hex_digit(b / 16));
        r.push(hex_digit(b % 16));
        i += 1;
    }
    assert(bytes@ == bytes@.take(bytes.len() as int));
    r
}

/// Asks the operating system's random source for `count` bytes with
/// `OsRng::try_fill_bytes`. Where the source answers, the buffer comes back
/// with its length unchanged; nothing is claimed of its contents. The bound
/// on `count` keeps the buffer to a size that can always be asked for.
#[verifier::external_body]
pub(crate) fn random_bytes(count: usize) -> (r: Option<Vec<u8>>)
    requires
        count <= 64,
    ensures
        r matches Some(b) ==> b@.len() == count,
{
    let mut buf = vec![0u8; count];
    match OsRng.try_fill_bytes(&mut buf) {
        Ok(()) => Some(buf),
        Err(_) => None,
    }
}

/// Builds the user name `wc-{context_id}-{tag in hexadecimal}`.
pub fn make_username(context_id: u32, tag: &Vec<u8>) -> (r: String)
    ensures
        r@ == context_username(context_id, tag@),
{
    let mut r = String::from_str("wc-");
    let digits = string_of(&format_u32(context_id));
    r.append(digits.as_str());
    r.push('-');
    let hex = hex_lower(tag);
    r.append(hex.as_str());
    r
}

/// Whether the filter on persist keys lets a key pass.
pub fn persist_key_admitted(prefix: &Option<String>, key: &Option<String>) -> (r: bool)
    ensures
        r == key_admitted(text_of(*prefix), text_of(*key)),
{
    match prefix {
        None => true,
        Some(p) => match key {
            Some(k) => starts_with(&chars_of(k.as_str()), &chars_of(p.as_str())),
            None => false,
        },
    }
}

impl ProxyState {
    /// Registers a context for `context_id` whose user name carries `tag` and
    /// whose password spells `secret`. A context that was registered under the
    /// same identifier is evicted. Where the user name is taken by a context
    /// with another identifier, nothing changes and nothing is returned.
    pub fn register_with(
        &mut self,
        context_id: u32,
        route: ProxyRoute,
        persist_key: Option<String>,
        tag: &Vec<u8>,
        secret: &Vec<u8>,
    ) -> (r: Option<ProxyCredentials>)
        ensures
            old(self)@.wf() ==> final(self)@.wf(),
            final(self).logging() == old(self).logging(),
            final(self).key_prefix() == old(self).key_prefix(),
            r is None <==> username_taken(old(self)@, context_id, tag@),
            match r {
                Some(cred) => {
                    &&& cred.username@ == context_username(context_id, tag@)
                    &&& cred.password@ == hex_text(secret@)
                    &&& final(self)@ == old(self)@.add(
                        new_context(
                            context_id,
                            route@,
                            text_of(persist_key),
                            tag@,
                            secret@,
                        ),
                    )
                },
                None => final(self)@ == old(self)@,
            },
    {
        let username = make_username(context_id, tag);
        match self.get_context_by_username(username.as_str()) {
            Some(other) => {
                if other.web_contents_id != context_id {
                    return None;
                }
            },
            None => {},
        }
        let password = hex_lower(secret);
        let context = ProxyContext {
            username: username.clone(),
            password: password.clone(),
            route: Some(route),
            web_contents_id: context_id,
            persist_key: persist_key,
        };
        self.add_context(context);
        Some(ProxyCredentials { username: username, password: password })
    }

    /// Registers a context for `context_id` with fresh credentials and the
    /// route of `initial_url`. The registration is refused, and the registry
    /// left as it was, where the persist-key filter does not admit the key or
    /// the URL gives no route; it is also given up where the random source
    /// fails or keeps producing a user name that is taken.
    pub fn register_context(
        &mut self,
        context_id: u32,
        initial_url: &str,
        persist_key: Option<String>,
    ) -> (r: Option<ProxyCredentials>)
        ensures
            old(self)@.wf() ==> final(self)@.wf(),
            final(self).logging() == old(self).logging(),
            final(self).key_prefix() == old(self).key_prefix(),
            !key_admitted(
                old(self).key_prefix(),
                text_of(persist_key),
            ) ==> r is None,
            route_of_parts(url_parts(initial_url@)) is None ==> r is None,
            match r {
                Some(cred) => exists|tag: Seq<u8>, secret: Seq<u8>|
                    {
                        &&& tag.len() == 4
                        &&& secret.len() == 12
                        &&& !username_taken(old(self)@, context_id, tag)
                        &&& cred.username@ == context_username(context_id, tag)
                        &&& cred.password@ == hex_text(secret)
                        &&& route_of_parts(url_parts(initial_url@)) is Some
                        &&& final(self)@ == old(self)@.add(
                            #[trigger] new_context(
                                context_id,
                                route_of_parts(url_parts(initial_url@))->0,
                                text_of(persist_key),
                                tag,
                                secret,
                            ),
                        )
                    },
                None => final(self)@ == old(self)@,
            },
    {
        let prefix = self.persist_key_prefix();
        if !persist_key_admitted(&prefix, &persist_key) {
            return None;
        }
        let route = match derive_route(initial_url) {
            Some(route) => route,
            None => {
                return None;
            },
        };
        let mut attempt: u8 = 0;
        while attempt < 8
            invariant
                attempt <= 8,
                self@ == old(self)@,
                self.logging() == old(self).logging(),
                self.key_prefix() == old(self).key_prefix(),
                old(self)@.wf() ==> self@.wf(),
                key_admitted(old(self).key_prefix(), text_of(persist_key)),
                route_of_parts(url_parts(initial_url@)) == Some(route@),
            decreases 8 - attempt,
        {
            let tag = match random_bytes(4) {
                Some(b) => b,
                None => {
                    return None;
                },
            };
            let secret = match random_bytes(12) {
                Some(b) => b,
                None => {
                    return None;
                },
            };
            let key = match &persist_key {
                Some(k) => Some(k.clone()),
                None => None,
            };
            assert(text_of(key) == text_of(persist_key));
            match self.register_with(context_id, route.duplicate(), key, &tag, &secret) {
                Some(cred) => {
                    assert(self@ == old(self)@.add(
                        new_context(
                            context_id,
                            route_of_parts(url_parts(initial_url@))->0,
                            text_of(persist_key),
                            tag@,
                            secret@,
                        ),
                    ));
                    return Some(cred);
                },
                None => {},
            }
            attempt += 1;
        }
        None
    }
}

/// One change to the registry.
pub enum RegistryOp {
    /// A context is registered.
    Register(ContextView),
    /// The context of an identifier is released.
    Release(u32),
}

/// The registry after one change.
pub open spec fn apply_op(r: RegistryView, op: RegistryOp) -> RegistryView {
    match op {
        RegistryOp::Register(c) => r.add(c),
        RegistryOp::Release(id) => r.release(id),
    }
}

/// The registry after a run of changes, first to last.
pub open spec fn apply_ops(r: RegistryView, ops: Seq<RegistryOp>) -> RegistryView
    decreases ops.len(),
{
    if ops.len() == 0 {
        r
    } else {
        apply_op(apply_ops(r, ops.drop_last()), ops.last())
    }
}

/// After any run of registrations and releases on an empty registry, a user
/// name leads to a context with identifier `i` exactly when `i` leads to that
/// user name.
pub proof fn lemma_registry_bijection(ops: Seq<RegistryOp>)
    ensures
        ({
            let r = apply_ops(RegistryView::empty(), ops);
            &&& r.wf()
            &&& forall|u: Seq<char>, i: u32|
                (r.by_username.contains_key(u) && #[trigger] r.by_username[u].web_contents_id == i)
                    <==> (#[trigger] r.by_id.contains_key(i) && r.by_id[i] == u)
        }),
    decreases ops.len(),
{
    let r = apply_ops(RegistryView::empty(), ops);
    if ops.len() > 0 {
        let before = apply_ops(RegistryView::empty(), ops.drop_last());
        lemma_registry_bijection(ops.drop_last());
        match ops.last() {
            RegistryOp::Register(c) => {
                lemma_add_keeps_wf(before, c);
            },
            RegistryOp::Release(id) => {
                lemma_release_keeps_wf(before, id);
            },
        }
    }
    assert(r.wf());
    assert forall|u: Seq<char>, i: u32|
        (r.by_username.contains_key(u) && #[trigger] r.by_username[u].web_contents_id == i) <==> (
        #[trigger] r.by_id.contains_key(i) && r.by_id[i] == u) by {
        if r.by_username.contains_key(u) {
        }
        if r.by_id.contains_key(i) {
        }
    }
}

} // verus!

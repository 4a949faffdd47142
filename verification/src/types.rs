//! The data that a proxy session carries: routes and contexts.

use crate::text::text_of;
use dashmap::DashMap;
use vstd::prelude::*;

verus! {

/// Mathematical model of a [`ProxyRoute`].
pub struct RouteView {
    pub morph_id: Seq<char>,
    pub scope: Seq<char>,
    pub domain_suffix: Seq<char>,
}

/// The triple from which a cloud hostname is built for a loopback request.
#[derive(Debug, Clone)]
pub struct ProxyRoute {
    pub morph_id: String,
    pub scope: String,
    pub domain_suffix: String,
}

impl View for ProxyRoute {
    type V = RouteView;

    open spec fn view(&self) -> RouteView {
        RouteView {
            morph_id: self.morph_id@,
            scope: self.scope@,
            domain_suffix: self.domain_suffix@,
        }
    }
}

impl ProxyRoute {
    /// A copy that denotes the same route.
    pub fn duplicate(&self) -> (r: ProxyRoute)
        ensures
            r@ == self@,
    {
        ProxyRoute {
            morph_id: self.morph_id.clone(),
            scope: self.scope.clone(),
            domain_suffix: self.domain_suffix.clone(),
        }
    }
}

/// Mathematical model of a [`ProxyContext`].
pub struct ContextView {
    pub username: Seq<char>,
    pub password: Seq<char>,
    pub route: Option<RouteView>,
    pub web_contents_id: u32,
    pub persist_key: Option<Seq<char>>,
}

/// The session of one browser context with the proxy: its credentials, the
/// identifier that the controller chose for it, and the route it rewrites to.
#[derive(Debug, Clone)]
pub struct ProxyContext {
    pub username: String,
    pub password: String,
    pub route: Option<ProxyRoute>,
    pub web_contents_id: u32,
    pub persist_key: Option<String>,
}

impl View for ProxyContext {
    type V = ContextView;

    open spec fn view(&self) -> ContextView {
        ContextView {
            username: self.username@,
            password: self.password@,
            route: match self.route {
                Some(r) => Some(r@),
                None => None,
            },
            web_contents_id: self.web_contents_id,
            persist_key: text_of(self.persist_key),
        }
    }
}

impl ProxyContext {
    /// A copy that denotes the same context.
    pub fn duplicate(&self) -> (r: ProxyContext)
        ensures
            r@ == self@,
    {
        ProxyContext {
            username: self.username.clone(),
            password: self.password.clone(),
            route: match &self.route {
                Some(r) => Some(r.duplicate()),
                None => None,
            },
            web_contents_id: self.web_contents_id,
            persist_key: match &self.persist_key {
                Some(k) => Some(k.clone()),
                None => None,
            },
        }
    }
}

/// The user name and password that a context logs in with.
#[derive(Debug, Clone)]
pub struct ProxyCredentials {
    pub username: String,
    pub password: String,
}

/// Mathematical model of a [`ProxyState`]: the live contexts by user name, and
/// the user name of each live context identifier.
pub struct RegistryView {
    pub by_username: Map<Seq<char>, ContextView>,
    pub by_id: Map<u32, Seq<char>>,
}

impl RegistryView {
    /// The registry without any context.
    pub open spec fn empty() -> RegistryView {
        RegistryView { by_username: Map::empty(), by_id: Map::empty() }
    }

    /// The two indices mirror each other: every live user name leads to a
    /// context that carries that name and whose identifier leads back to it,
    /// and every live identifier leads to a user name whose context carries
    /// that identifier.
    pub open spec fn wf(self) -> bool {
        &&& forall|u: Seq<char>| #[trigger]
            self.by_username.contains_key(u) ==> {
                &&& self.by_username[u].username == u
                &&& self.by_id.contains_key(self.by_username[u].web_contents_id)
                &&& self.by_id[self.by_username[u].web_contents_id] == u
            }
        &&& forall|i: u32| #[trigger]
            self.by_id.contains_key(i) ==> {
                &&& self.by_username.contains_key(self.by_id[i])
                &&& self.by_username[self.by_id[i]].web_contents_id == i
            }
    }

    /// The context registered under an identifier.
    pub open spec fn context_of(self, id: u32) -> Option<ContextView> {
        if self.by_id.contains_key(id) {
            self.context_named(self.by_id[id])
        } else {
            None
        }
    }

    /// The context registered under a user name.
    pub open spec fn context_named(self, username: Seq<char>) -> Option<ContextView> {
        if self.by_username.contains_key(username) {
            Some(self.by_username[username])
        } else {
            None
        }
    }

    /// The registry after the context of `id`, if any, has left both indices.
    pub open spec fn release(self, id: u32) -> RegistryView {
        if self.by_id.contains_key(id) {
            RegistryView {
                by_username: self.by_username.remove(self.by_id[id]),
                by_id: self.by_id.remove(id),
            }
        } else {
            self
        }
    }

    /// The registry after the context named `username`, if any, has left both
    /// indices.
    pub open spec fn forget(self, username: Seq<char>) -> RegistryView {
        if self.by_username.contains_key(username) {
            RegistryView {
                by_username: self.by_username.remove(username),
                by_id: self.by_id.remove(self.by_username[username].web_contents_id),
            }
        } else {
            self
        }
    }

    /// The registry after `c` has been registered: whatever was registered
    /// under its identifier or under its user name is evicted first.
    pub open spec fn add(self, c: ContextView) -> RegistryView {
        let base = self.release(c.web_contents_id).forget(c.username);
        RegistryView {
            by_username: base.by_username.insert(c.username, c),
            by_id: base.by_id.insert(c.web_contents_id, c.username),
        }
    }
}

/// The concurrent hash map of the `dashmap` crate, carried as an opaque value.
#[verifier::external_type_specification]
#[verifier::external_body]
#[verifier::reject_recursive_types(K)]
#[verifier::reject_recursive_types(V)]
#[verifier::reject_recursive_types(S)]
pub struct ExDashMap<K, V, S>(DashMap<K, V, S>);

/// What a user-name index holds: the model of each stored context under the
/// text of its key.
pub uninterp spec fn contexts_of(m: DashMap<String, ProxyContext>) -> Map<Seq<char>, ContextView>;

/// What an identifier index holds: the text of each stored user name under its
/// key.
pub uninterp spec fn usernames_of(m: DashMap<u32, String>) -> Map<u32, Seq<char>>;

/// `DashMap::new` makes a map without entries.
#[verifier::external_body]
fn new_context_index() -> (m: DashMap<String, ProxyContext>)
    ensures
        contexts_of(m) == RegistryView::empty().by_username,
{
    DashMap::new()
}

/// `DashMap::insert` stores the value under the key and replaces what the key
/// held before.
#[verifier::external_body]
fn context_index_insert(m: &mut DashMap<String, ProxyContext>, key: String, value: ProxyContext)
    ensures
        contexts_of(*final(m)) == contexts_of(*old(m)).insert(key@, value@),
{
    m.insert(key, value);
}

/// `DashMap::remove` takes the entry of the key out, if there is one, and
/// leaves every other entry alone.
#[verifier::external_body]
fn context_index_remove(m: &mut DashMap<String, ProxyContext>, key: &str)
    ensures
        contexts_of(*final(m)) == contexts_of(*old(m)).remove(key@),
{
    m.remove(key);
}

/// `DashMap::get` finds the entry of the key; the value is handed out as a
/// clone.
#[verifier::external_body]
fn context_index_get(m: &DashMap<String, ProxyContext>, key: &str) -> (r: Option<ProxyContext>)
    ensures
        match r {
            Some(c) => contexts_of(*m).contains_key(key@) && contexts_of(*m)[key@] == c@,
            None => !contexts_of(*m).contains_key(key@),
        },
{
    m.get(key).map(|entry| entry.value().clone())
}

/// `DashMap::new` makes a map without entries.
#[verifier::external_body]
fn new_id_index() -> (m: DashMap<u32, String>)
    ensures
        usernames_of(m) == RegistryView::empty().by_id,
{
    DashMap::new()
}

/// `DashMap::insert` stores the value under the key and replaces what the key
/// held before.
#[verifier::external_body]
fn id_index_insert(m: &mut DashMap<u32, String>, key: u32, value: String)
    ensures
        usernames_of(*final(m)) == usernames_of(*old(m)).insert(key, value@),
{
    m.insert(key, value);
}

/// `DashMap::remove` takes the entry of the key out, if there is one, and
/// leaves every other entry alone.
#[verifier::external_body]
fn id_index_remove(m: &mut DashMap<u32, String>, key: u32)
    ensures
        usernames_of(*final(m)) == usernames_of(*old(m)).remove(key),
{
    m.remove(&key);
}

/// `DashMap::get` finds the entry of the key; the value is handed out as a
/// clone.
#[verifier::external_body]
fn id_index_get(m: &DashMap<u32, String>, key: u32) -> (r: Option<String>)
    ensures
        match r {
            Some(name) => usernames_of(*m).contains_key(key) && usernames_of(*m)[key] == name@,
            None => !usernames_of(*m).contains_key(key),
        },
{
    m.get(&key).map(|entry| entry.value().clone())
}

/// The registry of live contexts, with the switch for request logs.
pub struct ProxyState {
    contexts_by_username: DashMap<String, ProxyContext>,
    contexts_by_web_contents_id: DashMap<u32, String>,
    logging_enabled: bool,
    persist_key_prefix: Option<String>,
}

impl View for ProxyState {
    type V = RegistryView;

    closed spec fn view(&self) -> RegistryView {
        RegistryView {
            by_username: contexts_of(self.contexts_by_username),
            by_id: usernames_of(self.contexts_by_web_contents_id),
        }
    }
}

impl ProxyState {
    /// Whether request logs are switched on.
    pub closed spec fn logging(&self) -> bool {
        self.logging_enabled
    }

    /// The prefix that the persist key of a context must begin with for the
    /// context to be registered, where such a filter is configured.
    pub closed spec fn key_prefix(&self) -> Option<Seq<char>> {
        text_of(self.persist_key_prefix)
    }

    /// A registry without contexts, with logging switched off and without a
    /// filter on persist keys.
    pub fn new() -> (state: ProxyState)
        ensures
            state@ == RegistryView::empty(),
            state@.wf(),
            !state.logging(),
            state.key_prefix() is None,
    {
        ProxyState {
            contexts_by_username: new_context_index(),
            contexts_by_web_contents_id: new_id_index(),
            logging_enabled: false,
            persist_key_prefix: None,
        }
    }

    /// Configures, or with `None` removes, the filter on persist keys.
    pub fn set_persist_key_prefix(&mut self, prefix: Option<String>)
        ensures
            final(self)@ == old(self)@,
            final(self).logging() == old(self).logging(),
            final(self).key_prefix() == text_of(prefix),
    {
        self.persist_key_prefix = prefix;
    }

    /// The configured filter on persist keys.
    pub fn persist_key_prefix(&self) -> (r: Option<String>)
        ensures
            text_of(r) == self.key_prefix(),
    {
        match &self.persist_key_prefix {
            Some(p) => Some(p.clone()),
            None => None,
        }
    }

    /// Takes the context of `web_contents_id` out of both indices and hands it
    /// back.
    pub fn remove_context(&mut self, web_contents_id: u32) -> (r: Option<ProxyContext>)
        ensures
            final(self)@ == old(self)@.release(web_contents_id),
            old(self)@.wf() ==> final(self)@.wf(),
            final(self).logging() == old(self).logging(),
            final(self).key_prefix() == old(self).key_prefix(),
            match r {
                Some(c) => old(self)@.context_of(web_contents_id) == Some(c@),
                None => old(self)@.context_of(web_contents_id) is None,
            },
    {
        match id_index_get(&self.contexts_by_web_contents_id, web_contents_id) {
            Some(username) => {
                let context = context_index_get(&self.contexts_by_username, username.as_str());
                id_index_remove(&mut self.contexts_by_web_contents_id, web_contents_id);
                context_index_remove(&mut self.contexts_by_username, username.as_str());
                proof {
                    if old(self)@.wf() {
                        lemma_release_keeps_wf(old(self)@, web_contents_id);
                    }
                }
                context
            },
            None => None,
        }
    }

    /// Takes the context named `username` out of both indices.
    fn forget(&mut self, username: &str)
        ensures
            final(self)@ == old(self)@.forget(username@),
            old(self)@.wf() ==> final(self)@.wf(),
            final(self).logging() == old(self).logging(),
            final(self).key_prefix() == old(self).key_prefix(),
    {
        match context_index_get(&self.contexts_by_username, username) {
            Some(context) => {
                id_index_remove(&mut self.contexts_by_web_contents_id, context.web_contents_id);
                context_index_remove(&mut self.contexts_by_username, username);
                proof {
                    if old(self)@.wf() {
                        lemma_forget_keeps_wf(old(self)@, username@);
                    }
                }
            },
            None => {},
        }
    }

    /// Registers a context under its user name and its identifier. A context
    /// that was registered under either of them is evicted first, so that the
    /// two indices keep mirroring each other.
    pub fn add_context(&mut self, context: ProxyContext)
        ensures
            final(self)@ == old(self)@.add(context@),
            old(self)@.wf() ==> final(self)@.wf(),
            final(self).logging() == old(self).logging(),
            final(self).key_prefix() == old(self).key_prefix(),
    {
        self.remove_context(context.web_contents_id);
        self.forget(context.username.as_str());
        proof {
            if old(self)@.wf() {
                lemma_add_keeps_wf(old(self)@, context@);
            }
        }
        id_index_insert(
            &mut self.contexts_by_web_contents_id,
            context.web_contents_id,
            context.username.clone(),
        );
        context_index_insert(&mut self.contexts_by_username, context.username.clone(), context);
    }

    /// The context registered under a user name.
    pub fn get_context_by_username(&self, username: &str) -> (r: Option<ProxyContext>)
        ensures
            match r {
                Some(c) => self@.context_named(username@) == Some(c@),
                None => self@.context_named(username@) is None,
            },
    {
        context_index_get(&self.contexts_by_username, username)
    }

    /// The context registered under an identifier.
    pub fn get_context_by_web_contents_id(&self, id: u32) -> (r: Option<ProxyContext>)
        ensures
            match r {
                Some(c) => self@.context_of(id) == Some(c@),
                None => self@.context_of(id) is None,
            },
    {
        match id_index_get(&self.contexts_by_web_contents_id, id) {
            Some(username) => context_index_get(&self.contexts_by_username, username.as_str()),
            None => None,
        }
    }

    /// Takes the context of `context_id` out of the registry and says whether
    /// there was one.
    pub fn release_context(&mut self, context_id: u32) -> (removed: bool)
        ensures
            final(self)@ == old(self)@.release(context_id),
            old(self)@.wf() ==> final(self)@.wf(),
            final(self).logging() == old(self).logging(),
            final(self).key_prefix() == old(self).key_prefix(),
            removed == old(self)@.by_id.contains_key(context_id),
    {
        let known = id_index_get(&self.contexts_by_web_contents_id, context_id).is_some();
        self.remove_context(context_id);
        known
    }

    /// The credentials of the context registered under an identifier.
    pub fn credentials_for_context(&self, context_id: u32) -> (r: Option<ProxyCredentials>)
        ensures
            match (r, self@.context_of(context_id)) {
                (Some(cred), Some(c)) => cred.username@ == c.username && cred.password@
                    == c.password,
                (None, None) => true,
                _ => false,
            },
    {
        match self.get_context_by_web_contents_id(context_id) {
            Some(c) => Some(ProxyCredentials { username: c.username, password: c.password }),
            None => None,
        }
    }

    /// Switches request logs on or off.
    pub fn set_logging_enabled(&mut self, enabled: bool)
        ensures
            final(self).logging() == enabled,
            final(self)@ == old(self)@,
            final(self).key_prefix() == old(self).key_prefix(),
    {
        self.logging_enabled = enabled;
    }

    /// Whether request logs are switched on.
    pub fn is_logging_enabled(&self) -> (enabled: bool)
        ensures
            enabled == self.logging(),
    {
        self.logging_enabled
    }
}

/// Releasing an identifier keeps the two indices mirroring each other.
pub proof fn lemma_release_keeps_wf(r: RegistryView, id: u32)
    requires
        r.wf(),
    ensures
        r.release(id).wf(),
        !r.release(id).by_id.contains_key(id),
{
    let after = r.release(id);
    if r.by_id.contains_key(id) {
        let name = r.by_id[id];
        assert forall|u: Seq<char>| #[trigger] after.by_username.contains_key(u) implies {
            &&& after.by_username[u].username == u
            &&& after.by_id.contains_key(after.by_username[u].web_contents_id)
            &&& after.by_id[after.by_username[u].web_contents_id] == u
        } by {
            assert(r.by_username.contains_key(u));
        }
        assert forall|i: u32| #[trigger] after.by_id.contains_key(i) implies {
            &&& after.by_username.contains_key(after.by_id[i])
            &&& after.by_username[after.by_id[i]].web_contents_id == i
        } by {
            assert(r.by_id.contains_key(i));
            assert(r.by_username.contains_key(name));
        }
    }
}

/// Forgetting a user name keeps the two indices mirroring each other.
pub proof fn lemma_forget_keeps_wf(r: RegistryView, username: Seq<char>)
    requires
        r.wf(),
    ensures
        r.forget(username).wf(),
        !r.forget(username).by_username.contains_key(username),
        forall|i: u32| !r.by_id.contains_key(i) ==> !r.forget(username).by_id.contains_key(i),
{
    let after = r.forget(username);
    if r.by_username.contains_key(username) {
        let id = r.by_username[username].web_contents_id;
        assert forall|u: Seq<char>| #[trigger] after.by_username.contains_key(u) implies {
            &&& after.by_username[u].username == u
            &&& after.by_id.contains_key(after.by_username[u].web_contents_id)
            &&& after.by_id[after.by_username[u].web_contents_id] == u
        } by {
            assert(r.by_username.contains_key(u));
            assert(r.by_id.contains_key(id));
        }
        assert forall|i: u32| #[trigger] after.by_id.contains_key(i) implies {
            &&& after.by_username.contains_key(after.by_id[i])
            &&& after.by_username[after.by_id[i]].web_contents_id == i
        } by {
            assert(r.by_id.contains_key(i));
        }
    }
}

/// A context that has been registered is found under its user name and under
/// its identifier.
pub proof fn lemma_add_finds(r: RegistryView, c: ContextView)
    ensures
        r.add(c).context_named(c.username) == Some(c),
        r.add(c).context_of(c.web_contents_id) == Some(c),
{
}

/// Registering a context keeps the two indices mirroring each other.
pub proof fn lemma_add_keeps_wf(r: RegistryView, c: ContextView)
    requires
        r.wf(),
    ensures
        r.add(c).wf(),
{
    lemma_release_keeps_wf(r, c.web_contents_id);
    let mid = r.release(c.web_contents_id);
    lemma_forget_keeps_wf(mid, c.username);
    let base = mid.forget(c.username);
    let after = r.add(c);
    assert forall|u: Seq<char>| #[trigger] after.by_username.contains_key(u) implies {
        &&& after.by_username[u].username == u
        &&& after.by_id.contains_key(after.by_username[u].web_contents_id)
        &&& after.by_id[after.by_username[u].web_contents_id] == u
    } by {
        if u != c.username {
            assert(base.by_username.contains_key(u));
        }
    }
    assert forall|i: u32| #[trigger] after.by_id.contains_key(i) implies {
        &&& after.by_username.contains_key(after.by_id[i])
        &&& after.by_username[after.by_id[i]].web_contents_id == i
    } by {
        if i != c.web_contents_id {
            assert(base.by_id.contains_key(i));
        }
    }
}

} // verus!

//! The listener and its control surface: which port is tried next, and what
//! `start` and `stop` do to a proxy that runs or does not.

use crate::registry::key_admitted;
use crate::rewrite::{route_of_parts, url_parts};
use crate::text::text_of;
use crate::types::{ProxyCredentials, ProxyState};
use vstd::prelude::*;

verus! {

/// Where the listener looks for a free port: `port_range` ports from
/// `port_start` on.
#[derive(Debug, Clone, Copy, PartialEq, Eq, Structural)]
pub struct ProxyConfig {
    pub port_start: u16,
    pub port_range: u16,
}

impl Default for ProxyConfig {
    /// Fifty ports from 39385 on.
    fn default() -> (config: ProxyConfig)
        ensures
            config == (ProxyConfig { port_start: 39385, port_range: 50 }),
    {
        ProxyConfig { port_start: 39385, port_range: 50 }
    }
}

/// How an attempt to bind a port ended.
#[derive(Debug, Clone, Copy, PartialEq, Eq, Structural)]
pub enum BindOutcome {
    /// The port is bound.
    Bound,
    /// The address is in use.
    AddrInUse,
    /// Any other error.
    Failed,
}

/// What the listener does next.
#[derive(Debug, Clone, Copy, PartialEq, Eq, Structural)]
pub enum BindStep {
    /// Try to bind this port on the loopback address.
    Try(u16),
    /// The listener stands on this port.
    Listening(u16),
    /// Every port of the range is in use.
    Exhausted,
    /// Binding failed for another reason than a port in use; no other port is
    /// tried.
    Fatal,
}

impl ProxyConfig {
    /// Whether `port` is one of the ports of this range.
    pub open spec fn covers(self, port: u16) -> bool {
        self.port_start <= port && port < self.port_start + self.port_range
    }

    /// The first step: the first port of the range, if the range has one.
    pub open spec fn first(self) -> BindStep {
        if self.port_range > 0 {
            BindStep::Try(self.port_start)
        } else {
            BindStep::Exhausted
        }
    }

    /// The step after `tried` was tried with the given outcome: a bound port
    /// ends the scan, a port in use sends it to the next port of the range,
    /// and any other error ends it at once.
    pub open spec fn next(self, tried: u16, outcome: BindOutcome) -> BindStep {
        match outcome {
            BindOutcome::Bound => BindStep::Listening(tried),
            BindOutcome::Failed => BindStep::Fatal,
            BindOutcome::AddrInUse => if tried < 65535 && self.covers((tried + 1) as u16) {
                BindStep::Try((tried + 1) as u16)
            } else {
                BindStep::Exhausted
            },
        }
    }

    /// The first step of the scan.
    pub fn first_step(&self) -> (step: BindStep)
        ensures
            step == self.first(),
            step matches BindStep::Try(port) ==> self.covers(port),
    {
        if self.port_range > 0 {
            BindStep::Try(self.port_start)
        } else {
            BindStep::Exhausted
        }
    }

    /// The step after an attempt.
    pub fn next_step(&self, tried: u16, outcome: BindOutcome) -> (step: BindStep)
        ensures
            step == self.next(tried, outcome),
            step matches BindStep::Try(port) ==> self.covers(port) && port == tried + 1,
    {
        match outcome {
            BindOutcome::Bound => BindStep::Listening(tried),
            BindOutcome::Failed => BindStep::Fatal,
            BindOutcome::AddrInUse => {
                if tried < 65535 && self.port_start <= tried + 1 && (tried as u32) + 1 < (
                self.port_start as u32) + (self.port_range as u32) {
                    BindStep::Try(tried + 1)
                } else {
                    BindStep::Exhausted
                }
            },
        }
    }
}

/// The step that a scan arrives at when its attempts end as `outcomes` say,
/// one after the other.
pub open spec fn scan(config: ProxyConfig, outcomes: Seq<BindOutcome>) -> BindStep
    decreases outcomes.len(),
{
    if outcomes.len() == 0 {
        config.first()
    } else {
        match scan(config, outcomes.drop_last()) {
            BindStep::Try(port) => config.next(port, outcomes.last()),
            step => step,
        }
    }
}

/// Whatever the attempts bring, a scan only tries ports of its range, in
/// rising order from the first, and the port it listens on is the one whose
/// attempt succeeded.
pub proof fn lemma_scan_stays_in_range(config: ProxyConfig, outcomes: Seq<BindOutcome>)
    ensures
        match scan(config, outcomes) {
            BindStep::Try(port) => config.covers(port) && port == config.port_start
                + outcomes.len(),
            BindStep::Listening(port) => config.covers(port),
            _ => true,
        },
    decreases outcomes.len(),
{
    if outcomes.len() > 0 {
        lemma_scan_stays_in_range(config, outcomes.drop_last());
    }
}

/// The proxy as its host sees it: the registry, and the port of the listener
/// while one stands.
pub struct ProxyServer {
    port: Option<u16>,
    state: ProxyState,
}

/// What `start` has to do.
#[derive(Debug, Clone, Copy, PartialEq, Eq, Structural)]
pub enum StartDecision {
    /// The listener stands already, on this port.
    Running(u16),
    /// A listener has to be bound; the scan begins with this step.
    Bind(BindStep),
}

impl ProxyServer {
    /// The port of the listener, while one stands.
    pub closed spec fn listening(&self) -> Option<u16> {
        self.port
    }

    /// The registry.
    pub closed spec fn registry(&self) -> ProxyState {
        self.state
    }

    /// A proxy without listener and without contexts.
    pub fn new() -> (server: ProxyServer)
        ensures
            server.listening() is None,
            server.registry()@ == crate::types::RegistryView::empty(),
            server.registry()@.wf(),
            !server.registry().logging(),
            server.registry().key_prefix() is None,
    {
        ProxyServer { port: None, state: ProxyState::new() }
    }

    /// What `start` has to do: nothing while the listener stands, so that a
    /// repeated `start` gives the same port; else the scan for a port begins.
    pub fn start(&self, config: &ProxyConfig) -> (decision: StartDecision)
        ensures
            decision == match self.listening() {
                Some(port) => StartDecision::Running(port),
                None => StartDecision::Bind(config.first()),
            },
    {
        match self.port {
            Some(port) => StartDecision::Running(port),
            None => StartDecision::Bind(config.first_step()),
        }
    }

    /// Records that the listener stands on `port`.
    pub fn listener_bound(&mut self, port: u16)
        ensures
            final(self).listening() == Some(port),
            final(self).registry() == old(self).registry(),
    {
        self.port = Some(port);
    }

    /// The port that the listener stands on.
    pub fn port(&self) -> (port: Option<u16>)
        ensures
            port == self.listening(),
    {
        self.port
    }

    /// The registry.
    pub fn state(&self) -> (state: &ProxyState)
        ensures
            *state == self.registry(),
    {
        &self.state
    }

    /// Stops the proxy. The answer is the port whose listener has to be shut
    /// down, if one stood; the contexts stay registered.
    pub fn shutdown(&mut self) -> (released: Option<u16>)
        ensures
            released == old(self).listening(),
            final(self).listening() is None,
            final(self).registry() == old(self).registry(),
    {
        let released = self.port;
        self.port = None;
        released
    }

    /// Registers a context; this may be done before the listener stands.
    pub fn register_context(
        &mut self,
        context_id: u32,
        initial_url: &str,
        persist_key: Option<String>,
    ) -> (r: Option<ProxyCredentials>)
        ensures
            final(self).listening() == old(self).listening(),
            old(self).registry()@.wf() ==> final(self).registry()@.wf(),
            final(self).registry().logging() == old(self).registry().logging(),
            final(self).registry().key_prefix() == old(self).registry().key_prefix(),
            !key_admitted(old(self).registry().key_prefix(), text_of(persist_key)) ==> r is None,
            route_of_parts(url_parts(initial_url@)) is None ==> r is None,
            r is None ==> final(self).registry()@ == old(self).registry()@,
            r matches Some(cred) ==> {
                &&& final(self).registry()@.context_of(context_id) matches Some(c)
                &&& c.username == cred.username@
                &&& c.password == cred.password@
                &&& c.route == route_of_parts(url_parts(initial_url@))
            },
            r matches Some(cred) ==> exists|tag: Seq<u8>, secret: Seq<u8>|
                {
                    &&& tag.len() == 4
                    &&& secret.len() == 12
                    &&& !crate::registry::username_taken(old(self).registry()@, context_id, tag)
                    &&& cred.username@ == crate::registry::context_username(context_id, tag)
                    &&& cred.password@ == crate::registry::hex_text(secret)
                    &&& route_of_parts(url_parts(initial_url@)) is Some
                    &&& final(self).registry()@ == old(self).registry()@.add(
                        #[trigger] crate::registry::new_context(
                            context_id,
                            route_of_parts(url_parts(initial_url@))->0,
                            text_of(persist_key),
                            tag,
                            secret,
                        ),
                    )
                },
    {
        let r = self.state.register_context(context_id, initial_url, persist_key);
        proof {
            if r is Some {
                let cred = r->0;
                let (tag, secret) = choose|tag: Seq<u8>, secret: Seq<u8>|
                    {
                        &&& tag.len() == 4
                        &&& secret.len() == 12
                        &&& cred.username@ == crate::registry::context_username(context_id, tag)
                        &&& cred.password@ == crate::registry::hex_text(secret)
                        &&& route_of_parts(url_parts(initial_url@)) is Some
                        &&& self.state@ == old(self).state@.add(
                            #[trigger] crate::registry::new_context(
                                context_id,
                                route_of_parts(url_parts(initial_url@))->0,
                                text_of(persist_key),
                                tag,
                                secret,
                            ),
                        )
                    };
                crate::types::lemma_add_finds(
                    old(self).state@,
                    crate::registry::new_context(
                        context_id,
                        route_of_parts(url_parts(initial_url@))->0,
                        text_of(persist_key),
                        tag,
                        secret,
                    ),
                );
            }
        }
        r
    }

    /// Releases the context of an identifier and says whether there was one.
    pub fn release_context(&mut self, context_id: u32) -> (removed: bool)
        ensures
            final(self).listening() == old(self).listening(),
            final(self).registry()@ == old(self).registry()@.release(context_id),
            old(self).registry()@.wf() ==> final(self).registry()@.wf(),
            removed == old(self).registry()@.by_id.contains_key(context_id),
    {
        self.state.release_context(context_id)
    }

    /// The credentials of the context of an identifier.
    pub fn credentials_for_context(&self, context_id: u32) -> (r: Option<ProxyCredentials>)
        ensures
            match (r, self.registry()@.context_of(context_id)) {
                (Some(cred), Some(c)) => cred.username@ == c.username && cred.password@
                    == c.password,
                (None, None) => true,
                _ => false,
            },
    {
        self.state.credentials_for_context(context_id)
    }

    /// Switches request logs on or off; this may be done at any time.
    pub fn set_logging_enabled(&mut self, enabled: bool)
        ensures
            final(self).listening() == old(self).listening(),
            final(self).registry().logging() == enabled,
            final(self).registry()@ == old(self).registry()@,
            final(self).registry().key_prefix() == old(self).registry().key_prefix(),
    {
        self.state.set_logging_enabled(enabled);
    }

    /// Configures, or with `None` removes, the filter on persist keys: with a
    /// filter, only a context whose persist key begins with the prefix is
    /// registered.
    pub fn set_persist_key_prefix(&mut self, prefix: Option<String>)
        ensures
            final(self).listening() == old(self).listening(),
            final(self).registry().key_prefix() == text_of(prefix),
            final(self).registry().logging() == old(self).registry().logging(),
            final(self).registry()@ == old(self).registry()@,
    {
        self.state.set_persist_key_prefix(prefix);
    }
}

} // verus!

//! The table of registered discovery handlers.
//!
//! Handlers register under a protocol and an endpoint. The table holds one
//! entry for each such pair, with the handler's connectivity.

use crate::constants::{elapsed, elapsed_secs, DISCOVERY_HANDLER_OFFLINE_GRACE_PERIOD_SECS};
use crate::ordered_map::{
    entries_view, has_key, key_index, value_of, with_entry, without_key, Key, OrderedMap,
};
use vstd::prelude::*;

verus! {

/// Endpoint under which handlers that run inside the agent register.
pub const EMBEDDED_DISCOVERY_HANDLER_ENDPOINT: &'static str = "embedded";

/// What a discovery handler says of itself when it registers.
#[derive(Debug)]
pub struct RegisterRequest {
    pub protocol: String,
    pub endpoint: String,
    /// True when the handler's devices are visible to this node only.
    pub is_local: bool,
}

impl Clone for RegisterRequest {
    fn clone(&self) -> (copy: Self)
        ensures
            copy == *self,
    {
        RegisterRequest {
            protocol: self.protocol.clone(),
            endpoint: self.endpoint.clone(),
            is_local: self.is_local,
        }
    }
}

/// Whether a discovery handler can be reached, and whether a session holds
/// a stream to it.
#[derive(Clone, Copy, Debug, PartialEq, Eq, Structural)]
pub enum DiscoveryHandlerConnectivityStatus {
    /// Registered, and no session holds a stream to it.
    Online,
    /// A session holds an open stream to it.
    HasClient,
    /// Could not be reached; offline since the given second.
    Offline(u64),
}

/// An entry of the table of registered discovery handlers.
#[derive(Debug)]
pub struct DiscoveryHandlerDetails {
    pub register_request: RegisterRequest,
    pub connectivity_status: DiscoveryHandlerConnectivityStatus,
}

impl Clone for DiscoveryHandlerDetails {
    fn clone(&self) -> (copy: Self)
        ensures
            copy == *self,
    {
        DiscoveryHandlerDetails {
            register_request: self.register_request.clone(),
            connectivity_status: self.connectivity_status,
        }
    }
}

/// The protocol and endpoint under which a handler is registered.
#[derive(Debug)]
pub struct HandlerKey {
    pub protocol: String,
    pub endpoint: String,
}

impl View for HandlerKey {
    type V = (Seq<char>, Seq<char>);

    open spec fn view(&self) -> (Seq<char>, Seq<char>) {
        (self.protocol@, self.endpoint@)
    }
}

impl Key for HandlerKey {
    fn same_key(&self, other: &Self) -> (same: bool) {
        self.protocol == other.protocol && self.endpoint == other.endpoint
    }
}

impl HandlerKey {
    /// The key for `protocol` and `endpoint`.
    pub fn new(protocol: &str, endpoint: &str) -> (key: Self)
        ensures
            key@ == (protocol@, endpoint@),
    {
        HandlerKey { protocol: protocol.to_owned(), endpoint: endpoint.to_owned() }
    }
}

/// The model of the handler table: its entries in the order of registration.
pub type HandlerEntries = Seq<((Seq<char>, Seq<char>), DiscoveryHandlerDetails)>;

/// The table of registered discovery handlers.
pub type RegisteredDiscoveryHandlerMap = OrderedMap<HandlerKey, DiscoveryHandlerDetails>;

/// The connectivity that `entries` hold for the handler under `key`.
pub open spec fn status_of(
    entries: HandlerEntries,
    key: (Seq<char>, Seq<char>),
) -> Option<DiscoveryHandlerConnectivityStatus> {
    if has_key(entries, key) {
        Some(value_of(entries, key).connectivity_status)
    } else {
        None
    }
}

/// `entries` with the connectivity of the handler under `key` set to
/// `status`; unchanged when no handler is registered under `key`.
pub open spec fn with_status(
    entries: HandlerEntries,
    key: (Seq<char>, Seq<char>),
    status: DiscoveryHandlerConnectivityStatus,
) -> HandlerEntries {
    if has_key(entries, key) {
        entries.update(
            key_index(entries, key),
            (
                key,
                DiscoveryHandlerDetails {
                    register_request: value_of(entries, key).register_request,
                    connectivity_status: status,
                },
            ),
        )
    } else {
        entries
    }
}

/// True when `status` is offline for longer than the handlers' grace period.
pub open spec fn grace_expired(status: DiscoveryHandlerConnectivityStatus, now: u64) -> bool {
    status matches DiscoveryHandlerConnectivityStatus::Offline(since) && elapsed_secs(now, since)
        > DISCOVERY_HANDLER_OFFLINE_GRACE_PERIOD_SECS
}

/// True when a handler that cannot be reached at `now` is to be
/// deregistered: it is registered and its grace period has expired.
pub open spec fn deregisters(
    entries: HandlerEntries,
    key: (Seq<char>, Seq<char>),
    now: u64,
) -> bool {
    has_key(entries, key) && grace_expired(value_of(entries, key).connectivity_status, now)
}

/// The table after the handler under `key` could not be reached at `now`.
/// An online handler goes offline as of now. An offline one is deregistered
/// when its grace period has expired, and left as it is otherwise. A handler
/// with a client is left as it is, and so is the table when no handler is
/// registered under `key`.
pub open spec fn after_unreachable(
    entries: HandlerEntries,
    key: (Seq<char>, Seq<char>),
    now: u64,
) -> HandlerEntries {
    if deregisters(entries, key, now) {
        without_key(entries, key)
    } else if status_of(entries, key) == Some(DiscoveryHandlerConnectivityStatus::Online) {
        with_status(entries, key, DiscoveryHandlerConnectivityStatus::Offline(now))
    } else {
        entries
    }
}

/// The handlers of `entries` that serve `protocol`, each by its endpoint,
/// in the order of registration.
pub open spec fn handlers_of(
    entries: HandlerEntries,
    protocol: Seq<char>,
) -> Seq<(Seq<char>, DiscoveryHandlerDetails)>
    decreases entries.len(),
{
    if entries.len() == 0 {
        Seq::empty()
    } else {
        let before = handlers_of(entries.drop_last(), protocol);
        let (key, details) = entries.last();
        if key.0 == protocol {
            before.push((key.1, details))
        } else {
            before
        }
    }
}

impl OrderedMap<HandlerKey, DiscoveryHandlerDetails> {
    /// Registers a handler under `protocol` and `endpoint`, in the place of
    /// the one registered there before, if any.
    pub fn register(&mut self, protocol: &str, endpoint: &str, details: DiscoveryHandlerDetails)
        ensures
            final(self)@ == with_entry(old(self)@, (protocol@, endpoint@), details),
    {
        self.insert(HandlerKey::new(protocol, endpoint), details);
    }

    /// A copy of the handlers that serve `protocol`, each with its endpoint.
    pub fn snapshot(&self, protocol: &str) -> (handlers: Vec<(String, DiscoveryHandlerDetails)>)
        ensures
            entries_view(handlers@) == handlers_of(self@, protocol@),
    {
        let wanted = protocol.to_owned();
        let mut handlers: Vec<(String, DiscoveryHandlerDetails)> = Vec::new();
        let mut i: usize = 0;
        while i < self.len()
            invariant
                i <= self@.len(),
                wanted@ == protocol@,
                entries_view(handlers@) == handlers_of(self@.take(i as int), protocol@),
            decreases self@.len() - i,
        {
            let key = self.key_at(i);
            let ghost before = entries_view(handlers@);
            proof {
                let upto = self@.take(i as int + 1);
                assert(upto.drop_last() =~= self@.take(i as int));
                assert(upto.last() == self@[i as int]);
            }
            if key.protocol == wanted {
                handlers.push((key.endpoint.clone(), self.value_at(i).clone()));
                assert(entries_view(handlers@) =~= before.push(
                    (self@[i as int].0.1, self@[i as int].1),
                ));
            }
            i += 1;
        }
        assert(self@.take(i as int) =~= self@);
        handlers
    }

    /// The connectivity of the handler under `protocol` and `endpoint`.
    pub fn status(
        &self,
        protocol: &str,
        endpoint: &str,
    ) -> (status: Option<DiscoveryHandlerConnectivityStatus>)
        ensures
            status == status_of(self@, (protocol@, endpoint@)),
    {
        match self.get(&HandlerKey::new(protocol, endpoint)) {
            Some(details) => Some(details.connectivity_status),
            None => None,
        }
    }

    /// Sets the connectivity of the handler under `protocol` and `endpoint`.
    /// Does nothing when no handler is registered there.
    pub fn update_status(
        &mut self,
        protocol: &str,
        endpoint: &str,
        status: DiscoveryHandlerConnectivityStatus,
    )
        ensures
            final(self)@ == with_status(old(self)@, (protocol@, endpoint@), status),
    {
        let key = HandlerKey::new(protocol, endpoint);
        let register_request = match self.get(&key) {
            Some(details) => details.register_request.clone(),
            None => {
                return ;
            },
        };
        self.insert(key, DiscoveryHandlerDetails { register_request, connectivity_status: status });
    }

    /// Takes the handler under `protocol` and `endpoint` out of the table.
    pub fn deregister(&mut self, protocol: &str, endpoint: &str)
        ensures
            final(self)@ == without_key(old(self)@, (protocol@, endpoint@)),
    {
        let _ = self.remove(&HandlerKey::new(protocol, endpoint));
    }

    /// Records that the handler under `protocol` and `endpoint` could not be
    /// reached at `now`, and returns whether that deregistered it.
    pub fn mark_offline_or_deregister(
        &mut self,
        protocol: &str,
        endpoint: &str,
        now: u64,
    ) -> (deregistered: bool)
        ensures
            final(self)@ == after_unreachable(old(self)@, (protocol@, endpoint@), now),
            deregistered == deregisters(old(self)@, (protocol@, endpoint@), now),
    {
        match self.status(protocol, endpoint) {
            Some(DiscoveryHandlerConnectivityStatus::Offline(since)) => {
                if elapsed(now, since) > DISCOVERY_HANDLER_OFFLINE_GRACE_PERIOD_SECS {
                    self.deregister(protocol, endpoint);
                    true
                } else {
                    false
                }
            },
            Some(DiscoveryHandlerConnectivityStatus::Online) => {
                self.update_status(
                    protocol,
                    endpoint,
                    DiscoveryHandlerConnectivityStatus::Offline(now),
                );
                false
            },
            Some(DiscoveryHandlerConnectivityStatus::HasClient) => false,
            None => false,
        }
    }
}

} // verus!

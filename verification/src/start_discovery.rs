//! Discovery for one configuration: which sessions to start and stop, and
//! how a session with one discovery handler proceeds.
//!
//! A session belongs to one handler endpoint. It connects, listens until
//! the stream ends, and keeps the handler's connectivity in the table of
//! registered handlers up to date. It waits and connects again while the
//! handler cannot be reached, until the handler's grace period has expired.

use crate::constants::RECONNECT_BACKOFF_SECS;
use crate::discovery_operator::{endpoints_of, texts, DiscoveryOperator};
use crate::ordered_map::entries_view;
use crate::registration::{
    after_unreachable, deregisters, handlers_of, status_of, with_status,
    DiscoveryHandlerConnectivityStatus, DiscoveryHandlerDetails, HandlerEntries,
};
use crate::text::{contains, same_text, text_contains};
use vstd::prelude::*;

verus! {

/// Words in a transport error that tell of a handler that went away.
pub const BROKEN_PIPE: &'static str = "broken pipe";

/// True when a transport error with `message` tells of a broken pipe.
pub open spec fn is_broken_pipe(message: Seq<char>) -> bool {
    text_contains(message, BROKEN_PIPE@)
}

/// What happens to a session.
#[derive(Debug)]
pub enum SessionEvent {
    /// The session begins, or its wait is over.
    Wake,
    /// No stream could be opened.
    ConnectFailed,
    /// A stream was opened.
    Connected,
    /// Listening to the stream ended: after a stop signal without error,
    /// else with the error's message.
    Finished(Result<(), String>),
}

/// What a session does next.
#[derive(Clone, Copy, Debug, PartialEq, Eq, Structural)]
pub enum SessionAction {
    /// End the session.
    Exit,
    /// Try to open a stream to the handler.
    Connect,
    /// Listen to the stream that was opened.
    Discover,
    /// Wait for the given number of seconds, then wake.
    Sleep(u64),
}

/// The table of handlers after `event` happened at `now` to the session
/// with the handler under `key`.
///
/// Waking changes nothing. A failed connect marks the handler unreachable.
/// A stream that was opened gives the handler a client. A stream that broke
/// because the handler went away leaves the handler offline as of now. A
/// stream that ended in any other way leaves the handler online.
pub open spec fn handlers_after(
    handlers: HandlerEntries,
    key: (Seq<char>, Seq<char>),
    event: SessionEvent,
    now: u64,
) -> HandlerEntries {
    match event {
        SessionEvent::Wake => handlers,
        SessionEvent::ConnectFailed => after_unreachable(handlers, key, now),
        SessionEvent::Connected => with_status(
            handlers,
            key,
            DiscoveryHandlerConnectivityStatus::HasClient,
        ),
        SessionEvent::Finished(Err(message)) if is_broken_pipe(message@) => with_status(
            handlers,
            key,
            DiscoveryHandlerConnectivityStatus::Offline(now),
        ),
        SessionEvent::Finished(_) => with_status(
            handlers,
            key,
            DiscoveryHandlerConnectivityStatus::Online,
        ),
    }
}

/// What the session with the handler under `key` does after `event`
/// happened at `now`.
///
/// On waking it ends where another session has the handler as its client,
/// and connects otherwise. After a failed connect it ends where that
/// deregistered the handler, and waits otherwise. It listens to a stream
/// that was opened. After a broken pipe it waits; after any other end of
/// the stream it ends.
pub open spec fn action_after(
    handlers: HandlerEntries,
    key: (Seq<char>, Seq<char>),
    event: SessionEvent,
    now: u64,
) -> SessionAction {
    match event {
        SessionEvent::Wake => {
            if status_of(handlers, key) == Some(DiscoveryHandlerConnectivityStatus::HasClient) {
                SessionAction::Exit
            } else {
                SessionAction::Connect
            }
        },
        SessionEvent::ConnectFailed => {
            if deregisters(handlers, key, now) {
                SessionAction::Exit
            } else {
                SessionAction::Sleep(RECONNECT_BACKOFF_SECS)
            }
        },
        SessionEvent::Connected => SessionAction::Discover,
        SessionEvent::Finished(Err(message)) if is_broken_pipe(message@) => SessionAction::Sleep(
            RECONNECT_BACKOFF_SECS,
        ),
        SessionEvent::Finished(_) => SessionAction::Exit,
    }
}

/// The endpoints of the handlers among `handlers` that have no client.
pub open spec fn without_client(
    handlers: Seq<(Seq<char>, DiscoveryHandlerDetails)>,
) -> Seq<Seq<char>>
    decreases handlers.len(),
{
    if handlers.len() == 0 {
        Seq::empty()
    } else {
        let before = without_client(handlers.drop_last());
        if handlers.last().1.connectivity_status == DiscoveryHandlerConnectivityStatus::HasClient {
            before
        } else {
            before.push(handlers.last().0)
        }
    }
}

/// The endpoints for which to start a session: the handlers of the
/// operator's protocol that have no client, in the order of registration.
pub fn do_discover(discovery_operator: &DiscoveryOperator) -> (endpoints: Vec<String>)
    ensures
        texts(endpoints@) == without_client(
            handlers_of(
                discovery_operator.handlers(),
                discovery_operator.configuration().protocol@,
            ),
        ),
{
    let handlers = discovery_operator.get_discovery_handler_map().snapshot(
        discovery_operator.get_config().protocol.as_str(),
    );
    let ghost all = entries_view(handlers@);
    let mut endpoints: Vec<String> = Vec::new();
    for handler in it: handlers
        invariant
            entries_view(it.seq()) == all,
            texts(endpoints@) == without_client(all.take(it.index() as int)),
    {
        let ghost before = texts(endpoints@);
        let ghost index = it.index() as int;
        proof {
            let upto = all.take(index + 1);
            assert(upto.drop_last() =~= all.take(index));
            assert(upto.last() == all[index]);
            assert(all[index] == (handler.0@, handler.1));
        }
        match handler.1.connectivity_status {
            DiscoveryHandlerConnectivityStatus::HasClient => {},
            _ => {
                endpoints.push(handler.0);
                assert(texts(endpoints@) =~= before.push(all[index].0));
            },
        }
    }
    assert(all.take(all.len() as int) =~= all);
    endpoints
}

/// One step of the session with the handler at `endpoint`: records in the
/// table of handlers what `event` means for the handler's connectivity and
/// returns what the session does next.
pub fn session_step(
    discovery_operator: &mut DiscoveryOperator,
    endpoint: &str,
    event: SessionEvent,
    now: u64,
) -> (action: SessionAction)
    ensures
        final(discovery_operator).handlers() == handlers_after(
            old(discovery_operator).handlers(),
            old(discovery_operator).handler_key(endpoint@),
            event,
            now,
        ),
        action == action_after(
            old(discovery_operator).handlers(),
            old(discovery_operator).handler_key(endpoint@),
            event,
            now,
        ),
        old(discovery_operator).same_but_handlers(final(discovery_operator)),
{
    match event {
        SessionEvent::Wake => {
            let status = discovery_operator.get_discovery_handler_map().status(
                discovery_operator.get_config().protocol.as_str(),
                endpoint,
            );
            match status {
                Some(DiscoveryHandlerConnectivityStatus::HasClient) => SessionAction::Exit,
                _ => SessionAction::Connect,
            }
        },
        SessionEvent::ConnectFailed => {
            if discovery_operator.mark_offline_or_deregister_discovery_handler(endpoint, now) {
                SessionAction::Exit
            } else {
                SessionAction::Sleep(RECONNECT_BACKOFF_SECS)
            }
        },
        SessionEvent::Connected => {
            discovery_operator.set_discovery_handler_connectivity_status(
                endpoint,
                DiscoveryHandlerConnectivityStatus::HasClient,
            );
            SessionAction::Discover
        },
        SessionEvent::Finished(Ok(_)) => {
            discovery_operator.set_discovery_handler_connectivity_status(
                endpoint,
                DiscoveryHandlerConnectivityStatus::Online,
            );
            SessionAction::Exit
        },
        SessionEvent::Finished(Err(message)) => {
            if contains(message.as_str(), BROKEN_PIPE) {
                discovery_operator.set_discovery_handler_connectivity_status(
                    endpoint,
                    DiscoveryHandlerConnectivityStatus::Offline(now),
                );
                SessionAction::Sleep(RECONNECT_BACKOFF_SECS)
            } else {
                discovery_operator.set_discovery_handler_connectivity_status(
                    endpoint,
                    DiscoveryHandlerConnectivityStatus::Online,
                );
                SessionAction::Exit
            }
        },
    }
}

/// What happens to the discovery of a configuration.
#[derive(Debug)]
pub enum DiscoveryEvent {
    /// Discovery for the configuration begins.
    Started,
    /// A discovery handler registered for the named protocol.
    HandlerRegistered(String),
    /// The configuration was deleted: discovery is to stop.
    StopRequested,
}

/// What the discovery of a configuration does next.
#[derive(Debug)]
pub enum DiscoveryCommand {
    /// Start a session with the handler at each of these endpoints.
    StartSessions(Vec<String>),
    /// Nothing: the event does not concern this configuration.
    Nothing,
    /// Send the stop signal to the handler at each of these endpoints,
    /// wait until every session has ended, then announce that discovery
    /// for the configuration has finished.
    StopSessions(Vec<String>),
}

/// One step of discovery for a configuration. At the start, and whenever
/// a handler registers for the operator's protocol, a session is started
/// for each handler of the protocol that has no client. A handler of
/// another protocol is ignored. On a request to stop, every handler of the
/// protocol is told to stop.
pub fn start_discovery(
    discovery_operator: &DiscoveryOperator,
    event: &DiscoveryEvent,
) -> (command: DiscoveryCommand)
    ensures
        match *event {
            DiscoveryEvent::Started => command matches DiscoveryCommand::StartSessions(endpoints)
                && texts(endpoints@) == without_client(
                handlers_of(
                    discovery_operator.handlers(),
                    discovery_operator.configuration().protocol@,
                ),
            ),
            DiscoveryEvent::HandlerRegistered(protocol) => if protocol@
                == discovery_operator.configuration().protocol@ {
                command matches DiscoveryCommand::StartSessions(endpoints) && texts(endpoints@)
                    == without_client(
                    handlers_of(
                        discovery_operator.handlers(),
                        discovery_operator.configuration().protocol@,
                    ),
                )
            } else {
                command is Nothing
            },
            DiscoveryEvent::StopRequested => command matches DiscoveryCommand::StopSessions(
                endpoints,
            ) && texts(endpoints@) == endpoints_of(
                handlers_of(
                    discovery_operator.handlers(),
                    discovery_operator.configuration().protocol@,
                ),
            ),
        },
{
    match event {
        DiscoveryEvent::Started => DiscoveryCommand::StartSessions(do_discover(discovery_operator)),
        DiscoveryEvent::HandlerRegistered(protocol) => {
            if same_text(protocol.as_str(), discovery_operator.get_config().protocol.as_str()) {
                DiscoveryCommand::StartSessions(do_discover(discovery_operator))
            } else {
                DiscoveryCommand::Nothing
            }
        },
        DiscoveryEvent::StopRequested => DiscoveryCommand::StopSessions(
            discovery_operator.stop_all_discovery(),
        ),
    }
}

} // verus!

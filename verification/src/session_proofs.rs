//! What holds of the table of handlers whatever happens to the sessions.

use crate::constants::{elapsed_secs, DISCOVERY_HANDLER_OFFLINE_GRACE_PERIOD_SECS};
use crate::ordered_map::{
    as_map, distinct_keys, has_key, lemma_with_entry, lemma_without_key, value_of, with_entry,
};
use crate::registration::{
    after_unreachable, deregisters, status_of, with_status, DiscoveryHandlerConnectivityStatus,
    DiscoveryHandlerDetails, HandlerEntries,
};
use crate::start_discovery::{action_after, handlers_after, SessionAction, SessionEvent};
use vstd::prelude::*;

verus! {

/// Setting a handler's connectivity changes that and nothing else: the
/// same handlers are registered, every other handler is as it was, and
/// the handler itself, if registered, has the new connectivity.
pub proof fn lemma_with_status(
    handlers: HandlerEntries,
    key: (Seq<char>, Seq<char>),
    status: DiscoveryHandlerConnectivityStatus,
)
    requires
        distinct_keys(handlers),
    ensures
        distinct_keys(with_status(handlers, key, status)),
        forall|k: (Seq<char>, Seq<char>)| #[trigger]
            has_key(with_status(handlers, key, status), k) <==> has_key(handlers, k),
        forall|k: (Seq<char>, Seq<char>)|
            k != key && has_key(handlers, k) ==> #[trigger] value_of(
                with_status(handlers, key, status),
                k,
            ) == value_of(handlers, k),
        has_key(handlers, key) ==> status_of(with_status(handlers, key, status), key) == Some(
            status,
        ),
{
    if has_key(handlers, key) {
        let details = DiscoveryHandlerDetails {
            register_request: value_of(handlers, key).register_request,
            connectivity_status: status,
        };
        assert(with_status(handlers, key, status) == with_entry(handlers, key, details));
        lemma_with_entry(handlers, key, details);
        let after = with_entry(handlers, key, details);
        assert forall|k: (Seq<char>, Seq<char>)| #[trigger]
            has_key(after, k) <==> has_key(handlers, k) by {
            assert(as_map(after).dom().contains(k) <==> has_key(after, k));
            assert(as_map(handlers).dom().contains(k) <==> has_key(handlers, k));
        }
        assert forall|k: (Seq<char>, Seq<char>)| k != key && has_key(handlers, k) implies #[trigger]
            value_of(after, k) == value_of(handlers, k) by {
            assert(as_map(after)[k] == value_of(after, k));
            assert(as_map(handlers)[k] == value_of(handlers, k));
        }
        assert(as_map(after)[key] == value_of(after, key));
    }
}

/// A failed connect takes no handler out of the table but the one that
/// could not be reached, and that one only when its grace period has
/// expired; every other handler is as it was.
pub proof fn lemma_after_unreachable(
    handlers: HandlerEntries,
    key: (Seq<char>, Seq<char>),
    now: u64,
)
    requires
        distinct_keys(handlers),
    ensures
        distinct_keys(after_unreachable(handlers, key, now)),
        forall|k: (Seq<char>, Seq<char>)| #[trigger]
            has_key(after_unreachable(handlers, key, now), k) <==> has_key(handlers, k) && !(k
                == key && deregisters(handlers, key, now)),
        forall|k: (Seq<char>, Seq<char>)|
            k != key && has_key(handlers, k) ==> #[trigger] value_of(
                after_unreachable(handlers, key, now),
                k,
            ) == value_of(handlers, k),
{
    let after = after_unreachable(handlers, key, now);
    if deregisters(handlers, key, now) {
        lemma_without_key(handlers, key);
        assert forall|k: (Seq<char>, Seq<char>)| #[trigger]
            has_key(after, k) <==> has_key(handlers, k) && k != key by {
            assert(as_map(after).dom().contains(k) <==> has_key(after, k));
            assert(as_map(handlers).dom().contains(k) <==> has_key(handlers, k));
        }
        assert forall|k: (Seq<char>, Seq<char>)| k != key && has_key(handlers, k) implies #[trigger]
            value_of(after, k) == value_of(handlers, k) by {
            assert(as_map(after)[k] == value_of(after, k));
            assert(as_map(handlers)[k] == value_of(handlers, k));
        }
    } else if status_of(handlers, key) == Some(DiscoveryHandlerConnectivityStatus::Online) {
        lemma_with_status(handlers, key, DiscoveryHandlerConnectivityStatus::Offline(now));
    }
}

/// A handler that a session's step takes out of the table is the
/// session's own handler, the step followed a failed connect, and the
/// handler had been offline for longer than the grace period.
pub proof fn lemma_deregistered_only_after_grace(
    handlers: HandlerEntries,
    key: (Seq<char>, Seq<char>),
    event: SessionEvent,
    now: u64,
    removed: (Seq<char>, Seq<char>),
)
    requires
        distinct_keys(handlers),
        has_key(handlers, removed),
        !has_key(handlers_after(handlers, key, event, now), removed),
    ensures
        removed == key,
        event is ConnectFailed,
        value_of(handlers, removed).connectivity_status
            matches DiscoveryHandlerConnectivityStatus::Offline(since) && elapsed_secs(now, since)
            > DISCOVERY_HANDLER_OFFLINE_GRACE_PERIOD_SECS,
        action_after(handlers, key, event, now) == SessionAction::Exit,
{
    lemma_after_unreachable(handlers, key, now);
    lemma_with_status(handlers, key, DiscoveryHandlerConnectivityStatus::HasClient);
    lemma_with_status(handlers, key, DiscoveryHandlerConnectivityStatus::Online);
    lemma_with_status(handlers, key, DiscoveryHandlerConnectivityStatus::Offline(now));
}

/// A handler that is offline after a session's step at `now` was offline
/// since the same time before, or is offline since `now`.
pub proof fn lemma_handler_offline_since_now_or_before(
    handlers: HandlerEntries,
    key: (Seq<char>, Seq<char>),
    event: SessionEvent,
    now: u64,
    handler: (Seq<char>, Seq<char>),
)
    requires
        distinct_keys(handlers),
        status_of(handlers_after(handlers, key, event, now), handler) matches Some(
            DiscoveryHandlerConnectivityStatus::Offline(_),
        ),
    ensures
        status_of(handlers_after(handlers, key, event, now), handler) == status_of(
            handlers,
            handler,
        ) || status_of(handlers_after(handlers, key, event, now), handler) == Some(
            DiscoveryHandlerConnectivityStatus::Offline(now),
        ),
{
    lemma_after_unreachable(handlers, key, now);
    lemma_with_status(handlers, key, DiscoveryHandlerConnectivityStatus::HasClient);
    lemma_with_status(handlers, key, DiscoveryHandlerConnectivityStatus::Online);
    lemma_with_status(handlers, key, DiscoveryHandlerConnectivityStatus::Offline(now));
}

/// A session's step leaves the handlers of other sessions as they were.
pub proof fn lemma_step_keeps_other_handlers(
    handlers: HandlerEntries,
    key: (Seq<char>, Seq<char>),
    event: SessionEvent,
    now: u64,
    other: (Seq<char>, Seq<char>),
)
    requires
        distinct_keys(handlers),
        other != key,
        has_key(handlers, other),
    ensures
        distinct_keys(handlers_after(handlers, key, event, now)),
        has_key(handlers_after(handlers, key, event, now), other),
        value_of(handlers_after(handlers, key, event, now), other) == value_of(handlers, other),
{
    lemma_after_unreachable(handlers, key, now);
    lemma_with_status(handlers, key, DiscoveryHandlerConnectivityStatus::HasClient);
    lemma_with_status(handlers, key, DiscoveryHandlerConnectivityStatus::Online);
    lemma_with_status(handlers, key, DiscoveryHandlerConnectivityStatus::Offline(now));
}

/// Where a session stands.
pub enum SessionPhase {
    /// About to wake: it has not begun yet, or it waits to connect again.
    Idle,
    /// It tries to open a stream.
    Connecting,
    /// It holds an open stream and listens to it.
    Listening,
    /// It has ended.
    Done,
}

/// Where a session stands after it was told what to do next.
pub open spec fn phase_after(action: SessionAction) -> SessionPhase {
    match action {
        SessionAction::Exit => SessionPhase::Done,
        SessionAction::Connect => SessionPhase::Connecting,
        SessionAction::Discover => SessionPhase::Listening,
        SessionAction::Sleep(_) => SessionPhase::Idle,
    }
}

/// True when `event` can happen to a session that stands at `phase`.
pub open spec fn can_happen(phase: SessionPhase, event: SessionEvent) -> bool {
    match phase {
        SessionPhase::Idle => event is Wake,
        SessionPhase::Connecting => event is ConnectFailed || event is Connected,
        SessionPhase::Listening => event is Finished,
        SessionPhase::Done => false,
    }
}

/// True when a session at `phase` holds a stream or tries to open one.
pub open spec fn engaged(phase: SessionPhase) -> bool {
    phase is Connecting || phase is Listening
}

/// The sessions of one handler take turns: at most one of them holds a
/// stream or tries to open one; while one does, the handler is registered;
/// and the handler is marked as having a client exactly while one of them
/// holds a stream.
pub open spec fn sessions_take_turns(
    handlers: HandlerEntries,
    key: (Seq<char>, Seq<char>),
    phases: Seq<SessionPhase>,
) -> bool {
    &&& forall|i: int, j: int|
        0 <= i < j < phases.len() ==> !(engaged(#[trigger] phases[i]) && engaged(
            #[trigger] phases[j],
        ))
    &&& forall|i: int|
        0 <= i < phases.len() && engaged(#[trigger] phases[i]) ==> has_key(handlers, key)
    &&& forall|i: int|
        0 <= i < phases.len() && (#[trigger] phases[i]) is Listening ==> status_of(handlers, key)
            == Some(DiscoveryHandlerConnectivityStatus::HasClient)
    &&& status_of(handlers, key) == Some(DiscoveryHandlerConnectivityStatus::HasClient)
        ==> exists|i: int| 0 <= i < phases.len() && (#[trigger] phases[i]) is Listening
}

/// Where sessions take turns, at most one session holds a stream.
pub proof fn lemma_at_most_one_client(
    handlers: HandlerEntries,
    key: (Seq<char>, Seq<char>),
    phases: Seq<SessionPhase>,
    first: int,
    second: int,
)
    requires
        sessions_take_turns(handlers, key, phases),
        0 <= first < phases.len(),
        0 <= second < phases.len(),
        phases[first] is Listening,
        phases[second] is Listening,
    ensures
        first == second,
{
    if first < second {
        assert(engaged(phases[first]) && engaged(phases[second]));
    } else if second < first {
        assert(engaged(phases[second]) && engaged(phases[first]));
    }
}

/// Sessions that have not begun take turns, where the handler has no
/// client yet.
pub proof fn lemma_idle_sessions_take_turns(
    handlers: HandlerEntries,
    key: (Seq<char>, Seq<char>),
    phases: Seq<SessionPhase>,
)
    requires
        forall|i: int| 0 <= i < phases.len() ==> (#[trigger] phases[i]) is Idle,
        status_of(handlers, key) != Some(DiscoveryHandlerConnectivityStatus::HasClient),
    ensures
        sessions_take_turns(handlers, key, phases),
{
}

/// The sessions of one handler go on taking turns after a step of any of
/// them, provided that a session wakes only while the handler is
/// registered and no other session is trying to open a stream.
pub proof fn lemma_sessions_keep_taking_turns(
    handlers: HandlerEntries,
    key: (Seq<char>, Seq<char>),
    phases: Seq<SessionPhase>,
    session: int,
    event: SessionEvent,
    now: u64,
)
    requires
        distinct_keys(handlers),
        sessions_take_turns(handlers, key, phases),
        0 <= session < phases.len(),
        can_happen(phases[session], event),
        event is Wake ==> has_key(handlers, key) && forall|j: int|
            0 <= j < phases.len() ==> !((#[trigger] phases[j]) is Connecting),
    ensures
        sessions_take_turns(
            handlers_after(handlers, key, event, now),
            key,
            phases.update(session, phase_after(action_after(handlers, key, event, now))),
        ),
{
    let after = handlers_after(handlers, key, event, now);
    let next = phases.update(session, phase_after(action_after(handlers, key, event, now)));
    lemma_after_unreachable(handlers, key, now);
    lemma_with_status(handlers, key, DiscoveryHandlerConnectivityStatus::HasClient);
    lemma_with_status(handlers, key, DiscoveryHandlerConnectivityStatus::Online);
    lemma_with_status(handlers, key, DiscoveryHandlerConnectivityStatus::Offline(now));
    // While this session is engaged, no other session is.
    assert forall|j: int| 0 <= j < phases.len() && j != session && engaged(phases[session])
        implies !engaged(#[trigger] phases[j]) by {
        if j < session {
            assert(!(engaged(phases[j]) && engaged(phases[session])));
        } else {
            assert(!(engaged(phases[session]) && engaged(phases[j])));
        }
    }
    // A session that wakes and goes on to connect finds no other engaged.
    assert forall|j: int| 0 <= j < phases.len() && j != session && event is Wake && engaged(
        next[session],
    ) implies !engaged(#[trigger] phases[j]) by {
        assert(!(phases[j] is Connecting));
        if phases[j] is Listening {
            assert(status_of(handlers, key) == Some(DiscoveryHandlerConnectivityStatus::HasClient));
        }
    }
    assert forall|i: int, j: int| 0 <= i < j < next.len() implies !(engaged(#[trigger] next[i])
        && engaged(#[trigger] next[j])) by {
        if i != session && j != session {
            assert(next[i] == phases[i] && next[j] == phases[j]);
        } else if i == session {
            assert(next[j] == phases[j]);
        } else {
            assert(next[i] == phases[i]);
        }
    }
    assert forall|i: int| 0 <= i < next.len() && engaged(#[trigger] next[i]) implies has_key(
        after,
        key,
    ) by {
        if i != session {
            assert(next[i] == phases[i]);
            assert(engaged(phases[i]));
        }
    }
    assert forall|i: int|
        0 <= i < next.len() && (#[trigger] next[i]) is Listening implies status_of(after, key)
        == Some(DiscoveryHandlerConnectivityStatus::HasClient) by {
        if i != session {
            assert(next[i] == phases[i]);
            assert(engaged(phases[i]));
        }
    }
    if status_of(after, key) == Some(DiscoveryHandlerConnectivityStatus::HasClient) {
        if event is Connected {
            assert(next[session] is Listening);
        } else {
            // The handler had its client before, and the session that holds
            // the stream is not the one that took the step.
            assert(status_of(handlers, key) == Some(DiscoveryHandlerConnectivityStatus::HasClient));
            let holder = choose|i: int|
                0 <= i < phases.len() && (#[trigger] phases[i]) is Listening;
            assert(engaged(phases[holder]));
            assert(holder != session);
            assert(next[holder] == phases[holder]);
        }
    }
}

} // verus!

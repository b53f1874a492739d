//! What holds of the instances whenever their connectivity is brought up
//! to date.

use crate::constants::{elapsed_secs, SHARED_INSTANCE_OFFLINE_GRACE_PERIOD_SECS};
use crate::instance::{
    actions_after, entries_after, info_after, lemma_entries_after, sweep_rule, update_rule,
    ConnectivityDecision, InstanceActionKind, InstanceConnectivityStatus, InstanceEntries,
    InstanceInfo,
};
use crate::ordered_map::{distinct_keys, has_key, lemma_front, lemma_key_index_unique, value_of};
use vstd::prelude::*;

verus! {

/// The action that a decision calls for, if any.
pub open spec fn action_for(decision: ConnectivityDecision) -> Option<InstanceActionKind> {
    match decision {
        ConnectivityDecision::Unchanged => None,
        ConnectivityDecision::BackOnline => Some(InstanceActionKind::NotifyContinue),
        ConnectivityDecision::WentOffline => Some(InstanceActionKind::NotifyContinue),
        ConnectivityDecision::Removed => Some(InstanceActionKind::TerminateAndDelete),
    }
}

/// Every action is for an instance that was in the map and is the action
/// that the instance's decision calls for; every instance whose decision
/// calls for an action gets it; and no instance gets two actions.
pub proof fn lemma_actions_after(
    entries: InstanceEntries,
    decide: spec_fn(Seq<char>, InstanceInfo) -> ConnectivityDecision,
)
    requires
        distinct_keys(entries),
    ensures
        distinct_keys(actions_after(entries, decide)),
        forall|name: Seq<char>| #[trigger]
            has_key(actions_after(entries, decide), name) <==> has_key(entries, name) && action_for(
                decide(name, value_of(entries, name)),
            ) is Some,
        forall|name: Seq<char>| #[trigger]
            has_key(actions_after(entries, decide), name) ==> Some(
                value_of(actions_after(entries, decide), name),
            ) == action_for(decide(name, value_of(entries, name))),
    decreases entries.len(),
{
    let actions = actions_after(entries, decide);
    if entries.len() == 0 {
        assert forall|name: Seq<char>| !has_key(entries, name) by {}
        assert forall|name: Seq<char>| !has_key(actions, name) by {}
    } else {
        let front = entries.drop_last();
        let before = actions_after(front, decide);
        let (last_name, last_info) = entries.last();
        lemma_front(entries);
        lemma_actions_after(front, decide);
        let decision = decide(last_name, last_info);
        if action_for(decision) is None {
            assert(actions == before);
        } else {
            let added = (last_name, action_for(decision)->0);
            assert(actions == before.push(added));
            assert(!has_key(before, last_name));
            assert(distinct_keys(actions)) by {
                assert forall|i: int, j: int| 0 <= i < j < actions.len() implies (
                #[trigger] actions[i]).0 != (#[trigger] actions[j]).0 by {
                    assert(actions[i] == before[i]);
                    if j < before.len() {
                        assert(actions[j] == before[j]);
                    } else {
                        if before[i].0 == last_name {
                            assert(has_key(before, last_name));
                        }
                    }
                }
            }
            assert(actions.drop_last() =~= before);
            lemma_front(actions);
        }
        assert forall|name: Seq<char>| #[trigger]
            has_key(actions, name) <==> has_key(entries, name) && action_for(
                decide(name, value_of(entries, name)),
            ) is Some by {
            if name != last_name {
                assert(has_key(before, name) <==> has_key(front, name) && action_for(
                    decide(name, value_of(front, name)),
                ) is Some);
            }
        }
        assert forall|name: Seq<char>| #[trigger] has_key(actions, name) implies Some(
            value_of(actions, name),
        ) == action_for(decide(name, value_of(entries, name))) by {
            if name != last_name {
                assert(has_key(before, name));
            }
        }
    }
}

/// An instance leaves the map only for one of two reasons: it was online,
/// local and no longer visible, or it had been offline for the grace period
/// and was not visible. So a shared instance that is removed has been
/// offline for at least the grace period.
pub proof fn lemma_removed_only_after_grace(
    entries: InstanceEntries,
    visible: Set<Seq<char>>,
    is_local: bool,
    now: u64,
    name: Seq<char>,
)
    requires
        distinct_keys(entries),
        has_key(entries, name),
        !has_key(entries_after(entries, update_rule(visible, is_local, now), now), name),
    ensures
        !visible.contains(name),
        match value_of(entries, name).connectivity_status {
            InstanceConnectivityStatus::Online => is_local,
            InstanceConnectivityStatus::Offline(since) => elapsed_secs(now, since)
                >= SHARED_INSTANCE_OFFLINE_GRACE_PERIOD_SECS,
        },
        has_key(actions_after(entries, update_rule(visible, is_local, now)), name),
        value_of(actions_after(entries, update_rule(visible, is_local, now)), name)
            == InstanceActionKind::TerminateAndDelete,
{
    let rule = update_rule(visible, is_local, now);
    lemma_entries_after(entries, rule, now);
    lemma_actions_after(entries, rule);
    assert(rule(name, value_of(entries, name)) == ConnectivityDecision::Removed);
    assert(has_key(actions_after(entries, rule), name));
}

/// A sweep removes an instance only when it has been offline for the
/// grace period.
pub proof fn lemma_swept_only_after_grace(entries: InstanceEntries, now: u64, name: Seq<char>)
    requires
        distinct_keys(entries),
        has_key(entries, name),
        !has_key(entries_after(entries, sweep_rule(now), now), name),
    ensures
        value_of(entries, name).connectivity_status matches InstanceConnectivityStatus::Offline(
            since,
        ) && elapsed_secs(now, since) >= SHARED_INSTANCE_OFFLINE_GRACE_PERIOD_SECS,
        has_key(actions_after(entries, sweep_rule(now)), name),
        value_of(actions_after(entries, sweep_rule(now)), name)
            == InstanceActionKind::TerminateAndDelete,
{
    let rule = sweep_rule(now);
    lemma_entries_after(entries, rule, now);
    lemma_actions_after(entries, rule);
    assert(rule(name, value_of(entries, name)) == ConnectivityDecision::Removed);
    assert(has_key(actions_after(entries, rule), name));
}

/// An instance that a local handler no longer reports is gone from the
/// map when the report has been handled, and its termination is among the
/// actions, unless the instance was offline for less than the grace period.
pub proof fn lemma_local_instance_removed_at_once(
    entries: InstanceEntries,
    visible: Set<Seq<char>>,
    now: u64,
    name: Seq<char>,
)
    requires
        distinct_keys(entries),
        has_key(entries, name),
        !visible.contains(name),
        value_of(entries, name).connectivity_status matches InstanceConnectivityStatus::Offline(
            since,
        ) ==> elapsed_secs(now, since) >= SHARED_INSTANCE_OFFLINE_GRACE_PERIOD_SECS,
    ensures
        !has_key(entries_after(entries, update_rule(visible, true, now), now), name),
        has_key(actions_after(entries, update_rule(visible, true, now)), name),
        value_of(actions_after(entries, update_rule(visible, true, now)), name)
            == InstanceActionKind::TerminateAndDelete,
{
    let rule = update_rule(visible, true, now);
    lemma_entries_after(entries, rule, now);
    lemma_actions_after(entries, rule);
    assert(rule(name, value_of(entries, name)) == ConnectivityDecision::Removed);
    assert(has_key(actions_after(entries, rule), name));
}

/// An instance that is offline after its connectivity was brought up to
/// date at `now` was offline since the same time before, or is offline
/// since `now`.
pub proof fn lemma_offline_since_now_or_before(
    entries: InstanceEntries,
    decide: spec_fn(Seq<char>, InstanceInfo) -> ConnectivityDecision,
    now: u64,
    name: Seq<char>,
)
    requires
        distinct_keys(entries),
        has_key(entries_after(entries, decide, now), name),
        value_of(entries_after(entries, decide, now), name).connectivity_status is Offline,
    ensures
        has_key(entries, name),
        value_of(entries_after(entries, decide, now), name).connectivity_status == value_of(
            entries,
            name,
        ).connectivity_status || value_of(
            entries_after(entries, decide, now),
            name,
        ).connectivity_status == InstanceConnectivityStatus::Offline(now),
{
    lemma_entries_after(entries, decide, now);
}

/// Bringing connectivity up to date adds no instance.
pub proof fn lemma_no_instance_added(
    entries: InstanceEntries,
    decide: spec_fn(Seq<char>, InstanceInfo) -> ConnectivityDecision,
    now: u64,
    name: Seq<char>,
)
    requires
        distinct_keys(entries),
        has_key(entries_after(entries, decide, now), name),
    ensures
        has_key(entries, name),
{
    lemma_entries_after(entries, decide, now);
}

/// Where every instance stays unchanged, the map stays as it is and there
/// is nothing to do.
pub proof fn lemma_all_unchanged(
    entries: InstanceEntries,
    decide: spec_fn(Seq<char>, InstanceInfo) -> ConnectivityDecision,
    now: u64,
)
    requires
        forall|i: int|
            0 <= i < entries.len() ==> decide((#[trigger] entries[i]).0, entries[i].1)
                == ConnectivityDecision::Unchanged,
    ensures
        entries_after(entries, decide, now) == entries,
        actions_after(entries, decide).len() == 0,
    decreases entries.len(),
{
    if entries.len() > 0 {
        let front = entries.drop_last();
        assert forall|i: int| 0 <= i < front.len() implies decide(
            (#[trigger] front[i]).0,
            front[i].1,
        ) == ConnectivityDecision::Unchanged by {
            assert(front[i] == entries[i]);
        }
        lemma_all_unchanged(front, decide, now);
        let last = entries[entries.len() - 1];
        assert(decide(last.0, last.1) == ConnectivityDecision::Unchanged);
        assert(front.push(entries.last()) =~= entries);
    }
}

/// True when, at `now`, no instance of `entries` that is not visible has
/// been offline for the grace period.
pub open spec fn none_overdue(entries: InstanceEntries, visible: Set<Seq<char>>, now: u64) -> bool {
    forall|i: int|
        0 <= i < entries.len() && !visible.contains((#[trigger] entries[i]).0) ==> (
        entries[i].1.connectivity_status matches InstanceConnectivityStatus::Offline(since)
            ==> elapsed_secs(now, since) < SHARED_INSTANCE_OFFLINE_GRACE_PERIOD_SECS)
}

/// The same report handled a second time changes nothing and calls for
/// no action, unless by then an instance that the report leaves out has
/// been offline for the grace period.
pub proof fn lemma_same_report_twice(
    entries: InstanceEntries,
    visible: Set<Seq<char>>,
    is_local: bool,
    first: u64,
    second: u64,
)
    requires
        distinct_keys(entries),
        none_overdue(
            entries_after(entries, update_rule(visible, is_local, first), first),
            visible,
            second,
        ),
    ensures
        entries_after(
            entries_after(entries, update_rule(visible, is_local, first), first),
            update_rule(visible, is_local, second),
            second,
        ) == entries_after(entries, update_rule(visible, is_local, first), first),
        actions_after(
            entries_after(entries, update_rule(visible, is_local, first), first),
            update_rule(visible, is_local, second),
        ).len() == 0,
{
    let rule1 = update_rule(visible, is_local, first);
    let rule2 = update_rule(visible, is_local, second);
    let once = entries_after(entries, rule1, first);
    lemma_entries_after(entries, rule1, first);
    assert forall|i: int| 0 <= i < once.len() implies rule2((#[trigger] once[i]).0, once[i].1)
        == ConnectivityDecision::Unchanged by {
        let name = once[i].0;
        lemma_key_index_unique(once, i);
        assert(has_key(once, name));
        let info = value_of(entries, name);
        let decision = rule1(name, info);
        assert(decision != ConnectivityDecision::Removed);
        assert(once[i].1 == info_after(info, decision, first));
    }
    lemma_all_unchanged(once, rule2, second);
}

/// Handling a report is idempotent: handled again at the same time, the
/// same report changes nothing and calls for no action.
pub proof fn lemma_update_is_idempotent(
    entries: InstanceEntries,
    visible: Set<Seq<char>>,
    is_local: bool,
    now: u64,
)
    requires
        distinct_keys(entries),
    ensures
        entries_after(
            entries_after(entries, update_rule(visible, is_local, now), now),
            update_rule(visible, is_local, now),
            now,
        ) == entries_after(entries, update_rule(visible, is_local, now), now),
        actions_after(
            entries_after(entries, update_rule(visible, is_local, now), now),
            update_rule(visible, is_local, now),
        ).len() == 0,
{
    let rule = update_rule(visible, is_local, now);
    let once = entries_after(entries, rule, now);
    lemma_entries_after(entries, rule, now);
    assert(none_overdue(once, visible, now)) by {
        assert forall|i: int| 0 <= i < once.len() && !visible.contains((#[trigger] once[i]).0)
            implies (once[i].1.connectivity_status matches InstanceConnectivityStatus::Offline(
            since,
        ) ==> elapsed_secs(now, since) < SHARED_INSTANCE_OFFLINE_GRACE_PERIOD_SECS) by {
            let name = once[i].0;
            lemma_key_index_unique(once, i);
            assert(has_key(once, name));
            let info = value_of(entries, name);
            let decision = rule(name, info);
            assert(decision != ConnectivityDecision::Removed);
            assert(once[i].1 == info_after(info, decision, now));
        }
    }
    lemma_same_report_twice(entries, visible, is_local, now, now);
}

} // verus!

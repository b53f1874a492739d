//! The instances of a configuration and how their connectivity follows
//! what discovery reports.
//!
//! An instance that discovery still reports is online. A shared instance
//! that discovery no longer reports goes offline and is removed once it has
//! been offline for the grace period; a local one is removed at once.

use crate::constants::{elapsed, elapsed_secs, SHARED_INSTANCE_OFFLINE_GRACE_PERIOD_SECS};
use crate::ordered_map::{distinct_keys, entries_view, has_key, lemma_front, value_of, OrderedMap};
use vstd::prelude::*;

verus! {

/// Whether the device of an instance is visible.
#[derive(Clone, Copy, Debug, PartialEq, Eq, Structural)]
pub enum InstanceConnectivityStatus {
    /// Discovery reports the device.
    Online,
    /// Discovery has not reported the device since the given second.
    Offline(u64),
}

/// What the operator keeps of an instance.
#[derive(Clone, Copy, Debug, PartialEq, Eq, Structural)]
pub struct InstanceInfo {
    pub connectivity_status: InstanceConnectivityStatus,
}

/// What the list-and-watch loop of a device plugin is told.
#[derive(Clone, Copy, Debug, PartialEq, Eq, Structural)]
pub enum ListAndWatchMessageKind {
    /// Report the health of the device again.
    Continue,
    /// Stop: the instance is gone.
    End,
}

/// The instances of one configuration, by name.
pub type InstanceMap = OrderedMap<String, InstanceInfo>;

/// The model of an instance map: names with what is kept of each.
pub type InstanceEntries = Seq<(Seq<char>, InstanceInfo)>;

/// What becomes of an instance when its connectivity is brought up to date.
#[derive(Clone, Copy, Debug, PartialEq, Eq, Structural)]
pub enum ConnectivityDecision {
    /// It stays as it is.
    Unchanged,
    /// It was offline and is visible again: it goes online.
    BackOnline,
    /// It was online and is no longer visible: it goes offline as of now.
    WentOffline,
    /// It leaves the map, its device plugin is terminated and its record deleted.
    Removed,
}

/// What a device plugin, or the cluster, is to be told of an instance.
#[derive(Clone, Copy, Debug, PartialEq, Eq, Structural)]
pub enum InstanceActionKind {
    /// Tell the instance's list-and-watch loop to continue, so that it
    /// reports the changed health at once.
    NotifyContinue,
    /// Terminate the instance's device plugin, then delete the instance's
    /// record from the cluster.
    TerminateAndDelete,
}

/// Something to be done for an instance after its connectivity changed.
#[derive(Debug)]
pub struct InstanceAction {
    pub instance: String,
    pub kind: InstanceActionKind,
}

impl View for InstanceAction {
    type V = (Seq<char>, InstanceActionKind);

    open spec fn view(&self) -> (Seq<char>, InstanceActionKind) {
        (self.instance@, self.kind)
    }
}

/// The model of a list of actions.
pub open spec fn actions_view(
    actions: Seq<InstanceAction>,
) -> Seq<(Seq<char>, InstanceActionKind)> {
    Seq::new(actions.len(), |i: int| actions[i]@)
}

/// What becomes of an instance with `status`, given whether discovery
/// reports it, whether the reporting handler's devices are local, and the
/// time.
pub open spec fn connectivity_decision(
    status: InstanceConnectivityStatus,
    visible: bool,
    is_local: bool,
    now: u64,
) -> ConnectivityDecision {
    match status {
        InstanceConnectivityStatus::Online => {
            if visible {
                ConnectivityDecision::Unchanged
            } else if is_local {
                ConnectivityDecision::Removed
            } else {
                ConnectivityDecision::WentOffline
            }
        },
        InstanceConnectivityStatus::Offline(since) => {
            if visible {
                ConnectivityDecision::BackOnline
            } else if elapsed_secs(now, since) >= SHARED_INSTANCE_OFFLINE_GRACE_PERIOD_SECS {
                ConnectivityDecision::Removed
            } else {
                ConnectivityDecision::Unchanged
            }
        },
    }
}

/// What becomes of an instance with `status` when the offline instances are
/// swept: one that has been offline for the grace period is removed, and
/// nothing else changes.
pub open spec fn sweep_decision(
    status: InstanceConnectivityStatus,
    now: u64,
) -> ConnectivityDecision {
    match status {
        InstanceConnectivityStatus::Online => ConnectivityDecision::Unchanged,
        InstanceConnectivityStatus::Offline(since) => {
            if elapsed_secs(now, since) >= SHARED_INSTANCE_OFFLINE_GRACE_PERIOD_SECS {
                ConnectivityDecision::Removed
            } else {
                ConnectivityDecision::Unchanged
            }
        },
    }
}

/// What is kept of an instance after a decision that leaves it in the map.
pub open spec fn info_after(
    info: InstanceInfo,
    decision: ConnectivityDecision,
    now: u64,
) -> InstanceInfo {
    match decision {
        ConnectivityDecision::BackOnline => InstanceInfo {
            connectivity_status: InstanceConnectivityStatus::Online,
        },
        ConnectivityDecision::WentOffline => InstanceInfo {
            connectivity_status: InstanceConnectivityStatus::Offline(now),
        },
        _ => info,
    }
}

/// The instances after each has met its decision: those removed are gone,
/// the others stand in their old order with their new connectivity.
pub open spec fn entries_after(
    entries: InstanceEntries,
    decide: spec_fn(Seq<char>, InstanceInfo) -> ConnectivityDecision,
    now: u64,
) -> InstanceEntries
    decreases entries.len(),
{
    if entries.len() == 0 {
        entries
    } else {
        let before = entries_after(entries.drop_last(), decide, now);
        let (name, info) = entries.last();
        let decision = decide(name, info);
        if decision == ConnectivityDecision::Removed {
            before
        } else {
            before.push((name, info_after(info, decision, now)))
        }
    }
}

/// The actions that the decisions call for, in the order of the instances:
/// a notification for each instance whose connectivity changed, a
/// termination for each one removed.
pub open spec fn actions_after(
    entries: InstanceEntries,
    decide: spec_fn(Seq<char>, InstanceInfo) -> ConnectivityDecision,
) -> Seq<(Seq<char>, InstanceActionKind)>
    decreases entries.len(),
{
    if entries.len() == 0 {
        Seq::empty()
    } else {
        let before = actions_after(entries.drop_last(), decide);
        let (name, info) = entries.last();
        match decide(name, info) {
            ConnectivityDecision::Unchanged => before,
            ConnectivityDecision::BackOnline => before.push(
                (name, InstanceActionKind::NotifyContinue),
            ),
            ConnectivityDecision::WentOffline => before.push(
                (name, InstanceActionKind::NotifyContinue),
            ),
            ConnectivityDecision::Removed => before.push(
                (name, InstanceActionKind::TerminateAndDelete),
            ),
        }
    }
}

/// The decisions of bringing connectivity up to date with the set of
/// visible instance names.
pub open spec fn update_rule(
    visible: Set<Seq<char>>,
    is_local: bool,
    now: u64,
) -> spec_fn(Seq<char>, InstanceInfo) -> ConnectivityDecision {
    |name: Seq<char>, info: InstanceInfo|
        connectivity_decision(info.connectivity_status, visible.contains(name), is_local, now)
}

/// The decisions of a sweep for instances that stayed offline too long.
pub open spec fn sweep_rule(now: u64) -> spec_fn(Seq<char>, InstanceInfo) -> ConnectivityDecision {
    |name: Seq<char>, info: InstanceInfo| sweep_decision(info.connectivity_status, now)
}

/// What `entries_after` does to each name: an instance is in the result
/// exactly when it was there before and was not removed, and then holds
/// what `info_after` gives. The names stay distinct.
pub proof fn lemma_entries_after(
    entries: InstanceEntries,
    decide: spec_fn(Seq<char>, InstanceInfo) -> ConnectivityDecision,
    now: u64,
)
    requires
        distinct_keys(entries),
    ensures
        distinct_keys(entries_after(entries, decide, now)),
        forall|name: Seq<char>| #[trigger]
            has_key(entries_after(entries, decide, now), name) <==> has_key(entries, name)
                && decide(name, value_of(entries, name)) != ConnectivityDecision::Removed,
        forall|name: Seq<char>| #[trigger]
            has_key(entries_after(entries, decide, now), name) ==> value_of(
                entries_after(entries, decide, now),
                name,
            ) == info_after(
                value_of(entries, name),
                decide(name, value_of(entries, name)),
                now,
            ),
    decreases entries.len(),
{
    let after = entries_after(entries, decide, now);
    if entries.len() == 0 {
        assert forall|name: Seq<char>| !has_key(entries, name) by {}
    } else {
        let front = entries.drop_last();
        let before = entries_after(front, decide, now);
        let (last_name, last_info) = entries.last();
        lemma_front(entries);
        lemma_entries_after(front, decide, now);
        let decision = decide(last_name, last_info);
        if decision == ConnectivityDecision::Removed {
            assert(after == before);
        } else {
            let kept = (last_name, info_after(last_info, decision, now));
            assert(after == before.push(kept));
            assert(!has_key(before, last_name));
            assert(distinct_keys(after)) by {
                assert forall|i: int, j: int| 0 <= i < j < after.len() implies (
                #[trigger] after[i]).0 != (#[trigger] after[j]).0 by {
                    assert(after[i] == before[i]);
                    if j < before.len() {
                        assert(after[j] == before[j]);
                    } else {
                        if before[i].0 == last_name {
                            assert(has_key(before, last_name));
                        }
                    }
                }
            }
            assert(after.drop_last() =~= before);
            lemma_front(after);
        }
        assert forall|name: Seq<char>| #[trigger]
            has_key(after, name) <==> has_key(entries, name) && decide(
                name,
                value_of(entries, name),
            ) != ConnectivityDecision::Removed by {
            if name != last_name {
                assert(has_key(before, name) <==> has_key(front, name) && decide(
                    name,
                    value_of(front, name),
                ) != ConnectivityDecision::Removed);
            }
        }
        assert forall|name: Seq<char>| #[trigger] has_key(after, name) implies value_of(after, name)
            == info_after(value_of(entries, name), decide(name, value_of(entries, name)), now) by {
            if name != last_name {
                assert(has_key(before, name));
            }
        }
    }
}

impl OrderedMap<String, InstanceInfo> {
    /// A copy of the instances, in order.
    pub fn snapshot(&self) -> (instances: Vec<(String, InstanceInfo)>)
        ensures
            entries_view(instances@) == self@,
    {
        let mut instances: Vec<(String, InstanceInfo)> = Vec::new();
        let mut i: usize = 0;
        while i < self.len()
            invariant
                i <= self@.len(),
                entries_view(instances@) == self@.take(i as int),
            decreases self@.len() - i,
        {
            let ghost before = entries_view(instances@);
            instances.push((self.key_at(i).clone(), *self.value_at(i)));
            assert(entries_view(instances@) =~= before.push(self@[i as int]));
            assert(self@.take(i as int + 1) =~= self@.take(i as int).push(self@[i as int]));
            i += 1;
        }
        assert(self@.take(i as int) =~= self@);
        instances
    }
}

/// Decides what becomes of an instance when connectivity is brought up to date.
pub fn decide_connectivity(
    status: InstanceConnectivityStatus,
    visible: bool,
    is_local: bool,
    now: u64,
) -> (decision: ConnectivityDecision)
    ensures
        decision == connectivity_decision(status, visible, is_local, now),
{
    match status {
        InstanceConnectivityStatus::Online => {
            if visible {
                ConnectivityDecision::Unchanged
            } else if is_local {
                ConnectivityDecision::Removed
            } else {
                ConnectivityDecision::WentOffline
            }
        },
        InstanceConnectivityStatus::Offline(since) => {
            if visible {
                ConnectivityDecision::BackOnline
            } else if elapsed(now, since) >= SHARED_INSTANCE_OFFLINE_GRACE_PERIOD_SECS {
                ConnectivityDecision::Removed
            } else {
                ConnectivityDecision::Unchanged
            }
        },
    }
}

/// Decides what becomes of an instance in a sweep.
pub fn decide_sweep(
    status: InstanceConnectivityStatus,
    now: u64,
) -> (decision: ConnectivityDecision)
    ensures
        decision == sweep_decision(status, now),
{
    match status {
        InstanceConnectivityStatus::Online => ConnectivityDecision::Unchanged,
        InstanceConnectivityStatus::Offline(since) => {
            if elapsed(now, since) >= SHARED_INSTANCE_OFFLINE_GRACE_PERIOD_SECS {
                ConnectivityDecision::Removed
            } else {
                ConnectivityDecision::Unchanged
            }
        },
    }
}

/// Carries out one decision per instance, in order: rewrites `map` and
/// returns the actions that the decisions call for.
pub(crate) fn apply_decisions(
    map: &mut InstanceMap,
    decisions: &Vec<ConnectivityDecision>,
    now: u64,
    Ghost(decide): Ghost<spec_fn(Seq<char>, InstanceInfo) -> ConnectivityDecision>,
) -> (actions: Vec<InstanceAction>)
    requires
        decisions@.len() == old(map)@.len(),
        forall|i: int|
            0 <= i < decisions@.len() ==> #[trigger] decisions@[i] == decide(
                old(map)@[i].0,
                old(map)@[i].1,
            ),
    ensures
        final(map)@ == entries_after(old(map)@, decide, now),
        actions_view(actions@) == actions_after(old(map)@, decide),
{
    let ghost entries = map@;
    proof {
        use_type_invariant(&*map);
    }
    let mut kept: Vec<(String, InstanceInfo)> = Vec::new();
    let mut actions: Vec<InstanceAction> = Vec::new();
    let mut i: usize = 0;
    while i < map.len()
        invariant
            i <= entries.len(),
            map@ == entries,
            decisions@.len() == entries.len(),
            forall|j: int|
                0 <= j < decisions@.len() ==> #[trigger] decisions@[j] == decide(
                    entries[j].0,
                    entries[j].1,
                ),
            entries_view(kept@) == entries_after(entries.take(i as int), decide, now),
            actions_view(actions@) == actions_after(entries.take(i as int), decide),
        decreases entries.len() - i,
    {
        let info = *map.value_at(i);
        let decision = decisions[i];
        let ghost kept_before = entries_view(kept@);
        let ghost actions_before = actions_view(actions@);
        proof {
            let upto = entries.take(i as int + 1);
            assert(upto.drop_last() =~= entries.take(i as int));
            assert(upto.last() == entries[i as int]);
        }
        match decision {
            ConnectivityDecision::Unchanged => {
                kept.push((map.key_at(i).clone(), info));
                assert(entries_view(kept@) =~= kept_before.push((entries[i as int].0, info)));
            },
            ConnectivityDecision::BackOnline => {
                kept.push(
                    (
                        map.key_at(i).clone(),
                        InstanceInfo { connectivity_status: InstanceConnectivityStatus::Online },
                    ),
                );
                actions.push(
                    InstanceAction {
                        instance: map.key_at(i).clone(),
                        kind: InstanceActionKind::NotifyContinue,
                    },
                );
                assert(entries_view(kept@) =~= kept_before.push(
                    (entries[i as int].0, info_after(info, decision, now)),
                ));
                assert(actions_view(actions@) =~= actions_before.push(
                    (entries[i as int].0, InstanceActionKind::NotifyContinue),
                ));
            },
            ConnectivityDecision::WentOffline => {
                kept.push(
                    (
                        map.key_at(i).clone(),
                        InstanceInfo {
                            connectivity_status: InstanceConnectivityStatus::Offline(now),
                        },
                    ),
                );
                actions.push(
                    InstanceAction {
                        instance: map.key_at(i).clone(),
                        kind: InstanceActionKind::NotifyContinue,
                    },
                );
                assert(entries_view(kept@) =~= kept_before.push(
                    (entries[i as int].0, info_after(info, decision, now)),
                ));
                assert(actions_view(actions@) =~= actions_before.push(
                    (entries[i as int].0, InstanceActionKind::NotifyContinue),
                ));
            },
            ConnectivityDecision::Removed => {
                actions.push(
                    InstanceAction {
                        instance: map.key_at(i).clone(),
                        kind: InstanceActionKind::TerminateAndDelete,
                    },
                );
                assert(actions_view(actions@) =~= actions_before.push(
                    (entries[i as int].0, InstanceActionKind::TerminateAndDelete),
                ));
            },
        }
        i += 1;
    }
    proof {
        assert(entries.take(i as int) =~= entries);
        lemma_entries_after(entries, decide, now);
    }
    *map = OrderedMap::from_entries(kept);
    actions
}

} // verus!

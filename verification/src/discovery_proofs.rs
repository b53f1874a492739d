//! What holds of the instance names and the requested device plugins
//! whenever discovery results are handled.

use crate::device::Device;
use crate::digest::{instance_digest, instance_name};
use crate::discovery_operator::{
    new_instances, requests_view, visible_instances, DiscoveryOperator, DiscoveryOutcome,
};
use crate::instance::{
    actions_view, entries_after, lemma_entries_after, update_rule, ConnectivityDecision,
    InstanceEntries, InstanceInfo,
};
use crate::instance_proofs::{lemma_same_report_twice, none_overdue};
use crate::ordered_map::{
    as_map, distinct_keys, has_key, key_index, key_set, lemma_front, lemma_key_index_unique,
    lemma_with_entry, value_of, with_entry,
};
use vstd::prelude::*;

verus! {

/// True when `name` is the instance name of one of `devices`.
pub open spec fn names_one_of(
    config_name: Seq<char>,
    name: Seq<char>,
    devices: Seq<Device>,
    is_local: bool,
    node_name: Seq<char>,
) -> bool {
    exists|i: int|
        0 <= i < devices.len() && name == instance_name(
            config_name,
            instance_digest((#[trigger] devices[i]).id@, !is_local, node_name),
        )
}

/// True when `name` is the instance name of some device under the
/// configuration `config_name`.
pub open spec fn names_a_device(config_name: Seq<char>, name: Seq<char>) -> bool {
    exists|id: Seq<char>, shared: bool, node_name: Seq<char>|
        name == instance_name(config_name, #[trigger] instance_digest(id, shared, node_name))
}

/// True when every instance of `entries` is named after a device.
pub open spec fn all_named(config_name: Seq<char>, entries: InstanceEntries) -> bool {
    forall|i: int|
        0 <= i < entries.len() ==> names_a_device(config_name, (#[trigger] entries[i]).0)
}

/// The visible instances are exactly the names of the reported devices,
/// each once.
pub proof fn lemma_visible_instances(
    config_name: Seq<char>,
    devices: Seq<Device>,
    is_local: bool,
    node_name: Seq<char>,
)
    ensures
        distinct_keys(visible_instances(config_name, devices, is_local, node_name)),
        forall|name: Seq<char>| #[trigger]
            has_key(visible_instances(config_name, devices, is_local, node_name), name)
                <==> names_one_of(config_name, name, devices, is_local, node_name),
    decreases devices.len(),
{
    let visible = visible_instances(config_name, devices, is_local, node_name);
    if devices.len() == 0 {
        assert forall|name: Seq<char>| !has_key(visible, name) by {}
    } else {
        let front = devices.drop_last();
        let before = visible_instances(config_name, front, is_local, node_name);
        let device = devices.last();
        let last_name = instance_name(
            config_name,
            instance_digest(device.id@, !is_local, node_name),
        );
        lemma_visible_instances(config_name, front, is_local, node_name);
        lemma_with_entry(before, last_name, device);
        assert forall|name: Seq<char>| #[trigger]
            has_key(visible, name) <==> names_one_of(
                config_name,
                name,
                devices,
                is_local,
                node_name,
            ) by {
            assert(as_map(visible).dom().contains(name) <==> has_key(visible, name));
            assert(as_map(before).dom().contains(name) <==> has_key(before, name));
            if names_one_of(config_name, name, devices, is_local, node_name) {
                let i = choose|i: int|
                    0 <= i < devices.len() && name == instance_name(
                        config_name,
                        instance_digest((#[trigger] devices[i]).id@, !is_local, node_name),
                    );
                if i < front.len() {
                    assert(front[i] == devices[i]);
                    assert(names_one_of(config_name, name, front, is_local, node_name));
                }
            }
            if has_key(visible, name) {
                if name == last_name {
                    assert(devices[devices.len() - 1] == device);
                } else {
                    assert(names_one_of(config_name, name, front, is_local, node_name));
                    let i = choose|i: int|
                        0 <= i < front.len() && name == instance_name(
                            config_name,
                            instance_digest((#[trigger] front[i]).id@, !is_local, node_name),
                        );
                    assert(front[i] == devices[i]);
                }
            }
        }
    }
}

/// The new instances are exactly the visible instances that had no entry
/// in the instance map, each once and with its device.
pub proof fn lemma_new_instances(visible: Seq<(Seq<char>, Device)>, instances: InstanceEntries)
    requires
        distinct_keys(visible),
    ensures
        distinct_keys(new_instances(visible, instances)),
        forall|name: Seq<char>| #[trigger]
            has_key(new_instances(visible, instances), name) <==> has_key(visible, name)
                && !has_key(instances, name),
        forall|name: Seq<char>| #[trigger]
            has_key(new_instances(visible, instances), name) ==> value_of(
                new_instances(visible, instances),
                name,
            ) == value_of(visible, name),
    decreases visible.len(),
{
    let new = new_instances(visible, instances);
    if visible.len() == 0 {
        assert forall|name: Seq<char>| !has_key(visible, name) by {}
        assert forall|name: Seq<char>| !has_key(new, name) by {}
    } else {
        let front = visible.drop_last();
        let before = new_instances(front, instances);
        let last_name = visible.last().0;
        lemma_front(visible);
        lemma_new_instances(front, instances);
        if has_key(instances, last_name) {
            assert(new == before);
        } else {
            assert(new == before.push(visible.last()));
            assert(!has_key(before, last_name));
            assert(distinct_keys(new)) by {
                assert forall|i: int, j: int| 0 <= i < j < new.len() implies (#[trigger] new[i]).0
                    != (#[trigger] new[j]).0 by {
                    assert(new[i] == before[i]);
                    if j < before.len() {
                        assert(new[j] == before[j]);
                    } else {
                        if before[i].0 == last_name {
                            assert(has_key(before, last_name));
                        }
                    }
                }
            }
            assert(new.drop_last() =~= before);
            lemma_front(new);
        }
        assert forall|name: Seq<char>| #[trigger]
            has_key(new, name) <==> has_key(visible, name) && !has_key(instances, name) by {
            if name != last_name {
                assert(has_key(before, name) <==> has_key(front, name) && !has_key(
                    instances,
                    name,
                ));
            }
        }
        assert forall|name: Seq<char>| #[trigger] has_key(new, name) implies value_of(new, name)
            == value_of(visible, name) by {
            if name != last_name {
                assert(has_key(before, name));
            }
        }
    }
}

/// Every device plugin that handling a report requests is for a device of
/// the report, carries the instance name of that device, and is for an
/// instance that the map did not hold. No instance is requested twice.
pub proof fn lemma_requests_name_reported_devices(
    operator: DiscoveryOperator,
    after: DiscoveryOperator,
    devices: Seq<Device>,
    is_local: bool,
    node_name: Seq<char>,
    now: u64,
    outcome: DiscoveryOutcome,
)
    requires
        operator.handles(&after, devices, is_local, node_name, now, outcome),
    ensures
        distinct_keys(requests_view(outcome.new_devices@)),
        forall|i: int|
            0 <= i < outcome.new_devices@.len() ==> {
                &&& names_one_of(
                    operator.configuration().name@,
                    (#[trigger] outcome.new_devices@[i]).instance_name@,
                    devices,
                    is_local,
                    node_name,
                )
                &&& !has_key(operator.instances(), outcome.new_devices@[i].instance_name@)
                &&& outcome.new_devices@[i].shared == !is_local
            },
{
    let config_name = operator.configuration().name@;
    let visible = visible_instances(config_name, devices, is_local, node_name);
    let requests = requests_view(outcome.new_devices@);
    lemma_visible_instances(config_name, devices, is_local, node_name);
    lemma_new_instances(visible, operator.instances());
    assert forall|i: int| 0 <= i < outcome.new_devices@.len() implies names_one_of(
        config_name,
        (#[trigger] outcome.new_devices@[i]).instance_name@,
        devices,
        is_local,
        node_name,
    ) && !has_key(operator.instances(), outcome.new_devices@[i].instance_name@) by {
        assert(requests[i].0 == outcome.new_devices@[i].instance_name@);
        lemma_key_index_unique(requests, i);
        assert(has_key(visible, requests[i].0));
    }
}

/// Every device of a report that has no instance yet gets a request.
pub proof fn lemma_every_new_device_requested(
    operator: DiscoveryOperator,
    after: DiscoveryOperator,
    devices: Seq<Device>,
    is_local: bool,
    node_name: Seq<char>,
    now: u64,
    outcome: DiscoveryOutcome,
    index: int,
)
    requires
        operator.handles(&after, devices, is_local, node_name, now, outcome),
        0 <= index < devices.len(),
        !has_key(
            operator.instances(),
            instance_name(
                operator.configuration().name@,
                instance_digest(devices[index].id@, !is_local, node_name),
            ),
        ),
    ensures
        has_key(
            requests_view(outcome.new_devices@),
            instance_name(
                operator.configuration().name@,
                instance_digest(devices[index].id@, !is_local, node_name),
            ),
        ),
{
    let config_name = operator.configuration().name@;
    let visible = visible_instances(config_name, devices, is_local, node_name);
    let name = instance_name(
        config_name,
        instance_digest(devices[index].id@, !is_local, node_name),
    );
    lemma_visible_instances(config_name, devices, is_local, node_name);
    lemma_new_instances(visible, operator.instances());
    assert(names_one_of(config_name, name, devices, is_local, node_name));
}

/// Where every instance is named after a device, that is still so after
/// the connectivity of the instances was brought up to date, by a report
/// or by a sweep.
pub proof fn lemma_update_keeps_names(
    config_name: Seq<char>,
    entries: InstanceEntries,
    decide: spec_fn(Seq<char>, InstanceInfo) -> ConnectivityDecision,
    now: u64,
)
    requires
        distinct_keys(entries),
        all_named(config_name, entries),
    ensures
        all_named(config_name, entries_after(entries, decide, now)),
{
    let next = entries_after(entries, decide, now);
    lemma_entries_after(entries, decide, now);
    assert forall|i: int| 0 <= i < next.len() implies names_a_device(
        config_name,
        (#[trigger] next[i]).0,
    ) by {
        lemma_key_index_unique(next, i);
        assert(has_key(entries, next[i].0));
        let j = key_index(entries, next[i].0);
        assert(names_a_device(config_name, entries[j].0));
    }
}

/// Where every instance is named after a device, that is still so after
/// a report was handled.
pub proof fn lemma_handling_keeps_names(
    operator: DiscoveryOperator,
    after: DiscoveryOperator,
    devices: Seq<Device>,
    is_local: bool,
    node_name: Seq<char>,
    now: u64,
    outcome: DiscoveryOutcome,
)
    requires
        distinct_keys(operator.instances()),
        operator.handles(&after, devices, is_local, node_name, now, outcome),
        all_named(operator.configuration().name@, operator.instances()),
    ensures
        all_named(after.configuration().name@, after.instances()),
{
    let visible = operator.visible(devices, is_local, node_name);
    lemma_update_keeps_names(
        operator.configuration().name@,
        operator.instances(),
        update_rule(key_set(visible), is_local, now),
        now,
    );
}

/// Where every instance is named after a device, that is still so after
/// an instance was recorded for a requested device plugin.
pub proof fn lemma_recording_keeps_names(
    config_name: Seq<char>,
    entries: InstanceEntries,
    devices: Seq<Device>,
    is_local: bool,
    node_name: Seq<char>,
    name: Seq<char>,
    info: InstanceInfo,
)
    requires
        distinct_keys(entries),
        all_named(config_name, entries),
        names_one_of(config_name, name, devices, is_local, node_name),
    ensures
        all_named(config_name, with_entry(entries, name, info)),
{
    let next = with_entry(entries, name, info);
    let d = choose|i: int|
        0 <= i < devices.len() && name == instance_name(
            config_name,
            instance_digest((#[trigger] devices[i]).id@, !is_local, node_name),
        );
    assert(names_a_device(config_name, name)) by {
        assert(name == instance_name(
            config_name,
            instance_digest(devices[d].id@, !is_local, node_name),
        ));
    }
    assert forall|i: int| 0 <= i < next.len() implies names_a_device(
        config_name,
        (#[trigger] next[i]).0,
    ) by {
        if has_key(entries, name) {
            if i == key_index(entries, name) {
            } else {
                assert(next[i] == entries[i]);
            }
        } else {
            if i < entries.len() {
                assert(next[i] == entries[i]);
            }
        }
    }
}

/// Once every visible instance has its entry, the same report requests no
/// device plugin.
pub proof fn lemma_nothing_new_once_recorded(
    visible: Seq<(Seq<char>, Device)>,
    instances: InstanceEntries,
)
    requires
        forall|i: int| 0 <= i < visible.len() ==> has_key(instances, (#[trigger] visible[i]).0),
    ensures
        new_instances(visible, instances).len() == 0,
    decreases visible.len(),
{
    if visible.len() > 0 {
        let front = visible.drop_last();
        assert forall|i: int| 0 <= i < front.len() implies has_key(
            instances,
            (#[trigger] front[i]).0,
        ) by {
            assert(front[i] == visible[i]);
        }
        lemma_nothing_new_once_recorded(front, instances);
        assert(has_key(instances, visible[visible.len() - 1].0));
    }
}

/// Against two instance maps that hold the same of the visible names, the
/// same device plugins are requested.
pub proof fn lemma_new_instances_agree(
    visible: Seq<(Seq<char>, Device)>,
    instances: InstanceEntries,
    others: InstanceEntries,
)
    requires
        forall|i: int|
            0 <= i < visible.len() ==> has_key(instances, (#[trigger] visible[i]).0) == has_key(
                others,
                visible[i].0,
            ),
    ensures
        new_instances(visible, instances) == new_instances(visible, others),
    decreases visible.len(),
{
    if visible.len() > 0 {
        let front = visible.drop_last();
        assert forall|i: int| 0 <= i < front.len() implies has_key(
            instances,
            (#[trigger] front[i]).0,
        ) == has_key(others, front[i].0) by {
            assert(front[i] == visible[i]);
        }
        lemma_new_instances_agree(front, instances, others);
        assert(has_key(instances, visible[visible.len() - 1].0) == has_key(
            others,
            visible[visible.len() - 1].0,
        ));
    }
}

/// The same report handled a second time leaves the operator as the first
/// time left it and calls for no action, unless by then an instance that
/// the report leaves out has been offline for the grace period. The device
/// plugins requested the first time are requested again for as long as
/// their instances are not recorded.
pub proof fn lemma_same_report_handled_twice(
    operator: DiscoveryOperator,
    once: DiscoveryOperator,
    twice: DiscoveryOperator,
    devices: Seq<Device>,
    is_local: bool,
    node_name: Seq<char>,
    first: u64,
    second: u64,
    first_outcome: DiscoveryOutcome,
    second_outcome: DiscoveryOutcome,
)
    requires
        distinct_keys(operator.instances()),
        operator.handles(&once, devices, is_local, node_name, first, first_outcome),
        once.handles(&twice, devices, is_local, node_name, second, second_outcome),
        none_overdue(
            once.instances(),
            key_set(operator.visible(devices, is_local, node_name)),
            second,
        ),
    ensures
        once.same_as(&twice),
        second_outcome.actions@.len() == 0,
        second_outcome.visible_instances == first_outcome.visible_instances,
        requests_view(second_outcome.new_devices@) == requests_view(first_outcome.new_devices@),
{
    let visible = operator.visible(devices, is_local, node_name);
    let names = key_set(visible);
    let rule = update_rule(names, is_local, first);
    lemma_same_report_twice(operator.instances(), names, is_local, first, second);
    lemma_entries_after(operator.instances(), rule, first);
    assert forall|i: int| 0 <= i < visible.len() implies has_key(
        operator.instances(),
        (#[trigger] visible[i]).0,
    ) == has_key(once.instances(), visible[i].0) by {
        assert(has_key(visible, visible[i].0));
        assert(names.contains(visible[i].0));
    }
    lemma_new_instances_agree(visible, operator.instances(), once.instances());
    assert(actions_view(second_outcome.actions@).len() == 0);
}

} // verus!

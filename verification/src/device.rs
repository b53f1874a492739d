//! Devices as discovery handlers report them.

use crate::ordered_map::{
    as_map, distinct_keys, has_key, key_index, lemma_key_index_unique, lemma_with_entry, value_of,
    with_entry, OrderedMap,
};
use vstd::prelude::*;

verus! {

/// A host path to mount into the containers that use a device.
#[derive(Debug)]
pub struct Mount {
    pub container_path: String,
    pub host_path: String,
    pub read_only: bool,
}

impl View for Mount {
    type V = (Seq<char>, Seq<char>, bool);

    open spec fn view(&self) -> (Seq<char>, Seq<char>, bool) {
        (self.container_path@, self.host_path@, self.read_only)
    }
}

/// A host device node to expose to the containers that use a device.
#[derive(Debug)]
pub struct DeviceSpec {
    pub container_path: String,
    pub host_path: String,
    pub permissions: String,
}

impl View for DeviceSpec {
    type V = (Seq<char>, Seq<char>, Seq<char>);

    open spec fn view(&self) -> (Seq<char>, Seq<char>, Seq<char>) {
        (self.container_path@, self.host_path@, self.permissions@)
    }
}

/// A device that a discovery handler has found. The operator reads the id;
/// the rest travels with the device to its device plugin.
#[derive(Debug)]
pub struct Device {
    pub id: String,
    pub properties: OrderedMap<String, String>,
    pub mounts: Vec<Mount>,
    pub device_specs: Vec<DeviceSpec>,
}

/// What a device says, whatever the order of its properties.
pub struct DeviceView {
    pub id: Seq<char>,
    pub properties: Map<Seq<char>, Seq<char>>,
    pub mounts: Seq<(Seq<char>, Seq<char>, bool)>,
    pub device_specs: Seq<(Seq<char>, Seq<char>, Seq<char>)>,
}

/// The properties of a device as a map from text to text.
pub open spec fn properties_view(properties: Seq<(Seq<char>, String)>) -> Map<
    Seq<char>,
    Seq<char>,
> {
    Map::new(
        |k: Seq<char>| has_key(properties, k),
        |k: Seq<char>| value_of(properties, k)@,
    )
}

/// A property put into the properties is put into their map.
pub proof fn lemma_property_put(properties: Seq<(Seq<char>, String)>, key: Seq<char>, text: String)
    requires
        distinct_keys(properties),
    ensures
        properties_view(with_entry(properties, key, text)) == properties_view(properties).insert(
            key,
            text@,
        ),
{
    lemma_with_entry(properties, key, text);
    let after = with_entry(properties, key, text);
    assert forall|k: Seq<char>| has_key(after, k) <==> (k == key || has_key(properties, k)) by {
        assert(as_map(after).dom().contains(k) <==> has_key(after, k));
        assert(as_map(properties).dom().contains(k) <==> has_key(properties, k));
    }
    assert forall|k: Seq<char>| has_key(after, k) implies value_of(after, k)@ == (if k == key {
        text@
    } else {
        value_of(properties, k)@
    }) by {
        assert(as_map(after)[k] == value_of(after, k));
        if k != key {
            assert(as_map(properties)[k] == value_of(properties, k));
        }
    }
    assert(properties_view(after) =~= properties_view(properties).insert(key, text@));
}

/// The mounts of a device, each by its view.
pub open spec fn mounts_view(mounts: Seq<Mount>) -> Seq<(Seq<char>, Seq<char>, bool)> {
    Seq::new(mounts.len(), |i: int| mounts[i]@)
}

/// The device specs of a device, each by its view.
pub open spec fn device_specs_view(specs: Seq<DeviceSpec>) -> Seq<
    (Seq<char>, Seq<char>, Seq<char>),
> {
    Seq::new(specs.len(), |i: int| specs[i]@)
}

impl View for Device {
    type V = DeviceView;

    open spec fn view(&self) -> DeviceView {
        DeviceView {
            id: self.id@,
            properties: properties_view(self.properties@),
            mounts: mounts_view(self.mounts@),
            device_specs: device_specs_view(self.device_specs@),
        }
    }
}

/// True when every property of `a` is a property of `b` with the same text.
pub open spec fn properties_within(
    a: Seq<(Seq<char>, String)>,
    b: Seq<(Seq<char>, String)>,
) -> bool {
    forall|i: int|
        0 <= i < a.len() ==> has_key(b, (#[trigger] a[i]).0) && value_of(b, a[i].0)@ == a[i].1@
}

/// Decides whether every property of `a` is a property of `b`.
fn within(a: &OrderedMap<String, String>, b: &OrderedMap<String, String>) -> (all: bool)
    ensures
        all == properties_within(a@, b@),
{
    let mut i: usize = 0;
    while i < a.len()
        invariant
            i <= a@.len(),
            forall|j: int|
                0 <= j < i ==> has_key(b@, (#[trigger] a@[j]).0) && value_of(b@, a@[j].0)@
                    == a@[j].1@,
        decreases a@.len() - i,
    {
        match b.get(a.key_at(i)) {
            Some(text) => {
                if *text != *a.value_at(i) {
                    assert(!(value_of(b@, a@[i as int].0)@ == a@[i as int].1@));
                    return false;
                }
            },
            None => {
                assert(!has_key(b@, a@[i as int].0));
                return false;
            },
        }
        i += 1;
    }
    true
}

/// Decides whether two sets of properties say the same.
pub fn same_properties(
    a: &OrderedMap<String, String>,
    b: &OrderedMap<String, String>,
) -> (same: bool)
    ensures
        same == (properties_view(a@) == properties_view(b@)),
{
    proof {
        use_type_invariant(a);
        use_type_invariant(b);
    }
    let same = within(a, b) && within(b, a);
    proof {
        let x = properties_view(a@);
        let y = properties_view(b@);
        if same {
            assert forall|k: Seq<char>| x.dom().contains(k) <==> y.dom().contains(k) by {
                if has_key(a@, k) {
                    let i = key_index(a@, k);
                    assert(has_key(b@, a@[i].0));
                }
                if has_key(b@, k) {
                    let i = key_index(b@, k);
                    assert(has_key(a@, b@[i].0));
                }
            }
            assert forall|k: Seq<char>| x.dom().contains(k) implies x[k] == y[k] by {
                let i = key_index(a@, k);
                lemma_key_index_unique(a@, i);
                assert(value_of(b@, a@[i].0)@ == a@[i].1@);
            }
            assert(x =~= y);
        } else {
            if x == y {
                assert forall|i: int| 0 <= i < a@.len() implies has_key(b@, (#[trigger] a@[i]).0)
                    && value_of(b@, a@[i].0)@ == a@[i].1@ by {
                    lemma_key_index_unique(a@, i);
                    assert(x.dom().contains(a@[i].0));
                    assert(y.dom().contains(a@[i].0));
                    assert(x[a@[i].0] == y[a@[i].0]);
                }
                assert forall|i: int| 0 <= i < b@.len() implies has_key(a@, (#[trigger] b@[i]).0)
                    && value_of(a@, b@[i].0)@ == b@[i].1@ by {
                    lemma_key_index_unique(b@, i);
                    assert(y.dom().contains(b@[i].0));
                    assert(x.dom().contains(b@[i].0));
                    assert(x[b@[i].0] == y[b@[i].0]);
                }
            }
        }
    }
    same
}

/// Decides whether two lists of mounts are the same.
pub fn same_mounts(a: &Vec<Mount>, b: &Vec<Mount>) -> (same: bool)
    ensures
        same == (mounts_view(a@) == mounts_view(b@)),
{
    if a.len() != b.len() {
        assert(mounts_view(a@).len() != mounts_view(b@).len());
        return false;
    }
    let mut i: usize = 0;
    while i < a.len()
        invariant
            i <= a@.len(),
            a@.len() == b@.len(),
            forall|j: int| 0 <= j < i ==> (#[trigger] a@[j])@ == b@[j]@,
        decreases a@.len() - i,
    {
        if !(a[i].container_path == b[i].container_path && a[i].host_path == b[i].host_path
            && a[i].read_only == b[i].read_only) {
            assert(mounts_view(a@)[i as int] != mounts_view(b@)[i as int]);
            return false;
        }
        i += 1;
    }
    assert(mounts_view(a@) =~= mounts_view(b@));
    true
}

/// Decides whether two lists of device specs are the same.
pub fn same_device_specs(a: &Vec<DeviceSpec>, b: &Vec<DeviceSpec>) -> (same: bool)
    ensures
        same == (device_specs_view(a@) == device_specs_view(b@)),
{
    if a.len() != b.len() {
        assert(device_specs_view(a@).len() != device_specs_view(b@).len());
        return false;
    }
    let mut i: usize = 0;
    while i < a.len()
        invariant
            i <= a@.len(),
            a@.len() == b@.len(),
            forall|j: int| 0 <= j < i ==> (#[trigger] a@[j])@ == b@[j]@,
        decreases a@.len() - i,
    {
        if !(a[i].container_path == b[i].container_path && a[i].host_path == b[i].host_path
            && a[i].permissions == b[i].permissions) {
            assert(device_specs_view(a@)[i as int] != device_specs_view(b@)[i as int]);
            return false;
        }
        i += 1;
    }
    assert(device_specs_view(a@) =~= device_specs_view(b@));
    true
}

impl Device {
    /// A device with the given id and nothing else.
    pub fn new(id: String) -> (device: Self)
        ensures
            device.id == id,
            device.properties@.len() == 0,
            device.mounts@.len() == 0,
            device.device_specs@.len() == 0,
    {
        Device { id, properties: OrderedMap::new(), mounts: Vec::new(), device_specs: Vec::new() }
    }

    /// Decides whether `self` and `other` say the same: the same id, the
    /// same properties in any order, the same mounts and device specs.
    pub fn same_device(&self, other: &Device) -> (same: bool)
        ensures
            same == (self@ == other@),
    {
        self.id == other.id && same_properties(&self.properties, &other.properties) && same_mounts(
            &self.mounts,
            &other.mounts,
        ) && same_device_specs(&self.device_specs, &other.device_specs)
    }
}

/// True when some device of `devices` says what `device` says.
pub open spec fn holds_device(devices: Seq<Device>, device: DeviceView) -> bool {
    exists|i: int| 0 <= i < devices.len() && (#[trigger] devices[i])@ == device
}

/// Decides whether some device of `devices` says what `device` says.
pub fn contains_device(devices: &Vec<Device>, device: &Device) -> (found: bool)
    ensures
        found == holds_device(devices@, device@),
{
    let mut i: usize = 0;
    while i < devices.len()
        invariant
            i <= devices@.len(),
            forall|j: int| 0 <= j < i ==> (#[trigger] devices@[j])@ != device@,
        decreases devices@.len() - i,
    {
        if devices[i].same_device(device) {
            return true;
        }
        i += 1;
    }
    false
}

} // verus!

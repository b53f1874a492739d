//! The rules of the ONVIF discovery handler: which cameras the filters of
//! a configuration let through, what device a camera becomes, and when a
//! changed list of cameras is to be sent.

use crate::device::{
    contains_device, holds_device, lemma_property_put, properties_view, Device,
};
use crate::discovery_details::DiscoveryDetailsError;
use crate::ordered_map::OrderedMap;
use crate::text::{contains, text_contains};
use vstd::prelude::*;

verus! {

/// Protocol name under which ONVIF handlers register.
pub const PROTOCOL_NAME: &'static str = "onvif";

/// Network port on which the ONVIF discovery service listens where it does not use a socket.
pub const DISCOVERY_PORT: &'static str = "10000";

/// Seconds between two rounds of discovery.
pub const DISCOVERY_INTERVAL_SECS: u64 = 10;

/// Property that holds the URL of a camera's device service.
pub const ONVIF_DEVICE_SERVICE_URL_LABEL_ID: &'static str = "ONVIF_DEVICE_SERVICE_URL";

/// Property that holds a camera's IP address.
pub const ONVIF_DEVICE_IP_ADDRESS_LABEL_ID: &'static str = "ONVIF_DEVICE_IP_ADDRESS";

/// Property that holds a camera's MAC address.
pub const ONVIF_DEVICE_MAC_ADDRESS_LABEL_ID: &'static str = "ONVIF_DEVICE_MAC_ADDRESS";

/// Whether the items of a filter list are the ones to keep or to drop.
#[derive(Clone, Copy, Debug, PartialEq, Eq, Structural)]
pub enum FilterType {
    /// Drop what matches an item.
    Exclude,
    /// Keep only what matches an item.
    Include,
}

/// A list of patterns with what to do on a match.
#[derive(Debug)]
pub struct FilterList {
    pub items: Vec<String>,
    pub action: FilterType,
}

/// The settings of an ONVIF handler: filters for IP addresses, MAC
/// addresses and scopes, and how long a round of discovery may take.
#[derive(Debug)]
pub struct OnvifDiscoveryHandlerConfig {
    pub ip_addresses: Option<FilterList>,
    pub mac_addresses: Option<FilterList>,
    pub scopes: Option<FilterList>,
    pub discovery_timeout_seconds: i32,
}

/// The handler settings that discovery details can describe.
#[derive(Debug)]
pub enum DiscoveryHandlerType {
    Onvif(OnvifDiscoveryHandlerConfig),
}

/// Seconds a round of discovery may take where the settings do not say.
pub fn default_discovery_timeout_seconds() -> (seconds: i32)
    ensures
        seconds == 1,
{
    1
}

/// True when `pattern` occurs in one of the texts `against`.
pub open spec fn matches_one(pattern: Seq<char>, against: Seq<String>) -> bool {
    exists|j: int| 0 <= j < against.len() && text_contains((#[trigger] against[j])@, pattern)
}

/// True when one of `items` occurs in one of the texts `against`.
pub open spec fn matches_any(items: Seq<String>, against: Seq<String>) -> bool {
    exists|i: int| 0 <= i < items.len() && matches_one((#[trigger] items[i])@, against)
}

/// True when the filter drops what the texts `against` describe: an
/// including filter drops what matches none of its items, an excluding
/// one what matches some item, and no filter drops nothing.
pub open spec fn filtered_out(filter_list: Option<FilterList>, against: Seq<String>) -> bool {
    match filter_list {
        None => false,
        Some(filter) => match filter.action {
            FilterType::Include => !matches_any(filter.items@, against),
            FilterType::Exclude => matches_any(filter.items@, against),
        },
    }
}

/// The filter list that an optional reference points to.
pub open spec fn referenced(filter_list: Option<&FilterList>) -> Option<FilterList> {
    match filter_list {
        Some(filter) => Some(*filter),
        None => None,
    }
}

fn occurs_in_one(pattern: &String, against: &[String]) -> (found: bool)
    ensures
        found == matches_one(pattern@, against@),
{
    let mut j: usize = 0;
    while j < against.len()
        invariant
            j <= against@.len(),
            forall|k: int| 0 <= k < j ==> !text_contains((#[trigger] against@[k])@, pattern@),
        decreases against@.len() - j,
    {
        if contains(against[j].as_str(), pattern.as_str()) {
            return true;
        }
        j += 1;
    }
    false
}

/// Decides whether the filter drops what the texts `filter_against` describe.
pub fn execute_filter(
    filter_list: Option<&FilterList>,
    filter_against: &[String],
) -> (dropped: bool)
    ensures
        dropped == filtered_out(referenced(filter_list), filter_against@),
{
    let filter = match filter_list {
        None => {
            return false;
        },
        Some(filter) => filter,
    };
    let mut matched = false;
    let mut i: usize = 0;
    while i < filter.items.len()
        invariant
            i <= filter.items@.len(),
            matched == exists|k: int|
                0 <= k < i && matches_one((#[trigger] filter.items@[k])@, filter_against@),
        decreases filter.items@.len() - i,
    {
        if occurs_in_one(&filter.items[i], filter_against) {
            matched = true;
        }
        i += 1;
    }
    match filter.action {
        FilterType::Include => !matched,
        FilterType::Exclude => matched,
    }
}

/// What was learned of a camera that answered discovery.
#[derive(Debug)]
pub struct CameraProbe {
    /// URL of the camera's device service.
    pub device_service_url: String,
    /// The camera's IP and MAC address, unless the camera would not tell.
    pub address: Option<(String, String)>,
    /// The camera's scopes, unless they were not asked for or the camera
    /// would not tell.
    pub scopes: Option<Vec<String>>,
}

/// True when the address filters let a camera with this address through.
pub open spec fn address_accepted(
    config: &OnvifDiscoveryHandlerConfig,
    ip: String,
    mac: String,
) -> bool {
    !filtered_out(config.ip_addresses, seq![ip]) && !filtered_out(config.mac_addresses, seq![mac])
}

/// True when the filters let the camera through: its address is known and
/// accepted, and its scopes are known and accepted.
pub open spec fn camera_accepted(config: &OnvifDiscoveryHandlerConfig, probe: CameraProbe) -> bool {
    &&& probe.address matches Some((ip, mac))
    &&& address_accepted(config, ip, mac)
    &&& probe.scopes matches Some(scopes)
    &&& !filtered_out(config.scopes, scopes@)
}

/// The cameras among `probes` that the filters let through, in order.
pub open spec fn accepted_cameras(
    config: &OnvifDiscoveryHandlerConfig,
    probes: Seq<CameraProbe>,
) -> Seq<CameraProbe>
    decreases probes.len(),
{
    if probes.len() == 0 {
        Seq::empty()
    } else {
        let before = accepted_cameras(config, probes.drop_last());
        if camera_accepted(config, probes.last()) {
            before.push(probes.last())
        } else {
            before
        }
    }
}

/// True when `device` is the device for the camera of `probe`: its id is
/// the IP address, a hyphen and the MAC address, and its properties are
/// the service URL and the two addresses.
pub open spec fn is_camera_device(device: Device, probe: CameraProbe) -> bool {
    &&& probe.address matches Some((ip, mac))
    &&& device.id@ == ip@ + seq!['-'] + mac@
    &&& properties_view(device.properties@) == Map::<Seq<char>, Seq<char>>::empty().insert(
        ONVIF_DEVICE_SERVICE_URL_LABEL_ID@,
        probe.device_service_url@,
    ).insert(ONVIF_DEVICE_IP_ADDRESS_LABEL_ID@, ip@).insert(
        ONVIF_DEVICE_MAC_ADDRESS_LABEL_ID@,
        mac@,
    )
    &&& device.mounts@.len() == 0
    &&& device.device_specs@.len() == 0
}

/// True when `devices` are the devices for `cameras`, in order.
pub open spec fn are_camera_devices(devices: Seq<Device>, cameras: Seq<CameraProbe>) -> bool {
    &&& devices.len() == cameras.len()
    &&& forall|i: int|
        0 <= i < devices.len() ==> is_camera_device(#[trigger] devices[i], cameras[i])
}

/// Decides whether the address filters let a camera with this address
/// through, that is, whether its scopes are worth asking for.
pub fn accepts_address(
    config: &OnvifDiscoveryHandlerConfig,
    ip_address: &String,
    mac_address: &String,
) -> (accepted: bool)
    ensures
        accepted == address_accepted(config, *ip_address, *mac_address),
{
    let ip_address_as_vec = vec![ip_address.clone()];
    assert(ip_address_as_vec@ =~= seq![*ip_address]);
    if execute_filter(config.ip_addresses.as_ref(), ip_address_as_vec.as_slice()) {
        return false;
    }
    let mac_address_as_vec = vec![mac_address.clone()];
    assert(mac_address_as_vec@ =~= seq![*mac_address]);
    !execute_filter(config.mac_addresses.as_ref(), mac_address_as_vec.as_slice())
}

/// The device for a camera.
pub fn camera_device(
    device_service_url: String,
    ip_address: String,
    mac_address: String,
) -> (device: Device)
    ensures
        is_camera_device(
            device,
            CameraProbe {
                device_service_url,
                address: Some((ip_address, mac_address)),
                scopes: None,
            },
        ),
{
    proof {
        reveal_strlit("-");
    }
    let mut id = ip_address.clone();
    id.append("-");
    id.append(mac_address.as_str());
    assert(id@ =~= ip_address@ + seq!['-'] + mac_address@);
    let mut properties: OrderedMap<String, String> = OrderedMap::new();
    proof {
        use_type_invariant(&properties);
        lemma_property_put(properties@, ONVIF_DEVICE_SERVICE_URL_LABEL_ID@, device_service_url);
        assert(properties_view(properties@) =~= Map::<Seq<char>, Seq<char>>::empty());
    }
    properties.insert(ONVIF_DEVICE_SERVICE_URL_LABEL_ID.to_owned(), device_service_url);
    proof {
        use_type_invariant(&properties);
        lemma_property_put(properties@, ONVIF_DEVICE_IP_ADDRESS_LABEL_ID@, ip_address);
    }
    properties.insert(ONVIF_DEVICE_IP_ADDRESS_LABEL_ID.to_owned(), ip_address);
    proof {
        use_type_invariant(&properties);
        lemma_property_put(properties@, ONVIF_DEVICE_MAC_ADDRESS_LABEL_ID@, mac_address);
    }
    properties.insert(ONVIF_DEVICE_MAC_ADDRESS_LABEL_ID.to_owned(), mac_address);
    Device { id, properties, mounts: Vec::new(), device_specs: Vec::new() }
}

/// The devices for the cameras that the filters of `config` let through.
pub fn apply_filters(
    config: &OnvifDiscoveryHandlerConfig,
    probes: Vec<CameraProbe>,
) -> (devices: Vec<Device>)
    ensures
        are_camera_devices(devices@, accepted_cameras(config, probes@)),
{
    let ghost all = probes@;
    let mut devices: Vec<Device> = Vec::new();
    for probe in it: probes
        invariant
            it.seq() == all,
            are_camera_devices(devices@, accepted_cameras(config, all.take(it.index() as int))),
    {
        proof {
            let upto = all.take(it.index() + 1);
            assert(upto.drop_last() =~= all.take(it.index() as int));
            assert(upto.last() == probe);
        }
        let CameraProbe { device_service_url, address, scopes } = probe;
        match address {
            Some((ip_address, mac_address)) => {
                if accepts_address(config, &ip_address, &mac_address) {
                    match scopes {
                        Some(device_scopes) => {
                            if !execute_filter(config.scopes.as_ref(), device_scopes.as_slice()) {
                                devices.push(
                                    camera_device(device_service_url, ip_address, mac_address),
                                );
                            }
                        },
                        None => {},
                    }
                }
            },
            None => {},
        }
    }
    assert(all.take(all.len() as int) =~= all);
    devices
}

/// True when the list of cameras is to be sent again: a camera of
/// `current` was not in `previous`, or the two lists differ in length.
pub open spec fn cameras_changed(previous: Seq<Device>, current: Seq<Device>) -> bool {
    ||| exists|i: int| 0 <= i < current.len() && !holds_device(previous, (#[trigger] current[i])@)
    ||| current.len() != previous.len()
}

/// Decides whether the list of cameras is to be sent again.
pub fn camera_list_changed(previous: &Vec<Device>, current: &Vec<Device>) -> (changed: bool)
    ensures
        changed == cameras_changed(previous@, current@),
{
    let mut changed_camera_list = false;
    let mut matching_camera_count: usize = 0;
    let mut i: usize = 0;
    while i < current.len()
        invariant
            i <= current@.len(),
            changed_camera_list == exists|k: int|
                0 <= k < i && !holds_device(previous@, (#[trigger] current@[k])@),
            !changed_camera_list ==> matching_camera_count == i,
            matching_camera_count <= i,
        decreases current@.len() - i,
    {
        if !contains_device(previous, &current[i]) {
            changed_camera_list = true;
        } else {
            matching_camera_count += 1;
        }
        i += 1;
    }
    changed_camera_list || matching_camera_count != previous.len()
}

/// The settings of an ONVIF handler out of what the settings text of the
/// discovery details was read as; `None` stands for text that could not
/// be read.
pub fn deserialize_discovery_details(
    parsed: Option<DiscoveryHandlerType>,
) -> (config: Result<OnvifDiscoveryHandlerConfig, DiscoveryDetailsError>)
    ensures
        match parsed {
            Some(DiscoveryHandlerType::Onvif(c)) => config == Ok::<
                OnvifDiscoveryHandlerConfig,
                DiscoveryDetailsError,
            >(c),
            None => config == Err::<OnvifDiscoveryHandlerConfig, DiscoveryDetailsError>(
                DiscoveryDetailsError::NoEmbeddedSupport,
            ),
        },
{
    match parsed {
        Some(DiscoveryHandlerType::Onvif(discovery_handler_config)) => Ok(discovery_handler_config),
        None => Err(DiscoveryDetailsError::NoEmbeddedSupport),
    }
}

} // verus!

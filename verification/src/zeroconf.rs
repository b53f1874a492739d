//! The rules of the zeroconf discovery handler: what it browses for and
//! what device a discovered service becomes.

use crate::device::{lemma_property_put, properties_view, Device};
use crate::ordered_map::OrderedMap;
use vstd::prelude::*;

verus! {

/// Property that names the kind of broker for zeroconf devices.
pub const BROKER_NAME: &'static str = "AKRI_ZEROCONF";

/// Property that holds the kind of a discovered service.
pub const DEVICE_KIND: &'static str = "AKRI_ZEROCONF_DEVICE_KIND";

/// Property that holds the name of a discovered service.
pub const DEVICE_NAME: &'static str = "AKRI_ZEROCONF_DEVICE_NAME";

/// Property that holds the host name of a discovered service.
pub const DEVICE_HOST: &'static str = "AKRI_ZEROCONF_DEVICE_HOST";

/// Property that holds the address of a discovered service.
pub const DEVICE_ADDR: &'static str = "AKRI_ZEROCONF_DEVICE_ADDR";

/// Property that holds the port of a discovered service.
pub const DEVICE_PORT: &'static str = "AKRI_ZEROCONF_DEVICE_PORT";

/// What the broker property of every zeroconf device says.
pub const BROKER: &'static str = "zeroconf";

/// Seconds for which the handler browses in one round of discovery.
pub const BROWSE_SECS: u64 = 5;

/// The settings of a zeroconf handler.
#[derive(Debug)]
pub struct ZeroConfDiscoveryHandlerConfig {
    /// The filter that says which services to discover.
    pub filter: String,
}

/// A service that browsing has found.
#[derive(Debug)]
pub struct Service {
    pub kind: String,
    pub name: String,
    pub host_name: String,
    pub address: String,
    /// The port, in decimal.
    pub port: String,
}

/// Why the handler cannot discover.
#[derive(Clone, Copy, Debug, PartialEq, Eq, Structural)]
pub enum ZeroConfError {
    /// The filter does not say which kind of service to browse for.
    FilterWithoutKind,
}

/// The properties of the device for `service`.
pub open spec fn service_properties(service: Service) -> Map<Seq<char>, Seq<char>> {
    Map::<Seq<char>, Seq<char>>::empty().insert(BROKER_NAME@, BROKER@).insert(
        DEVICE_KIND@,
        service.kind@,
    ).insert(DEVICE_NAME@, service.name@).insert(DEVICE_HOST@, service.host_name@).insert(
        DEVICE_ADDR@,
        service.address@,
    ).insert(DEVICE_PORT@, service.port@)
}

/// True when `device` is the device for `service`: its id is the host
/// name, and its properties tell of the service.
pub open spec fn is_service_device(device: Device, service: Service) -> bool {
    &&& device.id@ == service.host_name@
    &&& properties_view(device.properties@) == service_properties(service)
    &&& device.mounts@.len() == 0
    &&& device.device_specs@.len() == 0
}

/// True when `devices` are the devices for `services`, in order.
pub open spec fn are_service_devices(devices: Seq<Device>, services: Seq<Service>) -> bool {
    &&& devices.len() == services.len()
    &&& forall|i: int|
        0 <= i < devices.len() ==> is_service_device(#[trigger] devices[i], services[i])
}

/// The zeroconf discovery handler.
#[derive(Debug)]
pub struct ZeroConfDiscoveryHandler {
    discovery_handler_config: ZeroConfDiscoveryHandlerConfig,
}

impl ZeroConfDiscoveryHandler {
    /// The filter of the handler's settings.
    pub closed spec fn filter(&self) -> Seq<char> {
        self.discovery_handler_config.filter@
    }

    pub fn new(discovery_handler_config: &ZeroConfDiscoveryHandlerConfig) -> (handler: Self)
        ensures
            handler.filter() == discovery_handler_config.filter@,
    {
        ZeroConfDiscoveryHandler {
            discovery_handler_config: ZeroConfDiscoveryHandlerConfig {
                filter: discovery_handler_config.filter.clone(),
            },
        }
    }

    /// The filter to parse before discovery.
    pub fn get_filter(&self) -> (filter: &String)
        ensures
            filter@ == self.filter(),
    {
        &self.discovery_handler_config.filter
    }

    /// Zeroconf devices are visible to every node.
    pub fn are_shared(&self) -> (shared: bool)
        ensures
            shared,
    {
        true
    }

    /// The kind of service to browse for, given the kind that the parsed
    /// filter names, if it names one.
    pub fn browse_kind(&self, kind: Option<String>) -> (wanted: Result<String, ZeroConfError>)
        ensures
            match kind {
                Some(k) => wanted == Ok::<String, ZeroConfError>(k),
                None => wanted == Err::<String, ZeroConfError>(ZeroConfError::FilterWithoutKind),
            },
    {
        match kind {
            Some(kind) => Ok(kind),
            None => Err(ZeroConfError::FilterWithoutKind),
        }
    }

    /// The devices for the services that browsing found.
    pub fn discover(&self, services: Vec<Service>) -> (devices: Vec<Device>)
        ensures
            are_service_devices(devices@, services@),
    {
        let ghost all = services@;
        let mut devices: Vec<Device> = Vec::new();
        for service in it: services
            invariant
                it.seq() == all,
                are_service_devices(devices@, all.take(it.index() as int)),
        {
            devices.push(service_device(service));
        }
        assert(all.take(all.len() as int) =~= all);
        devices
    }
}

/// The device for a service.
pub fn service_device(service: Service) -> (device: Device)
    ensures
        is_service_device(device, service),
{
    let Service { kind, name, host_name, address, port } = service;
    let mut properties: OrderedMap<String, String> = OrderedMap::new();
    let broker = BROKER.to_owned();
    proof {
        use_type_invariant(&properties);
        lemma_property_put(properties@, BROKER_NAME@, broker);
        assert(properties_view(properties@) =~= Map::<Seq<char>, Seq<char>>::empty());
    }
    properties.insert(BROKER_NAME.to_owned(), broker);
    proof {
        use_type_invariant(&properties);
        lemma_property_put(properties@, DEVICE_KIND@, kind);
    }
    properties.insert(DEVICE_KIND.to_owned(), kind);
    proof {
        use_type_invariant(&properties);
        lemma_property_put(properties@, DEVICE_NAME@, name);
    }
    properties.insert(DEVICE_NAME.to_owned(), name);
    proof {
        use_type_invariant(&properties);
        lemma_property_put(properties@, DEVICE_HOST@, host_name);
    }
    properties.insert(DEVICE_HOST.to_owned(), host_name.clone());
    proof {
        use_type_invariant(&properties);
        lemma_property_put(properties@, DEVICE_ADDR@, address);
    }
    properties.insert(DEVICE_ADDR.to_owned(), address);
    proof {
        use_type_invariant(&properties);
        lemma_property_put(properties@, DEVICE_PORT@, port);
    }
    properties.insert(DEVICE_PORT.to_owned(), port);
    Device { id: host_name, properties, mounts: Vec::new(), device_specs: Vec::new() }
}

} // verus!

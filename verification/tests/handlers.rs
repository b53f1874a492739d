use akri_discovery::debug_echo::{
    devices_for, get_configuration, DebugEchoDiscoveryHandler, DebugEchoDiscoveryHandlerConfig,
    DiscoverState, DiscoveryHandlerType as DebugEchoType,
};
use akri_discovery::device::{contains_device, same_properties, Device, DeviceSpec, Mount};
use akri_discovery::discovery_details::{protocol_handler_text, DiscoveryDetailsError};
use akri_discovery::onvif::{
    accepts_address, apply_filters, camera_device, camera_list_changed,
    default_discovery_timeout_seconds, deserialize_discovery_details, execute_filter, CameraProbe,
    DiscoveryHandlerType as OnvifType, FilterList, FilterType, OnvifDiscoveryHandlerConfig,
};
use akri_discovery::ordered_map::OrderedMap;
use akri_discovery::zeroconf::{
    service_device, Service, ZeroConfDiscoveryHandler, ZeroConfDiscoveryHandlerConfig, ZeroConfError,
};

fn strings(items: &[&str]) -> Vec<String> {
    items.iter().map(|s| s.to_string()).collect()
}

fn echo_config() -> DebugEchoDiscoveryHandlerConfig {
    DebugEchoDiscoveryHandlerConfig { descriptions: strings(&["foo0", "foo1"]) }
}

#[test]
fn debug_echo_reports_devices_once_while_available() {
    let handler = DebugEchoDiscoveryHandler::new();
    let config = echo_config();
    let mut state = handler.begin("");
    assert_eq!(state, DiscoverState { offline: false, first_loop: true });
    let first = handler.poll(&mut state, &config, "").expect("the first round reports");
    assert_eq!(first.len(), 2);
    assert_eq!(first[0].id, "foo0");
    assert_eq!(first[1].id, "foo1");
    assert_eq!(first[0].properties.len(), 0);
    assert_eq!(state, DiscoverState { offline: false, first_loop: false });
    // nothing changed: nothing to send
    assert!(handler.poll(&mut state, &config, "\n").is_none());
    // the devices go offline: an empty list is sent, once
    let gone = handler.poll(&mut state, &config, "OFFLINE\n").expect("going offline reports");
    assert!(gone.is_empty());
    assert_eq!(state, DiscoverState { offline: true, first_loop: false });
    assert!(handler.poll(&mut state, &config, "now OFFLINE").is_none());
    // and come back
    let back = handler.poll(&mut state, &config, "offline").expect("coming back reports");
    assert_eq!(back.len(), 2);
    assert_eq!(state, DiscoverState { offline: false, first_loop: false });
}

#[test]
fn debug_echo_that_begins_offline_reports_none_first() {
    let handler = DebugEchoDiscoveryHandler::new();
    let config = echo_config();
    let mut state = handler.begin("OFFLINE");
    assert_eq!(state, DiscoverState { offline: true, first_loop: true });
    // the first round reports what was found at the beginning, whatever the text says now
    let first = handler.poll(&mut state, &config, "").expect("the first round reports");
    assert!(first.is_empty());
    let second = handler.poll(&mut state, &config, "").expect("coming back reports");
    assert_eq!(second.len(), 2);
}

#[test]
fn debug_echo_devices_follow_the_descriptions() {
    let devices = devices_for(&strings(&["a", "b", "a"]));
    let ids: Vec<&str> = devices.iter().map(|d| d.id.as_str()).collect();
    assert_eq!(ids, vec!["a", "b", "a"]);
    assert!(devices_for(&Vec::new()).is_empty());
}

#[test]
fn debug_echo_configuration_needs_readable_settings() {
    let config = get_configuration(Some(DebugEchoType::DebugEcho(echo_config()))).unwrap();
    assert_eq!(config.descriptions, strings(&["foo0", "foo1"]));
    assert_eq!(get_configuration(None).unwrap_err(), DiscoveryDetailsError::NoEmbeddedSupport);
}

#[test]
fn protocol_handler_text_is_looked_up_in_the_details() {
    let mut details: OrderedMap<String, String> = OrderedMap::new();
    assert_eq!(
        protocol_handler_text(&details),
        Err(DiscoveryDetailsError::GenericHandlersNotSupported)
    );
    details.insert("other".to_string(), "x".to_string());
    details.insert("protocolHandler".to_string(), "onvif: {}\n".to_string());
    assert_eq!(protocol_handler_text(&details), Ok(&"onvif: {}\n".to_string()));
    assert_eq!(
        DiscoveryDetailsError::GenericHandlersNotSupported.message(),
        "Generic discovery handlers not supported"
    );
    assert_eq!(
        DiscoveryDetailsError::NoEmbeddedSupport.message(),
        "Discovery details had protocol handler but does not have embedded support"
    );
}

fn including(items: &[&str]) -> FilterList {
    FilterList { items: strings(items), action: FilterType::Include }
}

fn excluding(items: &[&str]) -> FilterList {
    FilterList { items: strings(items), action: FilterType::Exclude }
}

#[test]
fn execute_filter_drops_by_inclusion_and_exclusion() {
    let against = strings(&["10.0.0.4"]);
    // no filter drops nothing
    assert!(!execute_filter(None, &against));
    // an including filter drops what matches none of its items
    assert!(!execute_filter(Some(&including(&["10.0.0.4"])), &against));
    assert!(!execute_filter(Some(&including(&["10.0.0"])), &against));
    assert!(execute_filter(Some(&including(&["10.0.0.5"])), &against));
    assert!(execute_filter(Some(&including(&[])), &against));
    // an excluding filter drops what matches some item
    assert!(execute_filter(Some(&excluding(&["192.168.1.1", "10.0.0.4"])), &against));
    assert!(!execute_filter(Some(&excluding(&["192.168.1.1"])), &against));
    assert!(!execute_filter(Some(&excluding(&[])), &against));
    // with nothing to match against, inclusion drops and exclusion keeps
    assert!(execute_filter(Some(&including(&["a"])), &[]));
    assert!(!execute_filter(Some(&excluding(&["a"])), &[]));
    // one of several scopes is enough
    let scopes = strings(&["onvif://www.onvif.org/name/cam", "onvif://www.onvif.org/type/ptz"]);
    assert!(!execute_filter(Some(&including(&["type/ptz"])), &scopes));
    assert!(execute_filter(Some(&excluding(&["type/ptz"])), &scopes));
}

fn onvif_config(
    ip: Option<FilterList>,
    mac: Option<FilterList>,
    scopes: Option<FilterList>,
) -> OnvifDiscoveryHandlerConfig {
    OnvifDiscoveryHandlerConfig {
        ip_addresses: ip,
        mac_addresses: mac,
        scopes,
        discovery_timeout_seconds: default_discovery_timeout_seconds(),
    }
}

fn probe(url: &str, address: Option<(&str, &str)>, scopes: Option<&[&str]>) -> CameraProbe {
    CameraProbe {
        device_service_url: url.to_string(),
        address: address.map(|(ip, mac)| (ip.to_string(), mac.to_string())),
        scopes: scopes.map(strings),
    }
}

#[test]
fn apply_filters_lets_everything_through_without_filters() {
    let config = onvif_config(None, None, None);
    assert_eq!(config.discovery_timeout_seconds, 1);
    let devices = apply_filters(
        &config,
        vec![probe("http://10.0.0.4/onvif/device_service", Some(("10.0.0.4", "aa:bb")), Some(&[]))],
    );
    assert_eq!(devices.len(), 1);
    assert_eq!(devices[0].id, "10.0.0.4-aa:bb");
    assert_eq!(devices[0].properties.len(), 3);
    assert_eq!(
        devices[0].properties.get(&"ONVIF_DEVICE_SERVICE_URL".to_string()),
        Some(&"http://10.0.0.4/onvif/device_service".to_string())
    );
    assert_eq!(
        devices[0].properties.get(&"ONVIF_DEVICE_IP_ADDRESS".to_string()),
        Some(&"10.0.0.4".to_string())
    );
    assert_eq!(
        devices[0].properties.get(&"ONVIF_DEVICE_MAC_ADDRESS".to_string()),
        Some(&"aa:bb".to_string())
    );
    assert!(devices[0].mounts.is_empty());
    assert!(devices[0].device_specs.is_empty());
}

#[test]
fn apply_filters_drops_cameras_by_address_scopes_and_silence() {
    let config = onvif_config(
        Some(excluding(&["10.0.0.9"])),
        Some(including(&["aa:"])),
        Some(excluding(&["type/ptz"])),
    );
    let devices = apply_filters(
        &config,
        vec![
            probe("u1", Some(("10.0.0.1", "aa:01")), Some(&["type/video_encoder"])),
            probe("u2", Some(("10.0.0.9", "aa:02")), Some(&[])),
            probe("u3", Some(("10.0.0.3", "bb:03")), Some(&[])),
            probe("u4", Some(("10.0.0.4", "aa:04")), Some(&["name/x", "type/ptz"])),
            probe("u5", None, Some(&[])),
            probe("u6", Some(("10.0.0.6", "aa:06")), None),
            probe("u7", Some(("10.0.0.7", "aa:07")), Some(&[])),
        ],
    );
    let ids: Vec<&str> = devices.iter().map(|d| d.id.as_str()).collect();
    assert_eq!(ids, vec!["10.0.0.1-aa:01", "10.0.0.7-aa:07"]);
    assert!(accepts_address(&config, &"10.0.0.1".to_string(), &"aa:01".to_string()));
    assert!(!accepts_address(&config, &"10.0.0.9".to_string(), &"aa:01".to_string()));
    assert!(!accepts_address(&config, &"10.0.0.1".to_string(), &"cc:01".to_string()));
}

fn camera(url: &str, ip: &str, mac: &str) -> Device {
    camera_device(url.to_string(), ip.to_string(), mac.to_string())
}

#[test]
fn camera_list_changes_when_a_camera_comes_goes_or_differs() {
    let a = || camera("ua", "10.0.0.1", "aa");
    let b = || camera("ub", "10.0.0.2", "bb");
    assert!(!camera_list_changed(&vec![], &vec![]));
    assert!(camera_list_changed(&vec![], &vec![a()]));
    assert!(camera_list_changed(&vec![a()], &vec![]));
    assert!(!camera_list_changed(&vec![a(), b()], &vec![b(), a()]));
    assert!(camera_list_changed(&vec![a(), b()], &vec![a()]));
    assert!(camera_list_changed(&vec![a()], &vec![a(), b()]));
    // the same camera under another service URL is another device
    assert!(camera_list_changed(&vec![a()], &vec![camera("other", "10.0.0.1", "aa")]));
}

#[test]
fn onvif_settings_need_readable_settings() {
    let config = deserialize_discovery_details(Some(OnvifType::Onvif(onvif_config(None, None, None))))
        .unwrap();
    assert_eq!(config.discovery_timeout_seconds, 1);
    assert!(config.ip_addresses.is_none());
    assert_eq!(
        deserialize_discovery_details(None).unwrap_err(),
        DiscoveryDetailsError::NoEmbeddedSupport
    );
}

#[test]
fn devices_compare_by_what_they_say() {
    let mut a = Device::new("d".to_string());
    a.properties.insert("k1".to_string(), "v1".to_string());
    a.properties.insert("k2".to_string(), "v2".to_string());
    let mut b = Device::new("d".to_string());
    b.properties.insert("k2".to_string(), "v2".to_string());
    b.properties.insert("k1".to_string(), "v1".to_string());
    // the order of the properties does not matter
    assert!(a.same_device(&b));
    assert!(same_properties(&a.properties, &b.properties));
    b.properties.insert("k1".to_string(), "other".to_string());
    assert!(!a.same_device(&b));
    b.properties.insert("k1".to_string(), "v1".to_string());
    b.properties.insert("k3".to_string(), "v3".to_string());
    assert!(!a.same_device(&b));
    assert!(!b.same_device(&a));
    let mut c = Device::new("d".to_string());
    c.properties.insert("k1".to_string(), "v1".to_string());
    c.properties.insert("k2".to_string(), "v2".to_string());
    c.mounts.push(Mount {
        container_path: "/c".to_string(),
        host_path: "/h".to_string(),
        read_only: true,
    });
    assert!(!a.same_device(&c));
    a.mounts.push(Mount {
        container_path: "/c".to_string(),
        host_path: "/h".to_string(),
        read_only: false,
    });
    assert!(!a.same_device(&c));
    a.mounts[0].read_only = true;
    assert!(a.same_device(&c));
    c.device_specs.push(DeviceSpec {
        container_path: "/dev/video0".to_string(),
        host_path: "/dev/video0".to_string(),
        permissions: "rw".to_string(),
    });
    assert!(!a.same_device(&c));
    assert!(!Device::new("d".to_string()).same_device(&Device::new("e".to_string())));
    assert!(contains_device(&vec![Device::new("x".to_string()), c], &{
        let mut d = a;
        d.device_specs.push(DeviceSpec {
            container_path: "/dev/video0".to_string(),
            host_path: "/dev/video0".to_string(),
            permissions: "rw".to_string(),
        });
        d
    }));
    assert!(!contains_device(&vec![], &Device::new("x".to_string())));
}

fn printer() -> Service {
    Service {
        kind: "_ipp._tcp".to_string(),
        name: "printer".to_string(),
        host_name: "printer.local".to_string(),
        address: "10.0.0.8".to_string(),
        port: "631".to_string(),
    }
}

#[test]
fn zeroconf_service_becomes_a_device_named_after_its_host() {
    let device = service_device(printer());
    assert_eq!(device.id, "printer.local");
    let expected = [
        ("AKRI_ZEROCONF", "zeroconf"),
        ("AKRI_ZEROCONF_DEVICE_KIND", "_ipp._tcp"),
        ("AKRI_ZEROCONF_DEVICE_NAME", "printer"),
        ("AKRI_ZEROCONF_DEVICE_HOST", "printer.local"),
        ("AKRI_ZEROCONF_DEVICE_ADDR", "10.0.0.8"),
        ("AKRI_ZEROCONF_DEVICE_PORT", "631"),
    ];
    assert_eq!(device.properties.len(), expected.len());
    for (key, value) in expected {
        assert_eq!(device.properties.get(&key.to_string()), Some(&value.to_string()));
    }
}

#[test]
fn zeroconf_handler_needs_a_kind_to_browse_for() {
    let handler = ZeroConfDiscoveryHandler::new(&ZeroConfDiscoveryHandlerConfig {
        filter: "kind=\"_ipp._tcp\"".to_string(),
    });
    assert_eq!(handler.get_filter(), "kind=\"_ipp._tcp\"");
    assert!(handler.are_shared());
    assert_eq!(handler.browse_kind(Some("_ipp._tcp".to_string())), Ok("_ipp._tcp".to_string()));
    assert_eq!(handler.browse_kind(None), Err(ZeroConfError::FilterWithoutKind));
    let devices = handler.discover(vec![printer(), printer()]);
    assert_eq!(devices.len(), 2);
    assert_eq!(devices[1].id, "printer.local");
    assert!(handler.discover(vec![]).is_empty());
}

fn filter_from(value: Option<&serde_yaml::Value>) -> Option<FilterList> {
    let value = value?;
    let items = value
        .get("items")
        .and_then(|items| items.as_sequence())
        .map(|items| items.iter().filter_map(|i| i.as_str().map(|s| s.to_string())).collect())
        .unwrap_or_default();
    let action = match value.get("action").and_then(|a| a.as_str()) {
        Some("Exclude") => FilterType::Exclude,
        _ => FilterType::Include,
    };
    Some(FilterList { items, action })
}

fn onvif_settings_from(text: &str) -> Option<OnvifType> {
    let document: serde_yaml::Value = serde_yaml::from_str(text).ok()?;
    let settings = document.get("onvif")?;
    Some(OnvifType::Onvif(OnvifDiscoveryHandlerConfig {
        ip_addresses: filter_from(settings.get("ipAddresses")),
        mac_addresses: filter_from(settings.get("macAddresses")),
        scopes: filter_from(settings.get("scopes")),
        discovery_timeout_seconds: settings
            .get("discoveryTimeoutSeconds")
            .and_then(|s| s.as_i64())
            .map(|s| s as i32)
            .unwrap_or_else(default_discovery_timeout_seconds),
    }))
}

fn serialized(config: &OnvifDiscoveryHandlerConfig) -> String {
    let mut fields = Vec::new();
    for (name, filter) in [
        ("ipAddresses", &config.ip_addresses),
        ("macAddresses", &config.mac_addresses),
        ("scopes", &config.scopes),
    ] {
        if let Some(filter) = filter {
            fields.push(format!("\"{}\":{:?}", name, filter.items));
        }
    }
    fields.push(format!("\"discoveryTimeoutSeconds\":{}", config.discovery_timeout_seconds));
    format!("{{{}}}", fields.join(","))
}

#[test]
fn test_deserialize_discovery_details() {
    let onvif_yaml = r#"
          protocolHandler: |+
            onvif: {}
        "#;
    let deserialized: std::collections::HashMap<String, String> =
        serde_yaml::from_str(&onvif_yaml).unwrap();
    let mut details: OrderedMap<String, String> = OrderedMap::new();
    for (key, value) in deserialized {
        details.insert(key, value);
    }
    let text = protocol_handler_text(&details).unwrap();
    let serialized =
        serialized(&deserialize_discovery_details(onvif_settings_from(text)).unwrap());
    let expected_deserialized = r#"{"discoveryTimeoutSeconds":1}"#;
    assert_eq!(expected_deserialized, serialized);
}

#[test]
fn settings_of_another_protocol_are_refused() {
    assert_eq!(
        deserialize_discovery_details(onvif_settings_from("debugEcho: {}")).unwrap_err(),
        DiscoveryDetailsError::NoEmbeddedSupport
    );
}

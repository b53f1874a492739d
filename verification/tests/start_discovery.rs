use akri_discovery::configuration::Configuration;
use akri_discovery::discovery_operator::DiscoveryOperator;
use akri_discovery::instance::InstanceMap;
use akri_discovery::ordered_map::OrderedMap;
use akri_discovery::registration::{
    DiscoveryHandlerConnectivityStatus, DiscoveryHandlerDetails, RegisterRequest,
    RegisteredDiscoveryHandlerMap,
};
use akri_discovery::start_discovery::{
    do_discover, session_step, start_discovery, DiscoveryCommand, DiscoveryEvent, SessionAction,
    SessionEvent,
};
use akri_discovery::stream::{classify_endpoint, StreamSource, DISCOVERY_HANDLER_PATH};

fn details(protocol: &str, endpoint: &str) -> DiscoveryHandlerDetails {
    DiscoveryHandlerDetails {
        register_request: RegisterRequest {
            protocol: protocol.to_string(),
            endpoint: endpoint.to_string(),
            is_local: true,
        },
        connectivity_status: DiscoveryHandlerConnectivityStatus::Online,
    }
}

fn setup_test_do_discover() -> DiscoveryOperator {
    let mut map = RegisteredDiscoveryHandlerMap::new();
    map.register("debugEcho", "socket.sock", details("debugEcho", "socket.sock"));
    DiscoveryOperator::new(
        map,
        Configuration {
            name: "config-a".to_string(),
            namespace: "config-a-namespace".to_string(),
            uid: "abcdegfh-ijkl-mnop-qrst-uvwxyz012345".to_string(),
            protocol: "debugEcho".to_string(),
            discovery_details: OrderedMap::new(),
        },
        InstanceMap::new(),
        "random".to_string(),
    )
}

fn status(operator: &DiscoveryOperator) -> Option<DiscoveryHandlerConnectivityStatus> {
    operator.get_discovery_handler_map().status("debugEcho", "socket.sock")
}

// Test that DH is connected to on second try getting stream and
// that connectivity status is changed from Online -> HasClient -> Online again
// when a successful connection is made and completed.
#[test]
fn test_do_discover_completed_internal_connection() {
    let mut discovery_operator = setup_test_do_discover();
    assert_eq!(do_discover(&discovery_operator), vec!["socket.sock".to_string()]);
    assert_eq!(
        session_step(&mut discovery_operator, "socket.sock", SessionEvent::Wake, 0),
        SessionAction::Connect
    );
    // First time cannot get stream and is marked offline
    assert_eq!(
        session_step(&mut discovery_operator, "socket.sock", SessionEvent::ConnectFailed, 0),
        SessionAction::Sleep(60)
    );
    assert_eq!(status(&discovery_operator), Some(DiscoveryHandlerConnectivityStatus::Offline(0)));
    // Second time successfully get stream
    assert_eq!(
        session_step(&mut discovery_operator, "socket.sock", SessionEvent::Wake, 60),
        SessionAction::Connect
    );
    // Make sure discovery handler is marked as HasClient
    assert_eq!(
        session_step(&mut discovery_operator, "socket.sock", SessionEvent::Connected, 60),
        SessionAction::Discover
    );
    assert_eq!(status(&discovery_operator), Some(DiscoveryHandlerConnectivityStatus::HasClient));
    // Make sure after discovery is complete that the DH is marked Online again
    assert_eq!(
        session_step(&mut discovery_operator, "socket.sock", SessionEvent::Finished(Ok(())), 90),
        SessionAction::Exit
    );
    assert_eq!(status(&discovery_operator), Some(DiscoveryHandlerConnectivityStatus::Online));
}

#[test]
fn test_get_stream_embedded() {
    // test embedded debugEcho socket
    assert_eq!(classify_endpoint("embedded", "random", true), StreamSource::Embedded);
}

#[test]
fn test_get_stream_external() {
    let mock_dh_dir = "/tmp/mock-discovery-handlers";
    let endpoint = "/tmp/mock-discovery-handlers/mock.sock";
    assert_eq!(classify_endpoint(endpoint, mock_dh_dir, false), StreamSource::UnixSocket);
    assert_eq!(classify_endpoint(endpoint, mock_dh_dir, true), StreamSource::UnixSocket);
}

#[test]
fn endpoints_are_classified_in_order() {
    // without an embedded handler the embedded endpoint is an address like any other
    assert_eq!(classify_endpoint("embedded", DISCOVERY_HANDLER_PATH, false), StreamSource::Network);
    assert_eq!(
        classify_endpoint("/var/lib/akri/discovery/onvif.sock", DISCOVERY_HANDLER_PATH, false),
        StreamSource::UnixSocket
    );
    assert_eq!(
        classify_endpoint("http://10.0.0.4:10000", DISCOVERY_HANDLER_PATH, true),
        StreamSource::Network
    );
    assert_eq!(classify_endpoint("10.0.0.4:10000", DISCOVERY_HANDLER_PATH, false), StreamSource::Network);
    // the socket directory somewhere else than at the start does not make a socket
    assert_eq!(
        classify_endpoint("host/var/lib/akri/discovery", DISCOVERY_HANDLER_PATH, false),
        StreamSource::Network
    );
    assert_eq!(classify_endpoint("embedded", "emb", true), StreamSource::Embedded);
    assert_eq!(classify_endpoint("embedded", "emb", false), StreamSource::UnixSocket);
    assert_eq!(classify_endpoint("", "", false), StreamSource::UnixSocket);
}

// First open fails, sixty seconds later a stream is opened: one client, no second
// session, and the handler stays registered.
#[test]
fn handler_reconnect() {
    let t = 1_000;
    let mut discovery_operator = setup_test_do_discover();
    assert_eq!(
        session_step(&mut discovery_operator, "socket.sock", SessionEvent::Wake, t),
        SessionAction::Connect
    );
    assert_eq!(
        session_step(&mut discovery_operator, "socket.sock", SessionEvent::ConnectFailed, t),
        SessionAction::Sleep(60)
    );
    assert_eq!(status(&discovery_operator), Some(DiscoveryHandlerConnectivityStatus::Offline(t)));
    assert_eq!(
        session_step(&mut discovery_operator, "socket.sock", SessionEvent::Wake, t + 60),
        SessionAction::Connect
    );
    assert_eq!(
        session_step(&mut discovery_operator, "socket.sock", SessionEvent::Connected, t + 60),
        SessionAction::Discover
    );
    assert_eq!(status(&discovery_operator), Some(DiscoveryHandlerConnectivityStatus::HasClient));
    assert_eq!(discovery_operator.get_discovery_handler_map().len(), 1);
    // a second session for the same handler ends at once and opens nothing
    assert_eq!(
        session_step(&mut discovery_operator, "socket.sock", SessionEvent::Wake, t + 61),
        SessionAction::Exit
    );
    assert!(do_discover(&discovery_operator).is_empty());
    assert_eq!(status(&discovery_operator), Some(DiscoveryHandlerConnectivityStatus::HasClient));
}

// A stream breaks, every later open fails: the handler is deregistered once it has
// been offline for longer than the grace period, and the session ends.
#[test]
fn broken_pipe_then_deregistration() {
    let t = 5_000;
    let mut discovery_operator = setup_test_do_discover();
    session_step(&mut discovery_operator, "socket.sock", SessionEvent::Wake, t - 100);
    session_step(&mut discovery_operator, "socket.sock", SessionEvent::Connected, t - 100);
    assert_eq!(status(&discovery_operator), Some(DiscoveryHandlerConnectivityStatus::HasClient));
    assert_eq!(
        session_step(
            &mut discovery_operator,
            "socket.sock",
            SessionEvent::Finished(Err("h2 protocol error: broken pipe".to_string())),
            t
        ),
        SessionAction::Sleep(60)
    );
    assert_eq!(status(&discovery_operator), Some(DiscoveryHandlerConnectivityStatus::Offline(t)));
    let mut now = t;
    let mut opens = 0;
    let mut last_action = SessionAction::Sleep(60);
    while let SessionAction::Sleep(secs) = last_action {
        now += secs;
        assert_eq!(
            session_step(&mut discovery_operator, "socket.sock", SessionEvent::Wake, now),
            SessionAction::Connect
        );
        opens += 1;
        last_action =
            session_step(&mut discovery_operator, "socket.sock", SessionEvent::ConnectFailed, now);
        if now - t <= 300 {
            // not before the grace period has passed
            assert_eq!(last_action, SessionAction::Sleep(60));
            assert_eq!(status(&discovery_operator), Some(DiscoveryHandlerConnectivityStatus::Offline(t)));
        }
    }
    assert_eq!(last_action, SessionAction::Exit);
    assert_eq!(now, t + 360);
    assert_eq!(opens, 6);
    assert_eq!(status(&discovery_operator), None);
    assert_eq!(discovery_operator.get_discovery_handler_map().len(), 0);
}

#[test]
fn failed_connect_at_just_over_the_grace_period_deregisters() {
    let mut discovery_operator = setup_test_do_discover();
    session_step(&mut discovery_operator, "socket.sock", SessionEvent::ConnectFailed, 0);
    assert_eq!(
        session_step(&mut discovery_operator, "socket.sock", SessionEvent::ConnectFailed, 300),
        SessionAction::Sleep(60)
    );
    assert_eq!(
        session_step(&mut discovery_operator, "socket.sock", SessionEvent::ConnectFailed, 301),
        SessionAction::Exit
    );
    assert_eq!(status(&discovery_operator), None);
}

#[test]
fn other_stream_errors_leave_the_handler_online() {
    let mut discovery_operator = setup_test_do_discover();
    session_step(&mut discovery_operator, "socket.sock", SessionEvent::Connected, 0);
    assert_eq!(
        session_step(
            &mut discovery_operator,
            "socket.sock",
            SessionEvent::Finished(Err("unexpected end".to_string())),
            10
        ),
        SessionAction::Exit
    );
    assert_eq!(status(&discovery_operator), Some(DiscoveryHandlerConnectivityStatus::Online));
    session_step(&mut discovery_operator, "socket.sock", SessionEvent::Connected, 20);
    // only the exact words count
    assert_eq!(
        session_step(
            &mut discovery_operator,
            "socket.sock",
            SessionEvent::Finished(Err("Broken Pipe".to_string())),
            30
        ),
        SessionAction::Exit
    );
    assert_eq!(status(&discovery_operator), Some(DiscoveryHandlerConnectivityStatus::Online));
}

#[test]
fn session_for_an_unknown_endpoint_changes_nothing() {
    let mut discovery_operator = setup_test_do_discover();
    assert_eq!(
        session_step(&mut discovery_operator, "gone.sock", SessionEvent::Wake, 0),
        SessionAction::Connect
    );
    assert_eq!(
        session_step(&mut discovery_operator, "gone.sock", SessionEvent::ConnectFailed, 0),
        SessionAction::Sleep(60)
    );
    assert_eq!(
        session_step(&mut discovery_operator, "gone.sock", SessionEvent::Connected, 0),
        SessionAction::Discover
    );
    assert_eq!(discovery_operator.get_discovery_handler_map().len(), 1);
    assert_eq!(status(&discovery_operator), Some(DiscoveryHandlerConnectivityStatus::Online));
}

#[test]
fn discovery_starts_sessions_for_handlers_without_client() {
    let mut map = RegisteredDiscoveryHandlerMap::new();
    map.register("debugEcho", "a.sock", details("debugEcho", "a.sock"));
    map.register("onvif", "b.sock", details("onvif", "b.sock"));
    map.register("debugEcho", "c.sock", details("debugEcho", "c.sock"));
    map.register("debugEcho", "embedded", details("debugEcho", "embedded"));
    map.update_status("debugEcho", "c.sock", DiscoveryHandlerConnectivityStatus::HasClient);
    map.update_status("debugEcho", "embedded", DiscoveryHandlerConnectivityStatus::Offline(4));
    let mut discovery_operator = setup_test_do_discover();
    discovery_operator = DiscoveryOperator::new(
        map,
        Configuration {
            name: discovery_operator.get_config().name.clone(),
            namespace: "ns".to_string(),
            uid: "uid".to_string(),
            protocol: "debugEcho".to_string(),
            discovery_details: OrderedMap::new(),
        },
        InstanceMap::new(),
        "random".to_string(),
    );
    let expected = vec!["a.sock".to_string(), "embedded".to_string()];
    assert_eq!(do_discover(&discovery_operator), expected);
    match start_discovery(&discovery_operator, &DiscoveryEvent::Started) {
        DiscoveryCommand::StartSessions(endpoints) => assert_eq!(endpoints, expected),
        other => panic!("expected sessions to start, got {:?}", other),
    }
    match start_discovery(
        &discovery_operator,
        &DiscoveryEvent::HandlerRegistered("debugEcho".to_string()),
    ) {
        DiscoveryCommand::StartSessions(endpoints) => assert_eq!(endpoints, expected),
        other => panic!("expected sessions to start, got {:?}", other),
    }
    match start_discovery(&discovery_operator, &DiscoveryEvent::HandlerRegistered("onvif".to_string())) {
        DiscoveryCommand::Nothing => {}
        other => panic!("expected nothing, got {:?}", other),
    }
    match start_discovery(&discovery_operator, &DiscoveryEvent::StopRequested) {
        DiscoveryCommand::StopSessions(endpoints) => assert_eq!(
            endpoints,
            vec!["a.sock".to_string(), "c.sock".to_string(), "embedded".to_string()]
        ),
        other => panic!("expected sessions to stop, got {:?}", other),
    }
}

#[test]
fn handler_serves_on_the_network_where_it_knows_its_address() {
    let endpoint = akri_discovery::stream::handler_endpoint(
        Some("10.1.2.3"),
        "10000",
        DISCOVERY_HANDLER_PATH,
        "opcua.sock",
    );
    assert!(!endpoint.use_uds);
    assert_eq!(endpoint.serve_at, "10.1.2.3:10000");
    assert_eq!(endpoint.register_as, "http://10.1.2.3:10000");
}

#[test]
fn handler_serves_on_its_socket_otherwise() {
    let endpoint =
        akri_discovery::stream::handler_endpoint(None, "10000", DISCOVERY_HANDLER_PATH, "opcua.sock");
    assert!(endpoint.use_uds);
    assert_eq!(endpoint.serve_at, "/var/lib/akri/discovery/opcua.sock");
    assert_eq!(endpoint.register_as, "/var/lib/akri/discovery/opcua.sock");
    // what it registers is an endpoint that the agent takes for a socket
    assert_eq!(
        classify_endpoint(&endpoint.register_as, DISCOVERY_HANDLER_PATH, false),
        StreamSource::UnixSocket
    );
}

#[test]
fn snapshots_copy_the_tables() {
    let mut discovery_operator = setup_test_do_discover();
    let handlers = discovery_operator.get_discovery_handler_map().snapshot("debugEcho");
    assert_eq!(handlers.len(), 1);
    assert_eq!(handlers[0].0, "socket.sock");
    assert_eq!(handlers[0].1.connectivity_status, DiscoveryHandlerConnectivityStatus::Online);
    assert!(handlers[0].1.register_request.is_local);
    assert!(discovery_operator.get_discovery_handler_map().snapshot("onvif").is_empty());
    discovery_operator.upsert_instance(
        "i".to_string(),
        akri_discovery::instance::InstanceInfo {
            connectivity_status: akri_discovery::instance::InstanceConnectivityStatus::Online,
        },
    );
    let instances = discovery_operator.get_instance_map().snapshot();
    assert_eq!(instances.len(), 1);
    assert_eq!(instances[0].0, "i");
    let (handlers, config, instances, path) = discovery_operator.into_parts();
    assert_eq!(handlers.len(), 1);
    assert_eq!(config.name, "config-a");
    assert_eq!(instances.len(), 1);
    assert_eq!(path, "random");
}

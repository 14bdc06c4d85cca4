use westiny::address::NetAddress;
use westiny::client_registry::{AddError, ClientID, ClientRegistry};
use westiny::events::{ClientNetworkEvent, NetworkCommand, PlayerName};
use westiny::messenger::{
    disconnect_client, process_payload, read_network_messages, ClientPacket, EventReport, MessageError, NetworkEvent,
};
use westiny::movement::InputFlags;

#[derive(Copy, Clone, Debug, PartialEq)]
struct Input {
    flags: InputFlags,
}

fn make_socket_addr(ip: [u8; 4], port: u16) -> NetAddress {
    NetAddress::v4(ip[0], ip[1], ip[2], ip[3], port)
}

struct TestAppParams {
    client_registry_capacity: usize,
    preloaded_clients: Vec<(NetAddress, String)>,
    send_event: NetworkEvent<Input>,
}

struct TestApp {
    registry: ClientRegistry,
    client_events: Vec<ClientNetworkEvent>,
    commands: Vec<NetworkCommand<Input>>,
}

fn run_testapp(params: TestAppParams) -> TestApp {
    let mut registry = ClientRegistry::new(params.client_registry_capacity);
    for (addr, name) in params.preloaded_clients {
        registry.add(&addr, &name).unwrap();
    }
    let mut client_events = Vec::new();
    let mut commands = Vec::new();
    let _ = read_network_messages(&mut registry, &vec![params.send_event], &mut client_events, &mut commands);
    TestApp { registry, client_events, commands }
}

fn connection_request_event(requesting_addr: NetAddress) -> NetworkEvent<Input> {
    NetworkEvent::Message(
        requesting_addr,
        Some(ClientPacket::ConnectionRequest { player_name: "Westwood".to_string() }),
    )
}

fn network_input(input: Input) -> Option<ClientPacket<Input>> {
    Some(ClientPacket::InputState { input })
}

#[test]
fn test_disconnect_client_happy_path() {
    let disconnecting_addr = make_socket_addr([127, 0, 0, 1], 1111);

    let params = TestAppParams {
        client_registry_capacity: 2,
        preloaded_clients: vec![
            (make_socket_addr([127, 0, 0, 1], 3333), "egyik".to_string()),
            (disconnecting_addr.clone(), "masik".to_string()),
        ],
        send_event: NetworkEvent::Disconnect(disconnecting_addr),
    };

    let app = run_testapp(params);
    assert_eq!(app.client_events.len(), 1);
    assert_eq!(
        app.client_events[0],
        ClientNetworkEvent::ClientDisconnected(ClientID(1), PlayerName("masik".to_string()))
    );
    assert!(app.registry.find_by_addr(&disconnecting_addr).is_none());
}

#[test]
fn connection_request_client_registered() {
    let connecting_addr = make_socket_addr([0, 1, 2, 3], 1234);

    let params = TestAppParams {
        client_registry_capacity: 2,
        preloaded_clients: vec![(make_socket_addr([192, 168, 0, 15], 3333), "egyik".to_string())],
        send_event: connection_request_event(connecting_addr.clone()),
    };

    let app = run_testapp(params);
    assert!(app.registry.find_by_addr(&connecting_addr).is_some());
    assert_eq!(app.client_events, vec![ClientNetworkEvent::ClientConnected(ClientID(1))]);
}

#[test]
fn connection_request_registry_full() {
    let connecting_addr = make_socket_addr([0, 1, 2, 3], 1234);

    let params = TestAppParams {
        client_registry_capacity: 0,
        preloaded_clients: vec![],
        send_event: connection_request_event(connecting_addr),
    };
    let app = run_testapp(params);
    assert!(app.registry.find_by_addr(&connecting_addr).is_none());
}

#[test]
fn connection_request_already_registered() {
    let connecting_addr = make_socket_addr([0, 1, 2, 3], 1234);

    let params = TestAppParams {
        client_registry_capacity: 10,
        preloaded_clients: vec![(connecting_addr.clone(), "asdasd".to_string())],
        send_event: connection_request_event(connecting_addr),
    };

    let app = run_testapp(params);
    assert_eq!(app.registry.client_count(), 1);
    assert!(app.registry.find_by_addr(&connecting_addr).is_some());
}

#[test]
fn input_commands_forwarded() {
    let mut input = Input { flags: InputFlags::empty() };
    input.flags.set(InputFlags::RELOAD, true);
    input.flags.set(InputFlags::FORWARD, true);

    let addr = make_socket_addr([0, 1, 2, 3], 1111);
    let params = TestAppParams {
        client_registry_capacity: 1,
        preloaded_clients: vec![(addr.clone(), "Bacsi".to_string())],
        send_event: NetworkEvent::Message(addr, network_input(input)),
    };

    let app = run_testapp(params);
    assert_eq!(app.commands.len(), 1);
    assert_eq!(app.commands[0], NetworkCommand::Input { id: ClientID(0), input });
}

#[test]
fn not_connected_clients_input_commands_not_forwarded() {
    let mut input = Input { flags: InputFlags::empty() };
    input.flags.set(InputFlags::RELOAD, true);
    input.flags.set(InputFlags::FORWARD, true);

    let addr = make_socket_addr([0, 1, 2, 3], 1111);
    let params = TestAppParams {
        client_registry_capacity: 0,
        preloaded_clients: vec![],
        send_event: NetworkEvent::Message(addr, network_input(input)),
    };

    let app = run_testapp(params);
    assert_eq!(app.commands.len(), 0);
}

#[test]
fn process_payload_reports_each_error() {
    let mut registry = ClientRegistry::new(1);
    let mut events = Vec::new();
    let mut commands: Vec<NetworkCommand<Input>> = Vec::new();
    let a = make_socket_addr([1, 2, 3, 4], 5);
    let b = make_socket_addr([1, 2, 3, 5], 5);
    assert_eq!(process_payload(&a, None, &mut registry, &mut events, &mut commands), Err(MessageError::Malformed));
    assert_eq!(
        process_payload(&a, Some(ClientPacket::Other), &mut registry, &mut events, &mut commands),
        Err(MessageError::Unexpected)
    );
    let input = Input { flags: InputFlags::empty() };
    assert_eq!(
        process_payload(&a, network_input(input), &mut registry, &mut events, &mut commands),
        Err(MessageError::UnregisteredInput)
    );
    let req = Some(ClientPacket::ConnectionRequest { player_name: "one".to_string() });
    assert_eq!(process_payload(&a, req, &mut registry, &mut events, &mut commands), Ok(()));
    let req = Some(ClientPacket::ConnectionRequest { player_name: "two".to_string() });
    assert_eq!(
        process_payload(&b, req, &mut registry, &mut events, &mut commands),
        Err(MessageError::Refused(AddError::ServerIsFull))
    );
    assert_eq!(events, vec![ClientNetworkEvent::ClientConnected(ClientID(0))]);
    assert!(commands.is_empty());
}

#[test]
fn disconnecting_unknown_address_is_an_error() {
    let mut registry = ClientRegistry::new(1);
    let mut events = Vec::new();
    assert!(disconnect_client(&make_socket_addr([9, 9, 9, 9], 9), &mut registry, &mut events).is_err());
    assert!(events.is_empty());
}

#[test]
fn events_are_handled_in_order() {
    let mut registry = ClientRegistry::new(4);
    let a = make_socket_addr([1, 1, 1, 1], 1);
    let input = Input { flags: InputFlags { bits: InputFlags::SHOOT } };
    let evs = vec![
        NetworkEvent::Connect(a),
        NetworkEvent::Message(a, network_input(input)),
        NetworkEvent::Message(a, Some(ClientPacket::ConnectionRequest { player_name: "x".to_string() })),
        NetworkEvent::Message(a, network_input(input)),
        NetworkEvent::Error,
        NetworkEvent::Disconnect(a),
        NetworkEvent::Message(a, network_input(input)),
    ];
    let mut events = Vec::new();
    let mut commands = Vec::new();
    let reports = read_network_messages(&mut registry, &evs, &mut events, &mut commands);
    assert_eq!(
        reports,
        vec![
            EventReport::Connected,
            EventReport::Message(Err(MessageError::UnregisteredInput)),
            EventReport::Message(Ok(())),
            EventReport::Message(Ok(())),
            EventReport::TransportError,
            EventReport::Disconnected(Ok(())),
            EventReport::Message(Err(MessageError::UnregisteredInput)),
        ]
    );
    assert_eq!(
        events,
        vec![
            ClientNetworkEvent::ClientConnected(ClientID(0)),
            ClientNetworkEvent::ClientDisconnected(ClientID(0), PlayerName("x".to_string())),
        ]
    );
    assert_eq!(commands, vec![NetworkCommand::Input { id: ClientID(0), input }]);
    assert_eq!(registry.client_count(), 0);
}

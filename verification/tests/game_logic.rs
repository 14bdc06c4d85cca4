use westiny::text::decimal_text;
use westiny::client_registry::{AddError, RemoveError};
use westiny::client_flow::{connect_state_transition, play_state_transition, ClientEvent, Transition};
use westiny::audio::{SoundId, SoundPlayer};
use westiny::events::{latest_input, NetworkCommand};
use westiny::address::{IpAddress, NetAddress};
use westiny::assets::{default_texture_id, MappingID};
use westiny::client_registry::{ClientID, ClientRegistry};
use westiny::config::{ClientPort, ServerAddress};
use westiny::entity_delete::entities_to_delete;
use westiny::events::{Client, ClientNetworkEvent, PlayerName, SpawnPlayerEvent, StreamId};
use westiny::health::{apply_damage, Damage, Health};
use westiny::introduction::{introduce_new_clients, ConnectionResponse};
use westiny::movement::{move_directions_from_input, InputFlags, MoveDirection};
use westiny::network::{Error, ErrorKind};
use westiny::network_id::{EntityType, NetworkId, NetworkIdSupplier};
use westiny::size::UnitToPixelCalculator;

fn player(id: u32) -> NetworkId {
    NetworkId::new(EntityType::Player, id)
}

#[test]
fn introduction_spawns_once_per_client_and_answers_every_connection() {
    let mut registry = ClientRegistry::new(4);
    let a = NetAddress::v4(10, 0, 0, 1, 100);
    let b = NetAddress::v4(10, 0, 0, 2, 200);
    let ida = registry.add(&a, "a").unwrap();
    let idb = registry.add(&b, "b").unwrap();
    let mut supplier = NetworkIdSupplier::new();
    supplier.next(EntityType::Player);
    let events = vec![
        ClientNetworkEvent::ClientConnected(ida),
        ClientNetworkEvent::ClientDisconnected(idb, PlayerName("b".to_string())),
        ClientNetworkEvent::ClientConnected(idb),
        ClientNetworkEvent::ClientConnected(ida),
    ];
    let mut spawns = Vec::new();
    let mut responses = Vec::new();
    introduce_new_clients(&events, &registry, &mut supplier, &mut spawns, &mut responses);
    assert_eq!(
        spawns,
        vec![
            SpawnPlayerEvent { client: Client::new(ida), network_id: player(1) },
            SpawnPlayerEvent { client: Client::new(idb), network_id: player(2) },
        ]
    );
    assert_eq!(
        responses,
        vec![
            ConnectionResponse { addr: a, player_network_id: player(1) },
            ConnectionResponse { addr: b, player_network_id: player(2) },
            ConnectionResponse { addr: a, player_network_id: player(1) },
        ]
    );
    assert_eq!(supplier.next(EntityType::Player), player(3));
}

#[test]
fn damage_below_health_is_taken_off() {
    let mut h = Health(100);
    assert!(!apply_damage(&mut h, Damage(20)));
    assert_eq!(h, Health(80));
}

#[test]
fn damage_reaching_health_eliminates() {
    let mut h = Health(20);
    assert!(apply_damage(&mut h, Damage(20)));
    assert_eq!(h, Health(0));
    let mut h = Health(5);
    assert!(apply_damage(&mut h, Damage(50)));
    assert_eq!(h, Health(0));
}

#[test]
fn move_directions_follow_flags_in_order() {
    let mut flags = InputFlags::empty();
    assert!(move_directions_from_input(&flags).is_empty());
    flags.insert(InputFlags::RIGHT);
    flags.insert(InputFlags::FORWARD);
    flags.insert(InputFlags::SHOOT);
    assert_eq!(move_directions_from_input(&flags), vec![MoveDirection::Forward, MoveDirection::StrafeRight]);
    flags.set(InputFlags::FORWARD, false);
    flags.set(InputFlags::BACKWARD, true);
    flags.set(InputFlags::LEFT, true);
    assert_eq!(
        move_directions_from_input(&flags),
        vec![MoveDirection::Backward, MoveDirection::StrafeLeft, MoveDirection::StrafeRight]
    );
    assert!(flags.intersects(InputFlags::SHOOT | InputFlags::RELOAD));
    assert!(!flags.intersects(InputFlags::RELOAD));
}

#[test]
fn repeated_deletions_are_deleted_once() {
    assert_eq!(entities_to_delete(&vec![5, 3, 5, 7, 3, 3]), vec![5, 3, 7]);
    assert_eq!(entities_to_delete(&vec![]), Vec::<u64>::new());
}

#[test]
fn error_messages() {
    assert_eq!(ErrorKind::AlreadyConnected.message(), "Client already connected");
    assert_eq!(ErrorKind::Other.message(), "Other error");
    assert_eq!(
        Error::new(ErrorKind::AlreadyConnected).message(),
        "Westiny network error: Client already connected"
    );
}

#[test]
fn default_addresses() {
    let srv = ServerAddress::default();
    assert_eq!(srv.address.ip, IpAddress::V4(127, 0, 0, 1));
    assert_eq!(srv.address.port(), 5745);
    assert_eq!(ClientPort::default(), ClientPort(4557));
}

#[test]
fn pixels_to_whole_units() {
    let calc = UnitToPixelCalculator::new(16);
    assert_eq!(calc.multiplier(), 16);
    assert_eq!(calc.whole_units(40), 2);
    assert_eq!(calc.whole_units(15), 0);
}

#[test]
fn texture_ids_read_as_module_and_entity() {
    assert_eq!(default_texture_id().text(), "base:default");
    let id = MappingID { module: "tiles", entity: "barren" };
    assert_eq!(id.text(), "tiles:barren");
}

#[test]
fn stream_numbers() {
    assert_eq!(StreamId::EntityStateUpdate.into_stream(), Some(0u8));
    assert_eq!(Client::new(ClientID(3)).id, ClientID(3));
}

#[test]
fn registry_error_messages() {
    assert_eq!(AddError::ServerIsFull.message(), "Server is full");
    assert_eq!(
        AddError::Unauthorized.message(),
        "Player with already connected with same address xor name, not authorizing. Possibly malicious attempt?"
    );
    assert_eq!(RemoveError::NoSuchClient.message(), "No such registered address");
}

#[test]
fn client_state_transitions() {
    let id = player(4);
    assert_eq!(connect_state_transition(ClientEvent::ConnectionAccepted(id)), Transition::StartPlaying(id));
    assert_eq!(
        connect_state_transition(ClientEvent::ConnectionRefused(Error::new(ErrorKind::AlreadyConnected))),
        Transition::Quit
    );
    assert_eq!(connect_state_transition(ClientEvent::CloseRequested), Transition::Stay);
    assert_eq!(play_state_transition(ClientEvent::CloseRequested), Transition::Quit);
    assert_eq!(play_state_transition(ClientEvent::EscapePressed), Transition::Quit);
    assert_eq!(play_state_transition(ClientEvent::Disconnected), Transition::Reconnect);
    assert_eq!(play_state_transition(ClientEvent::ConnectionAccepted(id)), Transition::Stay);
    assert_eq!(play_state_transition(ClientEvent::OtherEngineEvent), Transition::Stay);
}

#[test]
fn sound_player_queues_the_last_sound() {
    let mut player = SoundPlayer::default();
    assert_eq!(player.sound, None);
    player.play_sound(SoundId::DirtHit);
    player.play_sound(SoundId::Ricochet);
    assert_eq!(player.sound, Some(SoundId::Ricochet));
    assert_eq!(SoundId::SingleShot.index(), 0);
    assert_eq!(SoundId::Ricochet.index(), 2);
}

#[test]
fn latest_input_of_a_client_wins() {
    let commands = vec![
        NetworkCommand::Input { id: ClientID(1), input: 10u8 },
        NetworkCommand::Input { id: ClientID(2), input: 20u8 },
        NetworkCommand::Input { id: ClientID(1), input: 11u8 },
    ];
    assert_eq!(latest_input(&commands, ClientID(1)), Some(11));
    assert_eq!(latest_input(&commands, ClientID(2)), Some(20));
    assert_eq!(latest_input(&commands, ClientID(3)), None);
}

#[test]
fn decimal_text_writes_digits() {
    assert_eq!(decimal_text(0), "0");
    assert_eq!(decimal_text(7), "7");
    assert_eq!(decimal_text(205), "205");
    assert_eq!(decimal_text(u64::MAX), "18446744073709551615");
}

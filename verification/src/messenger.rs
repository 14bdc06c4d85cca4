use vstd::prelude::*;

use crate::address::NetAddress;
use crate::client_registry::{
    add_result, add_state, first_with_addr, has_addr, index_of_addr, is_full, lemma_first_with_addr_is_index,
    lemma_registered_client_is_found, lemma_removed_client_is_gone, matches_addr_or_name, matches_both, registers_new,
    registry_wf, remove_result, remove_state, AddError,
    ClientID, ClientRegistry, RegistryView, RemoveError,
};
use crate::events::{ClientEventView, ClientNetworkEvent, NetworkCommand, PlayerName};

verus! {

/// A message of a client, as decoded from its payload.
pub enum ClientPacket<I> {
    ConnectionRequest { player_name: String },
    InputState { input: I },
    /// A kind of packet that a server does not expect from a client.
    Other,
}

/// What the transport layer reports.
pub enum NetworkEvent<I> {
    Connect(NetAddress),
    Disconnect(NetAddress),
    /// A message; `None` where its payload could not be decoded.
    Message(NetAddress, Option<ClientPacket<I>>),
    /// An error of the transport.
    Error,
}

/// Why a message of a client was not acted upon.
#[derive(Copy, Clone, PartialEq, Eq, Debug, Structural)]
pub enum MessageError {
    /// The payload could not be decoded.
    Malformed,
    /// The registry refused the connection request.
    Refused(AddError),
    /// Input from an address that is not registered.
    UnregisteredInput,
    /// A kind of packet that a server does not expect from a client.
    Unexpected,
}

/// What became of one event of the transport.
#[derive(Copy, Clone, PartialEq, Eq, Debug)]
pub enum EventReport {
    /// A client connected; it is expected to send a connection request.
    Connected,
    /// A client disconnected, and was unregistered or was not registered.
    Disconnected(Result<(), RemoveError>),
    /// A message was acted upon, or why not.
    Message(Result<(), MessageError>),
    /// The transport reported an error.
    TransportError,
}

/// The ID of the client registered with the address (meaningful where `has_addr` holds).
pub open spec fn id_of_addr(reg: RegistryView, addr: NetAddress) -> ClientID {
    reg.clients[index_of_addr(reg.clients, addr)].id
}

/// What handling a message does: the registry after it, the client events and the
/// commands that it emits, and its result.
pub open spec fn payload_step<I>(reg: RegistryView, addr: NetAddress, packet: Option<ClientPacket<I>>)
    -> (RegistryView, Seq<ClientEventView>, Seq<NetworkCommand<I>>, Result<(), MessageError>)
{
    match packet {
        None => (reg, seq![], seq![], Err(MessageError::Malformed)),
        Some(ClientPacket::ConnectionRequest { player_name }) => {
            match add_result(reg, addr, player_name@) {
                Ok(id) => (add_state(reg, addr, player_name@), seq![ClientEventView::Connected(id)], seq![], Ok(())),
                Err(e) => (reg, seq![], seq![], Err(MessageError::Refused(e))),
            }
        },
        Some(ClientPacket::InputState { input }) => {
            if has_addr(reg.clients, addr) {
                (reg, seq![], seq![NetworkCommand::Input { id: id_of_addr(reg, addr), input }], Ok(()))
            } else {
                (reg, seq![], seq![], Err(MessageError::UnregisteredInput))
            }
        },
        Some(ClientPacket::Other) => (reg, seq![], seq![], Err(MessageError::Unexpected)),
    }
}

/// What handling a disconnection does.
pub open spec fn disconnect_step(reg: RegistryView, addr: NetAddress)
    -> (RegistryView, Seq<ClientEventView>, Result<(), RemoveError>)
{
    if has_addr(reg.clients, addr) {
        let i = index_of_addr(reg.clients, addr);
        (remove_state(reg, addr), seq![ClientEventView::Disconnected(reg.clients[i].id, reg.clients[i].name)], Ok(()))
    } else {
        (reg, seq![], Err(RemoveError::NoSuchClient))
    }
}

/// A message would register a new client.
pub open spec fn registers_new_client<I>(reg: RegistryView, addr: NetAddress, packet: Option<ClientPacket<I>>) -> bool {
    match packet {
        Some(ClientPacket::ConnectionRequest { player_name }) => registers_new(reg, addr, player_name@),
        _ => false,
    }
}

/// What handling one transport event does.
pub open spec fn event_step<I>(reg: RegistryView, ev: NetworkEvent<I>)
    -> (RegistryView, Seq<ClientEventView>, Seq<NetworkCommand<I>>, EventReport)
{
    match ev {
        NetworkEvent::Connect(_) => (reg, seq![], seq![], EventReport::Connected),
        NetworkEvent::Disconnect(addr) => {
            let (r, evs, res) = disconnect_step(reg, addr);
            (r, evs, seq![], EventReport::Disconnected(res))
        },
        NetworkEvent::Message(addr, packet) => {
            let (r, evs, cmds, res) = payload_step(reg, addr, packet);
            (r, evs, cmds, EventReport::Message(res))
        },
        NetworkEvent::Error => (reg, seq![], seq![], EventReport::TransportError),
    }
}

/// An event would register a new client.
pub open spec fn event_registers_new<I>(reg: RegistryView, ev: NetworkEvent<I>) -> bool {
    match ev {
        NetworkEvent::Message(addr, packet) => registers_new_client(reg, addr, packet),
        _ => false,
    }
}

/// What handling a sequence of transport events in order does.
pub open spec fn events_run<I>(reg: RegistryView, evs: Seq<NetworkEvent<I>>)
    -> (RegistryView, Seq<ClientEventView>, Seq<NetworkCommand<I>>, Seq<EventReport>)
    decreases evs.len(),
{
    if evs.len() == 0 {
        (reg, seq![], seq![], seq![])
    } else {
        let (r, ce, cmds, reps) = events_run(reg, evs.drop_last());
        let (r2, ce2, cmds2, rep) = event_step(r, evs.last());
        (r2, ce + ce2, cmds + cmds2, reps.push(rep))
    }
}

/// No event of the sequence registers a client when all IDs are used up.
pub open spec fn ids_suffice<I>(reg: RegistryView, evs: Seq<NetworkEvent<I>>) -> bool
    decreases evs.len(),
{
    if evs.len() == 0 {
        true
    } else {
        &&& ids_suffice(reg, evs.drop_last())
        &&& event_registers_new(events_run(reg, evs.drop_last()).0, evs.last())
            ==> events_run(reg, evs.drop_last()).0.next_id < u32::MAX
    }
}

/// Unregisters the client with the address and reports its disconnection.
pub fn disconnect_client(
    addr: &NetAddress,
    registry: &mut ClientRegistry,
    client_events: &mut Vec<ClientNetworkEvent>,
) -> (r: Result<(), RemoveError>)
    requires
        old(registry).wf(),
    ensures
        final(registry).wf(),
        final(registry)@ == disconnect_step(old(registry)@, *addr).0,
        final(client_events)@.map_values(|e: ClientNetworkEvent| e@)
            == old(client_events)@.map_values(|e: ClientNetworkEvent| e@) + disconnect_step(old(registry)@, *addr).1,
        r == disconnect_step(old(registry)@, *addr).2,
{
    let ghost old_events = client_events@.map_values(|e: ClientNetworkEvent| e@);
    let player_name = match registry.find_by_addr(addr) {
        Some(handle) => handle.player_name.clone(),
        None => {
            return Err(RemoveError::NoSuchClient);
        },
    };
    proof {
        let i = choose|i: int| first_with_addr(registry@.clients, *addr, i) && registry@.clients[i].name == player_name@;
        lemma_first_with_addr_is_index(registry@.clients, *addr, i);
    }
    let id = match registry.remove(addr) {
        Ok(id) => id,
        Err(e) => {
            return Err(e);
        },
    };
    let event = ClientNetworkEvent::ClientDisconnected(id, PlayerName(player_name));
    client_events.push(event);
    proof {
        assert(client_events@.map_values(|e: ClientNetworkEvent| e@) =~= old_events.push(event@));
    }
    Ok(())
}

/// Acts upon a message of a client: registers it on a connection request, forwards its input
/// as a command.
pub fn process_payload<I: Copy>(
    addr: &NetAddress,
    packet: Option<ClientPacket<I>>,
    registry: &mut ClientRegistry,
    client_events: &mut Vec<ClientNetworkEvent>,
    commands: &mut Vec<NetworkCommand<I>>,
) -> (r: Result<(), MessageError>)
    requires
        old(registry).wf(),
        registers_new_client(old(registry)@, *addr, packet) ==> old(registry)@.next_id < u32::MAX,
    ensures
        final(registry).wf(),
        final(registry)@ == payload_step(old(registry)@, *addr, packet).0,
        final(client_events)@.map_values(|e: ClientNetworkEvent| e@)
            == old(client_events)@.map_values(|e: ClientNetworkEvent| e@) + payload_step(old(registry)@, *addr, packet).1,
        final(commands)@ == old(commands)@ + payload_step(old(registry)@, *addr, packet).2,
        r == payload_step(old(registry)@, *addr, packet).3,
{
    let ghost old_events = client_events@.map_values(|e: ClientNetworkEvent| e@);
    match packet {
        None => {
            assert(client_events@.map_values(|e: ClientNetworkEvent| e@) =~= old_events + seq![]);
            assert(commands@ =~= old(commands)@ + seq![]);
            Err(MessageError::Malformed)
        },
        Some(ClientPacket::ConnectionRequest { player_name }) => {
            match registry.add(addr, player_name.as_str()) {
                Ok(client_id) => {
                    let event = ClientNetworkEvent::ClientConnected(client_id);
                    client_events.push(event);
                    assert(client_events@.map_values(|e: ClientNetworkEvent| e@) =~= old_events + seq![event@]);
                    assert(commands@ =~= old(commands)@ + seq![]);
                    Ok(())
                },
                Err(e) => {
                    assert(client_events@.map_values(|e: ClientNetworkEvent| e@) =~= old_events + seq![]);
                    assert(commands@ =~= old(commands)@ + seq![]);
                    Err(MessageError::Refused(e))
                },
            }
        },
        Some(ClientPacket::InputState { input }) => {
            assert(client_events@.map_values(|e: ClientNetworkEvent| e@) =~= old_events + seq![]);
            match registry.find_by_addr(addr) {
                Some(handle) => {
                    proof {
                        let i = choose|i: int| first_with_addr(registry@.clients, *addr, i) && registry@.clients[i] == handle@;
                        lemma_first_with_addr_is_index(registry@.clients, *addr, i);
                    }
                    let cmd = NetworkCommand::Input { id: handle.id, input };
                    commands.push(cmd);
                    assert(commands@ =~= old(commands)@ + seq![cmd]);
                    Ok(())
                },
                None => {
                    assert(commands@ =~= old(commands)@ + seq![]);
                    Err(MessageError::UnregisteredInput)
                },
            }
        },
        Some(ClientPacket::Other) => {
            assert(client_events@.map_values(|e: ClientNetworkEvent| e@) =~= old_events + seq![]);
            assert(commands@ =~= old(commands)@ + seq![]);
            Err(MessageError::Unexpected)
        },
    }
}

/// Once a connection request registered a client, its input is forwarded as a command of
/// that client, and its disconnection unregisters it under its name.
pub proof fn lemma_registered_client_is_served<I>(reg: RegistryView, addr: NetAddress, name: String, input: I)
    requires
        registry_wf(reg),
        registers_new(reg, addr, name@),
    ensures
        ({
            let (after, events, _, res) = payload_step::<I>(reg, addr, Some(ClientPacket::ConnectionRequest { player_name: name }));
            let id = ClientID(reg.next_id as u32);
            &&& res == Ok::<(), MessageError>(())
            &&& events == seq![ClientEventView::Connected(id)]
            &&& payload_step(after, addr, Some(ClientPacket::InputState { input })).2
                == seq![NetworkCommand::Input { id, input }]
            &&& disconnect_step(after, addr).1 == seq![ClientEventView::Disconnected(id, name@)]
        }),
{
    lemma_registered_client_is_found(reg, addr, name@);
    let after = add_state(reg, addr, name@);
    let k = reg.clients.len() as int;
    assert(has_addr(after.clients, addr)) by {
        assert(after.clients[k].addr == addr);
    }
    let c = index_of_addr(after.clients, addr);
    assert(first_with_addr(after.clients, addr, c));
    assert(c == k) by {
        if c < k {
            assert(after.clients[c].addr != addr);
        }
    }
}

/// In a well-formed registry the client at `i` is the first one with its address.
proof fn lemma_registered_address_is_first(reg: RegistryView, i: int)
    requires
        registry_wf(reg),
        0 <= i < reg.clients.len(),
    ensures
        first_with_addr(reg.clients, reg.clients[i].addr, i),
        has_addr(reg.clients, reg.clients[i].addr),
        index_of_addr(reg.clients, reg.clients[i].addr) == i,
{
    assert forall|j: int| 0 <= j < i implies reg.clients[j].addr != reg.clients[i].addr by {
        assert(reg.clients[j].id != reg.clients[i].id);
    }
    lemma_first_with_addr_is_index(reg.clients, reg.clients[i].addr, i);
}

/// Every connection request that the registry accepts, with `Ok(id)`, is announced by exactly
/// one `Connected(id)` event and succeeds: for a client that is new and for one that asks again.
pub proof fn lemma_accepted_request_is_announced<I>(reg: RegistryView, addr: NetAddress, name: String)
    requires
        registry_wf(reg),
        add_result(reg, addr, name@) is Ok,
    ensures
        ({
            let (after, events, commands, res) = payload_step::<I>(reg, addr, Some(ClientPacket::ConnectionRequest { player_name: name }));
            &&& events == seq![ClientEventView::Connected(add_result(reg, addr, name@)->Ok_0)]
            &&& commands.len() == 0
            &&& res == Ok::<(), MessageError>(())
            &&& after == add_state(reg, addr, name@)
        }),
{
}

/// A registered client that sends its connection request again (while the server is not
/// full) is answered again with its own ID, and the registry stays as it is.
pub proof fn lemma_repeated_request_is_answered<I>(reg: RegistryView, i: int, name: String)
    requires
        registry_wf(reg),
        0 <= i < reg.clients.len(),
        reg.clients[i].name == name@,
        !is_full(reg),
    ensures
        payload_step::<I>(reg, reg.clients[i].addr, Some(ClientPacket::ConnectionRequest { player_name: name }))
            == (reg, seq![ClientEventView::Connected(reg.clients[i].id)], Seq::<NetworkCommand<I>>::empty(), Ok::<(), MessageError>(())),
{
    let addr = reg.clients[i].addr;
    assert(matches_both(reg.clients, i, addr, name@));
    assert(matches_addr_or_name(reg.clients, i, addr, name@));
    let c = choose|c: int| matches_both(reg.clients, c, addr, name@);
    assert(matches_both(reg.clients, c, addr, name@));
    assert(c == i) by {
        if c != i {
            assert(reg.clients[c].addr != reg.clients[i].addr);
        }
    }
    assert(!registers_new(reg, addr, name@));
}

/// Input from any registered client, not only the newest, is forwarded as one command that
/// carries the ID of the client registered with that address.
pub proof fn lemma_input_carries_senders_id<I>(reg: RegistryView, i: int, input: I)
    requires
        registry_wf(reg),
        0 <= i < reg.clients.len(),
    ensures
        payload_step(reg, reg.clients[i].addr, Some(ClientPacket::InputState { input }))
            == (reg, Seq::<ClientEventView>::empty(), seq![NetworkCommand::Input { id: reg.clients[i].id, input }], Ok::<(), MessageError>(())),
{
    lemma_registered_address_is_first(reg, i);
}

/// A disconnection of any registered client, not only the newest, unregisters it as `remove`
/// does and is announced with that client's own ID (the one `remove` gives back) and name.
pub proof fn lemma_disconnect_announces_leaving_client(reg: RegistryView, i: int)
    requires
        registry_wf(reg),
        0 <= i < reg.clients.len(),
    ensures
        ({
            let addr = reg.clients[i].addr;
            let (after, events, res) = disconnect_step(reg, addr);
            &&& remove_result(reg, addr) == Ok::<ClientID, RemoveError>(reg.clients[i].id)
            &&& events == seq![ClientEventView::Disconnected(reg.clients[i].id, reg.clients[i].name)]
            &&& res == Ok::<(), RemoveError>(())
            &&& after == remove_state(reg, addr)
            &&& after.clients.len() + 1 == reg.clients.len()
        }),
{
    lemma_registered_address_is_first(reg, i);
    lemma_removed_client_is_gone(reg, reg.clients[i].addr);
}

/// A copy of a decoded message.
fn copy_packet<I: Copy>(packet: &Option<ClientPacket<I>>) -> (r: Option<ClientPacket<I>>)
    ensures
        r == *packet,
{
    match packet {
        None => None,
        Some(ClientPacket::ConnectionRequest { player_name }) => Some(
            ClientPacket::ConnectionRequest { player_name: player_name.clone() },
        ),
        Some(ClientPacket::InputState { input }) => Some(ClientPacket::InputState { input: *input }),
        Some(ClientPacket::Other) => Some(ClientPacket::Other),
    }
}

/// Handling the events up to and including `i` is handling those before `i`, then `i`.
proof fn lemma_events_run_unfold<I>(reg: RegistryView, evs: Seq<NetworkEvent<I>>, i: int)
    requires
        0 <= i < evs.len(),
    ensures
        events_run(reg, evs.take(i + 1)) == ({
            let (r, ce, cmds, reps) = events_run(reg, evs.take(i));
            let (r2, ce2, cmds2, rep) = event_step(r, evs[i]);
            (r2, ce + ce2, cmds + cmds2, reps.push(rep))
        }),
        ids_suffice(reg, evs.take(i + 1)) == (ids_suffice(reg, evs.take(i)) && (event_registers_new(
            events_run(reg, evs.take(i)).0,
            evs[i],
        ) ==> events_run(reg, evs.take(i)).0.next_id < u32::MAX)),
{
    assert(evs.take(i + 1).drop_last() =~= evs.take(i));
    assert(evs.take(i + 1).last() == evs[i]);
}

/// Enough IDs for all events are enough for the first `j` of them.
proof fn lemma_ids_suffice_prefix<I>(reg: RegistryView, evs: Seq<NetworkEvent<I>>, j: int)
    requires
        0 <= j <= evs.len(),
        ids_suffice(reg, evs),
    ensures
        ids_suffice(reg, evs.take(j)),
    decreases evs.len() - j,
{
    if j == evs.len() {
        assert(evs.take(j) =~= evs);
    } else {
        lemma_ids_suffice_prefix(reg, evs, j + 1);
        lemma_events_run_unfold(reg, evs, j);
    }
}

/// Handles the events of the transport in order: disconnections unregister clients, messages
/// are acted upon; the client events and the commands that they give rise to are appended.
/// Events that cannot be acted upon are passed over. Returns what became of each event.
pub fn read_network_messages<I: Copy>(
    registry: &mut ClientRegistry,
    network_events: &Vec<NetworkEvent<I>>,
    client_events: &mut Vec<ClientNetworkEvent>,
    commands: &mut Vec<NetworkCommand<I>>,
) -> (reports: Vec<EventReport>)
    requires
        old(registry).wf(),
        ids_suffice(old(registry)@, network_events@),
    ensures
        final(registry).wf(),
        final(registry)@ == events_run(old(registry)@, network_events@).0,
        final(client_events)@.map_values(|e: ClientNetworkEvent| e@)
            == old(client_events)@.map_values(|e: ClientNetworkEvent| e@) + events_run(old(registry)@, network_events@).1,
        final(commands)@ == old(commands)@ + events_run(old(registry)@, network_events@).2,
        reports@ == events_run(old(registry)@, network_events@).3,
{
    let mut reports: Vec<EventReport> = Vec::new();
    let ghost reg0 = registry@;
    let ghost ce0 = client_events@.map_values(|e: ClientNetworkEvent| e@);
    let ghost cmd0 = commands@;
    let ghost evs = network_events@;
    let len = network_events.len();
    proof {
        assert(evs.take(0) =~= Seq::<NetworkEvent<I>>::empty());
    }
    for i in 0..len
        invariant
            len == evs.len(),
            evs == network_events@,
            ids_suffice(reg0, evs),
            registry.wf(),
            registry@ == events_run(reg0, evs.take(i as int)).0,
            client_events@.map_values(|e: ClientNetworkEvent| e@) == ce0 + events_run(reg0, evs.take(i as int)).1,
            commands@ == cmd0 + events_run(reg0, evs.take(i as int)).2,
            reports@ == events_run(reg0, evs.take(i as int)).3,
    {
        proof {
            lemma_events_run_unfold(reg0, evs, i as int);
            lemma_ids_suffice_prefix(reg0, evs, i + 1);
        }
        let ghost ce_before = client_events@.map_values(|e: ClientNetworkEvent| e@);
        let ghost cmd_before = commands@;
        let report = match &network_events[i] {
            NetworkEvent::Connect(_addr) => {
                assert(client_events@.map_values(|e: ClientNetworkEvent| e@) =~= ce_before + seq![]);
                assert(commands@ =~= cmd_before + seq![]);
                EventReport::Connected
            },
            NetworkEvent::Disconnect(addr) => {
                let res = disconnect_client(addr, registry, client_events);
                assert(commands@ =~= cmd_before + seq![]);
                EventReport::Disconnected(res)
            },
            NetworkEvent::Message(addr, packet) => {
                let packet = copy_packet(packet);
                let res = process_payload(addr, packet, registry, client_events, commands);
                EventReport::Message(res)
            },
            NetworkEvent::Error => {
                assert(client_events@.map_values(|e: ClientNetworkEvent| e@) =~= ce_before + seq![]);
                assert(commands@ =~= cmd_before + seq![]);
                EventReport::TransportError
            },
        };
        reports.push(report);
        proof {
            assert(ce0 + events_run(reg0, evs.take(i as int)).1 + event_step(events_run(reg0, evs.take(i as int)).0, evs[i as int]).1
                =~= ce0 + (events_run(reg0, evs.take(i as int)).1 + event_step(events_run(reg0, evs.take(i as int)).0, evs[i as int]).1));
            assert(cmd0 + events_run(reg0, evs.take(i as int)).2 + event_step(events_run(reg0, evs.take(i as int)).0, evs[i as int]).2
                =~= cmd0 + (events_run(reg0, evs.take(i as int)).2 + event_step(events_run(reg0, evs.take(i as int)).0, evs[i as int]).2));
        }
    }
    proof {
        assert(evs.take(len as int) =~= evs);
    }
    reports
}

} // verus!

use vstd::prelude::*;

use crate::address::NetAddress;
use crate::client_registry::{has_id, ClientID, ClientRegistry, RegistryView};
use crate::events::{Client, ClientEventView, ClientNetworkEvent, SpawnPlayerEvent};
use crate::network_id::{EntityType, NetworkId, NetworkIdSupplier};

verus! {

/// The answer to a client whose connection was accepted: where to send it, and the network ID
/// of the player entity that it controls.
#[derive(Copy, Clone, PartialEq, Eq, Debug, Structural)]
pub struct ConnectionResponse {
    pub addr: NetAddress,
    pub player_network_id: NetworkId,
}

/// `k` is the first entry for the client among those that got a player this frame.
pub open spec fn first_added(added: Seq<(ClientID, nat)>, c: ClientID, k: int) -> bool {
    &&& 0 <= k < added.len()
    &&& added[k].0 == c
    &&& forall|j: int| 0 <= j < k ==> added[j].0 != c
}

/// The player ID that the client got this frame, if any.
pub open spec fn added_id(added: Seq<(ClientID, nat)>, c: ClientID) -> Option<nat> {
    if exists|k: int| first_added(added, c, k) {
        Some(added[choose|k: int| first_added(added, c, k)].1)
    } else {
        None
    }
}

/// Introducing the client of one event, given what was introduced before it.
pub open spec fn intro_step(
    added: Seq<(ClientID, nat)>,
    answers: Seq<(ClientID, nat)>,
    ev: ClientEventView,
    base: nat,
) -> (Seq<(ClientID, nat)>, Seq<(ClientID, nat)>) {
    match ev {
        ClientEventView::Connected(c) => match added_id(added, c) {
            Some(n) => (added, answers.push((c, n))),
            None => {
                let n = base + added.len();
                (added.push((c, n)), answers.push((c, n)))
            },
        },
        ClientEventView::Disconnected(_, _) => (added, answers),
    }
}

/// Introducing the clients of a sequence of events, player IDs counting up from `base`:
/// which clients got a new player (with its ID), in order, and the answer (client, player ID)
/// for each connection.
pub open spec fn intro_run(events: Seq<ClientEventView>, base: nat) -> (Seq<(ClientID, nat)>, Seq<(ClientID, nat)>)
    decreases events.len(),
{
    if events.len() == 0 {
        (seq![], seq![])
    } else {
        let (added, answers) = intro_run(events.drop_last(), base);
        intro_step(added, answers, events.last(), base)
    }
}

/// The player network IDs of the clients that got one.
pub open spec fn as_net_ids(added: Seq<(ClientID, nat)>) -> Seq<(ClientID, NetworkId)> {
    added.map_values(|a: (ClientID, nat)| (a.0, NetworkId { entity_type: EntityType::Player, id: a.1 as u32 }))
}

/// The address of the first registered client with the ID.
pub open spec fn addr_of_id(reg: RegistryView, c: ClientID) -> NetAddress {
    reg.clients[choose|i: int| 0 <= i < reg.clients.len() && reg.clients[i].id == c
        && forall|j: int| 0 <= j < i ==> reg.clients[j].id != c].addr
}

/// Every client that connected is registered.
pub open spec fn connected_are_registered(reg: RegistryView, events: Seq<ClientEventView>) -> bool {
    forall|i: int| 0 <= i < events.len() ==> match #[trigger] events[i] {
        ClientEventView::Connected(c) => has_id(reg.clients, c),
        _ => true,
    }
}

pub open spec fn spawn_of(a: (ClientID, nat)) -> SpawnPlayerEvent {
    SpawnPlayerEvent {
        client: Client { id: a.0 },
        network_id: NetworkId { entity_type: EntityType::Player, id: a.1 as u32 },
    }
}

pub open spec fn response_of(reg: RegistryView, a: (ClientID, nat)) -> ConnectionResponse {
    ConnectionResponse {
        addr: addr_of_id(reg, a.0),
        player_network_id: NetworkId { entity_type: EntityType::Player, id: a.1 as u32 },
    }
}

proof fn lemma_intro_unfold(events: Seq<ClientEventView>, base: nat, i: int)
    requires
        0 <= i < events.len(),
    ensures
        intro_run(events.take(i + 1), base) == ({
            let (added, answers) = intro_run(events.take(i), base);
            intro_step(added, answers, events[i], base)
        }),
{
    assert(events.take(i + 1).drop_last() =~= events.take(i));
}

/// The clients that got a player before are no more than the clients that get one in all.
proof fn lemma_intro_grows(events: Seq<ClientEventView>, base: nat, i: int)
    requires
        0 <= i <= events.len(),
    ensures
        intro_run(events.take(i), base).0.len() <= intro_run(events, base).0.len(),
    decreases events.len() - i,
{
    if i < events.len() {
        lemma_intro_grows(events, base, i + 1);
        lemma_intro_unfold(events, base, i);
    } else {
        assert(events.take(i) =~= events);
    }
}

/// The player ID that the client got earlier in the batch, if any.
fn lookup_added(added_clients: &Vec<(ClientID, NetworkId)>, client_id: ClientID, Ghost(added): Ghost<Seq<(ClientID, nat)>>) -> (r: Option<NetworkId>)
    requires
        added_clients@ == as_net_ids(added),
    ensures
        match added_id(added, client_id) {
            Some(n) => r == Some(NetworkId { entity_type: EntityType::Player, id: n as u32 }),
            None => r is None,
        },
{
    let len = added_clients.len();
    for j in 0..len
        invariant
            len == added_clients@.len(),
            added_clients@ == as_net_ids(added),
            forall|k: int| 0 <= k < j ==> added[k].0 != client_id,
    {
        assert(added_clients@[j as int] == (added[j as int].0, NetworkId { entity_type: EntityType::Player, id: added[j as int].1 as u32 }));
        if added_clients[j].0 == client_id {
            proof {
                assert(first_added(added, client_id, j as int));
                let c = choose|c: int| first_added(added, client_id, c);
                assert(c == j) by {
                    if c < j {
                        assert(added[c].0 != client_id);
                    } else if j < c {
                        assert(added[j as int].0 != client_id);
                    }
                }
            }
            return Some(added_clients[j].1);
        }
    }
    assert forall|k: int| !first_added(added, client_id, k) by {}
    None
}

/// Introduces the client of one event.
fn introduce_one(
    event: &ClientNetworkEvent,
    registry: &ClientRegistry,
    supplier: &mut NetworkIdSupplier,
    added_clients: &mut Vec<(ClientID, NetworkId)>,
    spawn_events: &mut Vec<SpawnPlayerEvent>,
    responses: &mut Vec<ConnectionResponse>,
    Ghost(added): Ghost<Seq<(ClientID, nat)>>,
    Ghost(answers): Ghost<Seq<(ClientID, nat)>>,
    Ghost(base): Ghost<nat>,
)
    requires
        old(added_clients)@ == as_net_ids(added),
        old(supplier).next_of(EntityType::Player) == base + added.len(),
        base + intro_step(added, answers, event@, base).0.len() <= u32::MAX,
        match event@ {
            ClientEventView::Connected(c) => has_id(registry@.clients, c),
            _ => true,
        },
    ensures
        ({
            let (added2, answers2) = intro_step(added, answers, event@, base);
            &&& final(added_clients)@ == as_net_ids(added2)
            &&& final(supplier).next_of(EntityType::Player) == base + added2.len()
            &&& final(spawn_events)@ == old(spawn_events)@ + (added2.map_values(|a: (ClientID, nat)| spawn_of(a))).skip(added.len() as int)
            &&& final(responses)@ == old(responses)@ + (answers2.map_values(|a: (ClientID, nat)| response_of(registry@, a))).skip(answers.len() as int)
            &&& added.len() <= added2.len()
            &&& answers.len() <= answers2.len()
            &&& added2.take(added.len() as int) == added
            &&& answers2.take(answers.len() as int) == answers
        }),
        forall|t: EntityType| t != EntityType::Player ==> final(supplier).next_of(t) == old(supplier).next_of(t),
{
    match event {
        ClientNetworkEvent::ClientConnected(client_id) => {
            let client_id = *client_id;
            let client_handle = match registry.find_client(client_id) {
                Some(h) => h,
                None => {
                    proof {
                        assert(false);
                    }
                    return;
                },
            };
            proof {
                let w = choose|w: int| 0 <= w < registry@.clients.len() && registry@.clients[w] == client_handle@
                    && client_handle.id == client_id
                    && forall|j: int| 0 <= j < w ==> registry@.clients[j].id != client_id;
                let c = choose|c: int| 0 <= c < registry@.clients.len() && registry@.clients[c].id == client_id
                    && forall|j: int| 0 <= j < c ==> registry@.clients[j].id != client_id;
                assert(registry@.clients[w].id == client_id);
                assert(c == w) by {
                    if c < w {
                        assert(registry@.clients[c].id != client_id);
                    } else if w < c {
                        assert(registry@.clients[w].id != client_id);
                    }
                }
                assert(client_handle.addr == addr_of_id(registry@, client_id));
            }
            let entity_network_id = match lookup_added(added_clients, client_id, Ghost(added)) {
                Some(net_id) => {
                    assert(spawn_events@ =~= old(spawn_events)@ + (added.map_values(|a: (ClientID, nat)| spawn_of(a))).skip(added.len() as int));
                    assert(added.take(added.len() as int) =~= added);
                    net_id
                },
                None => {
                    let net_id = supplier.next(EntityType::Player);
                    let spawn = SpawnPlayerEvent { client: Client { id: client_id }, network_id: net_id };
                    spawn_events.push(spawn);
                    added_clients.push((client_id, net_id));
                    proof {
                        let n = base + added.len();
                        let added2 = added.push((client_id, n));
                        assert(spawn == spawn_of((client_id, n)));
                        assert((added2.map_values(|a: (ClientID, nat)| spawn_of(a))).skip(added.len() as int) =~= seq![spawn]);
                        assert(added_clients@ =~= as_net_ids(added2));
                        assert(added2.take(added.len() as int) =~= added);
                    }
                    net_id
                },
            };
            let response = ConnectionResponse { addr: client_handle.addr, player_network_id: entity_network_id };
            responses.push(response);
            proof {
                let (added2, answers2) = intro_step(added, answers, event@, base);
                let last = answers2.last();
                assert(answers2 == answers.push(last));
                assert(response == response_of(registry@, last));
                assert((answers2.map_values(|a: (ClientID, nat)| response_of(registry@, a))).skip(answers.len() as int) =~= seq![response]);
                assert(answers2.take(answers.len() as int) =~= answers);
            }
        },
        ClientNetworkEvent::ClientDisconnected(_client_id, _player_name) => {
            assert(added.take(added.len() as int) =~= added);
            assert(answers.take(answers.len() as int) =~= answers);
            assert(spawn_events@ =~= old(spawn_events)@ + (added.map_values(|a: (ClientID, nat)| spawn_of(a))).skip(added.len() as int));
            assert(responses@ =~= old(responses)@ + (answers.map_values(|a: (ClientID, nat)| response_of(registry@, a))).skip(answers.len() as int));
        },
    }
}

/// Answers each client that connected with the network ID of its player; asks for a player to be
/// spawned for a client the first time it connects in this batch of events.
pub fn introduce_new_clients(
    client_events: &Vec<ClientNetworkEvent>,
    registry: &ClientRegistry,
    supplier: &mut NetworkIdSupplier,
    spawn_events: &mut Vec<SpawnPlayerEvent>,
    responses: &mut Vec<ConnectionResponse>,
)
    requires
        connected_are_registered(registry@, client_events@.map_values(|e: ClientNetworkEvent| e@)),
        old(supplier).next_of(EntityType::Player) + intro_run(
            client_events@.map_values(|e: ClientNetworkEvent| e@),
            old(supplier).next_of(EntityType::Player),
        ).0.len() <= u32::MAX,
    ensures
        ({
            let (added, answers) = intro_run(
                client_events@.map_values(|e: ClientNetworkEvent| e@),
                old(supplier).next_of(EntityType::Player),
            );
            &&& final(spawn_events)@ == old(spawn_events)@ + added.map_values(|a: (ClientID, nat)| spawn_of(a))
            &&& final(responses)@ == old(responses)@ + answers.map_values(|a: (ClientID, nat)| response_of(registry@, a))
            &&& final(supplier).next_of(EntityType::Player) == old(supplier).next_of(EntityType::Player) + added.len()
        }),
        forall|t: EntityType| t != EntityType::Player ==> final(supplier).next_of(t) == old(supplier).next_of(t),
{
    let ghost evs = client_events@.map_values(|e: ClientNetworkEvent| e@);
    let ghost base = supplier.next_of(EntityType::Player);
    let ghost spawn0 = spawn_events@;
    let ghost resp0 = responses@;
    let mut added_clients: Vec<(ClientID, NetworkId)> = Vec::new();
    let len = client_events.len();
    proof {
        assert(evs.take(0) =~= Seq::<ClientEventView>::empty());
        assert(added_clients@ =~= as_net_ids(seq![]));
        assert(spawn_events@ =~= spawn0 + Seq::<(ClientID, nat)>::empty().map_values(|a: (ClientID, nat)| spawn_of(a)));
        assert(responses@ =~= resp0 + Seq::<(ClientID, nat)>::empty().map_values(|a: (ClientID, nat)| response_of(registry@, a)));
    }
    for i in 0..len
        invariant
            len == evs.len(),
            evs == client_events@.map_values(|e: ClientNetworkEvent| e@),
            connected_are_registered(registry@, evs),
            base + intro_run(evs, base).0.len() <= u32::MAX,
            forall|t: EntityType| t != EntityType::Player ==> supplier.next_of(t) == old(supplier).next_of(t),
            added_clients@ == as_net_ids(intro_run(evs.take(i as int), base).0),
            spawn_events@ == spawn0 + intro_run(evs.take(i as int), base).0.map_values(|a: (ClientID, nat)| spawn_of(a)),
            responses@ == resp0 + intro_run(evs.take(i as int), base).1.map_values(|a: (ClientID, nat)| response_of(registry@, a)),
            supplier.next_of(EntityType::Player) == base + intro_run(evs.take(i as int), base).0.len(),
    {
        proof {
            lemma_intro_unfold(evs, base, i as int);
            lemma_intro_grows(evs, base, i + 1);
            assert(evs[i as int] == client_events@[i as int]@);
        }
        let ghost added = intro_run(evs.take(i as int), base).0;
        let ghost answers = intro_run(evs.take(i as int), base).1;
        let ghost sp_before = spawn_events@;
        let ghost rs_before = responses@;
        introduce_one(&client_events[i], registry, supplier, &mut added_clients, spawn_events, responses,
            Ghost(added), Ghost(answers), Ghost(base));
        proof {
            let (added2, answers2) = intro_run(evs.take(i + 1), base);
            let m1 = added.map_values(|a: (ClientID, nat)| spawn_of(a));
            let m2 = added2.map_values(|a: (ClientID, nat)| spawn_of(a));
            assert(m2 =~= m1 + m2.skip(added.len() as int)) by {
                assert forall|k: int| 0 <= k < added.len() implies m2[k] == m1[k] by {
                    assert(added2.take(added.len() as int)[k] == added[k]);
                }
            }
            assert(spawn_events@ =~= spawn0 + m2);
            let r1 = answers.map_values(|a: (ClientID, nat)| response_of(registry@, a));
            let r2 = answers2.map_values(|a: (ClientID, nat)| response_of(registry@, a));
            assert(r2 =~= r1 + r2.skip(answers.len() as int)) by {
                assert forall|k: int| 0 <= k < answers.len() implies r2[k] == r1[k] by {
                    assert(answers2.take(answers.len() as int)[k] == answers[k]);
                }
            }
            assert(responses@ =~= resp0 + r2);
        }
    }
    proof {
        assert(evs.take(len as int) =~= evs);
    }
}

/// Within one batch, a client gets at most one new player, and the new players get
/// consecutive IDs from `base` on.
pub proof fn lemma_one_player_per_client(events: Seq<ClientEventView>, base: nat)
    ensures
        forall|i: int, j: int| 0 <= i < j < intro_run(events, base).0.len()
            ==> intro_run(events, base).0[i].0 != intro_run(events, base).0[j].0,
        forall|i: int| 0 <= i < intro_run(events, base).0.len()
            ==> #[trigger] intro_run(events, base).0[i].1 == base + i,
    decreases events.len(),
{
    if events.len() > 0 {
        let p = events.drop_last();
        lemma_one_player_per_client(p, base);
        let (added, answers) = intro_run(p, base);
        match events.last() {
            ClientEventView::Connected(c) => {
                if added_id(added, c) is None {
                    assert forall|k: int| 0 <= k < added.len() implies added[k].0 != c by {
                        if added[k].0 == c {
                            lemma_first_added_exists(added, c, k);
                        }
                    }
                }
            },
            _ => {},
        }
    }
}

/// Some entry for the client is the first one.
proof fn lemma_first_added_exists(added: Seq<(ClientID, nat)>, c: ClientID, i: int)
    requires
        0 <= i < added.len(),
        added[i].0 == c,
    ensures
        exists|k: int| first_added(added, c, k),
    decreases i,
{
    if exists|j: int| 0 <= j < i && added[j].0 == c {
        let j = choose|j: int| 0 <= j < i && added[j].0 == c;
        lemma_first_added_exists(added, c, j);
    } else {
        assert(first_added(added, c, i));
    }
}

} // verus!

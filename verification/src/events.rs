use vstd::prelude::*;

use crate::client_registry::ClientID;
use crate::network_id::NetworkId;

verus! {

/// The name that a player chose when connecting.
#[derive(Debug, PartialEq, Eq)]
pub struct PlayerName(pub String);

impl View for PlayerName {
    type V = Seq<char>;

    open spec fn view(&self) -> Seq<char> {
        self.0@
    }
}

/// What happened to a client's connection.
#[derive(Debug, PartialEq, Eq)]
pub enum ClientNetworkEvent {
    ClientConnected(ClientID),
    ClientDisconnected(ClientID, PlayerName),
}

/// A `ClientNetworkEvent` as the specifications see it.
pub enum ClientEventView {
    Connected(ClientID),
    Disconnected(ClientID, Seq<char>),
}

impl View for ClientNetworkEvent {
    type V = ClientEventView;

    open spec fn view(&self) -> ClientEventView {
        match self {
            ClientNetworkEvent::ClientConnected(id) => ClientEventView::Connected(*id),
            ClientNetworkEvent::ClientDisconnected(id, name) => ClientEventView::Disconnected(*id, name@),
        }
    }
}

/// A command of a client for the game, such as its current input.
#[derive(Debug, PartialEq)]
pub enum NetworkCommand<I> {
    Input { id: ClientID, input: I },
}

/// Marks the entity that a network client controls.
#[derive(Copy, Clone, PartialEq, Eq, Debug, Structural)]
pub struct Client {
    pub id: ClientID,
}

impl Client {
    pub fn new(id: ClientID) -> (r: Client)
        ensures
            r.id == id,
    {
        Client { id }
    }
}

/// Asks for a player entity to be spawned for a client.
#[derive(Copy, Clone, PartialEq, Eq, Debug, Structural)]
pub struct SpawnPlayerEvent {
    pub client: Client,
    pub network_id: NetworkId,
}

/// The channels on which ordered messages are sequenced.
#[derive(Copy, Clone, PartialEq, Eq, Debug, Structural)]
pub enum StreamId {
    EntityStateUpdate,
}

impl StreamId {
    /// The stream number that the transport uses for this stream.
    pub open spec fn spec_number(self) -> u8 {
        match self {
            StreamId::EntityStateUpdate => 0,
        }
    }

    pub fn into_stream(self) -> (r: Option<u8>)
        ensures
            r == Some(self.spec_number()),
    {
        match self {
            StreamId::EntityStateUpdate => Some(0),
        }
    }
}

/// The input that the last command of the client in a batch carries, if any: applying the
/// commands in order leaves the client's entities with that input.
pub fn latest_input<I: Copy>(commands: &Vec<NetworkCommand<I>>, id: ClientID) -> (r: Option<I>)
    ensures
        match r {
            Some(input) => exists|k: int| 0 <= k < commands@.len()
                && commands@[k] == (NetworkCommand::Input { id, input })
                && forall|j: int| k < j < commands@.len() ==> (#[trigger] commands@[j])->id != id,
            None => forall|j: int| 0 <= j < commands@.len() ==> (#[trigger] commands@[j])->id != id,
        },
{
    let mut latest: Option<I> = None;
    let len = commands.len();
    for i in 0..len
        invariant
            len == commands@.len(),
            match latest {
                Some(input) => exists|k: int| 0 <= k < i
                    && commands@[k] == (NetworkCommand::Input { id, input })
                    && forall|j: int| k < j < i ==> (#[trigger] commands@[j])->id != id,
                None => forall|j: int| 0 <= j < i ==> (#[trigger] commands@[j])->id != id,
            },
    {
        match &commands[i] {
            NetworkCommand::Input { id: cid, input } => {
                if *cid == id {
                    latest = Some(*input);
                    assert(commands@[i as int] == (NetworkCommand::Input { id, input: *input }));
                }
            },
        }
    }
    latest
}

} // verus!

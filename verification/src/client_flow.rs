use vstd::prelude::*;

use crate::network::Error;
use crate::network_id::NetworkId;

verus! {

/// What the client's current game state is told.
#[derive(Copy, Clone, PartialEq, Eq, Debug, Structural)]
pub enum ClientEvent {
    /// The window is asked to close.
    CloseRequested,
    /// The escape key went down.
    EscapePressed,
    /// Any other event of the window, the input devices or the user interface.
    OtherEngineEvent,
    /// The server accepted the connection; the client controls the player with this ID.
    ConnectionAccepted(NetworkId),
    /// The server refused the connection.
    ConnectionRefused(Error),
    /// The connection to the server was lost.
    Disconnected,
}

/// What the client does after an event.
#[derive(Copy, Clone, PartialEq, Eq, Debug, Structural)]
pub enum Transition {
    /// Stay in the current state.
    Stay,
    /// End the game.
    Quit,
    /// Create the player with this ID and start playing.
    StartPlaying(NetworkId),
    /// Go back to connecting to the server.
    Reconnect,
}

/// While connecting: an accepted connection starts the game with the player it names, a refused
/// one ends the game; anything else leaves the client waiting.
pub fn connect_state_transition(event: ClientEvent) -> (r: Transition)
    ensures
        r == match event {
            ClientEvent::ConnectionAccepted(id) => Transition::StartPlaying(id),
            ClientEvent::ConnectionRefused(_) => Transition::Quit,
            _ => Transition::Stay,
        },
{
    match event {
        ClientEvent::ConnectionAccepted(player_network_id) => Transition::StartPlaying(player_network_id),
        ClientEvent::ConnectionRefused(_refuse_cause) => Transition::Quit,
        _ => Transition::Stay,
    }
}

/// While playing: closing the window or pressing escape ends the game, losing the connection
/// goes back to connecting; anything else keeps playing.
pub fn play_state_transition(event: ClientEvent) -> (r: Transition)
    ensures
        r == match event {
            ClientEvent::CloseRequested | ClientEvent::EscapePressed => Transition::Quit,
            ClientEvent::Disconnected => Transition::Reconnect,
            _ => Transition::Stay,
        },
{
    match event {
        ClientEvent::CloseRequested => Transition::Quit,
        ClientEvent::EscapePressed => Transition::Quit,
        ClientEvent::Disconnected => Transition::Reconnect,
        _ => Transition::Stay,
    }
}

} // verus!

use vstd::prelude::*;
use crate::game_state::GameResult;
use crate::game_state::GameState;
use crate::moves::Move;
use crate::pieces::PlayerTeam;

verus! {

/// An inbound session message, as the transport layer delivers it.
#[derive(Debug)]
pub enum ServerSideMessage {
    /// The server assigned a room and a side.
    WelcomeMessage { room_id: String, own_team: PlayerTeam },
    /// A wholesale replacement snapshot of the game state.
    Memento { game_state: GameState },
    /// The server asks for this client's next move.
    MoveRequest,
    /// The game is over; the server reports the outcome.
    Result { result: GameResult },
    /// The peer left the session.
    Left,
    /// A protocol-level error reported by the server.
    Error,
}

/// An outbound message for the transport layer to send.
#[derive(Debug)]
pub enum ClientSideMessage {
    /// The move this client plays, addressed to its room.
    Move { sent_move: Move, room_id: String },
}

} // verus!

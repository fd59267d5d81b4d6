use vstd::prelude::*;
use rand::seq::SliceRandom;
use crate::game_state::GameState;
use crate::game_state::spec_can_perform_move;
use crate::game_state::spec_candidate;
use crate::game_state::spec_move_applied;
use crate::messages::ClientSideMessage;
use crate::messages::ServerSideMessage;
use crate::moves::Move;
use crate::pieces::PlayerTeam;

verus! {

/// The control signal the protocol loop acts on after each message.
#[derive(Clone, Copy, PartialEq, Eq, Structural, Debug)]
pub enum ClientState {
    Running,
    ShouldTerminate,
}

/// Where the session stands: nothing heard yet, joined a room (with the
/// tracked game state, once a snapshot arrived), or over. Illegal
/// combinations — a room without a team, a game state without a room — are
/// unrepresentable.
#[derive(Debug)]
pub enum SessionState {
    AwaitingWelcome,
    InSession { room_id: String, own_team: PlayerTeam, game_state: Option<GameState> },
    Terminated,
}

/// The protocol state machine: consumes inbound session messages, keeps the
/// local game state synchronized, and derives outbound move decisions.
#[derive(Debug)]
pub struct Logic {
    pub session: SessionState,
}

/// A legal move exists for the tracked game state and own team.
pub open spec fn spec_has_move(l: Logic) -> bool {
    match l.session {
        SessionState::InSession { own_team, game_state: Some(gs), .. } => exists|m: Move|
            spec_candidate(gs, m) && #[trigger] spec_can_perform_move(gs, m, own_team),
        _ => false,
    }
}

/// `m` was picked from the legal moves of the tracked game state and
/// applied to it best-effort: the session identity is kept, and the game
/// state advances by `m` wherever the turn counter can still be advanced.
pub open spec fn spec_move_chosen(pre: Logic, post: Logic, m: Move) -> bool {
    match pre.session {
        SessionState::InSession { room_id, own_team, game_state: Some(gs) } => {
            &&& spec_candidate(gs, m)
            &&& spec_can_perform_move(gs, m, own_team)
            &&& match post.session {
                SessionState::InSession {
                    room_id: room_id_after,
                    own_team: own_team_after,
                    game_state: Some(gs_after),
                } => {
                    &&& room_id_after == room_id
                    &&& own_team_after == own_team
                    &&& (gs.turn < i32::MAX ==> spec_move_applied(gs, gs_after, m))
                    &&& (gs.turn == i32::MAX ==> gs_after == gs)
                },
                _ => false,
            }
        },
        _ => false,
    }
}

/// Relies on rand's `SliceRandom::choose` with `thread_rng`: `None` exactly
/// on an empty slice, otherwise a copy of one of the slice's elements.
#[verifier::external_body]
fn choose_move(moves: &Vec<Move>) -> (r: Option<Move>)
    ensures
        (r matches Some(m) ==> moves@.contains(m)),
        r is None <==> moves@.len() == 0,
{
    moves.choose(&mut rand::thread_rng()).copied()
}

impl Logic {
    /// The tracked game state, if any, is well-formed.
    pub open spec fn wf(self) -> bool {
        self.session matches SessionState::InSession { game_state: Some(gs), .. } ==> gs.wf()
    }

    /// A fresh state machine that has heard nothing yet.
    pub fn new() -> (r: Logic)
        ensures
            r.session is AwaitingWelcome,
    {
        Logic { session: SessionState::AwaitingWelcome }
    }

    /// The move-selection policy: a uniformly random choice among the legal
    /// moves of the tracked game state, applied to it best-effort (a failed
    /// application is swallowed; the session continues).
    fn calculate_move(&mut self) -> (r: Option<Move>)
        requires
            old(self).wf(),
        ensures
            final(self).wf(),
            r is Some <==> spec_has_move(*old(self)),
            (r matches Some(m) ==> spec_move_chosen(*old(self), *final(self), m)),
            r is None ==> *final(self) == *old(self),
    {
        let mut session = SessionState::Terminated;
        core::mem::swap(&mut self.session, &mut session);
        match session {
            SessionState::InSession { room_id, own_team, game_state: Some(mut gs) } => {
                let possible_moves = gs.calculate_possible_moves(&own_team);
                let sent_move = choose_move(&possible_moves);
                match sent_move {
                    Some(m) => {
                        if gs.turn < i32::MAX {
                            match gs.perform_move(&m) {
                                Ok(_) => {},
                                Err(_) => {
                                    // an invalid move is swallowed; the
                                    // session continues
                                },
                            }
                        }
                        self.session = SessionState::InSession {
                            room_id,
                            own_team,
                            game_state: Some(gs),
                        };
                        Some(m)
                    },
                    None => {
                        proof {
                            if spec_has_move(*old(self)) {
                                let m = choose|m: Move|
                                    spec_candidate(gs, m) && #[trigger] spec_can_perform_move(
                                        gs,
                                        m,
                                        own_team,
                                    );
                                assert(possible_moves@.contains(m));
                            }
                        }
                        self.session = SessionState::InSession {
                            room_id,
                            own_team,
                            game_state: Some(gs),
                        };
                        None
                    },
                }
            },
            other => {
                self.session = other;
                None
            },
        }
    }

    /// Answers a move request: picks a legal move (if the session and a
    /// game state are known and a legal move exists), applies it locally
    /// best-effort, and hands back the outbound message for the transport
    /// layer to send. With nothing to send, the state is untouched.
    pub fn process_move_request(&mut self) -> (r: (ClientState, Option<ClientSideMessage>))
        requires
            old(self).wf(),
        ensures
            final(self).wf(),
            r.0 == ClientState::Running,
            r.1 is Some <==> spec_has_move(*old(self)),
            (r.1 matches Some(msg) ==> {
                &&& msg matches ClientSideMessage::Move { sent_move, room_id } ==> {
                    &&& spec_move_chosen(*old(self), *final(self), sent_move)
                    &&& (old(self).session matches SessionState::InSession {
                        room_id: room_id_before,
                        ..
                    } && room_id == room_id_before)
                }
            }),
            r.1 is None ==> *final(self) == *old(self),
    {
        let calculated_move = self.calculate_move();
        match calculated_move {
            Some(sent_move) => {
                let room_id = match &self.session {
                    SessionState::InSession { room_id, .. } => room_id.clone(),
                    _ => {
                        proof {
                            assert(false);
                        }
                        String::new()
                    },
                };
                (ClientState::Running, Some(ClientSideMessage::Move { sent_move, room_id }))
            },
            None => (ClientState::Running, None),
        }
    }

    /// Drives the session by one inbound message: a welcome keys the
    /// session, a memento replaces the tracked game state wholesale, a move
    /// request yields the outbound move, a result leaves the state alone,
    /// and `Left` or a server error terminates the session.
    pub fn process_server_side_message(&mut self, message: ServerSideMessage) -> (r: (
        ClientState,
        Option<ClientSideMessage>,
    ))
        requires
            old(self).wf(),
            (message matches ServerSideMessage::Memento { game_state } ==> game_state.wf()),
        ensures
            final(self).wf(),
            message is Left || message is Error ==> final(self).session is Terminated && r.0
                == ClientState::ShouldTerminate && r.1 is None,
            (message matches ServerSideMessage::Memento { game_state } ==> {
                &&& r.0 == ClientState::Running
                &&& r.1 is None
                &&& match old(self).session {
                    SessionState::InSession { room_id, own_team, .. } => final(self).session
                        == (SessionState::InSession {
                        room_id,
                        own_team,
                        game_state: Some(game_state),
                    }),
                    SessionState::AwaitingWelcome => final(self).session is AwaitingWelcome,
                    SessionState::Terminated => final(self).session is Terminated,
                }
            }),
            (message matches ServerSideMessage::WelcomeMessage { room_id, own_team } ==> {
                &&& r.0 == ClientState::Running
                &&& r.1 is None
                &&& match old(self).session {
                    SessionState::AwaitingWelcome => final(self).session
                        == (SessionState::InSession { room_id, own_team, game_state: None }),
                    SessionState::InSession { game_state, .. } => final(self).session
                        == (SessionState::InSession { room_id, own_team, game_state }),
                    SessionState::Terminated => final(self).session is Terminated,
                }
            }),
            message is Result ==> *final(self) == *old(self) && r.0 == ClientState::Running
                && r.1 is None,
            message is MoveRequest ==> {
                &&& r.0 == ClientState::Running
                &&& (r.1 is Some <==> spec_has_move(*old(self)))
                &&& (r.1 matches Some(msg) ==> {
                    &&& msg matches ClientSideMessage::Move { sent_move, room_id } ==> {
                        &&& spec_move_chosen(*old(self), *final(self), sent_move)
                        &&& (old(self).session matches SessionState::InSession {
                            room_id: room_id_before,
                            ..
                        } && room_id == room_id_before)
                    }
                })
                &&& (r.1 is None ==> *final(self) == *old(self))
            },
    {
        match message {
            ServerSideMessage::Left => {
                self.session = SessionState::Terminated;
                (ClientState::ShouldTerminate, None)
            },
            ServerSideMessage::MoveRequest => {
                let (_inner_state, outbound) = self.process_move_request();
                (ClientState::Running, outbound)
            },
            ServerSideMessage::Memento { game_state } => {
                let mut session = SessionState::Terminated;
                core::mem::swap(&mut self.session, &mut session);
                match session {
                    SessionState::InSession { room_id, own_team, game_state: _ } => {
                        self.session = SessionState::InSession {
                            room_id,
                            own_team,
                            game_state: Some(game_state),
                        };
                    },
                    other => {
                        self.session = other;
                    },
                }
                (ClientState::Running, None)
            },
            ServerSideMessage::Result { result: _ } => {
                (ClientState::Running, None)
            },
            ServerSideMessage::WelcomeMessage { room_id, own_team } => {
                let mut session = SessionState::Terminated;
                core::mem::swap(&mut self.session, &mut session);
                match session {
                    SessionState::AwaitingWelcome => {
                        self.session = SessionState::InSession {
                            room_id,
                            own_team,
                            game_state: None,
                        };
                    },
                    SessionState::InSession { room_id: _, own_team: _, game_state } => {
                        self.session = SessionState::InSession { room_id, own_team, game_state };
                    },
                    SessionState::Terminated => {
                        self.session = SessionState::Terminated;
                    },
                }
                (ClientState::Running, None)
            },
            ServerSideMessage::Error => {
                self.session = SessionState::Terminated;
                (ClientState::ShouldTerminate, None)
            },
        }
    }
}

} // verus!

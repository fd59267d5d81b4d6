use game_client::board::Board;
use game_client::coordinates::Vec2;
use game_client::error::Error;
use game_client::game_state::{Ambers, GameState};
use game_client::logic::{ClientState, Logic, SessionState};
use game_client::messages::{ClientSideMessage, ServerSideMessage};
use game_client::moves::Move;
use game_client::pieces::{Piece, PieceType, PlayerTeam};
use game_client::snapshot::{RawMove, RawPiece, RawState};

fn coord(x: i32, y: i32) -> Vec2<i32> {
    Vec2 { x, y }
}

fn state_with_pieces(pieces: Vec<Piece>) -> GameState {
    GameState {
        start_team: PlayerTeam::One,
        board: Board { pieces },
        last_move: None,
        turn: 0,
        ambers: Ambers { team_one: 0, team_two: 0 },
    }
}

fn raw_snapshot(pieces: Vec<RawPiece>) -> RawState {
    RawState {
        start_team: 0,
        pieces,
        last_move: None,
        turn: 0,
        ambers_one: 0,
        ambers_two: 0,
    }
}

#[test]
fn snapshot_roundtrip_builds_expected_state() {
    let raw = RawState {
        start_team: 1,
        pieces: vec![
            RawPiece { team: 0, piece_type: 1, x: 2, y: 3 },
            RawPiece { team: 1, piece_type: 3, x: 4, y: 5 },
        ],
        last_move: Some(RawMove { from_x: 1, from_y: 1, to_x: 2, to_y: 1 }),
        turn: 7,
        ambers_one: 1,
        ambers_two: 0,
    };
    let gs = GameState::from_deserializable(&raw).expect("valid snapshot");
    assert_eq!(gs.start_team, PlayerTeam::Two);
    assert_eq!(gs.turn, 7);
    assert_eq!(gs.ambers, Ambers { team_one: 1, team_two: 0 });
    assert_eq!(
        gs.last_move,
        Some(Move { from: coord(1, 1), to: coord(2, 1) })
    );
    assert_eq!(gs.board.pieces.len(), 2);
    assert_eq!(
        gs.board.get_piece_at(&coord(2, 3)),
        Some(Piece { team: PlayerTeam::One, piece_type: PieceType::Gull, coordinates: coord(2, 3) })
    );
    assert_eq!(
        gs.board.get_piece_at(&coord(4, 5)),
        Some(Piece { team: PlayerTeam::Two, piece_type: PieceType::Seal, coordinates: coord(4, 5) })
    );
}

#[test]
fn snapshot_rejects_unknown_team() {
    let mut raw = raw_snapshot(vec![]);
    raw.start_team = 9;
    assert_eq!(GameState::from_deserializable(&raw).unwrap_err(), Error::UnknownTeam);
    let raw2 = raw_snapshot(vec![RawPiece { team: 5, piece_type: 0, x: 0, y: 0 }]);
    assert_eq!(GameState::from_deserializable(&raw2).unwrap_err(), Error::UnknownTeam);
}

#[test]
fn snapshot_rejects_unknown_piece_type() {
    let raw = raw_snapshot(vec![RawPiece { team: 0, piece_type: 8, x: 0, y: 0 }]);
    assert_eq!(GameState::from_deserializable(&raw).unwrap_err(), Error::UnknownPieceType);
}

#[test]
fn snapshot_rejects_out_of_range_piece() {
    let raw = raw_snapshot(vec![RawPiece { team: 0, piece_type: 0, x: 8, y: 0 }]);
    assert_eq!(GameState::from_deserializable(&raw).unwrap_err(), Error::PieceOutOfBounds);
}

#[test]
fn snapshot_rejects_coordinate_collision() {
    let raw = raw_snapshot(vec![
        RawPiece { team: 0, piece_type: 0, x: 3, y: 3 },
        RawPiece { team: 1, piece_type: 2, x: 3, y: 3 },
    ]);
    assert_eq!(GameState::from_deserializable(&raw).unwrap_err(), Error::CoordinateCollision);
}

#[test]
fn snapshot_rejects_negative_turn() {
    let mut raw = raw_snapshot(vec![]);
    raw.turn = -1;
    assert_eq!(GameState::from_deserializable(&raw).unwrap_err(), Error::InvalidTurn);
}

#[test]
fn welcome_enters_session() {
    let mut logic = Logic::new();
    assert!(matches!(logic.session, SessionState::AwaitingWelcome));
    let (state, outbound) = logic.process_server_side_message(ServerSideMessage::WelcomeMessage {
        room_id: String::from("room-1"),
        own_team: PlayerTeam::One,
    });
    assert_eq!(state, ClientState::Running);
    assert!(outbound.is_none());
    match &logic.session {
        SessionState::InSession { room_id, own_team, game_state } => {
            assert_eq!(room_id, "room-1");
            assert_eq!(*own_team, PlayerTeam::One);
            assert!(game_state.is_none());
        },
        _ => panic!("expected an in-session state"),
    }
}

#[test]
fn left_and_error_terminate() {
    let mut logic = Logic::new();
    let (state, _) = logic.process_server_side_message(ServerSideMessage::Left);
    assert_eq!(state, ClientState::ShouldTerminate);
    assert!(matches!(logic.session, SessionState::Terminated));

    let mut logic2 = Logic::new();
    let (state2, _) = logic2.process_server_side_message(ServerSideMessage::Error);
    assert_eq!(state2, ClientState::ShouldTerminate);
    assert!(matches!(logic2.session, SessionState::Terminated));
}

#[test]
fn memento_replaces_game_state_wholesale() {
    let mut logic = Logic::new();
    logic.process_server_side_message(ServerSideMessage::WelcomeMessage {
        room_id: String::from("room-7"),
        own_team: PlayerTeam::Two,
    });
    let mut first = state_with_pieces(vec![Piece {
        team: PlayerTeam::One,
        piece_type: PieceType::Gull,
        coordinates: coord(1, 1),
    }]);
    first.turn = 4;
    first.last_move = Some(Move { from: coord(0, 1), to: coord(1, 1) });
    logic.process_server_side_message(ServerSideMessage::Memento { game_state: first });

    let mut second = state_with_pieces(vec![Piece {
        team: PlayerTeam::Two,
        piece_type: PieceType::Seal,
        coordinates: coord(5, 5),
    }]);
    second.turn = 9;
    second.ambers = Ambers { team_one: 0, team_two: 1 };
    let (state, outbound) =
        logic.process_server_side_message(ServerSideMessage::Memento { game_state: second });
    assert_eq!(state, ClientState::Running);
    assert!(outbound.is_none());
    match &logic.session {
        SessionState::InSession { room_id, own_team, game_state } => {
            assert_eq!(room_id, "room-7");
            assert_eq!(*own_team, PlayerTeam::Two);
            let gs = game_state.as_ref().expect("a game state is tracked");
            // nothing of the first snapshot remains
            assert_eq!(gs.turn, 9);
            assert_eq!(gs.last_move, None);
            assert_eq!(gs.ambers, Ambers { team_one: 0, team_two: 1 });
            assert_eq!(gs.board.pieces.len(), 1);
            assert!(gs.board.get_piece_at(&coord(1, 1)).is_none());
            assert!(gs.board.get_piece_at(&coord(5, 5)).is_some());
        },
        _ => panic!("expected an in-session state"),
    }
}

#[test]
fn move_request_before_welcome_sends_nothing() {
    let mut logic = Logic::new();
    let (state, outbound) = logic.process_server_side_message(ServerSideMessage::MoveRequest);
    assert_eq!(state, ClientState::Running);
    assert!(outbound.is_none());
}

#[test]
fn move_request_without_game_state_sends_nothing() {
    let mut logic = Logic::new();
    logic.process_server_side_message(ServerSideMessage::WelcomeMessage {
        room_id: String::from("r"),
        own_team: PlayerTeam::One,
    });
    let (state, outbound) = logic.process_server_side_message(ServerSideMessage::MoveRequest);
    assert_eq!(state, ClientState::Running);
    assert!(outbound.is_none());
}

#[test]
fn move_request_with_no_legal_move_sends_nothing() {
    let mut logic = Logic::new();
    logic.process_server_side_message(ServerSideMessage::WelcomeMessage {
        room_id: String::from("r"),
        own_team: PlayerTeam::One,
    });
    // a cockle in the far corner has both of its forward diagonals off the
    // board, so team One has no legal move
    let gs = state_with_pieces(vec![Piece {
        team: PlayerTeam::One,
        piece_type: PieceType::Cockle,
        coordinates: coord(7, 7),
    }]);
    logic.process_server_side_message(ServerSideMessage::Memento { game_state: gs });
    let (state, outbound) = logic.process_server_side_message(ServerSideMessage::MoveRequest);
    assert_eq!(state, ClientState::Running);
    assert!(outbound.is_none());
}

#[test]
fn move_request_picks_a_legal_move_and_applies_it() {
    let mut logic = Logic::new();
    logic.process_server_side_message(ServerSideMessage::WelcomeMessage {
        room_id: String::from("room-9"),
        own_team: PlayerTeam::One,
    });
    let gs = state_with_pieces(vec![
        Piece { team: PlayerTeam::One, piece_type: PieceType::Gull, coordinates: coord(3, 3) },
        Piece { team: PlayerTeam::Two, piece_type: PieceType::Gull, coordinates: coord(6, 6) },
    ]);
    let legal = gs.calculate_possible_moves(&PlayerTeam::One);
    logic.process_server_side_message(ServerSideMessage::Memento { game_state: gs });

    let (state, outbound) = logic.process_server_side_message(ServerSideMessage::MoveRequest);
    assert_eq!(state, ClientState::Running);
    let ClientSideMessage::Move { sent_move, room_id } = outbound.expect("a move is sent");
    assert_eq!(room_id, "room-9");
    assert!(legal.contains(&sent_move));
    match &logic.session {
        SessionState::InSession { game_state, .. } => {
            let gs_after = game_state.as_ref().expect("a game state is tracked");
            assert_eq!(gs_after.turn, 1);
            assert_eq!(gs_after.last_move, Some(sent_move));
            let occupant = gs_after.board.get_piece_at(&sent_move.to).expect("moved piece");
            assert_eq!(occupant.team, PlayerTeam::One);
            assert!(gs_after.board.get_piece_at(&sent_move.from).is_none());
        },
        _ => panic!("expected an in-session state"),
    }
}

#[test]
fn result_message_keeps_state() {
    let mut logic = Logic::new();
    logic.process_server_side_message(ServerSideMessage::WelcomeMessage {
        room_id: String::from("r"),
        own_team: PlayerTeam::One,
    });
    let gs = state_with_pieces(vec![]);
    let result = {
        let mut terminal = state_with_pieces(vec![]);
        terminal.ambers = Ambers { team_one: 2, team_two: 0 };
        terminal.get_result().expect("terminal")
    };
    logic.process_server_side_message(ServerSideMessage::Memento { game_state: gs });
    let (state, outbound) =
        logic.process_server_side_message(ServerSideMessage::Result { result });
    assert_eq!(state, ClientState::Running);
    assert!(outbound.is_none());
    assert!(matches!(logic.session, SessionState::InSession { .. }));
}

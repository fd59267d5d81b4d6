use game_client::board::Board;
use game_client::coordinates::Vec2;
use game_client::error::Error;
use game_client::game_state::{Ambers, GameState};
use game_client::moves::Move;
use game_client::pieces::{Piece, PieceType, PlayerTeam};

fn coord(x: i32, y: i32) -> Vec2<i32> {
    Vec2 { x, y }
}

fn state_with_pieces(pieces: Vec<Piece>) -> GameState {
    GameState {
        start_team: PlayerTeam::One,
        board: Board { pieces },
        last_move: None,
        turn: 0,
        ambers: Ambers { team_one: 0, team_two: 0 },
    }
}

#[test]
fn vector_addition_is_componentwise() {
    let r = coord(2, 3).add(&coord(4, -1));
    assert_eq!(r, coord(6, 2));
}

#[test]
fn vector_subtraction_is_true_subtraction() {
    // regression: subtraction must not behave like addition
    let r = coord(5, 3).sub(&coord(2, 4));
    assert_eq!(r, coord(3, -1));
    let zero = coord(7, 7).sub(&coord(7, 7));
    assert_eq!(zero, coord(0, 0));
}

#[test]
fn in_bounds_matches_extent() {
    assert!(coord(0, 0).in_bounds());
    assert!(coord(7, 7).in_bounds());
    assert!(!coord(8, 0).in_bounds());
    assert!(!coord(0, 8).in_bounds());
    assert!(!coord(-1, 3).in_bounds());
}

#[test]
fn out_of_bounds_move_is_never_legal() {
    let gull = Piece {
        team: PlayerTeam::One,
        piece_type: PieceType::Gull,
        coordinates: coord(7, 0),
    };
    let gs = state_with_pieces(vec![gull]);
    let off_board = Move { from: coord(7, 0), to: coord(8, 0) };
    assert!(!gs.can_perform_move(&off_board, PlayerTeam::One));
    assert!(!gs.can_perform_move(&off_board, PlayerTeam::Two));
    let from_outside = Move { from: coord(-1, 0), to: coord(0, 0) };
    assert!(!gs.can_perform_move(&from_outside, PlayerTeam::One));
}

#[test]
fn move_to_empty_square_is_legal() {
    let gull = Piece {
        team: PlayerTeam::One,
        piece_type: PieceType::Gull,
        coordinates: coord(3, 3),
    };
    let gs = state_with_pieces(vec![gull]);
    let m = Move { from: coord(3, 3), to: coord(4, 3) };
    assert!(gs.can_perform_move(&m, PlayerTeam::One));
    // the other team has no piece on the source
    assert!(!gs.can_perform_move(&m, PlayerTeam::Two));
}

#[test]
fn move_onto_own_piece_is_illegal_but_capture_is_legal() {
    let gull = Piece {
        team: PlayerTeam::One,
        piece_type: PieceType::Gull,
        coordinates: coord(3, 3),
    };
    let own_blocker = Piece {
        team: PlayerTeam::One,
        piece_type: PieceType::Starfish,
        coordinates: coord(4, 3),
    };
    let gs_blocked = state_with_pieces(vec![gull, own_blocker]);
    let m = Move { from: coord(3, 3), to: coord(4, 3) };
    assert!(!gs_blocked.can_perform_move(&m, PlayerTeam::One));

    let enemy = Piece {
        team: PlayerTeam::Two,
        piece_type: PieceType::Starfish,
        coordinates: coord(4, 3),
    };
    let gs_capture = state_with_pieces(vec![gull, enemy]);
    assert!(gs_capture.can_perform_move(&m, PlayerTeam::One));
}

#[test]
fn possible_moves_have_sources_owned_by_team() {
    let pieces = vec![
        Piece { team: PlayerTeam::One, piece_type: PieceType::Gull, coordinates: coord(3, 3) },
        Piece { team: PlayerTeam::One, piece_type: PieceType::Seal, coordinates: coord(0, 0) },
        Piece { team: PlayerTeam::Two, piece_type: PieceType::Cockle, coordinates: coord(6, 6) },
    ];
    let gs = state_with_pieces(pieces);
    for team in [PlayerTeam::One, PlayerTeam::Two] {
        for m in gs.calculate_possible_moves(&team) {
            let src = gs.board.get_piece_at(&m.from).expect("source must be occupied");
            assert_eq!(src.team, team);
        }
    }
}

#[test]
fn single_gull_at_origin_has_exactly_its_in_bounds_moves() {
    let gull = Piece {
        team: PlayerTeam::One,
        piece_type: PieceType::Gull,
        coordinates: coord(0, 0),
    };
    let gs = state_with_pieces(vec![gull]);
    let moves = gs.calculate_possible_moves(&PlayerTeam::One);
    assert_eq!(
        moves,
        vec![
            Move { from: coord(0, 0), to: coord(1, 0) },
            Move { from: coord(0, 0), to: coord(0, 1) },
        ]
    );
}

#[test]
fn blocked_gull_at_origin_has_exactly_one_move() {
    // the own piece on (0, 1) blocks that square, so only (1, 0) is left
    let gull = Piece {
        team: PlayerTeam::One,
        piece_type: PieceType::Gull,
        coordinates: coord(0, 0),
    };
    let blocker = Piece {
        team: PlayerTeam::One,
        piece_type: PieceType::Cockle,
        coordinates: coord(0, 1),
    };
    let gs = state_with_pieces(vec![gull, blocker]);
    let moves = gs.calculate_possible_moves(&PlayerTeam::One);
    assert!(moves.contains(&Move { from: coord(0, 0), to: coord(1, 0) }));
    assert!(!moves.contains(&Move { from: coord(0, 0), to: coord(0, 1) }));
}

#[test]
fn capture_keeps_move_and_removes_captured_piece() {
    let gull = Piece {
        team: PlayerTeam::One,
        piece_type: PieceType::Gull,
        coordinates: coord(0, 0),
    };
    let enemy = Piece {
        team: PlayerTeam::Two,
        piece_type: PieceType::Cockle,
        coordinates: coord(1, 0),
    };
    let mut gs = state_with_pieces(vec![gull, enemy]);
    let m = Move { from: coord(0, 0), to: coord(1, 0) };
    let moves = gs.calculate_possible_moves(&PlayerTeam::One);
    assert!(moves.contains(&m));
    assert!(gs.perform_move(&m).is_ok());
    let occupant = gs.board.get_piece_at(&coord(1, 0)).expect("destination occupied");
    assert_eq!(occupant.team, PlayerTeam::One);
    assert_eq!(occupant.piece_type, PieceType::Gull);
    assert!(gs.board.get_piece_at(&coord(0, 0)).is_none());
    assert_eq!(gs.board.pieces.len(), 1);
}

#[test]
fn perform_move_advances_turn_and_records_last_move() {
    let gull = Piece {
        team: PlayerTeam::One,
        piece_type: PieceType::Gull,
        coordinates: coord(3, 3),
    };
    let mut gs = state_with_pieces(vec![gull]);
    let m = Move { from: coord(3, 3), to: coord(3, 4) };
    assert_eq!(gs.turn, 0);
    assert!(gs.perform_move(&m).is_ok());
    assert_eq!(gs.turn, 1);
    assert_eq!(gs.last_move, Some(m));
    assert_eq!(gs.ambers, Ambers { team_one: 0, team_two: 0 });
}

#[test]
fn perform_move_rejects_empty_source() {
    let mut gs = state_with_pieces(vec![]);
    let m = Move { from: coord(3, 3), to: coord(3, 4) };
    assert_eq!(gs.perform_move(&m), Err(Error::IllegalMove));
    assert_eq!(gs.turn, 0);
    assert_eq!(gs.last_move, None);
}

#[test]
fn perform_move_rejects_landing_on_own_piece() {
    let pieces = vec![
        Piece { team: PlayerTeam::One, piece_type: PieceType::Gull, coordinates: coord(3, 3) },
        Piece { team: PlayerTeam::One, piece_type: PieceType::Gull, coordinates: coord(4, 3) },
    ];
    let mut gs = state_with_pieces(pieces);
    let m = Move { from: coord(3, 3), to: coord(4, 3) };
    assert_eq!(gs.perform_move(&m), Err(Error::IllegalMove));
}

#[test]
fn current_team_alternates_with_turn_parity() {
    let mut gs = state_with_pieces(vec![]);
    assert_eq!(gs.get_current_team(), PlayerTeam::One);
    gs.turn = 1;
    assert_eq!(gs.get_current_team(), PlayerTeam::Two);
    gs.turn = 2;
    assert_eq!(gs.get_current_team(), PlayerTeam::One);
    gs.start_team = PlayerTeam::Two;
    assert_eq!(gs.get_current_team(), PlayerTeam::Two);
}

#[test]
fn result_is_none_while_ongoing() {
    let gs = state_with_pieces(vec![]);
    assert!(gs.get_result().is_none());
}

#[test]
fn result_at_turn_limit_names_team_with_more_ambers() {
    let mut gs = state_with_pieces(vec![]);
    gs.turn = 60;
    gs.ambers = Ambers { team_one: 1, team_two: 0 };
    let r = gs.get_result().expect("terminal");
    assert_eq!(r.winner_team, Some(PlayerTeam::One));
}

#[test]
fn result_with_amber_target_reached() {
    let mut gs = state_with_pieces(vec![]);
    gs.ambers = Ambers { team_one: 0, team_two: 2 };
    let r = gs.get_result().expect("terminal");
    assert_eq!(r.winner_team, Some(PlayerTeam::Two));
}

#[test]
fn result_tie_has_no_winner() {
    let mut gs = state_with_pieces(vec![]);
    gs.turn = 60;
    gs.ambers = Ambers { team_one: 1, team_two: 1 };
    let r = gs.get_result().expect("terminal");
    assert_eq!(r.winner_team, None);
}

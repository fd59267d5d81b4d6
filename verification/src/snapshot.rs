use vstd::prelude::*;
use crate::board::Board;
use crate::board::appears;
use crate::board::distinct_coordinates;
use crate::coordinates::Coordinates;
use crate::coordinates::Vec2;
use crate::coordinates::spec_in_bounds;
use crate::error::Error;
use crate::game_state::Ambers;
use crate::game_state::GameState;
use crate::moves::Move;
use crate::pieces::Piece;
use crate::pieces::PieceType;
use crate::pieces::PlayerTeam;

verus! {

/// How an external snapshot describes one piece: unvalidated codes and raw
/// coordinates.
#[derive(Clone, Copy, PartialEq, Eq, Structural, Debug)]
pub struct RawPiece {
    pub team: u8,
    pub piece_type: u8,
    pub x: i32,
    pub y: i32,
}

/// How an external snapshot describes a move.
#[derive(Clone, Copy, PartialEq, Eq, Structural, Debug)]
pub struct RawMove {
    pub from_x: i32,
    pub from_y: i32,
    pub to_x: i32,
    pub to_y: i32,
}

/// A wholesale game-state snapshot as the external parsing layer hands it
/// over: plain values, not yet validated.
#[derive(Clone, Debug)]
pub struct RawState {
    pub start_team: u8,
    pub pieces: Vec<RawPiece>,
    pub last_move: Option<RawMove>,
    pub turn: i32,
    pub ambers_one: u32,
    pub ambers_two: u32,
}

/// The team a snapshot code names, if it names one.
pub open spec fn spec_team_of(code: u8) -> Option<PlayerTeam> {
    if code == 0 {
        Some(PlayerTeam::One)
    } else if code == 1 {
        Some(PlayerTeam::Two)
    } else {
        None
    }
}

/// The piece type a snapshot code names, if it names one.
pub open spec fn spec_piece_type_of(code: u8) -> Option<PieceType> {
    if code == 0 {
        Some(PieceType::Cockle)
    } else if code == 1 {
        Some(PieceType::Gull)
    } else if code == 2 {
        Some(PieceType::Starfish)
    } else if code == 3 {
        Some(PieceType::Seal)
    } else {
        None
    }
}

/// The coordinate a raw piece stands on.
pub open spec fn spec_raw_coord(p: RawPiece) -> Coordinates {
    Vec2 { x: p.x, y: p.y }
}

/// The first defect of a raw piece taken by itself, in checking order:
/// team, then piece type, then bounds.
pub open spec fn spec_piece_error(p: RawPiece) -> Option<Error> {
    if spec_team_of(p.team) is None {
        Some(Error::UnknownTeam)
    } else if spec_piece_type_of(p.piece_type) is None {
        Some(Error::UnknownPieceType)
    } else if !spec_in_bounds(spec_raw_coord(p)) {
        Some(Error::PieceOutOfBounds)
    } else {
        None
    }
}

/// The raw piece at `i` stands on the same coordinate as an earlier one.
pub open spec fn spec_collides(s: Seq<RawPiece>, i: int) -> bool {
    exists|j: int| 0 <= j < i && spec_raw_coord(#[trigger] s[j]) == spec_raw_coord(s[i])
}

/// The first defect of the piece list at or after `i`, scanning in order.
pub open spec fn spec_pieces_error(s: Seq<RawPiece>, i: int) -> Option<Error>
    decreases s.len() - i,
{
    if i < 0 || i >= s.len() {
        None
    } else if spec_piece_error(s[i]) is Some {
        spec_piece_error(s[i])
    } else if spec_collides(s, i) {
        Some(Error::CoordinateCollision)
    } else {
        spec_pieces_error(s, i + 1)
    }
}

/// The first defect of a whole snapshot, in checking order: the starting
/// team, then the turn counter, then the pieces.
pub open spec fn spec_snapshot_error(raw: RawState) -> Option<Error> {
    if spec_team_of(raw.start_team) is None {
        Some(Error::UnknownTeam)
    } else if raw.turn < 0 {
        Some(Error::InvalidTurn)
    } else {
        spec_pieces_error(raw.pieces@, 0)
    }
}

/// The piece a defect-free raw piece describes.
pub open spec fn spec_decoded_piece(p: RawPiece) -> Piece {
    Piece {
        team: spec_team_of(p.team)->0,
        piece_type: spec_piece_type_of(p.piece_type)->0,
        coordinates: spec_raw_coord(p),
    }
}

/// The move a raw move describes; it is carried over without validation.
pub open spec fn spec_decoded_move(m: RawMove) -> Move {
    Move { from: Vec2 { x: m.from_x, y: m.from_y }, to: Vec2 { x: m.to_x, y: m.to_y } }
}

/// The team a snapshot code names.
fn team_of(code: u8) -> (r: Option<PlayerTeam>)
    ensures
        r == spec_team_of(code),
{
    if code == 0 {
        Some(PlayerTeam::One)
    } else if code == 1 {
        Some(PlayerTeam::Two)
    } else {
        None
    }
}

/// The piece type a snapshot code names.
fn piece_type_of(code: u8) -> (r: Option<PieceType>)
    ensures
        r == spec_piece_type_of(code),
{
    if code == 0 {
        Some(PieceType::Cockle)
    } else if code == 1 {
        Some(PieceType::Gull)
    } else if code == 2 {
        Some(PieceType::Starfish)
    } else if code == 3 {
        Some(PieceType::Seal)
    } else {
        None
    }
}

/// Whether some piece of the vector stands on `c`.
fn has_piece_at(pieces: &Vec<Piece>, c: &Coordinates) -> (r: bool)
    ensures
        r == exists|j: int|
            0 <= j < pieces@.len() && (#[trigger] pieces@[j]).coordinates == *c,
{
    let n = pieces.len();
    let mut k: usize = 0;
    while k < n
        invariant
            n == pieces@.len(),
            0 <= k <= n,
            forall|j: int| 0 <= j < k ==> (#[trigger] pieces@[j]).coordinates != *c,
        decreases n - k,
    {
        if pieces[k].coordinates == *c {
            return true;
        }
        k += 1;
    }
    false
}

impl GameState {
    /// The fallible conversion from an external snapshot into the data
    /// model. It succeeds exactly on a snapshot whose codes are recognized,
    /// whose turn counter is non-negative, and whose pieces stand inside
    /// the board on pairwise distinct coordinates; otherwise it reports the
    /// first defect in checking order, and no state is built.
    pub fn from_deserializable(raw: &RawState) -> (r: Result<GameState, Error>)
        ensures
            r is Ok <==> spec_snapshot_error(*raw) is None,
            (r matches Err(e) ==> Some(e) == spec_snapshot_error(*raw)),
            (r matches Ok(gs) ==> {
                &&& gs.wf()
                &&& Some(gs.start_team) == spec_team_of(raw.start_team)
                &&& gs.turn == raw.turn
                &&& gs.ambers == (Ambers { team_one: raw.ambers_one, team_two: raw.ambers_two })
                &&& gs.last_move == match raw.last_move {
                    Some(rm) => Some(spec_decoded_move(rm)),
                    None => None,
                }
                &&& gs.board.pieces@.len() == raw.pieces@.len()
                &&& forall|k: int|
                    0 <= k < raw.pieces@.len() ==> gs.board.pieces@[k] == spec_decoded_piece(
                        #[trigger] raw.pieces@[k],
                    )
            }),
    {
        let start_team = match team_of(raw.start_team) {
            Some(t) => t,
            None => {
                return Err(Error::UnknownTeam);
            },
        };
        if raw.turn < 0 {
            return Err(Error::InvalidTurn);
        }

        let n = raw.pieces.len();
        let mut pieces: Vec<Piece> = Vec::new();
        let mut i: usize = 0;
        while i < n
            invariant
                n == raw.pieces@.len(),
                0 <= i <= n,
                spec_team_of(raw.start_team) is Some,
                raw.turn >= 0,
                spec_pieces_error(raw.pieces@, 0) == spec_pieces_error(raw.pieces@, i as int),
                pieces@.len() == i,
                forall|k: int|
                    0 <= k < i ==> pieces@[k] == spec_decoded_piece(#[trigger] raw.pieces@[k]),
                distinct_coordinates(pieces@),
                forall|k: int|
                    0 <= k < i ==> spec_in_bounds((#[trigger] pieces@[k]).coordinates),
            decreases n - i,
        {
            let rp = raw.pieces[i];
            let team = match team_of(rp.team) {
                Some(t) => t,
                None => {
                    return Err(Error::UnknownTeam);
                },
            };
            let piece_type = match piece_type_of(rp.piece_type) {
                Some(t) => t,
                None => {
                    return Err(Error::UnknownPieceType);
                },
            };
            let coordinates = Vec2 { x: rp.x, y: rp.y };
            if !coordinates.in_bounds() {
                return Err(Error::PieceOutOfBounds);
            }
            if has_piece_at(&pieces, &coordinates) {
                proof {
                    let j = choose|j: int|
                        0 <= j < pieces@.len() && (#[trigger] pieces@[j]).coordinates
                            == coordinates;
                    assert(spec_raw_coord(raw.pieces@[j]) == spec_raw_coord(raw.pieces@[i as int]));
                    assert(spec_collides(raw.pieces@, i as int));
                }
                return Err(Error::CoordinateCollision);
            }
            proof {
                if spec_collides(raw.pieces@, i as int) {
                    let j = choose|j: int|
                        0 <= j < i && spec_raw_coord(#[trigger] raw.pieces@[j]) == spec_raw_coord(
                            raw.pieces@[i as int],
                        );
                    assert(pieces@[j].coordinates == coordinates);
                }
            }
            pieces.push(Piece { team, piece_type, coordinates });
            i += 1;
        }

        let board = Board { pieces };
        proof {
            assert forall|p: Piece| #[trigger] appears(board.pieces@, p) implies spec_in_bounds(
                p.coordinates,
            ) by {
                let k = choose|k: int| 0 <= k < board.pieces@.len() && board.pieces@[k] == p;
                assert(spec_in_bounds(board.pieces@[k].coordinates));
            }
        }
        let last_move = match &raw.last_move {
            Some(rm) => Some(
                Move {
                    from: Vec2 { x: rm.from_x, y: rm.from_y },
                    to: Vec2 { x: rm.to_x, y: rm.to_y },
                },
            ),
            None => None,
        };
        Ok(
            GameState {
                start_team,
                board,
                last_move,
                turn: raw.turn,
                ambers: Ambers { team_one: raw.ambers_one, team_two: raw.ambers_two },
            },
        )
    }
}

} // verus!

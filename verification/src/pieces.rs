use vstd::prelude::*;
use crate::coordinates::Coordinates;
use crate::coordinates::Vec2;

verus! {

/// One of the two sides of the game.
#[derive(Clone, Copy, PartialEq, Eq, Structural, Debug)]
pub enum PlayerTeam {
    One,
    Two,
}

/// The opposing side of a team.
pub open spec fn spec_opponent(team: PlayerTeam) -> PlayerTeam {
    match team {
        PlayerTeam::One => PlayerTeam::Two,
        PlayerTeam::Two => PlayerTeam::One,
    }
}

impl PlayerTeam {
    /// The opposing side of this team.
    pub fn opponent(&self) -> (r: PlayerTeam)
        ensures
            r == spec_opponent(*self),
    {
        match self {
            PlayerTeam::One => PlayerTeam::Two,
            PlayerTeam::Two => PlayerTeam::One,
        }
    }
}

/// The closed set of movement capabilities a piece can have.
#[derive(Clone, Copy, PartialEq, Eq, Structural, Debug)]
pub enum PieceType {
    Cockle,
    Gull,
    Starfish,
    Seal,
}

/// Builds a displacement value; a convenience for writing offset tables.
pub open spec fn off(x: int, y: int) -> Coordinates {
    Vec2 { x: x as i32, y: y as i32 }
}

/// The ordered sequence of displacements a piece of the given type may
/// attempt. Team `One` advances in the positive x direction, team `Two` in
/// the negative x direction; types whose movement is symmetric ignore the
/// team.
pub open spec fn spec_offsets(piece_type: PieceType, team: PlayerTeam) -> Seq<Coordinates> {
    match piece_type {
        PieceType::Cockle => match team {
            PlayerTeam::One => seq![
                off(1int, 1int),
                off(1int, -1int),
            ],
            PlayerTeam::Two => seq![
                off(-1int, 1int),
                off(-1int, -1int),
            ],
        },
        PieceType::Gull => seq![
            off(1int, 0int),
            off(-1int, 0int),
            off(0int, 1int),
            off(0int, -1int),
        ],
        PieceType::Starfish => match team {
            PlayerTeam::One => seq![
                off(1int, 0int),
                off(1int, 1int),
                off(1int, -1int),
                off(-1int, 1int),
                off(-1int, -1int),
            ],
            PlayerTeam::Two => seq![
                off(-1int, 0int),
                off(1int, 1int),
                off(1int, -1int),
                off(-1int, 1int),
                off(-1int, -1int),
            ],
        },
        PieceType::Seal => seq![
            off(2int, 1int),
            off(2int, -1int),
            off(-2int, 1int),
            off(-2int, -1int),
            off(1int, 2int),
            off(1int, -2int),
            off(-1int, 2int),
            off(-1int, -2int),
        ],
    }
}

/// Every displacement any piece type may attempt is small on both axes.
pub proof fn lemma_offsets_bounded(piece_type: PieceType, team: PlayerTeam)
    ensures
        forall|k: int|
            0 <= k < spec_offsets(piece_type, team).len() ==> {
                let o = #[trigger] spec_offsets(piece_type, team)[k];
                -2 <= o.x <= 2 && -2 <= o.y <= 2
            },
{
}

impl PieceType {
    /// The displacements a piece of this type may attempt, for the given
    /// owning team.
    pub fn calculate_offsets(&self, team: &PlayerTeam) -> (r: Vec<Coordinates>)
        ensures
            r@ == spec_offsets(*self, *team),
    {
        let r: Vec<Coordinates> = match self {
            PieceType::Cockle => match team {
                PlayerTeam::One => vec![
                    Vec2 { x: 1, y: 1 },
                    Vec2 { x: 1, y: -1 },
                ],
                PlayerTeam::Two => vec![
                    Vec2 { x: -1, y: 1 },
                    Vec2 { x: -1, y: -1 },
                ],
            },
            PieceType::Gull => vec![
                Vec2 { x: 1, y: 0 },
                Vec2 { x: -1, y: 0 },
                Vec2 { x: 0, y: 1 },
                Vec2 { x: 0, y: -1 },
            ],
            PieceType::Starfish => match team {
                PlayerTeam::One => vec![
                    Vec2 { x: 1, y: 0 },
                    Vec2 { x: 1, y: 1 },
                    Vec2 { x: 1, y: -1 },
                    Vec2 { x: -1, y: 1 },
                    Vec2 { x: -1, y: -1 },
                ],
                PlayerTeam::Two => vec![
                    Vec2 { x: -1, y: 0 },
                    Vec2 { x: 1, y: 1 },
                    Vec2 { x: 1, y: -1 },
                    Vec2 { x: -1, y: 1 },
                    Vec2 { x: -1, y: -1 },
                ],
            },
            PieceType::Seal => vec![
                Vec2 { x: 2, y: 1 },
                Vec2 { x: 2, y: -1 },
                Vec2 { x: -2, y: 1 },
                Vec2 { x: -2, y: -1 },
                Vec2 { x: 1, y: 2 },
                Vec2 { x: 1, y: -2 },
                Vec2 { x: -1, y: 2 },
                Vec2 { x: -1, y: -2 },
            ],
        };
        proof {
            assert(r@ =~= spec_offsets(*self, *team));
        }
        r
    }
}

/// A team-owned board occupant with a movement capability and a position.
#[derive(Clone, Copy, PartialEq, Eq, Structural, Debug)]
pub struct Piece {
    pub team: PlayerTeam,
    pub piece_type: PieceType,
    pub coordinates: Coordinates,
}

} // verus!

use vstd::prelude::*;
use crate::coordinates::Coordinates;

verus! {

/// An ordered pair of board positions: where a piece stands and where it
/// would go. A value of this type is not valid by construction; legality is
/// judged against a game state.
#[derive(Clone, Copy, PartialEq, Eq, Structural, Debug)]
pub struct Move {
    pub from: Coordinates,
    pub to: Coordinates,
}

} // verus!

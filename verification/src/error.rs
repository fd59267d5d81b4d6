use vstd::prelude::*;

verus! {

/// The single kind of error the library surfaces: a snapshot that cannot be
/// deserialized into the data model, or a move application on a source
/// square that does not hold a piece the move could take.
#[derive(Clone, Copy, PartialEq, Eq, Structural, Debug)]
pub enum Error {
    /// A snapshot names a team code outside the recognized set.
    UnknownTeam,
    /// A snapshot names a piece-type code outside the recognized set.
    UnknownPieceType,
    /// A snapshot places a piece outside the board extent.
    PieceOutOfBounds,
    /// A snapshot places two pieces on one coordinate.
    CoordinateCollision,
    /// A snapshot carries a turn counter the model cannot hold.
    InvalidTurn,
    /// A move application was asked for a move that is not legal.
    IllegalMove,
}

} // verus!

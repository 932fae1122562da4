//! Quilting game results and errors.

use vstd::prelude::*;

verus! {

/// The Quilting game result type.
pub type QResult<T> = Result<T, PlayerError>;

/// Errors that can be attributed to players.
#[derive(Debug, Clone, Copy, PartialEq, Eq, Structural)]
pub enum PlayerError {
    /// The piece cannot be placed because it overhangs the right edge of the board.
    PlacementOverhangsRight,
    /// The piece cannot be placed because it overhangs the bottom edge of the board.
    PlacementOverhangsBottom,
    /// The piece cannot be placed because it overlaps another piece.
    PlacementOverlapsPiece,
    /// Cannot take pieces from that deep in the piece queue.
    TakeOverDepth,
    /// The piece queue does not have that many pieces.
    OutOfPieces,
}

impl PlayerError {
    /// The sentence that describes each error.
    pub open spec fn spec_description(self) -> Seq<char> {
        match self {
            PlayerError::PlacementOverhangsRight =>
                "Piece placement overhangs right edge of quilt board"@,
            PlayerError::PlacementOverhangsBottom =>
                "Piece placement overhangs bottom edge of quilt board"@,
            PlayerError::PlacementOverlapsPiece => "Piece placement overlaps another piece"@,
            PlayerError::TakeOverDepth => "Cannot take pieces from that deep in the queue"@,
            PlayerError::OutOfPieces => "The queue does not have that many pieces"@,
        }
    }

    /// A short description of the error, fit to show to the player.
    pub fn description(&self) -> (s: &'static str)
        ensures
            s@ == self.spec_description(),
    {
        match *self {
            PlayerError::PlacementOverhangsRight =>
                "Piece placement overhangs right edge of quilt board",
            PlayerError::PlacementOverhangsBottom =>
                "Piece placement overhangs bottom edge of quilt board",
            PlayerError::PlacementOverlapsPiece => "Piece placement overlaps another piece",
            PlayerError::TakeOverDepth => "Cannot take pieces from that deep in the queue",
            PlayerError::OutOfPieces => "The queue does not have that many pieces",
        }
    }
}

} // verus!

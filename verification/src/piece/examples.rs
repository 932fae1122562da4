//! Some sample pieces for testing with.

use vstd::prelude::*;

use crate::piece::{is_canonical, lemma_canonical_is_unique, same_cells, Piece, PieceView};
use crate::position::{Dimension, Position};

verus! {

fn pos(x: usize, y: usize) -> (p: Position)
    ensures
        p == (Position { x, y }),
{
    Position::new(x, y)
}

/// A piece made from `given` holds exactly the positions `canonical`, where
/// that is the canonical form of `given`.
proof fn lemma_positions_are(piece: PieceView, given: Seq<Position>, canonical: Seq<Position>)
    requires
        piece.well_formed(),
        same_cells(piece.positions, given),
        same_cells(given, canonical),
        is_canonical(canonical),
    ensures
        piece.positions == canonical,
{
    lemma_canonical_is_unique(piece.positions, canonical);
}

/// What `piece0` is.
pub open spec fn spec_piece0() -> PieceView {
    PieceView {
        dimension: Dimension { width: 2, height: 3 },
        positions: seq![
            Position { x: 0, y: 0 },
            Position { x: 1, y: 0 },
            Position { x: 1, y: 1 },
            Position { x: 1, y: 2 },
        ],
        cost: 2,
        distance: 1,
        collect: 0,
    }
}

/// A piece.
///
/// ```text
/// ##
///  #
///  #
/// ```
pub fn piece0() -> (piece: Piece)
    ensures
        piece@ == spec_piece0(),
{
    let given = vec![pos(0, 0), pos(1, 0), pos(1, 1), pos(1, 2)];
    let ghost listed = seq![
        Position { x: 0, y: 0 },
        Position { x: 1, y: 0 },
        Position { x: 1, y: 1 },
        Position { x: 1, y: 2 },
    ];
    let ghost canonical = spec_piece0().positions;
    assert(given@ =~= listed);
    let piece = Piece::new(given, 2, 1, 0);
    proof {
        assert(same_cells(listed, canonical)) by {
            assert(listed[0] == canonical[0]);
            assert(listed[1] == canonical[1]);
            assert(listed[2] == canonical[2]);
            assert(listed[3] == canonical[3]);
        }
        lemma_positions_are(piece@, listed, canonical);
        assert(canonical[1].x == 1 && canonical[3].y == 2);
    }
    piece
}

/// What `piece1` is.
pub open spec fn spec_piece1() -> PieceView {
    PieceView {
        dimension: Dimension { width: 3, height: 4 },
        positions: seq![
            Position { x: 0, y: 0 },
            Position { x: 1, y: 0 },
            Position { x: 1, y: 1 },
            Position { x: 1, y: 2 },
            Position { x: 1, y: 3 },
            Position { x: 2, y: 3 },
        ],
        cost: 1,
        distance: 2,
        collect: 0,
    }
}

/// A piece.
///
/// ```text
/// ##
///  #
///  #
///  ##
/// ```
pub fn piece1() -> (piece: Piece)
    ensures
        piece@ == spec_piece1(),
{
    let given = vec![pos(0, 0), pos(1, 0), pos(1, 1), pos(1, 2), pos(1, 3), pos(2, 3)];
    let ghost listed = seq![
        Position { x: 0, y: 0 },
        Position { x: 1, y: 0 },
        Position { x: 1, y: 1 },
        Position { x: 1, y: 2 },
        Position { x: 1, y: 3 },
        Position { x: 2, y: 3 },
    ];
    let ghost canonical = spec_piece1().positions;
    assert(given@ =~= listed);
    let piece = Piece::new(given, 1, 2, 0);
    proof {
        assert(same_cells(listed, canonical)) by {
            assert(listed[0] == canonical[0]);
            assert(listed[1] == canonical[1]);
            assert(listed[2] == canonical[2]);
            assert(listed[3] == canonical[3]);
            assert(listed[4] == canonical[4]);
            assert(listed[5] == canonical[5]);
        }
        lemma_positions_are(piece@, listed, canonical);
        assert(canonical[5].x == 2 && canonical[4].y == 3);
    }
    piece
}

/// What `piece2` is.
pub open spec fn spec_piece2() -> PieceView {
    PieceView {
        dimension: Dimension { width: 3, height: 3 },
        positions: seq![
            Position { x: 0, y: 0 },
            Position { x: 1, y: 0 },
            Position { x: 1, y: 1 },
            Position { x: 1, y: 2 },
            Position { x: 2, y: 1 },
            Position { x: 2, y: 2 },
        ],
        cost: 8,
        distance: 6,
        collect: 3,
    }
}

/// A piece.
///
/// ```text
/// ##
///  ##
///  ##
/// ```
pub fn piece2() -> (piece: Piece)
    ensures
        piece@ == spec_piece2(),
{
    let given = vec![pos(0, 0), pos(1, 0), pos(1, 1), pos(2, 1), pos(1, 2), pos(2, 2)];
    let ghost listed = seq![
        Position { x: 0, y: 0 },
        Position { x: 1, y: 0 },
        Position { x: 1, y: 1 },
        Position { x: 2, y: 1 },
        Position { x: 1, y: 2 },
        Position { x: 2, y: 2 },
    ];
    let ghost canonical = spec_piece2().positions;
    assert(given@ =~= listed);
    let piece = Piece::new(given, 8, 6, 3);
    proof {
        assert(same_cells(listed, canonical)) by {
            assert(listed[0] == canonical[0]);
            assert(listed[1] == canonical[1]);
            assert(listed[2] == canonical[2]);
            assert(listed[3] == canonical[4]);
            assert(listed[4] == canonical[3]);
            assert(listed[5] == canonical[5]);
        }
        lemma_positions_are(piece@, listed, canonical);
        assert(canonical[4].x == 2 && canonical[3].y == 2);
    }
    piece
}

/// What `piece3` is.
pub open spec fn spec_piece3() -> PieceView {
    PieceView {
        dimension: Dimension { width: 2, height: 2 },
        positions: seq![
            Position { x: 0, y: 1 },
            Position { x: 1, y: 0 },
            Position { x: 1, y: 1 },
        ],
        cost: 1,
        distance: 3,
        collect: 0,
    }
}

/// A piece.
///
/// ```text
///  #
/// ##
/// ```
pub fn piece3() -> (piece: Piece)
    ensures
        piece@ == spec_piece3(),
{
    let given = vec![pos(1, 0), pos(0, 1), pos(1, 1)];
    let ghost listed = seq![
        Position { x: 1, y: 0 },
        Position { x: 0, y: 1 },
        Position { x: 1, y: 1 },
    ];
    let ghost canonical = spec_piece3().positions;
    assert(given@ =~= listed);
    let piece = Piece::new(given, 1, 3, 0);
    proof {
        assert(same_cells(listed, canonical)) by {
            assert(listed[0] == canonical[1]);
            assert(listed[1] == canonical[0]);
            assert(listed[2] == canonical[2]);
        }
        lemma_positions_are(piece@, listed, canonical);
        assert(canonical[1].x == 1 && canonical[0].y == 1);
    }
    piece
}

/// What `piece4` is.
pub open spec fn spec_piece4() -> PieceView {
    PieceView {
        dimension: Dimension { width: 3, height: 5 },
        positions: seq![
            Position { x: 0, y: 2 },
            Position { x: 1, y: 0 },
            Position { x: 1, y: 1 },
            Position { x: 1, y: 2 },
            Position { x: 1, y: 3 },
            Position { x: 1, y: 4 },
            Position { x: 2, y: 2 },
        ],
        cost: 1,
        distance: 4,
        collect: 1,
    }
}

/// A piece.
///
/// ```text
///  #
///  #
/// ###
///  #
///  #
/// ```
pub fn piece4() -> (piece: Piece)
    ensures
        piece@ == spec_piece4(),
{
    let given = vec![pos(1, 0), pos(1, 1), pos(0, 2), pos(1, 2), pos(2, 2), pos(1, 3), pos(1, 4)];
    let ghost listed = seq![
        Position { x: 1, y: 0 },
        Position { x: 1, y: 1 },
        Position { x: 0, y: 2 },
        Position { x: 1, y: 2 },
        Position { x: 2, y: 2 },
        Position { x: 1, y: 3 },
        Position { x: 1, y: 4 },
    ];
    let ghost canonical = spec_piece4().positions;
    assert(given@ =~= listed);
    let piece = Piece::new(given, 1, 4, 1);
    proof {
        assert(same_cells(listed, canonical)) by {
            assert(listed[0] == canonical[1]);
            assert(listed[1] == canonical[2]);
            assert(listed[2] == canonical[0]);
            assert(listed[3] == canonical[3]);
            assert(listed[4] == canonical[6]);
            assert(listed[5] == canonical[4]);
            assert(listed[6] == canonical[5]);
        }
        lemma_positions_are(piece@, listed, canonical);
        assert(canonical[6].x == 2 && canonical[5].y == 4);
    }
    piece
}

} // verus!

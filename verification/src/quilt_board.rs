//! The board on which the quilt is constructed.

use vstd::prelude::*;

use crate::piece::{Piece, PieceView};
use crate::position::{Dimension, Position, Transformation};
use crate::result::{PlayerError, QResult};

verus! {

/// The width and height of the default quilt board.
pub const DEFAULT_DIMENSION: usize = 9;

/// The cells that a piece would cover if it were placed at `position` under
/// `transformation`, in the piece's canonical order. They are pairs of
/// integers, x before y, since a placement may reach beyond any board.
pub open spec fn placed_cells(
    position: Position,
    piece: PieceView,
    transformation: Transformation,
) -> Seq<(int, int)> {
    Seq::new(
        piece.positions.len(),
        |i: int| piece.positions_under(transformation)[i].spec_translate(position),
    )
}

/// The positions that occur among `cells`.
pub open spec fn cell_set(cells: Seq<(int, int)>) -> Set<Position> {
    Set::new(|p: Position| cells.contains((p.x as int, p.y as int)))
}

/// What a quilt board is: its extents and the set of its covered positions.
pub struct QuiltView {
    /// The dimensions of the board.
    pub dimension: Dimension,
    /// The positions covered by pieces, all within the dimension.
    pub covered: Set<Position>,
}

impl QuiltView {
    /// The invariant of every board: whatever is covered lies on the board.
    pub open spec fn well_formed(self) -> bool {
        forall|p: Position| self.covered.contains(p) ==> self.dimension.spec_contains(p)
    }

    /// Whether the cell in column `x` and row `y` is on the board and covered.
    pub open spec fn is_covered(self, x: int, y: int) -> bool {
        &&& 0 <= x < self.dimension.width
        &&& 0 <= y < self.dimension.height
        &&& self.covered.contains(Position { x: x as usize, y: y as usize })
    }

    /// What keeps a piece from covering `cell`, if anything does: that it
    /// lies right of the board, else that it lies below it, else that it is
    /// covered already.
    pub open spec fn cell_verdict(self, cell: (int, int)) -> Option<PlayerError> {
        if cell.0 >= self.dimension.width {
            Some(PlayerError::PlacementOverhangsRight)
        } else if cell.1 >= self.dimension.height {
            Some(PlayerError::PlacementOverhangsBottom)
        } else if self.is_covered(cell.0, cell.1) {
            Some(PlayerError::PlacementOverlapsPiece)
        } else {
            None
        }
    }

    /// Whether the cells can be covered anew: the verdict on the first cell
    /// that has one, in the order of `cells`, or `Ok` where none has.
    pub open spec fn placement_verdict(self, cells: Seq<(int, int)>) -> QResult<()>
        decreases cells.len(),
    {
        if cells.len() == 0 {
            Ok(())
        } else {
            match self.cell_verdict(cells[0]) {
                Some(error) => Err(error),
                None => self.placement_verdict(cells.skip(1)),
            }
        }
    }

    /// Whether every cell of the `size`-by-`size` square with its upper left
    /// in column `x` and row `y` is covered.
    pub open spec fn square_covered_at(self, x: int, y: int, size: int) -> bool {
        forall|i: int, j: int|
            x <= i < x + size && y <= j < y + size ==> #[trigger] self.is_covered(i, j)
    }

    /// Whether some `size`-by-`size` square that lies within the board is
    /// covered in full.
    pub open spec fn has_covered_square(self, size: int) -> bool {
        exists|x: int, y: int|
            0 <= x && x + size <= self.dimension.width && 0 <= y && y + size
                <= self.dimension.height && #[trigger] self.square_covered_at(x, y, size)
    }

    /// The picture of row `y`: `#` for a covered cell, `-` for a free one.
    pub open spec fn row_picture(self, y: int) -> Seq<char> {
        Seq::new(
            self.dimension.width as nat,
            |x: int|
                if self.is_covered(x, y) {
                    '#'
                } else {
                    '-'
                },
        )
    }

    /// The picture of the first `rows` rows, each followed by a line break.
    pub open spec fn picture(self, rows: nat) -> Seq<char>
        decreases rows,
    {
        if rows == 0 {
            Seq::empty()
        } else {
            self.picture((rows - 1) as nat) + self.row_picture(rows - 1).push('\n')
        }
    }

    /// The cells decide in their order: where a cell has a verdict and none
    /// before it has one, that verdict is the placement's. So a first cell
    /// that overhangs the right edge is reported as such, whatever a
    /// later cell overlaps.
    pub proof fn lemma_first_verdict_decides(
        self,
        cells: Seq<(int, int)>,
        k: int,
        error: PlayerError,
    )
        requires
            0 <= k < cells.len(),
            self.cell_verdict(cells[k]) == Some(error),
            forall|j: int| 0 <= j < k ==> self.cell_verdict(#[trigger] cells[j]).is_none(),
        ensures
            self.placement_verdict(cells) == Err::<(), PlayerError>(error),
        decreases k,
    {
        if k > 0 {
            let rest = cells.skip(1);
            assert(rest[k - 1] == cells[k]);
            assert forall|j: int| 0 <= j < k - 1 implies self.cell_verdict(
                #[trigger] rest[j],
            ).is_none() by {
                assert(rest[j] == cells[j + 1]);
            }
            assert(self.cell_verdict(cells[0]).is_none());
            self.lemma_first_verdict_decides(rest, k - 1, error);
        }
    }

    /// A placement is allowed if and only if nothing keeps any cell: each lies
    /// on the board and is free.
    pub proof fn lemma_ok_iff_all_free(self, cells: Seq<(int, int)>)
        ensures
            self.placement_verdict(cells).is_ok() <==> forall|i: int|
                0 <= i < cells.len() ==> self.cell_verdict(#[trigger] cells[i]).is_none(),
        decreases cells.len(),
    {
        if cells.len() > 0 {
            let rest = cells.skip(1);
            self.lemma_ok_iff_all_free(rest);
            if self.placement_verdict(cells).is_ok() {
                assert forall|i: int| 0 <= i < cells.len() implies self.cell_verdict(
                    #[trigger] cells[i],
                ).is_none() by {
                    if i > 0 {
                        assert(rest[i - 1] == cells[i]);
                    }
                }
            }
            if forall|i: int|
                0 <= i < cells.len() ==> self.cell_verdict(#[trigger] cells[i]).is_none() {
                assert(self.cell_verdict(cells[0]).is_none());
                assert forall|i: int| 0 <= i < rest.len() implies self.cell_verdict(
                    #[trigger] rest[i],
                ).is_none() by {
                    assert(rest[i] == cells[i + 1]);
                }
            }
        }
    }

    /// Covered squares are monotonic in the size: where no square of some
    /// size is covered, none of a larger size is.
    pub proof fn lemma_no_larger_square(self, size: int, larger: int)
        requires
            0 <= size <= larger,
            !self.has_covered_square(size),
        ensures
            !self.has_covered_square(larger),
    {
        if self.has_covered_square(larger) {
            let (x, y) = choose|x: int, y: int|
                0 <= x && x + larger <= self.dimension.width && 0 <= y && y + larger
                    <= self.dimension.height && #[trigger] self.square_covered_at(x, y, larger);
            assert(self.square_covered_at(x, y, size));
        }
    }
}

/// The board on which the quilt is constructed.
///
/// Invariant:
///
///  - rows.len() == height
///
///  - for row in rows { row.len() == width }
///
///  - the number of cells, width times height, is a `usize`
#[derive(Debug, PartialEq, Eq)]
pub struct QuiltBoard {
    dimension: Dimension,
    rows: Vec<Vec<bool>>,
}

/// Whether `rows` is a grid of the given dimension.
spec fn is_grid(rows: Seq<Vec<bool>>, dimension: Dimension) -> bool {
    &&& rows.len() == dimension.height
    &&& forall|y: int| 0 <= y < rows.len() ==> (#[trigger] rows[y]).len() == dimension.width
}

/// The covered positions of a grid.
spec fn covered_of(rows: Seq<Vec<bool>>, dimension: Dimension) -> Set<Position> {
    Set::new(|p: Position| dimension.spec_contains(p) && rows[p.y as int][p.x as int])
}

/// The covered positions that come before column `x` of row `y`, row by row.
spec fn covered_before(covered: Set<Position>, x: int, y: int) -> Set<Position> {
    Set::new(|p: Position| covered.contains(p) && (p.y < y || (p.y == y && p.x < x)))
}

impl View for QuiltBoard {
    type V = QuiltView;

    closed spec fn view(&self) -> QuiltView {
        QuiltView { dimension: self.dimension, covered: covered_of(self.rows@, self.dimension) }
    }
}

impl Clone for QuiltBoard {
    /// A board of the same dimension with the same positions covered.
    fn clone(&self) -> (board: Self)
        ensures
            board@ == self@,
    {
        proof {
            use_type_invariant(self);
        }
        let mut rows: Vec<Vec<bool>> = Vec::new();
        let mut y: usize = 0;
        while y < self.rows.len()
            invariant
                y <= self.rows.len(),
                rows.len() == y,
                forall|j: int| 0 <= j < y ==> (#[trigger] rows[j])@ == self.rows[j]@,
            decreases self.rows.len() - y,
        {
            let mut row: Vec<bool> = Vec::new();
            let mut x: usize = 0;
            while x < self.rows[y].len()
                invariant
                    y < self.rows.len(),
                    x <= self.rows[y as int].len(),
                    row@ == self.rows[y as int]@.subrange(0, x as int),
                decreases self.rows[y as int].len() - x,
            {
                row.push(self.rows[y][x]);
                assert(row@ =~= self.rows[y as int]@.subrange(0, x + 1));
                x = x + 1;
            }
            assert(row@ =~= self.rows[y as int]@);
            rows.push(row);
            y = y + 1;
        }
        let board = QuiltBoard { dimension: self.dimension, rows };
        assert(board@.covered =~= self@.covered);
        board
    }
}

/// Marks the cell in column `x` of row `y` as covered.
fn set_cell(rows: &mut Vec<Vec<bool>>, x: usize, y: usize)
    requires
        y < old(rows).len(),
        x < old(rows)[y as int].len(),
    ensures
        final(rows).len() == old(rows).len(),
        forall|j: int|
            0 <= j < old(rows).len() ==> (#[trigger] final(rows)[j]).len() == old(rows)[j].len(),
        forall|i: int, j: int|
            0 <= j < old(rows).len() && 0 <= i < old(rows)[j].len() ==> final(rows)[j][i] == (old(
                rows,
            )[j][i] || (i == x && j == y)),
    no_unwind
{
    rows[y][x] = true;
}

impl QuiltBoard {
    #[verifier::type_invariant]
    spec fn type_inv(self) -> bool {
        &&& is_grid(self.rows@, self.dimension)
        &&& self.dimension.width * self.dimension.height <= usize::MAX
    }

    /// Creates a new, empty board of the given dimensions.
    ///
    /// The number of its cells must be a `usize`.
    pub fn new(dimension: Dimension) -> (board: Self)
        requires
            dimension.width * dimension.height <= usize::MAX,
        ensures
            board@.well_formed(),
            board@.dimension == dimension,
            board@.covered == Set::<Position>::empty(),
    {
        let mut rows: Vec<Vec<bool>> = Vec::new();
        let mut y: usize = 0;
        while y < dimension.height
            invariant
                y <= dimension.height,
                rows.len() == y,
                forall|j: int| 0 <= j < y ==> (#[trigger] rows[j]).len() == dimension.width,
                forall|i: int, j: int|
                    0 <= j < y && 0 <= i < dimension.width ==> !(#[trigger] rows[j][i]),
            decreases dimension.height - y,
        {
            let mut row: Vec<bool> = Vec::new();
            let mut x: usize = 0;
            while x < dimension.width
                invariant
                    x <= dimension.width,
                    row.len() == x,
                    forall|i: int| 0 <= i < x ==> !(#[trigger] row[i]),
                decreases dimension.width - x,
            {
                row.push(false);
                x = x + 1;
            }
            rows.push(row);
            y = y + 1;
        }
        let board = QuiltBoard { dimension, rows };
        assert(board@.covered =~= Set::<Position>::empty());
        board
    }

    /// Returns the number of squares covered by pieces.
    pub fn positions_covered(&self) -> (count: usize)
        ensures
            self@.well_formed(),
            self@.covered.finite(),
            count == self@.covered.len(),
    {
        proof {
            use_type_invariant(self);
        }
        let ghost covered = self@.covered;
        let width = self.dimension.width;
        let height = self.dimension.height;
        let mut result: usize = 0;
        let mut y: usize = 0;
        assert(covered_before(covered, 0, 0) =~= Set::<Position>::empty());
        while y < height
            invariant
                y <= height,
                width == self.dimension.width,
                height == self.dimension.height,
                is_grid(self.rows@, self.dimension),
                width * height <= usize::MAX,
                covered == covered_of(self.rows@, self.dimension),
                covered_before(covered, 0, y as int).finite(),
                result == covered_before(covered, 0, y as int).len(),
                result <= y * width,
            decreases height - y,
        {
            let mut x: usize = 0;
            assert((y + 1) * width <= height * width) by (nonlinear_arith)
                requires
                    y + 1 <= height,
            ;
            assert((y + 1) * width == y * width + width && height * width == width * height)
                by (nonlinear_arith);
            while x < width
                invariant
                    y < height,
                    x <= width,
                    width == self.dimension.width,
                    height == self.dimension.height,
                    is_grid(self.rows@, self.dimension),
                    covered == covered_of(self.rows@, self.dimension),
                    covered_before(covered, x as int, y as int).finite(),
                    result == covered_before(covered, x as int, y as int).len(),
                    result <= y * width + x,
                    y * width + width <= usize::MAX,
                decreases width - x,
            {
                let ghost before = covered_before(covered, x as int, y as int);
                let ghost after = covered_before(covered, x + 1, y as int);
                let ghost cell = Position { x, y };
                if self.rows[y][x] {
                    assert(after =~= before.insert(cell));
                    assert(!before.contains(cell));
                    result = result + 1;
                } else {
                    assert(after =~= before);
                }
                x = x + 1;
            }
            assert(covered_before(covered, width as int, y as int) =~= covered_before(
                covered,
                0,
                y + 1,
            ));
            y = y + 1;
        }
        assert(covered_before(covered, 0, height as int) =~= covered);
        result
    }

    /// The dimensions of the board.
    pub fn dimension(&self) -> (dimension: Dimension)
        ensures
            dimension == self@.dimension,
    {
        self.dimension
    }

    /// The width of the board.
    pub fn width(&self) -> (width: usize)
        ensures
            width == self@.dimension.width,
    {
        self.dimension.width
    }

    /// The height of the board.
    pub fn height(&self) -> (height: usize)
        ensures
            height == self@.dimension.height,
    {
        self.dimension.height
    }

    /// Is the given position in bounds for the quilt board?
    pub fn is_position_in_bounds(&self, position: Position) -> (b: bool)
        ensures
            b == self@.dimension.spec_contains(position),
    {
        self.dimension.contains(position)
    }

    /// Is the given position covered by a piece?
    pub fn is_position_covered(&self, position: Position) -> (b: bool)
        ensures
            b == self@.covered.contains(position),
            b == self@.is_covered(position.x as int, position.y as int),
    {
        proof {
            use_type_invariant(self);
        }
        self.is_position_in_bounds(position) && self.rows[position.y][position.x]
    }

    /// Is there a `size`-by-`size` square covered?
    ///
    /// The square must lie within the board, so there is none that is wider
    /// or higher than the board; and there is always one of size 0.
    pub fn is_square_covered(&self, size: usize) -> (b: bool)
        ensures
            b == self@.has_covered_square(size as int),
    {
        if size > self.dimension.width || size > self.dimension.height {
            return false;
        }
        if size == 0 {
            assert(self@.square_covered_at(0, 0, 0));
            return true;
        }
        let width = self.dimension.width;
        let height = self.dimension.height;
        let mut y: usize = 0;
        while y < height - size + 1
            invariant
                0 < size <= width,
                size <= height,
                width == self@.dimension.width,
                height == self@.dimension.height,
                y <= height - size + 1,
                forall|i: int, j: int|
                    0 <= i && i + size <= width && 0 <= j < y ==> !#[trigger] self@.square_covered_at(
                        i,
                        j,
                        size as int,
                    ),
            decreases height - size + 1 - y,
        {
            let mut x: usize = 0;
            while x < width - size + 1
                invariant
                    0 < size <= width,
                    size <= height,
                    width == self@.dimension.width,
                    height == self@.dimension.height,
                    y < height - size + 1,
                    x <= width - size + 1,
                    forall|i: int, j: int|
                        0 <= i && i + size <= width && 0 <= j < y
                            ==> !#[trigger] self@.square_covered_at(i, j, size as int),
                    forall|i: int|
                        0 <= i < x ==> !#[trigger] self@.square_covered_at(
                            i,
                            y as int,
                            size as int,
                        ),
                decreases width - size + 1 - x,
            {
                if self.is_square_covered_at(Position::new(x, y), size) {
                    return true;
                }
                x = x + 1;
            }
            y = y + 1;
        }
        false
    }

    /// Is there a `size`-by-`size` square covered with its upper left at the given position?
    fn is_square_covered_at(&self, position: Position, size: usize) -> (b: bool)
        requires
            position.x + size <= self@.dimension.width,
            position.y + size <= self@.dimension.height,
        ensures
            b == self@.square_covered_at(position.x as int, position.y as int, size as int),
    {
        let mut y: usize = position.y;
        while y < position.y + size
            invariant
                position.x + size <= self@.dimension.width,
                position.y + size <= self@.dimension.height,
                position.y <= y <= position.y + size,
                forall|i: int, j: int|
                    position.x <= i < position.x + size && position.y <= j < y
                        ==> #[trigger] self@.is_covered(i, j),
            decreases position.y + size - y,
        {
            let mut x: usize = position.x;
            while x < position.x + size
                invariant
                    position.x + size <= self@.dimension.width,
                    position.y + size <= self@.dimension.height,
                    position.y <= y < position.y + size,
                    position.x <= x <= position.x + size,
                    forall|i: int, j: int|
                        position.x <= i < position.x + size && position.y <= j < y
                            ==> #[trigger] self@.is_covered(i, j),
                    forall|i: int| position.x <= i < x ==> #[trigger] self@.is_covered(i, y as int),
                decreases position.x + size - x,
            {
                if !self.is_position_covered(Position::new(x, y)) {
                    assert(!self@.is_covered(x as int, y as int));
                    return false;
                }
                x = x + 1;
            }
            y = y + 1;
        }
        true
    }

    /// Can the given piece be added at the given position under the given transformation?
    ///
    /// Returns `Err` of a reason if it cannot: the reason found at the first
    /// cell of the piece, in its canonical order, that has one. At each cell
    /// an overhang on the right comes before one at the bottom, and that
    /// before an overlap.
    pub fn can_add_piece(
        &self,
        position: Position,
        piece: &Piece,
        transformation: Transformation,
    ) -> (r: QResult<()>)
        ensures
            r == self@.placement_verdict(placed_cells(position, piece@, transformation)),
    {
        let ghost cells = placed_cells(position, piece@, transformation);
        let ghost mut k: int = 0;
        let mut positions = piece.positions(transformation);
        assert(cells.skip(0) =~= cells);
        loop
            invariant
                0 <= k <= cells.len(),
                cells == placed_cells(position, piece@, transformation),
                cells.len() == piece@.positions.len(),
                positions@ == piece@.positions_under(transformation).skip(k),
                self@.placement_verdict(cells) == self@.placement_verdict(cells.skip(k)),
            decreases cells.len() - k,
        {
            let ghost rest = cells.skip(k);
            match positions.next() {
                None => {
                    assert(rest.len() == 0);
                    return Ok(());
                },
                Some(p) => {
                    assert(p == piece@.positions_under(transformation)[k]);
                    assert(rest[0] == p.spec_translate(position));
                    assert(rest.skip(1) =~= cells.skip(k + 1));
                    if position.x >= self.dimension.width || p.x >= self.dimension.width
                        - position.x {
                        return Err(PlayerError::PlacementOverhangsRight);
                    } else if position.y >= self.dimension.height || p.y >= self.dimension.height
                        - position.y {
                        return Err(PlayerError::PlacementOverhangsBottom);
                    } else if self.is_position_covered(p.translate(position)) {
                        return Err(PlayerError::PlacementOverlapsPiece);
                    }
                    proof {
                        k = k + 1;
                    }
                },
            }
        }
    }

    /// Adds the given piece at the specified position under the given transformation.
    ///
    /// Where the piece cannot be added the board stays as it was; where it
    /// can, exactly its cells become covered in addition.
    pub fn add_piece(
        &mut self,
        position: Position,
        piece: &Piece,
        transformation: Transformation,
    ) -> (r: QResult<()>)
        ensures
            r == old(self)@.placement_verdict(placed_cells(position, piece@, transformation)),
            final(self)@.well_formed(),
            r.is_err() ==> *final(self) == *old(self),
            r.is_ok() ==> final(self)@.dimension == old(self)@.dimension && final(self)@.covered
                == old(self)@.covered.union(
                cell_set(placed_cells(position, piece@, transformation)),
            ),
    {
        proof {
            use_type_invariant(&*self);
        }
        let ghost cells = placed_cells(position, piece@, transformation);
        let ghost before = old(self)@;
        let verdict = self.can_add_piece(position, piece, transformation);
        match verdict {
            Err(error) => {
                return Err(error);
            },
            Ok(()) => {},
        }
        proof {
            before.lemma_ok_iff_all_free(cells);
        }
        assert(verdict == Ok::<(), PlayerError>(())) by {
            assert(verdict matches Ok(unit) && unit == ());
        }
        let ghost mut k: int = 0;
        let mut positions = piece.positions(transformation);
        assert(self@.covered =~= before.covered.union(cell_set(cells.take(0))));
        loop
            invariant
                0 <= k <= cells.len(),
                cells == placed_cells(position, piece@, transformation),
                cells.len() == piece@.positions.len(),
                positions@ == piece@.positions_under(transformation).skip(k),
                forall|i: int|
                    0 <= i < cells.len() ==> before.cell_verdict(#[trigger] cells[i]).is_none(),
                before == old(self)@,
                before.placement_verdict(cells) == Ok::<(), PlayerError>(()),
                self.dimension == before.dimension,
                is_grid(self.rows@, self.dimension),
                self.dimension.width * self.dimension.height <= usize::MAX,
                self@.covered == before.covered.union(cell_set(cells.take(k))),
            decreases cells.len() - k,
        {
            match positions.next() {
                None => {
                    assert(cells.take(k) =~= cells);
                    return Ok(());
                },
                Some(p) => {
                    assert(p == piece@.positions_under(transformation)[k]);
                    assert(cells[k] == p.spec_translate(position));
                    assert(before.cell_verdict(cells[k]).is_none());
                    let ghost earlier = self@.covered;
                    let x = position.x + p.x;
                    let y = position.y + p.y;
                    set_cell(&mut self.rows, x, y);
                    proof {
                        let marked = Position { x, y };
                        let shorter = cells.take(k);
                        let longer = cells.take(k + 1);
                        assert(longer =~= shorter.push(cells[k]));
                        assert(self@.covered =~= earlier.insert(marked));
                        assert forall|q: Position|
                            cell_set(longer).contains(q) <==> (cell_set(shorter).contains(q) || q
                                == marked) by {
                            let c = (q.x as int, q.y as int);
                            if longer.contains(c) {
                                let i = choose|i: int| 0 <= i < longer.len() && longer[i] == c;
                                if i < k {
                                    assert(shorter[i] == c);
                                }
                            }
                            if shorter.contains(c) {
                                let i = choose|i: int| 0 <= i < shorter.len() && shorter[i] == c;
                                assert(longer[i] == c);
                            }
                            if q == marked {
                                assert(longer[k] == c);
                            }
                        }
                        assert(self@.covered =~= before.covered.union(cell_set(longer)));
                        k = k + 1;
                    }
                },
            }
        }
    }

    /// Draws the board, one line for each row: `#` for a covered cell, `-`
    /// for a free one.
    pub fn visualize(&self) -> (result: String)
        ensures
            result@ == self@.picture(self@.dimension.height as nat),
    {
        proof {
            use_type_invariant(self);
        }
        let mut result = String::new();
        let mut y: usize = 0;
        while y < self.rows.len()
            invariant
                y <= self.rows.len(),
                is_grid(self.rows@, self.dimension),
                result@ == self@.picture(y as nat),
            decreases self.rows.len() - y,
        {
            let ghost drawn = result@;
            let mut x: usize = 0;
            while x < self.rows[y].len()
                invariant
                    y < self.rows.len(),
                    is_grid(self.rows@, self.dimension),
                    x <= self.rows[y as int].len(),
                    result@ == drawn + self@.row_picture(y as int).take(x as int),
                decreases self.rows[y as int].len() - x,
            {
                let b = self.rows[y][x];
                result.push(
                    if b {
                        '#'
                    } else {
                        '-'
                    },
                );
                assert(self@.row_picture(y as int).take(x + 1) =~= self@.row_picture(
                    y as int,
                ).take(x as int).push(self@.row_picture(y as int)[x as int]));
                x = x + 1;
            }
            result.push('\n');
            assert(self@.row_picture(y as int).take(x as int) =~= self@.row_picture(y as int));
            assert(result@ =~= drawn + self@.row_picture(y as int).push('\n'));
            y = y + 1;
        }
        result
    }
}

impl Default for QuiltBoard {
    /// The empty board of the default dimension.
    fn default() -> (board: Self)
        ensures
            board@.dimension == (Dimension { width: DEFAULT_DIMENSION, height: DEFAULT_DIMENSION }),
            board@.covered == Set::<Position>::empty(),
    {
        QuiltBoard::new(Dimension::square(DEFAULT_DIMENSION))
    }
}

} // verus!

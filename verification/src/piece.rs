//! Game pieces, representing quilt patches.

use vstd::prelude::*;

use crate::position::{Dimension, Position, Transformation};

pub mod examples;

verus! {

/// Whether the positions stand in canonical form: in strictly increasing
/// order, and so without duplicates.
pub open spec fn is_canonical(s: Seq<Position>) -> bool {
    forall|i: int, j: int| 0 <= i < j < s.len() ==> s[i].precedes(s[j])
}

/// Whether two sequences hold the same positions, whatever their order and
/// however often each occurs.
pub open spec fn same_cells(a: Seq<Position>, b: Seq<Position>) -> bool {
    forall|p: Position| a.contains(p) <==> b.contains(p)
}

/// Whether `d` is the smallest dimension that contains every position of `s`:
/// the largest x plus one is the width, the largest y plus one the height,
/// and both are zero where there is no position.
pub open spec fn bounds_tightly(d: Dimension, s: Seq<Position>) -> bool {
    &&& forall|i: int| 0 <= i < s.len() ==> d.spec_contains(#[trigger] s[i])
    &&& d.width > 0 ==> exists|i: int| 0 <= i < s.len() && (#[trigger] s[i]).x + 1 == d.width
    &&& d.height > 0 ==> exists|i: int| 0 <= i < s.len() && (#[trigger] s[i]).y + 1 == d.height
}

/// Canonical form is unique: two canonical sequences that hold the same
/// positions are equal.
pub proof fn lemma_canonical_is_unique(a: Seq<Position>, b: Seq<Position>)
    requires
        is_canonical(a),
        is_canonical(b),
        same_cells(a, b),
    ensures
        a == b,
    decreases a.len(),
{
    if a.len() == 0 {
        if b.len() > 0 {
            assert(b.contains(b[0]));
            assert(a.contains(b[0]));
        }
        assert(a =~= b);
    } else {
        assert(a.contains(a[0]));
        assert(b.contains(a[0]));
        let k = choose|k: int| 0 <= k < b.len() && b[k] == a[0];
        assert(b.contains(b[0]));
        assert(a.contains(b[0]));
        let m = choose|m: int| 0 <= m < a.len() && a[m] == b[0];
        // Each head is the least position of its sequence, so they agree.
        assert(a[0] == b[0]) by {
            if k > 0 {
                assert(b[0].precedes(b[k]));
            }
            if m > 0 {
                assert(a[0].precedes(a[m]));
            }
        }
        let ra = a.skip(1);
        let rb = b.skip(1);
        assert forall|p: Position| ra.contains(p) <==> rb.contains(p) by {
            if ra.contains(p) {
                let i = choose|i: int| 0 <= i < ra.len() && ra[i] == p;
                assert(a[i + 1] == p);
                assert(a[0].precedes(a[i + 1]));
                assert(a.contains(p));
                assert(b.contains(p));
                let j = choose|j: int| 0 <= j < b.len() && b[j] == p;
                assert(j > 0);
                assert(rb[j - 1] == p);
            }
            if rb.contains(p) {
                let i = choose|i: int| 0 <= i < rb.len() && rb[i] == p;
                assert(b[i + 1] == p);
                assert(b[0].precedes(b[i + 1]));
                assert(b.contains(p));
                assert(a.contains(p));
                let j = choose|j: int| 0 <= j < a.len() && a[j] == p;
                assert(j > 0);
                assert(ra[j - 1] == p);
            }
        }
        assert(is_canonical(ra)) by {
            assert forall|i: int, j: int| 0 <= i < j < ra.len() implies ra[i].precedes(ra[j]) by {
                assert(a[i + 1].precedes(a[j + 1]));
            }
        }
        assert(is_canonical(rb)) by {
            assert forall|i: int, j: int| 0 <= i < j < rb.len() implies rb[i].precedes(rb[j]) by {
                assert(b[i + 1].precedes(b[j + 1]));
            }
        }
        lemma_canonical_is_unique(ra, rb);
        assert(a =~= seq![a[0]] + ra);
        assert(b =~= seq![b[0]] + rb);
    }
}

/// The dimension that bounds some positions tightly is unique.
pub proof fn lemma_tight_bound_is_unique(d: Dimension, e: Dimension, s: Seq<Position>)
    requires
        bounds_tightly(d, s),
        bounds_tightly(e, s),
    ensures
        d == e,
{
}

/// What a piece is: its cells in canonical order, the box that bounds them,
/// and its three prices.
pub struct PieceView {
    /// The dimensions of the piece.
    pub dimension: Dimension,
    /// The piece's positions.
    pub positions: Seq<Position>,
    /// The cost of the piece.
    pub cost: usize,
    /// The distance to move when taking the piece.
    pub distance: usize,
    /// The value to collect when collecting, if holding the piece.
    pub collect: usize,
}

impl PieceView {
    /// The invariant of every piece: the positions are in canonical form and
    /// fit tightly within the dimension.
    pub open spec fn well_formed(self) -> bool {
        &&& is_canonical(self.positions)
        &&& bounds_tightly(self.dimension, self.positions)
    }

    /// What `Piece::single_position` is: the one cell at the origin, for
    /// nothing.
    pub open spec fn single_position() -> PieceView {
        PieceView {
            dimension: Dimension { width: 1, height: 1 },
            positions: seq![Position { x: 0, y: 0 }],
            cost: 0,
            distance: 0,
            collect: 0,
        }
    }

    /// The dimension of the piece under the given transformation.
    pub open spec fn dimension_under(self, transformation: Transformation) -> Dimension {
        transformation.spec_apply_dim(self.dimension)
    }

    /// The positions of the piece under the given transformation, in the
    /// canonical order of the untransformed positions.
    pub open spec fn positions_under(self, transformation: Transformation) -> Seq<Position> {
        Seq::new(
            self.positions.len(),
            |i: int| transformation.spec_apply(self.dimension, self.positions[i]),
        )
    }

    /// Under any transformation a piece has as many positions as it has
    /// cells, and each lies within the transformed dimension.
    pub proof fn lemma_positions_within(self, transformation: Transformation)
        requires
            self.well_formed(),
        ensures
            self.positions_under(transformation).len() == self.positions.len(),
            forall|i: int|
                0 <= i < self.positions.len() ==> self.dimension_under(
                    transformation,
                ).spec_contains(#[trigger] self.positions_under(transformation)[i]),
    {
        assert forall|i: int| 0 <= i < self.positions.len() implies self.dimension_under(
            transformation,
        ).spec_contains(#[trigger] self.positions_under(transformation)[i]) by {
            transformation.lemma_apply_stays_inside(self.dimension, self.positions[i]);
        }
    }

    /// Under the identity transformation a piece keeps its positions and its
    /// dimension.
    pub proof fn lemma_identity_keeps_piece(self)
        ensures
            self.positions_under(Transformation::spec_identity()) == self.positions,
            self.dimension_under(Transformation::spec_identity()) == self.dimension,
    {
        assert forall|i: int| 0 <= i < self.positions.len() implies self.positions_under(
            Transformation::spec_identity(),
        )[i] == self.positions[i] by {
            Transformation::lemma_identity_is_noop(self.dimension, self.positions[i]);
        }
        Transformation::lemma_identity_is_noop(self.dimension, Position { x: 0, y: 0 });
        assert(self.positions_under(Transformation::spec_identity()) =~= self.positions);
    }
}

/// A game piece
///
/// Invariant:
///
///  - The positions fit tightly within the dimension.
///
///  - The positions are sorted.
#[derive(Debug, PartialEq, Eq)]
pub struct Piece {
    /// The dimensions of the piece.
    dimension: Dimension,
    /// The pieces positions.
    positions: Vec<Position>,
    /// The cost of the piece.
    cost: usize,
    /// The distance to move when taking the piece.
    distance: usize,
    /// The value to collect when collecting, if holding the piece.
    collect: usize,
}

impl View for Piece {
    type V = PieceView;

    closed spec fn view(&self) -> PieceView {
        PieceView {
            dimension: self.dimension,
            positions: self.positions@,
            cost: self.cost,
            distance: self.distance,
            collect: self.collect,
        }
    }
}

impl Piece {
    #[verifier::type_invariant]
    spec fn type_inv(self) -> bool {
        self@.well_formed()
    }

    /// Constructs a new piece from the given positions, cost, and move distance.
    ///
    /// The positions may come in any order and may repeat: the piece holds
    /// each once, in canonical order. No coordinate may be the largest
    /// number of the machine, since the dimension is one more than it.
    pub fn new(positions: Vec<Position>, cost: usize, distance: usize, collect: usize) -> (piece:
        Self)
        requires
            forall|i: int|
                0 <= i < positions.len() ==> (#[trigger] positions[i]).x < usize::MAX
                    && positions[i].y < usize::MAX,
        ensures
            piece@.well_formed(),
            same_cells(piece@.positions, positions@),
            piece@.cost == cost,
            piece@.distance == distance,
            piece@.collect == collect,
    {
        let ghost given = positions@;
        let positions = sort_and_dedup(positions);
        proof {
            assert forall|i: int| 0 <= i < positions.len() implies (#[trigger] positions[i]).x
                < usize::MAX && positions[i].y < usize::MAX by {
                assert(positions@.contains(positions[i]));
                assert(given.contains(positions[i]));
            }
        }
        let dimension = compute_dimension(&positions);
        Piece { dimension, positions, cost, distance, collect }
    }

    /// A small square piece that is placed on the `TimeBoard`.
    pub fn single_position() -> (piece: Self)
        ensures
            piece@ == PieceView::single_position(),
    {
        let mut positions: Vec<Position> = Vec::new();
        positions.push(Position::new(0, 0));
        let piece = Self::new(positions, 0, 0, 0);
        proof {
            let cell = Position { x: 0, y: 0 };
            let one = seq![cell];
            assert(one[0] == cell);
            assert(same_cells(piece@.positions, one));
            assert(is_canonical(one));
            lemma_canonical_is_unique(piece@.positions, one);
        }
        piece
    }

    /// Gets the dimension of this piece under the given transformation.
    pub fn dimension(&self, transformation: Transformation) -> (d: Dimension)
        ensures
            d == self@.dimension_under(transformation),
    {
        transformation.apply_dim(self.dimension)
    }

    /// Gets the width of this piece under the given transformation.
    pub fn width(&self, transformation: Transformation) -> (w: usize)
        ensures
            w == self@.dimension_under(transformation).width,
    {
        self.dimension(transformation).width
    }

    /// Gets the height of this piece under the given transformation.
    pub fn height(&self, transformation: Transformation) -> (h: usize)
        ensures
            h == self@.dimension_under(transformation).height,
    {
        self.dimension(transformation).height
    }

    /// Gets the number of positions covered by the piece.
    pub fn size(&self) -> (n: usize)
        ensures
            n == self@.positions.len(),
    {
        self.positions.len()
    }

    /// Gets the cost of this piece.
    pub fn cost(&self) -> (cost: usize)
        ensures
            cost == self@.cost,
    {
        self.cost
    }

    /// Gets the distance moved for this piece.
    pub fn distance(&self) -> (distance: usize)
        ensures
            distance == self@.distance,
    {
        self.distance
    }

    /// Gets the value to collect when holding this piece.
    pub fn collect(&self) -> (collect: usize)
        ensures
            collect == self@.collect,
    {
        self.collect
    }

    /// Gets an iterator over the positions of this piece under the given transformation.
    ///
    /// It yields as many positions as the piece has cells, in the canonical
    /// order of the untransformed cells, and each lies within the transformed
    /// dimension.
    pub fn positions(&self, transformation: Transformation) -> (positions: Positions<'_>)
        ensures
            self@.well_formed(),
            positions@ == self@.positions_under(transformation),
            positions@.len() == self@.positions.len(),
            forall|i: int|
                0 <= i < positions@.len() ==> self@.dimension_under(transformation).spec_contains(
                    #[trigger] positions@[i],
                ),
    {
        proof {
            use_type_invariant(self);
            self@.lemma_positions_within(transformation);
        }
        let positions = Positions {
            raw_positions: &self.positions,
            next_index: 0,
            raw_dimension: self.dimension,
            transformation,
        };
        assert(positions@ =~= self@.positions_under(transformation));
        positions
    }
}

impl Clone for Piece {
    /// A piece with the same cells, dimension and prices.
    fn clone(&self) -> (piece: Self)
        ensures
            piece@ == self@,
    {
        proof {
            use_type_invariant(self);
        }
        let mut positions: Vec<Position> = Vec::new();
        let mut i: usize = 0;
        while i < self.positions.len()
            invariant
                i <= self.positions.len(),
                positions@ == self.positions@.subrange(0, i as int),
            decreases self.positions.len() - i,
        {
            positions.push(self.positions[i]);
            assert(positions@ =~= self.positions@.subrange(0, i + 1));
            i = i + 1;
        }
        assert(positions@ =~= self.positions@);
        Piece {
            dimension: self.dimension,
            positions,
            cost: self.cost,
            distance: self.distance,
            collect: self.collect,
        }
    }
}

/// Whether `a` comes before `b` in the canonical order.
fn comes_before(a: Position, b: Position) -> (r: bool)
    ensures
        r == a.precedes(b),
{
    a.x < b.x || (a.x == b.x && a.y < b.y)
}

/// Brings the positions into canonical form: sorted, each held once.
fn sort_and_dedup(positions: Vec<Position>) -> (sorted: Vec<Position>)
    ensures
        is_canonical(sorted@),
        same_cells(sorted@, positions@),
{
    let mut sorted: Vec<Position> = Vec::new();
    let mut i: usize = 0;
    while i < positions.len()
        invariant
            i <= positions.len(),
            is_canonical(sorted@),
            same_cells(sorted@, positions@.subrange(0, i as int)),
        decreases positions.len() - i,
    {
        let p = positions[i];
        let ghost before = sorted@;
        let ghost seen = positions@.subrange(0, i as int);
        let ghost seen_next = positions@.subrange(0, i + 1);
        let mut k: usize = 0;
        while k < sorted.len() && comes_before(sorted[k], p)
            invariant
                k <= sorted.len(),
                forall|j: int| 0 <= j < k ==> (#[trigger] sorted@[j]).precedes(p),
            decreases sorted.len() - k,
        {
            k = k + 1;
        }
        assert(seen_next =~= seen.push(p));
        if k < sorted.len() && sorted[k].x == p.x && sorted[k].y == p.y {
            proof {
                assert(before[k as int] == p);
                assert forall|q: Position| before.contains(q) <==> seen_next.contains(q) by {
                    if seen_next.contains(q) {
                        let j = choose|j: int| 0 <= j < seen_next.len() && seen_next[j] == q;
                        if j < seen.len() {
                            assert(seen[j] == q);
                            assert(seen.contains(q));
                        } else {
                            assert(q == p);
                            assert(before.contains(q));
                        }
                    }
                    if before.contains(q) {
                        assert(seen.contains(q));
                        let j = choose|j: int| 0 <= j < seen.len() && seen[j] == q;
                        assert(seen_next[j] == q);
                    }
                }
            }
        } else {
            sorted.insert(k, p);
            proof {
                let after = sorted@;
                assert(after == before.insert(k as int, p));
                assert forall|a: int, b: int| 0 <= a < b < after.len() implies after[a].precedes(
                    after[b],
                ) by {
                    if b < k {
                        assert(after[a] == before[a] && after[b] == before[b]);
                    } else if b == k {
                        assert(after[a] == before[a]);
                    } else if a < k {
                        assert(after[a] == before[a] && after[b] == before[b - 1]);
                        if b - 1 > a {
                            assert(before[a].precedes(before[b - 1]));
                        }
                        assert(before[a].precedes(p));
                        if b - 1 > k {
                            assert(before[k as int].precedes(before[b - 1]));
                        }
                    } else if a == k {
                        assert(after[b] == before[b - 1]);
                        if b - 1 > k {
                            assert(before[k as int].precedes(before[b - 1]));
                        }
                    } else {
                        assert(after[a] == before[a - 1] && after[b] == before[b - 1]);
                    }
                }
                assert forall|q: Position| after.contains(q) <==> seen_next.contains(q) by {
                    if after.contains(q) {
                        let j = choose|j: int| 0 <= j < after.len() && after[j] == q;
                        if j == k {
                            assert(seen_next[i as int] == q);
                        } else {
                            if j < k {
                                assert(before[j] == q);
                            } else {
                                assert(before[j - 1] == q);
                            }
                            assert(before.contains(q));
                            assert(seen.contains(q));
                            let m = choose|m: int| 0 <= m < seen.len() && seen[m] == q;
                            assert(seen_next[m] == q);
                        }
                    }
                    if seen_next.contains(q) {
                        let j = choose|j: int| 0 <= j < seen_next.len() && seen_next[j] == q;
                        if j < seen.len() {
                            assert(seen[j] == q);
                            assert(seen.contains(q));
                            assert(before.contains(q));
                            let m = choose|m: int| 0 <= m < before.len() && before[m] == q;
                            if m < k {
                                assert(after[m] == q);
                            } else {
                                assert(after[m + 1] == q);
                            }
                        } else {
                            assert(after[k as int] == q);
                        }
                    }
                }
            }
        }
        i = i + 1;
    }
    assert(positions@.subrange(0, i as int) =~= positions@);
    sorted
}

/// Computes the maximum dimension required to hold the given positions.
fn compute_dimension(positions: &Vec<Position>) -> (dimension: Dimension)
    requires
        forall|i: int|
            0 <= i < positions.len() ==> (#[trigger] positions[i]).x < usize::MAX && positions[i].y
                < usize::MAX,
    ensures
        bounds_tightly(dimension, positions@),
{
    let mut dimension = Dimension::new(0, 0);
    let mut i: usize = 0;
    while i < positions.len()
        invariant
            i <= positions.len(),
            forall|j: int|
                0 <= j < positions.len() ==> (#[trigger] positions[j]).x < usize::MAX
                    && positions[j].y < usize::MAX,
            bounds_tightly(dimension, positions@.subrange(0, i as int)),
        decreases positions.len() - i,
    {
        let p = positions[i];
        let ghost seen = positions@.subrange(0, i as int);
        let ghost seen_next = positions@.subrange(0, i + 1);
        let ghost earlier = dimension;
        if p.x + 1 > dimension.width {
            dimension.width = p.x + 1;
        }
        if p.y + 1 > dimension.height {
            dimension.height = p.y + 1;
        }
        proof {
            assert(seen_next[i as int] == p);
            assert forall|j: int| 0 <= j < seen_next.len() implies dimension.spec_contains(
                #[trigger] seen_next[j],
            ) by {
                if j < i {
                    assert(seen[j] == seen_next[j]);
                    assert(earlier.spec_contains(seen[j]));
                }
            }
            if dimension.width > 0 && dimension.width == earlier.width {
                let j = choose|j: int| 0 <= j < seen.len() && (#[trigger] seen[j]).x + 1 == earlier.width;
                assert(seen_next[j] == seen[j]);
            }
            if dimension.height > 0 && dimension.height == earlier.height {
                let j = choose|j: int| 0 <= j < seen.len() && (#[trigger] seen[j]).y + 1 == earlier.height;
                assert(seen_next[j] == seen[j]);
            }
        }
        i = i + 1;
    }
    assert(positions@.subrange(0, i as int) =~= positions@);
    dimension
}

/// An iterator over the (transformed) positions of a `Piece`.
///
/// Its view is the sequence of positions that it has yet to yield.
#[derive(Debug)]
pub struct Positions<'a> {
    raw_positions: &'a Vec<Position>,
    next_index: usize,
    raw_dimension: Dimension,
    transformation: Transformation,
}

impl<'a> View for Positions<'a> {
    type V = Seq<Position>;

    closed spec fn view(&self) -> Seq<Position> {
        Seq::new(
            (self.raw_positions@.len() - self.next_index) as nat,
            |i: int|
                self.transformation.spec_apply(
                    self.raw_dimension,
                    self.raw_positions@[self.next_index + i],
                ),
        )
    }
}

impl<'a> Clone for Positions<'a> {
    /// An iterator that has the same positions left.
    fn clone(&self) -> (positions: Self)
        ensures
            positions@ == self@,
    {
        proof {
            use_type_invariant(self);
        }
        Positions {
            raw_positions: self.raw_positions,
            next_index: self.next_index,
            raw_dimension: self.raw_dimension,
            transformation: self.transformation,
        }
    }
}

impl<'a> Positions<'a> {
    #[verifier::type_invariant]
    spec fn type_inv(self) -> bool {
        &&& self.next_index <= self.raw_positions@.len()
        &&& forall|i: int|
            0 <= i < self.raw_positions@.len() ==> self.raw_dimension.spec_contains(
                #[trigger] self.raw_positions@[i],
            )
    }

    /// Yields the next position, if one is left.
    pub fn next(&mut self) -> (item: Option<Position>)
        ensures
            old(self)@.len() == 0 ==> item.is_none() && final(self)@ == old(self)@,
            old(self)@.len() > 0 ==> item == Some(old(self)@[0]) && final(self)@ == old(self)@.skip(
                1,
            ),
    {
        proof {
            use_type_invariant(&*self);
        }
        if self.next_index < self.raw_positions.len() {
            let p = self.raw_positions[self.next_index];
            proof {
                self.transformation.lemma_apply_stays_inside(self.raw_dimension, p);
            }
            let q = self.transformation.apply(self.raw_dimension, p);
            self.next_index = self.next_index + 1;
            assert(self@ =~= old(self)@.skip(1));
            Some(q)
        } else {
            None
        }
    }

    /// The bounds on the number of positions left: both are that number.
    pub fn size_hint(&self) -> (hint: (usize, Option<usize>))
        ensures
            hint.0 == self@.len(),
            hint.1 == Some(hint.0),
    {
        let n = self.len();
        (n, Some(n))
    }

    /// The number of positions left.
    pub fn len(&self) -> (n: usize)
        ensures
            n == self@.len(),
    {
        proof {
            use_type_invariant(self);
        }
        self.raw_positions.len() - self.next_index
    }
}

} // verus!

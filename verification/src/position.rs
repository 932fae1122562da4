//! Positions, dimensions and the transformations that place a piece.

use vstd::prelude::*;

verus! {

/// A position on the board or in a piece.
///
/// Origin is in the upper left.
#[derive(Debug, Clone, Copy, PartialEq, Eq, PartialOrd, Ord, Structural)]
pub struct Position {
    pub x: usize,
    pub y: usize,
}

impl Position {
    /// The sum of two positions as vectors, over the integers.
    pub open spec fn spec_translate(self, other: Position) -> (int, int) {
        (self.x + other.x, self.y + other.y)
    }

    /// The canonical order of positions: by `x`, then by `y`.
    pub open spec fn precedes(self, other: Position) -> bool {
        self.x < other.x || (self.x == other.x && self.y < other.y)
    }

    /// Creates a new position with the given x and y coordinates.
    pub fn new(x: usize, y: usize) -> (p: Self)
        ensures
            p.x == x,
            p.y == y,
    {
        Position { x, y }
    }

    /// Translates a position relative to another.
    ///
    /// (Like vector addition.)
    pub fn translate(self, other: Position) -> (p: Self)
        requires
            self.x + other.x <= usize::MAX,
            self.y + other.y <= usize::MAX,
        ensures
            (p.x as int, p.y as int) == self.spec_translate(other),
    {
        Position { x: self.x + other.x, y: self.y + other.y }
    }
}

/// The dimensions of a board or piece.
///
/// Origin is in the upper left.
#[derive(Debug, Clone, Copy, PartialEq, Eq, PartialOrd, Ord, Structural)]
pub struct Dimension {
    pub width: usize,
    pub height: usize,
}

impl Dimension {
    /// Whether `p` is one of the cells of a grid with these extents.
    pub open spec fn spec_contains(self, p: Position) -> bool {
        p.x < self.width && p.y < self.height
    }

    /// The dimension with width and height exchanged.
    pub open spec fn spec_transpose(self) -> Dimension {
        Dimension { width: self.height, height: self.width }
    }

    /// Creates a new `Dimension` with the given width and height.
    pub fn new(width: usize, height: usize) -> (d: Self)
        ensures
            d.width == width,
            d.height == height,
    {
        Dimension { width, height }
    }

    /// Creates the `Dimension` of a square with the given side.
    pub fn square(size: usize) -> (d: Self)
        ensures
            d.width == size,
            d.height == size,
    {
        Dimension { width: size, height: size }
    }

    /// Is the given `Position` within the given `Dimension`?
    #[verifier::when_used_as_spec(spec_contains)]
    pub fn contains(self, p: Position) -> (b: bool)
        ensures
            b == self.spec_contains(p),
    {
        p.x < self.width && p.y < self.height
    }

    /// Transposes (swaps) the width and height.
    #[verifier::when_used_as_spec(spec_transpose)]
    pub fn transpose(self) -> (d: Self)
        ensures
            d == self.spec_transpose(),
    {
        Dimension { width: self.height, height: self.width }
    }
}

/// A clockwise rotation by a multiple of a quarter turn.
#[derive(Debug, Copy, Clone, PartialEq, Eq, Structural)]
pub enum Rotation {
    NoRotation,
    Clockwise90,
    Clockwise180,
    Clockwise270,
}

impl Rotation {
    /// Whether the rotation is by a multiple of a half turn, and so keeps
    /// width and height in place.
    pub open spec fn spec_is_even(self) -> bool {
        self == Rotation::NoRotation || self == Rotation::Clockwise180
    }

    /// The extents of a grid of dimension `d` after this rotation.
    pub open spec fn spec_apply_dim(self, d: Dimension) -> Dimension {
        if self.spec_is_even() {
            d
        } else {
            d.spec_transpose()
        }
    }

    /// The coordinates on which this rotation is computed within `d` without
    /// leaving the grid: those that the formula subtracts from an extent must
    /// lie below it.
    pub open spec fn admits(self, d: Dimension, p: Position) -> bool {
        match self {
            Rotation::NoRotation => true,
            Rotation::Clockwise90 => p.y < d.height,
            Rotation::Clockwise180 => p.x < d.width && p.y < d.height,
            Rotation::Clockwise270 => p.x < d.width,
        }
    }

    /// Where the cell `p` of a grid of dimension `d` lies after this rotation.
    pub open spec fn spec_apply(self, d: Dimension, p: Position) -> Position {
        match self {
            Rotation::NoRotation => p,
            Rotation::Clockwise90 => Position { x: (d.height - p.y - 1) as usize, y: p.x },
            Rotation::Clockwise180 => Position {
                x: (d.width - p.x - 1) as usize,
                y: (d.height - p.y - 1) as usize,
            },
            Rotation::Clockwise270 => Position { x: p.y, y: (d.width - p.x - 1) as usize },
        }
    }

    /// Applies this rotation to the given dimension.
    #[verifier::when_used_as_spec(spec_apply_dim)]
    pub fn apply_dim(self, d: Dimension) -> (r: Dimension)
        ensures
            r == self.spec_apply_dim(d),
    {
        if self.is_even() {
            d
        } else {
            d.transpose()
        }
    }

    /// Applies this rotation to the given position relative to the given dimension.
    #[verifier::when_used_as_spec(spec_apply)]
    pub fn apply(self, d: Dimension, p: Position) -> (r: Position)
        requires
            self.admits(d, p),
        ensures
            r == self.spec_apply(d, p),
    {
        match self {
            Rotation::NoRotation => Position::new(p.x, p.y),
            Rotation::Clockwise90 => Position::new(d.height - p.y - 1, p.x),
            Rotation::Clockwise180 => Position::new(d.width - p.x - 1, d.height - p.y - 1),
            Rotation::Clockwise270 => Position::new(p.y, d.width - p.x - 1),
        }
    }

    #[verifier::when_used_as_spec(spec_is_even)]
    fn is_even(self) -> (b: bool)
        ensures
            b == self.spec_is_even(),
    {
        self == Rotation::NoRotation || self == Rotation::Clockwise180
    }
}

/// A mirror image, or none.
#[derive(Debug, Copy, Clone, PartialEq, Eq, Structural)]
pub enum Flip {
    Identity,
    Horizontal,
}

impl Flip {
    /// The coordinates on which this flip is computed within `d` without
    /// leaving the grid.
    pub open spec fn admits(self, d: Dimension, p: Position) -> bool {
        match self {
            Flip::Identity => true,
            Flip::Horizontal => p.x < d.width,
        }
    }

    /// Where the cell `p` of a grid of dimension `d` lies after this flip.
    pub open spec fn spec_apply(self, d: Dimension, p: Position) -> Position {
        match self {
            Flip::Identity => p,
            Flip::Horizontal => Position { x: (d.width - p.x - 1) as usize, y: p.y },
        }
    }

    /// Applies this flip transformation to the given position within the given dimension.
    #[verifier::when_used_as_spec(spec_apply)]
    pub fn apply(self, d: Dimension, p: Position) -> (r: Position)
        requires
            self.admits(d, p),
        ensures
            r == self.spec_apply(d, p),
    {
        match self {
            Flip::Identity => Position::new(p.x, p.y),
            Flip::Horizontal => Position::new(d.width - p.x - 1, p.y),
        }
    }
}

/// Ways that a game piece can be positioned.
#[derive(Debug, Copy, Clone, PartialEq, Eq, Structural)]
pub struct Transformation {
    rotation: Rotation,
    flip: Flip,
}

impl Transformation {
    /// The rotation, which is applied first.
    pub closed spec fn rotation(self) -> Rotation {
        self.rotation
    }

    /// The flip, which is applied second, within the rotated dimension.
    pub closed spec fn flip(self) -> Flip {
        self.flip
    }

    /// The transformation that rotates by `rotation` and then flips by `flip`.
    pub closed spec fn spec_new(rotation: Rotation, flip: Flip) -> Transformation {
        Transformation { rotation, flip }
    }

    /// The transformation that changes nothing.
    pub open spec fn spec_identity() -> Transformation {
        Transformation::spec_new(Rotation::NoRotation, Flip::Identity)
    }

    /// The extents of a grid of dimension `d` after this transformation.
    pub open spec fn spec_apply_dim(self, d: Dimension) -> Dimension {
        self.rotation().spec_apply_dim(d)
    }

    /// The coordinates on which this transformation is computed within `d`
    /// without leaving the grid. Every cell of `d` is among them.
    pub open spec fn admits(self, d: Dimension, p: Position) -> bool {
        &&& self.rotation().admits(d, p)
        &&& self.flip().admits(self.rotation().spec_apply_dim(d), self.rotation().spec_apply(d, p))
    }

    /// Where the cell `p` of a grid of dimension `d` lies after this
    /// transformation: rotated, then flipped within the rotated dimension.
    pub open spec fn spec_apply(self, d: Dimension, p: Position) -> Position {
        self.flip().spec_apply(self.rotation().spec_apply_dim(d), self.rotation().spec_apply(d, p))
    }

    /// The cell of a grid of dimension `d` that this transformation sends to
    /// the cell `q` of the transformed grid.
    pub open spec fn spec_unapply(self, d: Dimension, q: Position) -> Position {
        let unflipped = self.flip().spec_apply(self.spec_apply_dim(d), q);
        match self.rotation() {
            Rotation::NoRotation => unflipped,
            Rotation::Clockwise90 => Rotation::Clockwise270.spec_apply(
                d.spec_transpose(),
                unflipped,
            ),
            Rotation::Clockwise180 => Rotation::Clockwise180.spec_apply(d, unflipped),
            Rotation::Clockwise270 => Rotation::Clockwise90.spec_apply(
                d.spec_transpose(),
                unflipped,
            ),
        }
    }

    /// Creates a new transformation as the composition of a rotation (first) and a flip (second).
    #[verifier::when_used_as_spec(spec_new)]
    pub fn new(rotation: Rotation, flip: Flip) -> (t: Self)
        ensures
            t == Transformation::spec_new(rotation, flip),
            t.rotation() == rotation,
            t.flip() == flip,
    {
        Transformation { rotation, flip }
    }

    /// The identity tranformation.
    #[verifier::when_used_as_spec(spec_identity)]
    pub fn identity() -> (t: Self)
        ensures
            t == Transformation::spec_identity(),
            t.rotation() == Rotation::NoRotation,
            t.flip() == Flip::Identity,
    {
        Transformation::new(Rotation::NoRotation, Flip::Identity)
    }

    /// Applies this transformation to a dimension.
    #[verifier::when_used_as_spec(spec_apply_dim)]
    pub fn apply_dim(self, d: Dimension) -> (r: Dimension)
        ensures
            r == self.spec_apply_dim(d),
    {
        self.rotation.apply_dim(d)
    }

    /// Applies this tranformation to a position within the given dimension.
    #[verifier::when_used_as_spec(spec_apply)]
    pub fn apply(self, d: Dimension, p: Position) -> (r: Position)
        requires
            self.admits(d, p),
        ensures
            r == self.spec_apply(d, p),
    {
        let Transformation { rotation, flip } = self;
        let p = rotation.apply(d, p);
        let d = rotation.apply_dim(d);
        flip.apply(d, p)
    }

    /// The two components of `new(rotation, flip)` are its arguments.
    pub proof fn lemma_new_components(rotation: Rotation, flip: Flip)
        ensures
            Transformation::spec_new(rotation, flip).rotation() == rotation,
            Transformation::spec_new(rotation, flip).flip() == flip,
    {
    }

    /// A transformation is computed on every cell of the grid it is applied
    /// to, and sends it to a cell of the transformed grid.
    pub proof fn lemma_apply_stays_inside(self, d: Dimension, p: Position)
        requires
            d.spec_contains(p),
        ensures
            self.admits(d, p),
            self.spec_apply_dim(d).spec_contains(self.spec_apply(d, p)),
    {
    }

    /// The identity transformation is a no-op on both positions and
    /// dimensions.
    pub proof fn lemma_identity_is_noop(d: Dimension, p: Position)
        ensures
            Transformation::spec_identity().admits(d, p),
            Transformation::spec_identity().spec_apply(d, p) == p,
            Transformation::spec_identity().spec_apply_dim(d) == d,
    {
    }

    /// A transformation undone: `spec_unapply` gives back the cell that
    /// `spec_apply` was given.
    pub proof fn lemma_unapply_apply(self, d: Dimension, p: Position)
        requires
            d.spec_contains(p),
        ensures
            self.spec_unapply(d, self.spec_apply(d, p)) == p,
    {
    }

    /// No two cells of a grid are sent to the same cell.
    pub proof fn lemma_apply_is_injective(self, d: Dimension, p: Position, q: Position)
        requires
            d.spec_contains(p),
            d.spec_contains(q),
            self.spec_apply(d, p) == self.spec_apply(d, q),
        ensures
            p == q,
    {
        self.lemma_unapply_apply(d, p);
        self.lemma_unapply_apply(d, q);
    }

    /// Every cell of the transformed grid is the image of a cell of the grid,
    /// namely of `spec_unapply` of it. Together with
    /// `lemma_apply_stays_inside` and `lemma_apply_is_injective` this makes a
    /// transformation a bijection from the cells of a grid onto the cells of
    /// the transformed grid.
    pub proof fn lemma_apply_is_surjective(self, d: Dimension, q: Position)
        requires
            self.spec_apply_dim(d).spec_contains(q),
        ensures
            d.spec_contains(self.spec_unapply(d, q)),
            self.spec_apply(d, self.spec_unapply(d, q)) == q,
            exists|p: Position| d.spec_contains(p) && #[trigger] self.spec_apply(d, p) == q,
    {
        let p = self.spec_unapply(d, q);
        assert(d.spec_contains(p) && self.spec_apply(d, p) == q);
    }
}

impl Default for Transformation {
    fn default() -> (t: Self)
        ensures
            t == Transformation::spec_identity(),
    {
        Self::identity()
    }
}

} // verus!

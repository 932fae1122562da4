//! The queue of pieces to choose from.

use rand::ThreadRng;
use std::collections::VecDeque;
use vstd::prelude::*;

use crate::piece::examples::{
    piece0, piece1, piece2, piece3, piece4, spec_piece0, spec_piece1, spec_piece2, spec_piece3,
    spec_piece4,
};
use crate::piece::{Piece, PieceView};
use crate::shuffle::{
    are_picks, draw_picks, lemma_shuffled_keeps_items, shuffle_vec_deque_with, shuffled,
};
use crate::result::{PlayerError, QResult};

verus! {

/// The default depth at which we can take pieces (0-based).
pub const DEFAULT_DEPTH: usize = 2;

/// What a piece board is, built or yet to be built: the pieces from the front
/// of the queue to its back, and the depth down to which they can be taken.
pub struct PieceBoardView {
    /// The pieces, the first to be taken in front.
    pub pieces: Seq<Piece>,
    /// The allowed take depth.
    pub depth: usize,
}

/// What each of the pieces is, in their order.
pub open spec fn views(pieces: Seq<Piece>) -> Seq<PieceView> {
    Seq::new(pieces.len(), |i: int| pieces[i]@)
}

/// What the default set of pieces is, in its order.
pub open spec fn spec_default_pieces() -> Seq<PieceView> {
    seq![spec_piece0(), spec_piece1(), spec_piece2(), spec_piece3(), spec_piece4()]
}

/// The default set of pieces, in its order.
pub fn default_pieces() -> (pieces: Vec<Piece>)
    ensures
        views(pieces@) == spec_default_pieces(),
{
    let mut pieces: Vec<Piece> = Vec::new();
    pieces.push(piece0());
    pieces.push(piece1());
    pieces.push(piece2());
    pieces.push(piece3());
    pieces.push(piece4());
    assert(views(pieces@) =~= spec_default_pieces());
    pieces
}

/// Builder for constructing and configuring [`PieceBoard`](struct.PieceBoard.html)s.
#[derive(Debug, Clone, Eq, PartialEq)]
pub struct PieceBoardBuilder {
    piece_queue: VecDeque<Piece>,
    depth: usize,
}

impl View for PieceBoardBuilder {
    type V = PieceBoardView;

    closed spec fn view(&self) -> PieceBoardView {
        PieceBoardView { pieces: self.piece_queue@, depth: self.depth }
    }
}

impl PieceBoardBuilder {
    /// Will build a `PieceBoard` with the default depth and default set of pieces.
    pub fn new() -> (builder: Self)
        ensures
            builder@.depth == DEFAULT_DEPTH,
            views(builder@.pieces) == spec_default_pieces(),
    {
        let result = Self::empty();
        let pieces = default_pieces();
        let ghost added = pieces@;
        let builder = result.extend(pieces);
        assert(builder@.pieces =~= added);
        builder
    }

    /// Will build a `PieceBoard` with the default depth and no pieces.
    pub fn empty() -> (builder: Self)
        ensures
            builder@.depth == DEFAULT_DEPTH,
            builder@.pieces == Seq::<Piece>::empty(),
    {
        PieceBoardBuilder { piece_queue: VecDeque::new(), depth: DEFAULT_DEPTH }
    }

    /// Sets the piece taking depth.
    pub fn depth(self, depth: usize) -> (builder: Self)
        ensures
            builder@.depth == depth,
            builder@.pieces == self@.pieces,
    {
        let mut builder = self;
        builder.depth = depth;
        builder
    }

    /// Adds the given sequence of pieces to the piece queue.
    pub fn extend(self, pieces: Vec<Piece>) -> (builder: Self)
        ensures
            builder@.depth == self@.depth,
            builder@.pieces == self@.pieces + pieces@,
    {
        let ghost queued = self.piece_queue@;
        let ghost added = pieces@;
        let ghost depth = self.depth;
        let mut builder = self;
        for piece in it: pieces
            invariant
                it.seq() == added,
                builder.depth == depth,
                builder.piece_queue@ == queued + added.take(it.index() as int),
        {
            builder.piece_queue.push_back(piece);
            assert(added.take(it.index() + 1) =~= added.take(it.index() as int).push(piece));
        }
        assert(added.take(added.len() as int) =~= added);
        builder
    }

    /// Remove all pieces from the builder.
    pub fn clear(self) -> (builder: Self)
        ensures
            builder@.depth == self@.depth,
            builder@.pieces == Seq::<Piece>::empty(),
    {
        let mut builder = self;
        builder.piece_queue = VecDeque::new();
        builder
    }

    /// Builds the `PieceBoard`, shuffling the pieces.
    ///
    /// Whatever their order, the pieces of the board are those of the builder.
    pub fn build(self) -> (board: PieceBoard)
        ensures
            board@.depth == self@.depth,
            board@.pieces.len() == self@.pieces.len(),
            board@.pieces.to_multiset() == self@.pieces.to_multiset(),
    {
        let mut builder = self;
        let mut rng = rand::thread_rng();
        shuffle(&mut rng, &mut builder.piece_queue);
        builder.build_in_order()
    }

    /// Builds the `PieceBoard` without shuffling the pieces.
    pub fn build_in_order(self) -> (board: PieceBoard)
        ensures
            board@ == self@,
    {
        PieceBoard { piece_queue: self.piece_queue, depth: self.depth }
    }
}

/// [Fisher-Yates shuffle](https://en.wikipedia.org/wiki/Fisher%E2%80%93Yates_shuffle).
///
/// From the last index down, each element is exchanged with one drawn from
/// those at or below it. Whatever is drawn, the queue is what
/// `shuffle_vec_deque_with` makes of it with the numbers drawn, and so holds
/// afterwards what it held before.
fn shuffle<T>(rng: &mut ThreadRng, vd: &mut VecDeque<T>)
    ensures
        exists|picks: Seq<usize>|
            are_picks(picks, old(vd)@.len()) && final(vd)@ == #[trigger] shuffled(
                old(vd)@,
                picks,
            ),
        final(vd)@.len() == old(vd)@.len(),
        final(vd)@.to_multiset() == old(vd)@.to_multiset(),
{
    let picks = draw_picks(rng, vd.len());
    shuffle_vec_deque_with(vd, &picks);
    proof {
        lemma_shuffled_keeps_items(old(vd)@, picks@);
        assert(are_picks(picks@, old(vd)@.len()) && vd@ == shuffled(old(vd)@, picks@));
    }
}

/// The queue of [`Piece`](../piece/struct.Piece.html)s to be taken.
///
/// Configure and construct with [`PieceBoardBuilder`](struct.PieceBoardBuilder.html).
#[derive(Debug, Clone, Eq, PartialEq)]
pub struct PieceBoard {
    piece_queue: VecDeque<Piece>,
    depth: usize,
}

impl View for PieceBoard {
    type V = PieceBoardView;

    closed spec fn view(&self) -> PieceBoardView {
        PieceBoardView { pieces: self.piece_queue@, depth: self.depth }
    }
}

impl PieceBoardView {
    /// Whether the piece at `depth` can be taken, and if not, why not: a
    /// depth beyond the allowed one is refused first, then one at which the
    /// queue holds no piece.
    pub open spec fn take_verdict(self, depth: usize) -> QResult<()> {
        if depth > self.depth {
            Err(PlayerError::TakeOverDepth)
        } else if depth >= self.pieces.len() {
            Err(PlayerError::OutOfPieces)
        } else {
            Ok(())
        }
    }

    /// Taking a piece keeps the others in their order: any two pieces other
    /// than the one taken are still in the queue, the one that stood nearer
    /// the front still nearer the front, each moved up by one place if it
    /// stood behind the one taken.
    pub proof fn lemma_take_keeps_order(self, depth: int, i: int, j: int)
        requires
            0 <= depth < self.pieces.len(),
            0 <= i < j < self.pieces.len(),
            i != depth,
            j != depth,
        ensures
            ({
                let rest = self.pieces.remove(depth);
                let new_i = if i < depth {
                    i
                } else {
                    i - 1
                };
                let new_j = if j < depth {
                    j
                } else {
                    j - 1
                };
                &&& rest.len() == self.pieces.len() - 1
                &&& 0 <= new_i < new_j < rest.len()
                &&& rest[new_i] == self.pieces[i]
                &&& rest[new_j] == self.pieces[j]
            }),
    {
    }
}

impl PieceBoard {
    /// Checks whether no pieces remain.
    pub fn is_empty(&self) -> (b: bool)
        ensures
            b == (self@.pieces.len() == 0),
    {
        self.piece_queue.len() == 0
    }

    /// Gets the number of pieces remaining.
    pub fn len(&self) -> (n: usize)
        ensures
            n == self@.pieces.len(),
    {
        self.piece_queue.len()
    }

    /// Gets the allowed take depth.
    pub fn depth(&self) -> (depth: usize)
        ensures
            depth == self@.depth,
    {
        self.depth
    }

    /// Gets an iterator over the available pieces in order.
    pub fn pieces(&self) -> (pieces: Pieces<'_>)
        ensures
            pieces@ == self@.pieces,
    {
        let pieces = Pieces { queue: &self.piece_queue, front: 0, back: self.piece_queue.len() };
        assert(pieces@ =~= self@.pieces);
        pieces
    }

    /// Takes the `depth`th piece, if possible.
    ///
    /// The pieces in front of it stay in front, in their order, and so do
    /// those behind it. Where no piece can be taken the queue stays as it was.
    pub fn take(&mut self, depth: usize) -> (r: QResult<Piece>)
        ensures
            final(self)@.depth == old(self)@.depth,
            match r {
                Ok(piece) => {
                    &&& old(self)@.take_verdict(depth).is_ok()
                    &&& piece == old(self)@.pieces[depth as int]
                    &&& final(self)@.pieces == old(self)@.pieces.remove(depth as int)
                },
                Err(error) => {
                    &&& old(self)@.take_verdict(depth) == Err::<(), PlayerError>(error)
                    &&& final(self)@ == old(self)@
                },
            },
    {
        if depth > self.depth {
            Err(PlayerError::TakeOverDepth)
        } else if depth >= self.piece_queue.len() {
            Err(PlayerError::OutOfPieces)
        } else {
            let ghost before = self.piece_queue@;
            let mut stack: Vec<Piece> = Vec::new();
            let mut taken: usize = 0;
            while taken < depth
                invariant
                    taken <= depth < before.len(),
                    self.depth == old(self).depth,
                    stack@ == before.subrange(0, taken as int),
                    self.piece_queue@ == before.subrange(taken as int, before.len() as int),
                decreases depth - taken,
            {
                let piece = self.piece_queue.pop_front().unwrap();
                stack.push(piece);
                taken = taken + 1;
                assert(stack@ =~= before.subrange(0, taken as int));
                assert(self.piece_queue@ =~= before.subrange(taken as int, before.len() as int));
            }
            let result = self.piece_queue.pop_front().unwrap();
            assert(self.piece_queue@ =~= before.subrange(depth + 1, before.len() as int));
            while stack.len() > 0
                invariant
                    depth < before.len(),
                    self.depth == old(self).depth,
                    stack@.len() <= depth,
                    stack@ == before.subrange(0, stack@.len() as int),
                    self.piece_queue@ == before.subrange(stack@.len() as int, depth as int)
                        + before.subrange(depth + 1, before.len() as int),
                decreases stack.len(),
            {
                let piece = stack.pop().unwrap();
                self.piece_queue.push_front(piece);
                assert(stack@ =~= before.subrange(0, stack@.len() as int));
                assert(self.piece_queue@ =~= before.subrange(stack@.len() as int, depth as int)
                    + before.subrange(depth + 1, before.len() as int));
            }
            assert(self.piece_queue@ =~= before.remove(depth as int));
            Ok(result)
        }
    }
}

/// An iterator over the pieces of a [`PieceBoard`](struct.PieceBoard.html) in order.
///
/// Its view is the sequence of pieces that it has yet to yield.
#[derive(Debug)]
pub struct Pieces<'a> {
    queue: &'a VecDeque<Piece>,
    front: usize,
    back: usize,
}

impl<'a> View for Pieces<'a> {
    type V = Seq<Piece>;

    closed spec fn view(&self) -> Seq<Piece> {
        self.queue@.subrange(self.front as int, self.back as int)
    }
}

impl<'a> Clone for Pieces<'a> {
    /// An iterator that has the same pieces left.
    fn clone(&self) -> (pieces: Self)
        ensures
            pieces@ == self@,
    {
        proof {
            use_type_invariant(self);
        }
        Pieces { queue: self.queue, front: self.front, back: self.back }
    }
}

impl<'a> Pieces<'a> {
    #[verifier::type_invariant]
    spec fn type_inv(self) -> bool {
        self.front <= self.back <= self.queue@.len()
    }

    /// Yields the next piece from the front, if one is left.
    pub fn next(&mut self) -> (item: Option<&'a Piece>)
        ensures
            old(self)@.len() == 0 ==> item.is_none() && final(self)@ == old(self)@,
            old(self)@.len() > 0 ==> item == Some(&old(self)@[0]) && final(self)@ == old(
                self,
            )@.skip(1),
    {
        proof {
            use_type_invariant(&*self);
        }
        if self.front < self.back {
            self.front = self.front + 1;
            assert(self@ =~= old(self)@.skip(1));
            Some(&self.queue[self.front - 1])
        } else {
            None
        }
    }

    /// The bounds on the number of pieces left: both are that number.
    pub fn size_hint(&self) -> (hint: (usize, Option<usize>))
        ensures
            hint.0 == self@.len(),
            hint.1 == Some(hint.0),
    {
        let n = self.len();
        (n, Some(n))
    }

    /// The number of pieces left.
    pub fn len(&self) -> (n: usize)
        ensures
            n == self@.len(),
    {
        proof {
            use_type_invariant(self);
        }
        self.back - self.front
    }

    /// Yields the next piece from the back, if one is left.
    pub fn next_back(&mut self) -> (item: Option<&'a Piece>)
        ensures
            old(self)@.len() == 0 ==> item.is_none() && final(self)@ == old(self)@,
            old(self)@.len() > 0 ==> item == Some(&old(self)@.last()) && final(self)@ == old(
                self,
            )@.drop_last(),
    {
        proof {
            use_type_invariant(&*self);
        }
        if self.front < self.back {
            self.back = self.back - 1;
            assert(self@ =~= old(self)@.drop_last());
            Some(&self.queue[self.back])
        } else {
            None
        }
    }
}

impl Default for PieceBoardBuilder {
    /// The builder with the default depth and the default set of pieces.
    fn default() -> (builder: Self)
        ensures
            builder@.depth == DEFAULT_DEPTH,
            views(builder@.pieces) == spec_default_pieces(),
    {
        PieceBoardBuilder::new()
    }
}

impl Default for PieceBoard {
    /// The board with the default depth and the default set of pieces,
    /// shuffled.
    fn default() -> (board: Self)
        ensures
            board@.depth == DEFAULT_DEPTH,
            board@.pieces.len() == spec_default_pieces().len(),
            exists|pieces: Seq<Piece>|
                views(pieces) == spec_default_pieces() && board@.pieces.to_multiset()
                    == pieces.to_multiset(),
    {
        let builder = PieceBoardBuilder::new();
        let ghost pieces = builder@.pieces;
        let board = builder.build();
        assert(views(pieces) == spec_default_pieces() && board@.pieces.to_multiset()
            == pieces.to_multiset());
        assert(pieces.len() == views(pieces).len());
        board
    }
}

} // verus!

//! The board along which players’ pieces move, tracking time.

use vstd::multiset::Multiset;
use vstd::prelude::*;

use crate::piece::{Piece, PieceView};
use crate::player::{players_in_order, PlayOrder, Player, Players, DEFAULT_NPLAYERS};

verus! {

/// What a square is: the piece it still grants, whether it pays, and the
/// players on it from the bottom of their stack to its top.
pub struct SquareView {
    /// The piece to get if landing on or passing this square for the first time.
    pub piece: Option<Piece>,
    /// Whether to collect money when landing on or passing this square.
    pub collect: bool,
    /// The players currently sitting on this square, the next to play last.
    pub players: Seq<Player>,
}

/// The number of player tokens on the squares from `lo` up to, but without, `hi`.
pub open spec fn tokens_between(s: Seq<SquareView>, lo: int, hi: int) -> nat
    decreases hi - lo,
{
    if hi <= lo {
        0
    } else {
        tokens_between(s, lo, hi - 1) + s[hi - 1].players.len()
    }
}

/// The players on the squares from `lo` up to, but without, `hi`, each as
/// often as it stands there.
pub open spec fn players_between(s: Seq<SquareView>, lo: int, hi: int) -> Multiset<Player>
    decreases hi - lo,
{
    if hi <= lo {
        Multiset::empty()
    } else {
        players_between(s, lo, hi - 1).add(s[hi - 1].players.to_multiset())
    }
}

/// The players on the board, each as often as it stands there.
pub open spec fn all_players(s: Seq<SquareView>) -> Multiset<Player> {
    players_between(s, 0, s.len() as int)
}

/// The index of the first square at or after `k` that holds a player, or the
/// number of squares where there is none.
pub open spec fn occupied_from(s: Seq<SquareView>, k: int) -> int
    decreases s.len() - k,
{
    if k >= s.len() {
        s.len() as int
    } else if s[k].players.len() > 0 {
        k
    } else {
        occupied_from(s, k + 1)
    }
}

/// Whether the squares make a time board: there is a square, and there are
/// at least two players on the squares.
pub open spec fn is_track(s: Seq<SquareView>) -> bool {
    &&& s.len() >= 1
    &&& tokens_between(s, 0, s.len() as int) >= 2
}

/// The index of the square of the player whose turn it is: the first square
/// that holds a player.
pub open spec fn current_index(s: Seq<SquareView>) -> int {
    occupied_from(s, 0)
}

/// The index of the square of the player whose turn will be next: the
/// current square where it holds another player, else the next square that
/// holds one.
pub open spec fn next_index(s: Seq<SquareView>) -> int {
    if s[current_index(s)].players.len() > 1 {
        current_index(s)
    } else {
        occupied_from(s, current_index(s) + 1)
    }
}

/// Whether the game is over: the current player is in the last square.
pub open spec fn is_over(s: Seq<SquareView>) -> bool {
    current_index(s) == s.len() - 1
}

/// The number of players that have not reached the last square.
pub open spec fn tokens_short_of_end(s: Seq<SquareView>) -> nat {
    tokens_between(s, 0, s.len() - 1)
}

/// The index of the square on which the current player lands after a move by
/// `distance`: that many squares on, but never beyond the last square.
pub open spec fn landing_index(s: Seq<SquareView>, distance: int) -> int {
    if current_index(s) + distance < s.len() - 1 {
        current_index(s) + distance
    } else {
        s.len() - 1
    }
}

/// The pieces that the squares from `lo` up to, but without, `hi` grant, in
/// the order of the squares.
pub open spec fn granted_between(s: Seq<SquareView>, lo: int, hi: int) -> Seq<Piece>
    decreases hi - lo,
{
    if hi <= lo {
        Seq::empty()
    } else {
        match s[hi - 1].piece {
            Some(piece) => granted_between(s, lo, hi - 1).push(piece),
            None => granted_between(s, lo, hi - 1),
        }
    }
}

/// The number of squares from `lo` up to, but without, `hi` that pay.
pub open spec fn collects_between(s: Seq<SquareView>, lo: int, hi: int) -> nat
    decreases hi - lo,
{
    if hi <= lo {
        0
    } else if s[hi - 1].collect {
        collects_between(s, lo, hi - 1) + 1
    } else {
        collects_between(s, lo, hi - 1)
    }
}

/// The squares after the player on top of square `start` has moved to the top
/// of square `stop` and has taken the pieces of the squares behind `start`
/// and before `upto`. What pays goes on paying.
pub open spec fn moved_between(
    s: Seq<SquareView>,
    start: int,
    stop: int,
    upto: int,
) -> Seq<SquareView> {
    Seq::new(
        s.len(),
        |i: int|
            SquareView {
                piece: if start < i < upto {
                    None
                } else {
                    s[i].piece
                },
                collect: s[i].collect,
                players: if i == start {
                    s[i].players.drop_last()
                } else if i == stop {
                    s[i].players.push(s[start].players.last())
                } else {
                    s[i].players
                },
            },
    )
}

/// The squares after the current player has moved by `distance`: its token
/// lies on top of the landing square, and every square behind the one it
/// left, up to the landing square, has given its piece away.
pub open spec fn moved(s: Seq<SquareView>, distance: int) -> Seq<SquareView> {
    moved_between(s, current_index(s), landing_index(s, distance), landing_index(s, distance) + 1)
}

/// The tokens of a stretch are those of its two parts.
pub proof fn lemma_tokens_split(s: Seq<SquareView>, lo: int, mid: int, hi: int)
    requires
        lo <= mid <= hi,
    ensures
        tokens_between(s, lo, hi) == tokens_between(s, lo, mid) + tokens_between(s, mid, hi),
    decreases hi - mid,
{
    if mid < hi {
        lemma_tokens_split(s, lo, mid, hi - 1);
    }
}

/// A stretch holds no token exactly where each of its squares is empty.
pub proof fn lemma_tokens_none(s: Seq<SquareView>, lo: int, hi: int)
    ensures
        tokens_between(s, lo, hi) == 0 <==> forall|i: int|
            lo <= i < hi ==> (#[trigger] s[i]).players.len() == 0,
    decreases hi - lo,
{
    if lo < hi {
        lemma_tokens_none(s, lo, hi - 1);
        if tokens_between(s, lo, hi) == 0 {
            assert forall|i: int| lo <= i < hi implies (#[trigger] s[i]).players.len() == 0 by {
                if i < hi - 1 {
                } else {
                    assert(s[hi - 1].players.len() == 0);
                }
            }
        }
        if forall|i: int| lo <= i < hi ==> (#[trigger] s[i]).players.len() == 0 {
            assert(s[hi - 1].players.len() == 0);
        }
    }
}

/// Two stretches whose squares hold as many players each hold as many tokens.
pub proof fn lemma_tokens_agree(s: Seq<SquareView>, t: Seq<SquareView>, lo: int, hi: int)
    requires
        forall|i: int| lo <= i < hi ==> (#[trigger] s[i]).players.len() == t[i].players.len(),
    ensures
        tokens_between(s, lo, hi) == tokens_between(t, lo, hi),
    decreases hi - lo,
{
    if lo < hi {
        lemma_tokens_agree(s, t, lo, hi - 1);
        assert(s[hi - 1].players.len() == t[hi - 1].players.len());
    }
}

/// What `occupied_from` finds: no square from `k` up to it holds a player, and
/// it holds one unless it is the number of squares.
pub proof fn lemma_occupied_from(s: Seq<SquareView>, k: int)
    requires
        0 <= k <= s.len(),
    ensures
        k <= occupied_from(s, k) <= s.len(),
        forall|i: int| k <= i < occupied_from(s, k) ==> (#[trigger] s[i]).players.len() == 0,
        occupied_from(s, k) < s.len() ==> s[occupied_from(s, k)].players.len() > 0,
        tokens_between(s, k, s.len() as int) > 0 ==> occupied_from(s, k) < s.len(),
    decreases s.len() - k,
{
    if k < s.len() && s[k].players.len() == 0 {
        lemma_occupied_from(s, k + 1);
    }
    if occupied_from(s, k) == s.len() {
        lemma_tokens_none(s, k, s.len() as int);
    }
}

/// On a time board there is a current player, on the first square that holds
/// one; and the player that comes next is on a square too, the same or a
/// later one.
pub proof fn lemma_turn_order(s: Seq<SquareView>)
    requires
        is_track(s),
    ensures
        0 <= current_index(s) < s.len(),
        s[current_index(s)].players.len() > 0,
        forall|i: int| 0 <= i < current_index(s) ==> (#[trigger] s[i]).players.len() == 0,
        current_index(s) <= next_index(s) < s.len(),
        s[current_index(s)].players.len() == 1 ==> current_index(s) < next_index(s)
            && s[next_index(s)].players.len() > 0 && forall|i: int|
            current_index(s) < i < next_index(s) ==> (#[trigger] s[i]).players.len() == 0,
{
    let n = s.len() as int;
    lemma_occupied_from(s, 0);
    let cur = current_index(s);
    if s[cur].players.len() == 1 {
        lemma_tokens_split(s, 0, cur, n);
        lemma_tokens_split(s, cur, cur + 1, n);
        lemma_tokens_none(s, 0, cur);
        assert(tokens_between(s, cur, cur + 1) == 1) by {
            assert(tokens_between(s, cur, cur) == 0);
        }
        lemma_occupied_from(s, cur + 1);
    }
}

/// The game is over exactly where no player is short of the last square.
pub proof fn lemma_over_iff_none_short(s: Seq<SquareView>)
    requires
        is_track(s),
    ensures
        is_over(s) <==> tokens_short_of_end(s) == 0,
{
    lemma_turn_order(s);
    lemma_tokens_none(s, 0, s.len() - 1);
}

/// A move keeps every token on the board. It makes the game end exactly when
/// the player that moves is the last that was short of the final square, and
/// lands on it.
pub proof fn lemma_move_ends_game(s: Seq<SquareView>, distance: int)
    requires
        is_track(s),
        !is_over(s),
        distance > 0,
    ensures
        is_track(moved(s, distance)),
        is_over(moved(s, distance)) <==> (tokens_short_of_end(s) == 1 && landing_index(s, distance)
            == s.len() - 1),
{
    let n = s.len() as int;
    let last = n - 1;
    let start = current_index(s);
    let stop = landing_index(s, distance);
    let after = moved(s, distance);
    lemma_turn_order(s);
    assert(start < stop <= last);
    // Start, between, stop and beyond, each stretch by itself.
    lemma_tokens_split(s, 0, start, n);
    lemma_tokens_split(s, start, start + 1, n);
    lemma_tokens_split(s, start + 1, stop, n);
    lemma_tokens_split(s, stop, stop + 1, n);
    lemma_tokens_split(after, 0, start, n);
    lemma_tokens_split(after, start, start + 1, n);
    lemma_tokens_split(after, start + 1, stop, n);
    lemma_tokens_split(after, stop, stop + 1, n);
    lemma_tokens_agree(s, after, 0, start);
    lemma_tokens_agree(s, after, start + 1, stop);
    lemma_tokens_agree(s, after, stop + 1, n);
    assert(tokens_between(s, start, start) == 0 && tokens_between(s, stop, stop) == 0);
    assert(tokens_between(after, start, start) == 0 && tokens_between(after, stop, stop) == 0);
    assert(tokens_between(after, start, start + 1) == tokens_between(s, start, start + 1) - 1);
    assert(tokens_between(after, stop, stop + 1) == tokens_between(s, stop, stop + 1) + 1);
    assert(tokens_between(after, 0, n) == tokens_between(s, 0, n));
    // The last square by itself.
    lemma_tokens_split(s, 0, last, n);
    lemma_tokens_split(after, 0, last, n);
    assert(tokens_between(s, last, last) == 0 && tokens_between(after, last, last) == 0);
    assert(tokens_between(s, last, n) == s[last].players.len());
    assert(tokens_between(after, last, n) == after[last].players.len());
    lemma_over_iff_none_short(s);
    lemma_over_iff_none_short(after);
}

/// The players of a stretch are those of its two parts.
pub proof fn lemma_players_split(s: Seq<SquareView>, lo: int, mid: int, hi: int)
    requires
        lo <= mid <= hi,
    ensures
        players_between(s, lo, hi) == players_between(s, lo, mid).add(
            players_between(s, mid, hi),
        ),
    decreases hi - mid,
{
    if mid < hi {
        lemma_players_split(s, lo, mid, hi - 1);
        assert(players_between(s, lo, hi) =~= players_between(s, lo, mid).add(
            players_between(s, mid, hi),
        ));
    } else {
        assert(players_between(s, lo, hi) =~= players_between(s, lo, mid).add(
            players_between(s, mid, hi),
        ));
    }
}

/// Two stretches whose squares hold the same players each hold the same
/// players.
pub proof fn lemma_players_agree(s: Seq<SquareView>, t: Seq<SquareView>, lo: int, hi: int)
    requires
        forall|i: int| lo <= i < hi ==> (#[trigger] s[i]).players == t[i].players,
    ensures
        players_between(s, lo, hi) == players_between(t, lo, hi),
    decreases hi - lo,
{
    if lo < hi {
        lemma_players_agree(s, t, lo, hi - 1);
        assert(s[hi - 1].players == t[hi - 1].players);
    }
}

/// There are as many tokens on a stretch as there are players on it.
pub proof fn lemma_tokens_are_players(s: Seq<SquareView>, lo: int, hi: int)
    ensures
        tokens_between(s, lo, hi) == players_between(s, lo, hi).len(),
    decreases hi - lo,
{
    if lo < hi {
        lemma_tokens_are_players(s, lo, hi - 1);
        s[hi - 1].players.to_multiset_ensures();
    }
}

/// A move changes where a player stands, not who stands on the board: the
/// players on the squares are the same before and after.
pub proof fn lemma_move_keeps_players(s: Seq<SquareView>, distance: int)
    requires
        is_track(s),
        !is_over(s),
        distance > 0,
    ensures
        all_players(moved(s, distance)) == all_players(s),
{
    let n = s.len() as int;
    let start = current_index(s);
    let stop = landing_index(s, distance);
    let after = moved(s, distance);
    let token = s[start].players.last();
    lemma_turn_order(s);
    assert(start < stop < n);
    lemma_players_split(s, 0, start, n);
    lemma_players_split(s, start, start + 1, n);
    lemma_players_split(s, start + 1, stop, n);
    lemma_players_split(s, stop, stop + 1, n);
    lemma_players_split(after, 0, start, n);
    lemma_players_split(after, start, start + 1, n);
    lemma_players_split(after, start + 1, stop, n);
    lemma_players_split(after, stop, stop + 1, n);
    lemma_players_agree(s, after, 0, start);
    lemma_players_agree(s, after, start + 1, stop);
    lemma_players_agree(s, after, stop + 1, n);
    assert(players_between(s, start, start + 1) =~= s[start].players.to_multiset()) by {
        assert(players_between(s, start, start) =~= Multiset::empty());
    }
    assert(players_between(s, stop, stop + 1) =~= s[stop].players.to_multiset()) by {
        assert(players_between(s, stop, stop) =~= Multiset::empty());
    }
    assert(players_between(after, start, start + 1) =~= after[start].players.to_multiset()) by {
        assert(players_between(after, start, start) =~= Multiset::empty());
    }
    assert(players_between(after, stop, stop + 1) =~= after[stop].players.to_multiset()) by {
        assert(players_between(after, stop, stop) =~= Multiset::empty());
    }
    // The token leaves the square it stood on and comes to the one it lands on.
    assert(after[start].players.to_multiset() =~= s[start].players.to_multiset().remove(token))
        by {
        s[start].players.to_multiset_ensures();
        assert(s[start].players.drop_last() =~= s[start].players.remove(
            s[start].players.len() - 1,
        ));
    }
    assert(after[stop].players.to_multiset() =~= s[stop].players.to_multiset().insert(token))
        by {
        s[stop].players.to_multiset_ensures();
    }
    assert(s[start].players.to_multiset().count(token) > 0) by {
        s[start].players.to_multiset_ensures();
        assert(s[start].players.contains(token));
    }
    assert(all_players(after) =~= all_players(s));
}

/// A single square on the time board.
#[derive(Debug, Clone, PartialEq, Eq)]
pub struct Square {
    /// The piece to get if landing on or passing this square for the first time.
    piece: Option<Piece>,
    /// Whether to collect money when landing on or passing this square.
    collect: bool,
    /// The players currently sitting on this square, in their order of play.
    players: PlayOrder,
}

impl View for Square {
    type V = SquareView;

    closed spec fn view(&self) -> SquareView {
        SquareView { piece: self.piece, collect: self.collect, players: self.players@ }
    }
}

impl Square {
    /// Creates a square without players that grants the given piece, if any,
    /// and pays or not.
    pub fn new(piece: Option<Piece>, collect: bool) -> (square: Self)
        ensures
            square@ == (SquareView { piece, collect, players: Seq::empty() }),
    {
        Square { piece, collect, players: PlayOrder::empty() }
    }

    /// Views the `Piece` to be taken when landing on or passing this square, if any.
    pub fn piece(&self) -> (piece: Option<&Piece>)
        ensures
            piece.is_some() == self@.piece.is_some(),
            piece.is_some() ==> *piece.unwrap() == self@.piece.unwrap(),
    {
        self.piece.as_ref()
    }

    /// Gets whether to collect money when landing on or passing this square.
    pub fn collect(&self) -> (collect: bool)
        ensures
            collect == self@.collect,
    {
        self.collect
    }

    /// Gets whether this square has a player on it.
    pub fn has_player(&self) -> (b: bool)
        ensures
            b == (self@.players.len() > 0),
    {
        !self.players.is_empty()
    }

    /// Gets the sequence of players waiting on this square.
    pub fn players(&self) -> (players: Players<'_>)
        ensures
            players@ == self@.players.reverse(),
    {
        self.players.players()
    }
}

/// The result of moving along the `PieceBoard`.
#[derive(Debug, Clone, PartialEq, Eq)]
pub struct MoveResult {
    /// Any pieces acquired from the move.
    pub pieces: Vec<Piece>,
    /// The number of collections resulting from the move.
    pub collects: usize,
    /// The actual distance moved.
    pub distance: usize,
}

/// What each of the squares is, in their order.
pub open spec fn views(squares: Seq<Square>) -> Seq<SquareView> {
    Seq::new(squares.len(), |i: int| squares[i]@)
}

/// What the default time board is before a player stands on it: fifteen
/// squares, of which those at 5, 7, 9 and 14 pay and that at 10 grants a piece
/// of one position.
pub open spec fn is_default_layout(s: Seq<SquareView>) -> bool {
    &&& s.len() == 15
    &&& forall|i: int|
        0 <= i < 15 ==> (#[trigger] s[i]).collect == (i == 5 || i == 7 || i == 9 || i == 14)
    &&& forall|i: int| 0 <= i < 15 ==> (#[trigger] s[i]).players.len() == 0
    &&& forall|i: int| 0 <= i < 15 && i != 10 ==> (#[trigger] s[i]).piece.is_none()
    &&& s[10].piece.is_some()
    &&& s[10].piece.unwrap()@ == PieceView::single_position()
}

/// The squares of the default time board, without players.
pub fn default_squares() -> (squares: Vec<Square>)
    ensures
        is_default_layout(views(squares@)),
{
    let mut squares: Vec<Square> = Vec::new();
    let mut i: usize = 0;
    while i < 15
        invariant
            i <= 15,
            squares.len() == i,
            forall|j: int|
                0 <= j < i ==> (#[trigger] squares[j])@.collect == (j == 5 || j == 7 || j == 9 || j
                    == 14),
            forall|j: int| 0 <= j < i ==> (#[trigger] squares[j])@.players.len() == 0,
            forall|j: int| 0 <= j < i && j != 10 ==> (#[trigger] squares[j])@.piece.is_none(),
            i > 10 ==> squares[10]@.piece.is_some() && squares[10]@.piece.unwrap()@
                == PieceView::single_position(),
        decreases 15 - i,
    {
        let piece = if i == 10 {
            Some(Piece::single_position())
        } else {
            None
        };
        let collect = i == 5 || i == 7 || i == 9 || i == 14;
        squares.push(Square::new(piece, collect));
        i = i + 1;
    }
    squares
}

/// Builder for constructing and configuring [`TimeBoard`](struct.TimeBoard.html)s.
///
/// Its view is what its squares are, in their order.
#[derive(Debug, Clone, PartialEq, Eq)]
pub struct TimeBoardBuilder {
    squares: Vec<Square>,
}

impl View for TimeBoardBuilder {
    type V = Seq<SquareView>;

    closed spec fn view(&self) -> Seq<SquareView> {
        views(self.squares@)
    }
}

impl TimeBoardBuilder {
    /// The squares that `build` makes of the squares `s`: the same, but for
    /// the first, on which the given players stand and no others.
    pub open spec fn spec_build(s: Seq<SquareView>, players: Seq<Player>) -> Seq<SquareView> {
        s.update(0, SquareView { piece: s[0].piece, collect: s[0].collect, players })
    }

    /// Where no player stands on the squares, the players on the board that
    /// `build` makes are those of the play order, all on the 0th square.
    pub proof fn lemma_build_places_players(s: Seq<SquareView>, players: Seq<Player>)
        requires
            s.len() >= 1,
            forall|i: int| 0 <= i < s.len() ==> (#[trigger] s[i]).players.len() == 0,
        ensures
            all_players(TimeBoardBuilder::spec_build(s, players)) == players.to_multiset(),
            forall|i: int|
                1 <= i < s.len() ==> (#[trigger] TimeBoardBuilder::spec_build(
                    s,
                    players,
                )[i]).players.len() == 0,
    {
        let built = TimeBoardBuilder::spec_build(s, players);
        let n = s.len() as int;
        lemma_players_split(built, 0, 1, n);
        lemma_tokens_are_players(built, 1, n);
        lemma_tokens_none(built, 1, n);
        assert(players_between(built, 0, 1) =~= players.to_multiset()) by {
            assert(players_between(built, 0, 0) =~= Multiset::empty());
        }
        assert(players_between(built, 1, n).len() == 0);
        assert(players_between(built, 1, n) =~= Multiset::empty()) by {
            vstd::multiset::lemma_multiset_empty_len(players_between(built, 1, n));
        }
        assert(all_players(built) =~= players.to_multiset());
    }

    /// Will build a `TimeBoard` with the default squares.
    pub fn new() -> (builder: Self)
        ensures
            is_default_layout(builder@),
    {
        TimeBoardBuilder { squares: default_squares() }
    }

    /// Will build a `TimeBoard` with no squares, unless some are added.
    pub fn empty() -> (builder: Self)
        ensures
            builder@ == Seq::<SquareView>::empty(),
    {
        let builder = TimeBoardBuilder { squares: Vec::new() };
        assert(builder@ =~= Seq::<SquareView>::empty());
        builder
    }

    /// Adds the given sequence of squares at the end of the time board.
    pub fn extend(self, squares: Vec<Square>) -> (builder: Self)
        ensures
            builder@ == self@ + views(squares@),
    {
        let ghost given = self.squares@;
        let ghost added = squares@;
        let mut builder = self;
        let mut squares = squares;
        builder.squares.append(&mut squares);
        assert(builder@ =~= views(given) + views(added));
        builder
    }

    /// Remove all squares from the builder.
    pub fn clear(self) -> (builder: Self)
        ensures
            builder@ == Seq::<SquareView>::empty(),
    {
        TimeBoardBuilder::empty()
    }

    /// Builds the `TimeBoard` with the given play order on the 0th square.
    ///
    /// There must be a square, and at least two players.
    pub fn build(self, play_order: PlayOrder) -> (board: TimeBoard)
        requires
            self@.len() >= 1,
            play_order@.len() >= 2,
        ensures
            board.wf(),
            board@ == TimeBoardBuilder::spec_build(self@, play_order@),
    {
        let mut squares = self.squares;
        squares[0].players = play_order;
        let board = TimeBoard { squares };
        proof {
            let s = board@;
            assert(s =~= TimeBoardBuilder::spec_build(self@, play_order@));
            lemma_tokens_split(s, 0, 1, s.len() as int);
            assert(tokens_between(s, 0, 1) == s[0].players.len()) by {
                assert(tokens_between(s, 0, 0) == 0);
            }
        }
        board
    }
}

impl Default for TimeBoardBuilder {
    /// The builder with the default squares.
    fn default() -> (builder: Self)
        ensures
            is_default_layout(builder@),
    {
        TimeBoardBuilder::new()
    }
}

/// The time board.
///
/// Its view is what its squares are, in their order.
#[derive(Debug, Clone, PartialEq, Eq)]
pub struct TimeBoard {
    squares: Vec<Square>,
}

impl View for TimeBoard {
    type V = Seq<SquareView>;

    closed spec fn view(&self) -> Seq<SquareView> {
        views(self.squares@)
    }
}

impl TimeBoard {
    /// The invariant of a time board: it has a square, and at least two
    /// players stand on its squares.
    ///
    /// It is a predicate that the functions demand and keep, since a move takes
    /// a player off one square before it puts it on another.
    pub open spec fn wf(&self) -> bool {
        is_track(self@)
    }

    /// Creates a new time board with the default configuration and the given play order on the
    /// 0th square.
    pub fn new(play_order: PlayOrder) -> (board: Self)
        requires
            play_order@.len() >= 2,
        ensures
            board.wf(),
            exists|layout: Seq<SquareView>|
                is_default_layout(layout) && board@ == TimeBoardBuilder::spec_build(
                    layout,
                    play_order@,
                ),
    {
        let builder = TimeBoardBuilder::new();
        let ghost layout = builder@;
        let board = builder.build(play_order);
        assert(is_default_layout(layout) && board@ == TimeBoardBuilder::spec_build(
            layout,
            play_order@,
        ));
        board
    }

    /// Views the squares of the time board.
    pub fn squares(&self) -> (squares: &[Square])
        ensures
            views(squares@) == self@,
    {
        self.squares.as_slice()
    }

    /// Gets the index of the last square.
    pub fn index_of_last_square(&self) -> (index: usize)
        requires
            self.wf(),
        ensures
            index == self@.len() - 1,
    {
        self.squares.len() - 1
    }

    /// Returns the board position of the player whose turn it is.
    ///
    /// If the game is over, this returns the index of the last square.
    pub fn index_of_current_player(&self) -> (index: usize)
        requires
            self.wf(),
        ensures
            index == current_index(self@),
            index < self@.len(),
            self@[index as int].players.len() > 0,
            forall|i: int| 0 <= i < index ==> (#[trigger] self@[i]).players.len() == 0,
    {
        proof {
            lemma_turn_order(self@);
        }
        let mut i: usize = 0;
        while !self.squares[i].has_player()
            invariant
                i <= current_index(self@) < self@.len(),
                self@.len() == self.squares.len(),
                self@[current_index(self@)].players.len() > 0,
                forall|j: int| 0 <= j < self@.len() ==> #[trigger] self@[j] == self.squares@[j]@,
            decreases self@.len() - i,
        {
            assert(self@[i as int].players.len() == 0);
            i = i + 1;
        }
        assert(self@[i as int].players.len() > 0);
        i
    }

    /// Is the current game over?
    ///
    /// This is true when the current player is in the last square.
    pub fn is_game_over(&self) -> (b: bool)
        requires
            self.wf(),
        ensures
            b == is_over(self@),
    {
        self.index_of_current_player() == self.index_of_last_square()
    }

    /// Gets a reference to the player whose turn it is.
    ///
    /// Returns `None` if the game is over.
    pub fn current_player(&self) -> (player: Option<&Player>)
        requires
            self.wf(),
        ensures
            is_over(self@) ==> player.is_none(),
            !is_over(self@) ==> player == Some(&self@[current_index(self@)].players.last()),
    {
        let i = self.index_of_current_player();
        if i == self.index_of_last_square() {
            None
        } else {
            assert(self@[i as int] == self.squares@[i as int]@);
            let mut players = self.squares[i].players();
            players.next()
        }
    }

    /// Returns the board position of the player whose turn will be next.
    ///
    /// This is the position that the current player must pass to complete their turn.
    pub fn index_of_next_player(&self) -> (index: usize)
        requires
            self.wf(),
        ensures
            index == next_index(self@),
            index < self@.len(),
    {
        proof {
            lemma_turn_order(self@);
        }
        let first_index = self.index_of_current_player();
        assert(self@[first_index as int] == self.squares@[first_index as int]@);
        if self.squares[first_index].players.len() > 1 {
            return first_index;
        }
        assert(next_index(self@) < self.squares.len());
        let mut i: usize = first_index + 1;
        while !self.squares[i].has_player()
            invariant
                first_index < i <= next_index(self@) < self@.len(),
                self@.len() == self.squares.len(),
                self@[next_index(self@)].players.len() > 0,
                forall|j: int| 0 <= j < self@.len() ==> #[trigger] self@[j] == self.squares@[j]@,
            decreases self@.len() - i,
        {
            assert(self@[i as int].players.len() == 0);
            i = i + 1;
        }
        assert(self@[i as int].players.len() > 0);
        i
    }

    /// Moves the player whose turn it is by the given distance, but not
    /// beyond the last square, and puts it on top of the players that stand
    /// where it lands.
    ///
    /// Each square that it passes or lands on gives its piece, if it still
    /// has one, and has none from then on; each such square that pays counts
    /// as one collection, now and every time again. The distance must not
    /// be 0 and the game must not be over.
    pub fn move_player(&mut self, distance: usize) -> (r: MoveResult)
        requires
            old(self).wf(),
            distance > 0,
            !is_over(old(self)@),
        ensures
            final(self).wf(),
            final(self)@ == moved(old(self)@, distance as int),
            r.distance == landing_index(old(self)@, distance as int) - current_index(old(self)@),
            r.collects == collects_between(
                old(self)@,
                current_index(old(self)@) + 1,
                landing_index(old(self)@, distance as int) + 1,
            ),
            r.pieces@ == granted_between(
                old(self)@,
                current_index(old(self)@) + 1,
                landing_index(old(self)@, distance as int) + 1,
            ),
    {
        let ghost before = self@;
        proof {
            lemma_turn_order(before);
            lemma_move_ends_game(before, distance as int);
        }
        let start = self.index_of_current_player();
        let last = self.index_of_last_square();
        let stop = if distance >= last - start {
            last
        } else {
            start + distance
        };
        assert(stop == landing_index(before, distance as int));
        assert(before[start as int] == self.squares@[start as int]@);
        assert(before[stop as int] == self.squares@[stop as int]@);

        let player = self.squares[start].players.pop().unwrap();
        self.squares[stop].players.push(player);

        let mut result = MoveResult { pieces: Vec::new(), collects: 0, distance: stop - start };
        assert(self@ =~= moved_between(before, start as int, stop as int, start + 1));

        let mut i: usize = start + 1;
        while i <= stop
            invariant
                start < i <= stop + 1,
                stop < before.len(),
                before.len() == self.squares.len(),
                self@ == moved_between(before, start as int, stop as int, i as int),
                result.distance == stop - start,
                result.collects == collects_between(before, start + 1, i as int),
                result.collects <= i - start - 1,
                result.pieces@ == granted_between(before, start + 1, i as int),
            decreases stop + 1 - i,
        {
            let ghost earlier = self.squares@;
            assert(self@[i as int] == earlier[i as int]@);
            let square = &mut self.squares[i];
            if let Some(piece) = square.piece.take() {
                result.pieces.push(piece);
            }
            if square.collect() {
                result.collects = result.collects + 1;
            }
            proof {
                assert(self.squares@.len() == earlier.len());
                assert(self.squares@[i as int]@.piece.is_none());
                assert(self.squares@[i as int]@.collect == earlier[i as int]@.collect);
                assert(self.squares@[i as int]@.players == earlier[i as int]@.players);
                assert forall|j: int| 0 <= j < earlier.len() && j != i implies self.squares@[j]
                    == earlier[j] by {}
                assert forall|j: int| 0 <= j < before.len() implies #[trigger] self@[j]
                    == moved_between(before, start as int, stop as int, i + 1)[j] by {
                    assert(self@[j] == self.squares@[j]@);
                    assert(moved_between(before, start as int, stop as int, i as int)[j]
                        == earlier[j]@);
                }
            }
            i = i + 1;
            assert(self@ =~= moved_between(before, start as int, stop as int, i as int));
        }
        result
    }
}

impl Default for TimeBoard {
    /// The default time board with the default number of players, in random
    /// order, on the 0th square.
    fn default() -> (board: Self)
        ensures
            board.wf(),
            board@[0].players.len() == DEFAULT_NPLAYERS,
            board@[0].players.to_multiset() == players_in_order(DEFAULT_NPLAYERS).to_multiset(),
            exists|layout: Seq<SquareView>|
                is_default_layout(layout) && board@ == TimeBoardBuilder::spec_build(
                    layout,
                    board@[0].players,
                ),
    {
        let order = PlayOrder::default();
        let ghost players = order@;
        let board = Self::new(order);
        proof {
            let layout = choose|layout: Seq<SquareView>|
                is_default_layout(layout) && board@ == TimeBoardBuilder::spec_build(
                    layout,
                    players,
                );
            assert(board@[0].players == players);
            assert(is_default_layout(layout) && board@ == TimeBoardBuilder::spec_build(
                layout,
                board@[0].players,
            ));
        }
        board
    }
}

} // verus!

//! Represents players of the game.

use rand::ThreadRng;
use vstd::prelude::*;
use vstd::seq_lib::to_multiset_update;

use crate::position::Dimension;
use crate::quilt_board::{QuiltBoard, QuiltView, DEFAULT_DIMENSION};
use crate::shuffle::{
    are_picks, draw_picks, lemma_shuffled_keeps_items, shuffle_vec_with, shuffled,
};

verus! {

/// A game player.
#[derive(Debug, Clone, Eq, PartialEq, Ord, PartialOrd, Structural)]
pub struct Player(usize);

/// The default number of players (2).
pub const DEFAULT_NPLAYERS: usize = 2;

/// The default amount of money each player starts with (5).
pub const DEFAULT_STARTING_CURRENCY: usize = 5;

impl Player {
    /// The number that identifies the player.
    pub closed spec fn id(self) -> usize {
        self.0
    }

    /// A `usize` identifying the given player.
    ///
    /// Players are numbered starting at 0, so they are suitable as array indices.
    pub fn to_usize(&self) -> (id: usize)
        ensures
            id == self.id(),
    {
        self.0
    }

    /// A player is nothing but its number: two players with the same number
    /// are the same player.
    pub proof fn lemma_id_is_player(self, other: Player)
        requires
            self.id() == other.id(),
        ensures
            self == other,
    {
    }
}

/// The stack of `nplayers` players in increasing order of play: the player
/// with the highest number at the bottom, player 0 on top.
pub closed spec fn players_in_order(nplayers: usize) -> Seq<Player> {
    Seq::new(nplayers as nat, |i: int| Player((nplayers - i - 1) as usize))
}

/// The stack in increasing order holds `nplayers` players, and the one at
/// height `i` above the bottom has the number `nplayers - i - 1`.
pub proof fn lemma_players_in_order(nplayers: usize)
    ensures
        players_in_order(nplayers).len() == nplayers,
        forall|i: int|
            0 <= i < nplayers ==> (#[trigger] players_in_order(nplayers)[i]).id() == nplayers - i
                - 1,
{
}

/// A stack of players ready to play.
///
/// This is placed on the time board to track whose turn it is. Its view is
/// the stack from bottom to top: the last player is the next to play.
#[derive(Debug, Clone, Eq, PartialEq)]
pub struct PlayOrder(Vec<Player>);

impl View for PlayOrder {
    type V = Seq<Player>;

    closed spec fn view(&self) -> Seq<Player> {
        self.0@
    }
}

impl PlayOrder {
    /// Creates a new `PlayOrder` with the given number of players in random order.
    ///
    /// Whatever the order, the players are those of `new_in_order`.
    pub fn new(nplayers: usize) -> (order: Self)
        ensures
            order@.len() == nplayers,
            order@.to_multiset() == players_in_order(nplayers).to_multiset(),
    {
        let mut result = Self::new_in_order(nplayers);
        let mut rng = rand::thread_rng();
        shuffle(&mut rng, &mut result.0);
        result
    }

    /// Creates a new, empty `PlayOrder`.
    pub fn empty() -> (order: Self)
        ensures
            order@ == Seq::<Player>::empty(),
    {
        PlayOrder(Vec::new())
    }

    /// Creates a new `PlayOrder` with the given number of players in increasing order.
    pub fn new_in_order(nplayers: usize) -> (order: Self)
        ensures
            order@ == players_in_order(nplayers),
            order@.len() == nplayers,
            forall|i: int| 0 <= i < nplayers ==> (#[trigger] order@[i]).id() == nplayers - i - 1,
    {
        let mut stack: Vec<Player> = Vec::new();
        let mut i: usize = 0;
        while i < nplayers
            invariant
                i <= nplayers,
                stack.len() == i,
                forall|j: int| 0 <= j < i ==> (#[trigger] stack[j]).id() == nplayers - j - 1,
            decreases nplayers - i,
        {
            stack.push(Player(nplayers - i - 1));
            i = i + 1;
        }
        assert(stack@ =~= players_in_order(nplayers));
        PlayOrder(stack)
    }

    /// Is the given `PlayOrder` empty?
    pub fn is_empty(&self) -> (b: bool)
        ensures
            b == (self@.len() == 0),
    {
        self.0.is_empty()
    }

    /// Gets the number of players in the given `PlayOrder`.
    pub fn len(&self) -> (n: usize)
        ensures
            n == self@.len(),
    {
        self.0.len()
    }

    /// Gets an iterator over the players in play order.
    pub fn players(&self) -> (players: Players<'_>)
        ensures
            players@ == self@.reverse(),
    {
        let players = Players { stack: &self.0, bottom: 0, top: self.0.len() };
        assert(players@ =~= self@.reverse());
        players
    }

    /// Pushes a player to go next in the play order.
    pub fn push(&mut self, player: Player)
        ensures
            final(self)@ == old(self)@.push(player),
    {
        self.0.push(player)
    }

    /// Gets the next player in the play order.
    pub fn pop(&mut self) -> (player: Option<Player>)
        ensures
            old(self)@.len() == 0 ==> player.is_none() && final(self)@ == old(self)@,
            old(self)@.len() > 0 ==> player == Some(old(self)@.last()) && final(self)@ == old(
                self,
            )@.drop_last(),
    {
        self.0.pop()
    }
}

/// A sequence with two of its elements exchanged holds what it held before.
pub proof fn lemma_swap_keeps_items<T>(s: Seq<T>, i: int, j: int)
    requires
        0 <= i < s.len(),
        0 <= j < s.len(),
    ensures
        s.update(i, s[j]).update(j, s[i]).to_multiset() == s.to_multiset(),
{
    let middle = s.update(i, s[j]);
    let swapped = middle.update(j, s[i]);
    to_multiset_update(s, i, s[j]);
    to_multiset_update(middle, j, s[i]);
    assert(middle[j] == s[j]);
    assert(s.to_multiset().count(s[i]) > 0) by {
        s.to_multiset_ensures();
        assert(s.contains(s[i]));
    }
    assert forall|x: T| swapped.to_multiset().count(x) == s.to_multiset().count(x) by {
        assert(middle.to_multiset().count(x) == s.to_multiset().insert(s[j]).remove(s[i]).count(
            x,
        ));
    }
    assert(swapped.to_multiset() =~= s.to_multiset());
}

/// [Fisher-Yates shuffle](https://en.wikipedia.org/wiki/Fisher%E2%80%93Yates_shuffle).
///
/// From the last index down, each element is exchanged with one drawn from
/// those at or below it. Whatever is drawn, the vector is what
/// `shuffle_vec_with` makes of it with the numbers drawn, and so holds
/// afterwards what it held before.
fn shuffle<T>(rng: &mut ThreadRng, v: &mut Vec<T>)
    ensures
        exists|picks: Seq<usize>|
            are_picks(picks, old(v)@.len()) && final(v)@ == #[trigger] shuffled(old(v)@, picks),
        final(v)@.len() == old(v)@.len(),
        final(v)@.to_multiset() == old(v)@.to_multiset(),
{
    let picks = draw_picks(rng, v.len());
    shuffle_vec_with(v, &picks);
    proof {
        lemma_shuffled_keeps_items(old(v)@, picks@);
        assert(are_picks(picks@, old(v)@.len()) && v@ == shuffled(old(v)@, picks@));
    }
}

impl Default for PlayOrder {
    /// The default number of players in random order.
    fn default() -> (order: Self)
        ensures
            order@.len() == DEFAULT_NPLAYERS,
            order@.to_multiset() == players_in_order(DEFAULT_NPLAYERS).to_multiset(),
    {
        PlayOrder::new(DEFAULT_NPLAYERS)
    }
}

/// An iterator over the `Player`s in a `PlayOrder`.
///
/// Its view is the sequence of players that it has yet to yield, the next to
/// play first.
pub struct Players<'a> {
    stack: &'a Vec<Player>,
    bottom: usize,
    top: usize,
}

impl<'a> View for Players<'a> {
    type V = Seq<Player>;

    closed spec fn view(&self) -> Seq<Player> {
        Seq::new((self.top - self.bottom) as nat, |i: int| self.stack@[self.top - 1 - i])
    }
}

impl<'a> Players<'a> {
    #[verifier::type_invariant]
    spec fn type_inv(self) -> bool {
        self.bottom <= self.top <= self.stack@.len()
    }

    /// Yields the next player in play order, if one is left.
    pub fn next(&mut self) -> (item: Option<&'a Player>)
        ensures
            old(self)@.len() == 0 ==> item.is_none() && final(self)@ == old(self)@,
            old(self)@.len() > 0 ==> item == Some(&old(self)@[0]) && final(self)@ == old(
                self,
            )@.skip(1),
    {
        proof {
            use_type_invariant(&*self);
        }
        if self.bottom < self.top {
            self.top = self.top - 1;
            assert(self@ =~= old(self)@.skip(1));
            Some(&self.stack[self.top])
        } else {
            None
        }
    }

    /// The bounds on the number of players left: both are that number.
    pub fn size_hint(&self) -> (hint: (usize, Option<usize>))
        ensures
            hint.0 == self@.len(),
            hint.1 == Some(hint.0),
    {
        let n = self.len();
        (n, Some(n))
    }

    /// The number of players left.
    pub fn len(&self) -> (n: usize)
        ensures
            n == self@.len(),
    {
        proof {
            use_type_invariant(self);
        }
        self.top - self.bottom
    }

    /// Yields the last player in play order, if one is left.
    pub fn next_back(&mut self) -> (item: Option<&'a Player>)
        ensures
            old(self)@.len() == 0 ==> item.is_none() && final(self)@ == old(self)@,
            old(self)@.len() > 0 ==> item == Some(&old(self)@.last()) && final(self)@ == old(
                self,
            )@.drop_last(),
    {
        proof {
            use_type_invariant(&*self);
        }
        if self.bottom < self.top {
            self.bottom = self.bottom + 1;
            assert(self@ =~= old(self)@.drop_last());
            Some(&self.stack[self.bottom - 1])
        } else {
            None
        }
    }
}

/// What the state of one player is: the quilt, the money and the bonus.
pub struct PlayerStateView {
    /// The player's quilt board.
    pub quilt_board: QuiltView,
    /// The player's amount of currency.
    pub currency: usize,
    /// Any bonus points earned by the player.
    pub bonus: usize,
}

/// The state associated with one player.
#[derive(Debug, Clone, PartialEq, Eq)]
pub struct PlayerState {
    /// The player’s quilt board.
    quilt_board: QuiltBoard,
    /// The player’s amount of currency.
    currency: usize,
    /// Any bonus points earned by the player.
    bonus: usize,
}

impl View for PlayerState {
    type V = PlayerStateView;

    closed spec fn view(&self) -> PlayerStateView {
        PlayerStateView {
            quilt_board: self.quilt_board@,
            currency: self.currency,
            bonus: self.bonus,
        }
    }
}

impl PlayerState {
    /// What `new` makes: an empty quilt of the given dimension, the given
    /// currency and no bonus.
    pub open spec fn spec_new(dimension: Dimension, currency: usize) -> PlayerStateView {
        PlayerStateView {
            quilt_board: QuiltView { dimension, covered: Set::empty() },
            currency,
            bonus: 0,
        }
    }

    /// Creates a new player with the given amount of starting currency.
    pub fn new(dimension: Dimension, currency: usize) -> (state: Self)
        requires
            dimension.width * dimension.height <= usize::MAX,
        ensures
            state@ == PlayerState::spec_new(dimension, currency),
    {
        PlayerState { quilt_board: QuiltBoard::new(dimension), currency, bonus: 0 }
    }
}

impl Default for PlayerState {
    /// A player with the default quilt and the default starting currency.
    fn default() -> (state: Self)
        ensures
            state@ == PlayerState::spec_new(
                Dimension { width: DEFAULT_DIMENSION, height: DEFAULT_DIMENSION },
                DEFAULT_STARTING_CURRENCY,
            ),
    {
        PlayerState::new(
            Dimension::new(DEFAULT_DIMENSION, DEFAULT_DIMENSION),
            DEFAULT_STARTING_CURRENCY,
        )
    }
}

} // verus!

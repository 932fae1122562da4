//! The state of a whole quilting game.

use vstd::prelude::*;

use crate::piece_board::{
    spec_default_pieces, views, PieceBoard, PieceBoardBuilder, PieceBoardView, DEFAULT_DEPTH,
};
use crate::player::{
    players_in_order, PlayOrder, PlayerState, PlayerStateView, DEFAULT_NPLAYERS,
    DEFAULT_STARTING_CURRENCY,
};
use crate::position::Dimension;
use crate::quilt_board::DEFAULT_DIMENSION;
use crate::time_board::{
    is_default_layout, is_over, is_track, SquareView, TimeBoard, TimeBoardBuilder,
};

verus! {

/// The default size of the square needed to get the bonus.
pub const DEFAULT_BONUS_SQUARE_SIZE: usize = 7;

/// What a game builder has been told so far.
pub struct GameBuilderView {
    /// The pieces and the take depth of the piece board.
    pub piece_board: PieceBoardView,
    /// The squares of the time board.
    pub time_board: Seq<SquareView>,
    /// The number of players.
    pub nplayers: usize,
    /// The amount of money each player starts with.
    pub starting_currency: usize,
    /// The dimension of each player's empty quilt.
    pub quilt_dimension: Dimension,
    /// The size of the square that earns the bonus, if there is a bonus.
    pub bonus_square_size: Option<usize>,
}

impl GameBuilderView {
    /// Whether a game can be built: there are at least two players, the time
    /// board has a square, and the number of cells of a quilt is a `usize`.
    pub open spec fn can_build(self) -> bool {
        &&& self.nplayers >= 2
        &&& self.time_board.len() >= 1
        &&& self.quilt_dimension.width * self.quilt_dimension.height <= usize::MAX
    }
}

/// Builder for configuring and constructing new games.
#[derive(Debug, Clone)]
pub struct GameBuilder {
    piece_board: PieceBoardBuilder,
    time_board: TimeBoardBuilder,
    nplayers: usize,
    starting_currency: usize,
    quilt_dimension: Dimension,
    bonus_square_size: Option<usize>,
}

impl View for GameBuilder {
    type V = GameBuilderView;

    closed spec fn view(&self) -> GameBuilderView {
        GameBuilderView {
            piece_board: self.piece_board@,
            time_board: self.time_board@,
            nplayers: self.nplayers,
            starting_currency: self.starting_currency,
            quilt_dimension: self.quilt_dimension,
            bonus_square_size: self.bonus_square_size,
        }
    }
}

impl GameBuilder {
    /// The builder of the piece board that this builder holds.
    pub closed spec fn piece_board_builder(self) -> PieceBoardBuilder {
        self.piece_board
    }

    /// What `empty` and `new` agree on: the default time board, two players
    /// with five of currency each, quilts of nine by nine, the bonus for a
    /// square of seven, and the default take depth.
    pub open spec fn has_defaults(view: GameBuilderView) -> bool {
        &&& view.piece_board.depth == DEFAULT_DEPTH
        &&& is_default_layout(view.time_board)
        &&& view.nplayers == DEFAULT_NPLAYERS
        &&& view.starting_currency == DEFAULT_STARTING_CURRENCY
        &&& view.quilt_dimension == (Dimension {
            width: DEFAULT_DIMENSION,
            height: DEFAULT_DIMENSION,
        })
        &&& view.bonus_square_size == Some(DEFAULT_BONUS_SQUARE_SIZE)
    }

    /// Creates a new builder with the default parameters.
    pub fn new() -> (builder: Self)
        ensures
            GameBuilder::has_defaults(builder@),
            builder@.can_build(),
            views(builder@.piece_board.pieces) == spec_default_pieces(),
    {
        let mut result = Self::empty();
        result.piece_board = PieceBoardBuilder::default();
        result
    }

    /// Creates a new builder whose
    /// [`PieceBoardBuilder`](../piece_board/struct.PieceBoardBuilder.html)
    /// is empty of pieces.
    pub fn empty() -> (builder: Self)
        ensures
            GameBuilder::has_defaults(builder@),
            builder@.can_build(),
            builder@.piece_board.pieces.len() == 0,
    {
        GameBuilder {
            piece_board: PieceBoardBuilder::empty(),
            time_board: TimeBoardBuilder::default(),
            nplayers: DEFAULT_NPLAYERS,
            starting_currency: DEFAULT_STARTING_CURRENCY,
            quilt_dimension: Dimension::square(DEFAULT_DIMENSION),
            bonus_square_size: Some(DEFAULT_BONUS_SQUARE_SIZE),
        }
    }

    /// Changes the builder to use the given
    /// [`PieceBoardBuilder`](../piece_board/struct.PieceBoardBuilder.html).
    pub fn piece_board(self, piece_board: PieceBoardBuilder) -> (builder: Self)
        ensures
            builder.piece_board_builder() == piece_board,
            builder@ == (GameBuilderView { piece_board: piece_board@, ..self@ }),
    {
        let mut builder = self;
        builder.piece_board = piece_board;
        builder
    }

    /// Configure the piece board by modifying the
    /// [`PieceBoardBuilder`](../piece_board/struct.PieceBoardBuilder.html).
    pub fn with_piece_board<F>(self, k: F) -> (builder: Self) where
        F: FnOnce(PieceBoardBuilder) -> PieceBoardBuilder,

        requires
            k.requires((self.piece_board_builder(),)),
        ensures
            k.ensures((self.piece_board_builder(),), builder.piece_board_builder()),
            builder@ == (GameBuilderView { piece_board: builder.piece_board_builder()@, ..self@ }),
    {
        let GameBuilder {
            piece_board,
            time_board,
            nplayers,
            starting_currency,
            quilt_dimension,
            bonus_square_size,
        } = self;
        GameBuilder {
            piece_board: k(piece_board),
            time_board,
            nplayers,
            starting_currency,
            quilt_dimension,
            bonus_square_size,
        }
    }

    /// Changes the builder to use the given [`TimeBoard`](../time_board/struct.TimeBoard.html).
    pub fn time_board(self, time_board: TimeBoardBuilder) -> (builder: Self)
        ensures
            builder.piece_board_builder() == self.piece_board_builder(),
            builder@ == (GameBuilderView { time_board: time_board@, ..self@ }),
    {
        let mut builder = self;
        builder.time_board = time_board;
        builder
    }

    /// Changes the builder to use the given number of players.
    ///
    /// There must be at least two.
    pub fn nplayers(self, nplayers: usize) -> (builder: Self)
        requires
            nplayers >= 2,
        ensures
            builder.piece_board_builder() == self.piece_board_builder(),
            builder@ == (GameBuilderView { nplayers, ..self@ }),
    {
        let mut builder = self;
        builder.nplayers = nplayers;
        builder
    }

    /// Gives each player the given starting amount of money.
    pub fn starting_currency(self, starting_currency: usize) -> (builder: Self)
        ensures
            builder.piece_board_builder() == self.piece_board_builder(),
            builder@ == (GameBuilderView { starting_currency, ..self@ }),
    {
        let mut builder = self;
        builder.starting_currency = starting_currency;
        builder
    }

    /// Creates empty quilt boards with the given dimension.
    pub fn quilt_dimension(self, quilt_dimension: Dimension) -> (builder: Self)
        ensures
            builder.piece_board_builder() == self.piece_board_builder(),
            builder@ == (GameBuilderView { quilt_dimension, ..self@ }),
    {
        let mut builder = self;
        builder.quilt_dimension = quilt_dimension;
        builder
    }

    /// Changes the empty quilt to be a square of the given size.
    pub fn quilt_size(self, square_size: usize) -> (builder: Self)
        ensures
            builder.piece_board_builder() == self.piece_board_builder(),
            builder@ == (GameBuilderView {
                quilt_dimension: Dimension { width: square_size, height: square_size },
                ..self@
            }),
    {
        let mut builder = self;
        builder.quilt_dimension = Dimension::square(square_size);
        builder
    }

    /// Changes the bonus to be given when reaching a square of the given size.
    pub fn bonus_square_size(self, square_size: usize) -> (builder: Self)
        ensures
            builder.piece_board_builder() == self.piece_board_builder(),
            builder@ == (GameBuilderView { bonus_square_size: Some(square_size), ..self@ }),
    {
        let mut builder = self;
        builder.bonus_square_size = Some(square_size);
        builder
    }

    /// Configures the game to have no bonus.
    pub fn no_bonus(self) -> (builder: Self)
        ensures
            builder.piece_board_builder() == self.piece_board_builder(),
            builder@ == (GameBuilderView { bonus_square_size: None, ..self@ }),
    {
        let mut builder = self;
        builder.bonus_square_size = None;
        builder
    }

    /// What every game built from `view` is, shuffled or not: each player
    /// has an empty quilt and the starting currency, the pieces are those of
    /// the builder, and the players stand on the 0th square of the
    /// builder's time board.
    pub open spec fn is_built_from(state: GameStateView, view: GameBuilderView) -> bool {
        &&& state.players == Seq::new(
            view.nplayers as nat,
            |i: int| PlayerState::spec_new(view.quilt_dimension, view.starting_currency),
        )
        &&& state.bonus_square_size == view.bonus_square_size
        &&& state.piece_board.depth == view.piece_board.depth
        &&& state.piece_board.pieces.len() == view.piece_board.pieces.len()
        &&& state.piece_board.pieces.to_multiset() == view.piece_board.pieces.to_multiset()
        &&& state.time_board == TimeBoardBuilder::spec_build(
            view.time_board,
            state.time_board[0].players,
        )
        &&& state.time_board[0].players.len() == view.nplayers
        &&& state.time_board[0].players.to_multiset() == players_in_order(
            view.nplayers,
        ).to_multiset()
    }

    /// What the game built from `view` without shuffling is, beyond
    /// `is_built_from`: the pieces are in the builder's order and the players
    /// in increasing order.
    pub open spec fn is_built_in_order(state: GameStateView, view: GameBuilderView) -> bool {
        &&& state.piece_board == view.piece_board
        &&& state.time_board[0].players == players_in_order(view.nplayers)
    }

    fn build_shuffle(self, shuffle: bool) -> (state: GameState)
        requires
            self@.can_build(),
        ensures
            state.wf(),
            GameBuilder::is_built_from(state@, self@),
            !shuffle ==> GameBuilder::is_built_in_order(state@, self@),
    {
        let mut players: Vec<PlayerState> = Vec::new();
        let mut i: usize = 0;
        while i < self.nplayers
            invariant
                i <= self.nplayers,
                self@.can_build(),
                players.len() == i,
                forall|j: int|
                    0 <= j < i ==> (#[trigger] players[j])@ == PlayerState::spec_new(
                        self.quilt_dimension,
                        self.starting_currency,
                    ),
            decreases self.nplayers - i,
        {
            players.push(PlayerState::new(self.quilt_dimension, self.starting_currency));
            i = i + 1;
        }

        let piece_board;
        let play_order;

        if shuffle {
            piece_board = self.piece_board.build();
            play_order = PlayOrder::new(self.nplayers);
        } else {
            piece_board = self.piece_board.build_in_order();
            play_order = PlayOrder::new_in_order(self.nplayers);
        }

        let state = GameState {
            piece_board,
            time_board: self.time_board.build(play_order),
            players,
            bonus_square_size: self.bonus_square_size,
        };
        assert(state@.players =~= Seq::new(
            self@.nplayers as nat,
            |i: int| PlayerState::spec_new(self@.quilt_dimension, self@.starting_currency),
        ));
        state
    }

    /// Builds the game, shuffling the [`PieceBoard`](../piece_board/struct.PieceBoard.html)
    /// and the play order.
    pub fn build(self) -> (state: GameState)
        requires
            self@.can_build(),
        ensures
            state.wf(),
            GameBuilder::is_built_from(state@, self@),
    {
        self.build_shuffle(true)
    }

    /// Builds the game without shuffling the [`PieceBoard`](../piece_board/struct.PieceBoard.html)
    /// and the play order.
    pub fn build_in_order(self) -> (state: GameState)
        requires
            self@.can_build(),
        ensures
            state.wf(),
            GameBuilder::is_built_from(state@, self@),
            GameBuilder::is_built_in_order(state@, self@),
    {
        self.build_shuffle(false)
    }
}

impl Default for GameBuilder {
    /// The builder with the default parameters.
    fn default() -> (builder: Self)
        ensures
            GameBuilder::has_defaults(builder@),
            builder@.can_build(),
            views(builder@.piece_board.pieces) == spec_default_pieces(),
    {
        Self::new()
    }
}

/// What the state of a game is.
pub struct GameStateView {
    /// The board from which pieces are selected.
    pub piece_board: PieceBoardView,
    /// The squares of the board that keeps track of time.
    pub time_board: Seq<SquareView>,
    /// Each player's state.
    pub players: Seq<PlayerStateView>,
    /// The size quilt square to build to get the bonus, if it remains.
    pub bonus_square_size: Option<usize>,
}

impl GameStateView {
    /// Whether the game is over: it is on the time board, or no piece is left.
    pub open spec fn is_over(self) -> bool {
        is_over(self.time_board) || self.piece_board.pieces.len() == 0
    }
}

/// The state of the game.
///
/// Configure and construct with [`GameBuilder`](struct.GameBuilder.html).
#[derive(Debug, Clone, PartialEq, Eq)]
pub struct GameState {
    /// The board from which pieces are selected.
    piece_board: PieceBoard,
    /// The board that keeps track of time.
    time_board: TimeBoard,
    /// Each player’s quilt.
    players: Vec<PlayerState>,
    /// The size quilt square to build to get the bonus, if it remains.
    bonus_square_size: Option<usize>,
}

impl View for GameState {
    type V = GameStateView;

    closed spec fn view(&self) -> GameStateView {
        GameStateView {
            piece_board: self.piece_board@,
            time_board: self.time_board@,
            players: Seq::new(self.players@.len(), |i: int| self.players@[i]@),
            bonus_square_size: self.bonus_square_size,
        }
    }
}

impl GameState {
    /// The invariant of a game: that of its time board.
    pub open spec fn wf(&self) -> bool {
        is_track(self@.time_board)
    }

    /// Is the game over?
    pub fn is_game_over(&self) -> (b: bool)
        requires
            self.wf(),
        ensures
            b == self@.is_over(),
    {
        self.time_board.is_game_over() || self.piece_board.is_empty()
    }
}

impl Default for GameState {
    /// A game with the default parameters, shuffled.
    fn default() -> (state: Self)
        ensures
            state.wf(),
            exists|view: GameBuilderView|
                GameBuilder::has_defaults(view) && views(view.piece_board.pieces)
                    == spec_default_pieces() && GameBuilder::is_built_from(state@, view),
    {
        let builder = GameBuilder::new();
        let ghost view = builder@;
        let state = builder.build();
        assert(GameBuilder::has_defaults(view) && views(view.piece_board.pieces)
            == spec_default_pieces() && GameBuilder::is_built_from(state@, view));
        state
    }
}

} // verus!

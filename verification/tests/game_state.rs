use quilt_model::game_state::{GameBuilder, GameState, DEFAULT_BONUS_SQUARE_SIZE};
use quilt_model::piece::examples::{piece0, piece1};
use quilt_model::piece_board::PieceBoardBuilder;
use quilt_model::position::Dimension;
use quilt_model::result::PlayerError;
use quilt_model::time_board::{Square, TimeBoardBuilder};

#[test]
fn default_game_is_not_over() {
    assert_eq!(DEFAULT_BONUS_SQUARE_SIZE, 7);
    let game = GameState::default();
    assert!(!game.is_game_over());
    let game = GameBuilder::new().build();
    assert!(!game.is_game_over());
    let game = GameBuilder::default().build_in_order();
    assert!(!game.is_game_over());
}

#[test]
fn game_without_pieces_is_over() {
    let game = GameBuilder::empty().build_in_order();
    assert!(game.is_game_over());
    let game = GameBuilder::empty().build();
    assert!(game.is_game_over());
    let game = GameBuilder::new().with_piece_board(|b| b.clear()).build_in_order();
    assert!(game.is_game_over());
}

#[test]
fn game_on_a_board_of_one_square_is_over() {
    let track = TimeBoardBuilder::empty().extend(vec![Square::new(None, false)]);
    let game = GameBuilder::new().time_board(track).build_in_order();
    assert!(game.is_game_over());
}

#[test]
fn builder_settings_reach_the_game() {
    let pieces = PieceBoardBuilder::empty().extend(vec![piece0(), piece1()]);
    let a = GameBuilder::empty()
        .piece_board(pieces.clone())
        .nplayers(3)
        .starting_currency(8)
        .quilt_dimension(Dimension::new(4, 5))
        .bonus_square_size(3)
        .build_in_order();
    let b = GameBuilder::empty()
        .with_piece_board(|b| b.extend(vec![piece0(), piece1()]))
        .nplayers(3)
        .starting_currency(8)
        .quilt_dimension(Dimension::new(4, 5))
        .bonus_square_size(3)
        .build_in_order();
    assert_eq!(a, b);
    assert!(!a.is_game_over());

    let base = || GameBuilder::empty().piece_board(pieces.clone());
    let plain = base().build_in_order();
    assert_eq!(plain, base().build_in_order());
    assert_eq!(plain, base().nplayers(2).build_in_order());
    assert_eq!(plain, base().starting_currency(5).build_in_order());
    assert_eq!(plain, base().quilt_size(9).build_in_order());
    assert_eq!(plain, base().quilt_dimension(Dimension::new(9, 9)).build_in_order());
    assert_eq!(plain, base().bonus_square_size(7).build_in_order());
    assert_eq!(plain, base().time_board(TimeBoardBuilder::new()).build_in_order());
    assert_ne!(plain, base().nplayers(3).build_in_order());
    assert_ne!(plain, base().starting_currency(6).build_in_order());
    assert_ne!(plain, base().quilt_size(8).build_in_order());
    assert_ne!(plain, base().no_bonus().build_in_order());
    assert_ne!(plain, base().bonus_square_size(6).build_in_order());
    assert_ne!(plain, GameBuilder::new().build_in_order());
    assert_eq!(
        base().quilt_size(6).build_in_order(),
        base().quilt_dimension(Dimension::new(6, 6)).build_in_order()
    );
}

#[test]
fn error_descriptions() {
    assert_eq!(
        PlayerError::PlacementOverhangsRight.description(),
        "Piece placement overhangs right edge of quilt board"
    );
    assert_eq!(
        PlayerError::PlacementOverhangsBottom.description(),
        "Piece placement overhangs bottom edge of quilt board"
    );
    assert_eq!(
        PlayerError::PlacementOverlapsPiece.description(),
        "Piece placement overlaps another piece"
    );
    assert_eq!(
        PlayerError::TakeOverDepth.description(),
        "Cannot take pieces from that deep in the queue"
    );
    assert_eq!(
        PlayerError::OutOfPieces.description(),
        "The queue does not have that many pieces"
    );
}

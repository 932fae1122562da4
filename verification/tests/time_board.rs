use quilt_model::piece::Piece;
use quilt_model::player::{PlayOrder, Player};
use quilt_model::time_board::{default_squares, Square, TimeBoard, TimeBoardBuilder};

// C is a square that pays, G one that grants a piece:
// [][][][][][C][][C][][C][G][][][][C]
fn test_squares() -> Vec<Square> {
    let mut squares = Vec::new();
    for i in 0..15 {
        let piece = if i == 10 { Some(Piece::single_position()) } else { None };
        let collect = i == 5 || i == 7 || i == 9 || i == 14;
        squares.push(Square::new(piece, collect));
    }
    squares
}

fn test_board(play_order: PlayOrder) -> TimeBoard {
    TimeBoardBuilder::empty().extend(test_squares()).build(play_order)
}

fn nth_player(play_order: &PlayOrder, n: usize) -> Option<&Player> {
    let mut players = play_order.players();
    for _ in 0..n {
        players.next();
    }
    players.next()
}

fn ids_on(time_board: &TimeBoard, index: usize) -> Vec<usize> {
    let mut players = time_board.squares()[index].players();
    let mut ids = Vec::new();
    while let Some(player) = players.next() {
        ids.push(player.to_usize());
    }
    ids
}

#[test]
fn make_default_time_board() {
    let time_board = TimeBoard::default();
    assert_eq!(time_board.index_of_current_player(), 0);
    assert_eq!(time_board.index_of_next_player(), 0);
}

#[test]
fn move_pieces() {
    let play_order = PlayOrder::new(2);

    // [01][][][][][C][][C][][C][G][][][][C]
    let mut time_board = test_board(play_order.clone());

    assert_eq!(time_board.current_player(), nth_player(&play_order, 0));
    assert_eq!(time_board.index_of_current_player(), 0);
    assert_eq!(time_board.index_of_next_player(), 0);

    // [1][][0][][][C][][C][][C][G][][][][C]
    let mr = time_board.move_player(2);
    assert_eq!(mr.pieces, vec![]);
    assert_eq!(mr.collects, 0);
    assert_eq!(mr.distance, 2);

    assert_eq!(time_board.current_player(), nth_player(&play_order, 1));
    assert_eq!(time_board.index_of_current_player(), 0);
    assert_eq!(time_board.index_of_next_player(), 2);

    // [][][10][][][C][][C][][C][G][][][][C]
    let mr = time_board.move_player(2);
    assert_eq!(mr.pieces, vec![]);
    assert_eq!(mr.collects, 0);
    assert_eq!(mr.distance, 2);

    assert_eq!(time_board.current_player(), nth_player(&play_order, 1));
    assert_eq!(time_board.index_of_current_player(), 2);
    assert_eq!(time_board.index_of_next_player(), 2);

    // [][][0][][][C1][][C][][C][G][][][][C]
    let mr = time_board.move_player(3);
    assert_eq!(mr.pieces, vec![]);
    assert_eq!(mr.collects, 1);
    assert_eq!(mr.distance, 3);

    assert_eq!(time_board.current_player(), nth_player(&play_order, 0));
    assert_eq!(time_board.index_of_current_player(), 2);
    assert_eq!(time_board.index_of_next_player(), 5);

    // [][][][][][C1][][C][][C0][G][][][][C]
    let mr = time_board.move_player(7);
    assert_eq!(mr.pieces, vec![]);
    assert_eq!(mr.collects, 3);
    assert_eq!(mr.distance, 7);

    assert_eq!(time_board.current_player(), nth_player(&play_order, 1));
    assert_eq!(time_board.index_of_current_player(), 5);
    assert_eq!(time_board.index_of_next_player(), 9);

    // [][][][][][C][][C][][C0][G1][][][][C]
    let mr = time_board.move_player(5);
    assert_eq!(mr.pieces, vec![Piece::single_position()]);
    assert_eq!(mr.collects, 2);
    assert_eq!(mr.distance, 5);

    assert_eq!(time_board.current_player(), nth_player(&play_order, 0));
    assert_eq!(time_board.index_of_current_player(), 9);
    assert_eq!(time_board.index_of_next_player(), 10);

    // [][][][][][C][][C][][C][G1][][][][C2]
    let mr = time_board.move_player(8);
    assert_eq!(mr.pieces, vec![]);
    assert_eq!(mr.collects, 1);
    assert_eq!(mr.distance, 5);

    assert_eq!(time_board.current_player(), nth_player(&play_order, 1));
    assert_eq!(time_board.index_of_current_player(), 10);
    assert_eq!(time_board.index_of_next_player(), 14);
    assert!(!time_board.is_game_over());

    // [][][][][][C][][C][][C][G][][][][C12]
    let mr = time_board.move_player(4);
    assert_eq!(mr.pieces, vec![]);
    assert_eq!(mr.collects, 1);
    assert_eq!(mr.distance, 4);

    assert_eq!(time_board.current_player(), None);
    assert!(time_board.is_game_over());
}

#[test]
fn track_movement_from_the_start() {
    // A move of 2 lands at square 2 with no collects or pieces; a move of 3
    // from there crosses square 5; a move of 7 from square 2 crosses 5, 7
    // and 9.
    let mut board = test_board(PlayOrder::new_in_order(2));
    let mr = board.move_player(2);
    assert_eq!((mr.pieces.len(), mr.collects, mr.distance), (0, 0, 2));
    assert_eq!(ids_on(&board, 2), vec![0]);
    assert_eq!(ids_on(&board, 0), vec![1]);
    let mr = board.move_player(2);
    assert_eq!((mr.pieces.len(), mr.collects, mr.distance), (0, 0, 2));
    // The one that came last lies on top and moves first.
    assert_eq!(ids_on(&board, 2), vec![1, 0]);
    let mr = board.move_player(3);
    assert_eq!((mr.pieces.len(), mr.collects, mr.distance), (0, 1, 3));
    assert_eq!(ids_on(&board, 5), vec![1]);
    let mr = board.move_player(7);
    assert_eq!((mr.pieces.len(), mr.collects, mr.distance), (0, 3, 7));
    assert_eq!(ids_on(&board, 9), vec![0]);
}

#[test]
fn piece_is_granted_once_and_collect_every_time() {
    let mut board = test_board(PlayOrder::new_in_order(2));
    assert!(board.squares()[10].piece().is_some());
    assert_eq!(board.squares()[10].piece(), Some(&Piece::single_position()));
    assert!(board.squares()[5].piece().is_none());

    // Player 0 goes from 0 to 11, past three paying squares and the piece.
    let mr = board.move_player(11);
    assert_eq!(mr.pieces, vec![Piece::single_position()]);
    assert_eq!(mr.collects, 3);
    assert_eq!(mr.distance, 11);
    assert!(board.squares()[10].piece().is_none());
    for i in 0..15 {
        assert_eq!(board.squares()[i].collect(), i == 5 || i == 7 || i == 9 || i == 14);
    }

    // Player 1 goes the same way: the same collections, no piece any more.
    let mr = board.move_player(11);
    assert_eq!(mr.pieces, vec![]);
    assert_eq!(mr.collects, 3);
    assert_eq!(mr.distance, 11);
    assert_eq!(ids_on(&board, 11), vec![1, 0]);
}

#[test]
fn landing_on_a_square_counts_as_crossing_it() {
    let mut board = test_board(PlayOrder::new_in_order(2));
    let mr = board.move_player(5);
    assert_eq!((mr.pieces.len(), mr.collects, mr.distance), (0, 1, 5));
    let mr = board.move_player(10);
    assert_eq!(mr.pieces, vec![Piece::single_position()]);
    assert_eq!(mr.collects, 3);
    // The square that a token leaves is not crossed: from 5 to 7 is one
    // collection, that of 7.
    let mr = board.move_player(2);
    assert_eq!((mr.pieces.len(), mr.collects, mr.distance), (0, 1, 2));
}

#[test]
fn movement_stops_at_the_last_square() {
    let mut board = test_board(PlayOrder::new_in_order(2));
    let mr = board.move_player(100);
    assert_eq!(mr.distance, 14);
    assert_eq!(mr.collects, 4);
    assert_eq!(mr.pieces, vec![Piece::single_position()]);
    assert_eq!(board.index_of_current_player(), 0);
    assert_eq!(board.index_of_next_player(), 14);
    assert!(!board.is_game_over());
    let mr = board.move_player(usize::MAX);
    assert_eq!(mr.distance, 14);
    assert_eq!(mr.collects, 4);
    assert_eq!(mr.pieces, vec![]);
    assert!(board.is_game_over());
    assert_eq!(board.index_of_current_player(), 14);
    assert_eq!(board.index_of_last_square(), 14);
    assert_eq!(ids_on(&board, 14), vec![1, 0]);
}

#[test]
fn game_is_over_exactly_when_the_last_player_reaches_the_end() {
    let mut board = test_board(PlayOrder::new_in_order(3));
    assert!(!board.is_game_over());
    board.move_player(14);
    assert!(!board.is_game_over());
    board.move_player(13);
    assert!(!board.is_game_over());
    // One player is left on square 0, one on 13; that on 0 moves.
    board.move_player(20);
    assert!(!board.is_game_over());
    assert_eq!(board.index_of_current_player(), 13);
    assert_eq!(board.current_player().map(|p| p.to_usize()), Some(1));
    board.move_player(1);
    assert!(board.is_game_over());
    assert_eq!(board.current_player(), None);
}

#[test]
fn same_square_goes_before_the_next_square() {
    let mut board = test_board(PlayOrder::new_in_order(3));
    // Three players on square 0: 0 on top, then 1, then 2.
    assert_eq!(ids_on(&board, 0), vec![0, 1, 2]);
    assert_eq!(board.current_player().map(|p| p.to_usize()), Some(0));
    assert_eq!(board.index_of_next_player(), 0);
    board.move_player(3);
    assert_eq!(board.current_player().map(|p| p.to_usize()), Some(1));
    assert_eq!(board.index_of_next_player(), 0);
    board.move_player(3);
    // Player 2 is alone on square 0; the next is on top of square 3, and
    // that is player 1, who came last.
    assert_eq!(board.current_player().map(|p| p.to_usize()), Some(2));
    assert_eq!(board.index_of_next_player(), 3);
    board.move_player(4);
    assert_eq!(board.index_of_current_player(), 3);
    assert_eq!(board.current_player().map(|p| p.to_usize()), Some(1));
    assert_eq!(board.index_of_next_player(), 3);
    board.move_player(1);
    assert_eq!(board.current_player().map(|p| p.to_usize()), Some(0));
    assert_eq!(board.index_of_current_player(), 3);
    assert_eq!(board.index_of_next_player(), 4);
}

#[test]
fn tokens_stay_on_the_board() {
    let mut board = test_board(PlayOrder::new(4));
    let mut steps = 0;
    while !board.is_game_over() {
        board.move_player(1 + steps % 3);
        steps += 1;
        let mut ids = Vec::new();
        for i in 0..15 {
            ids.extend(ids_on(&board, i));
            assert_eq!(board.squares()[i].has_player(), !ids_on(&board, i).is_empty());
        }
        ids.sort();
        assert_eq!(ids, vec![0, 1, 2, 3]);
    }
    assert_eq!(ids_on(&board, 14).len(), 4);
}

#[test]
fn board_of_one_square_is_over_at_once() {
    let board = TimeBoardBuilder::empty()
        .extend(vec![Square::new(None, true)])
        .build(PlayOrder::new_in_order(2));
    assert!(board.is_game_over());
    assert_eq!(board.index_of_last_square(), 0);
    assert_eq!(board.index_of_current_player(), 0);
    assert_eq!(board.index_of_next_player(), 0);
    assert_eq!(board.current_player(), None);
}

#[test]
fn squares_as_built() {
    let square = Square::new(Some(Piece::single_position()), true);
    assert!(square.collect());
    assert!(!square.has_player());
    assert_eq!(square.piece(), Some(&Piece::single_position()));
    assert_eq!(square.players().len(), 0);
    let square = Square::new(None, false);
    assert!(!square.collect());
    assert_eq!(square.piece(), None);

    let board = test_board(PlayOrder::new_in_order(2));
    assert_eq!(board.squares().len(), 15);
    assert!(board.squares()[0].has_player());
    assert!(!board.squares()[1].has_player());
}

#[test]
fn builder_of_time_boards() {
    assert_eq!(TimeBoardBuilder::new(), TimeBoardBuilder::default());
    assert_eq!(TimeBoardBuilder::new(), TimeBoardBuilder::empty().extend(default_squares()));
    assert_eq!(default_squares(), test_squares());
    assert_eq!(TimeBoardBuilder::new().clear(), TimeBoardBuilder::empty());
    let board = TimeBoardBuilder::empty()
        .extend(vec![Square::new(None, false)])
        .extend(vec![Square::new(None, true), Square::new(None, false)])
        .build(PlayOrder::new_in_order(2));
    assert_eq!(board.index_of_last_square(), 2);
    assert!(board.squares()[1].collect());
    assert_eq!(TimeBoard::new(PlayOrder::new_in_order(2)), test_board(PlayOrder::new_in_order(2)));
}

#[test]
fn players_already_on_the_first_square_are_replaced() {
    let first = TimeBoardBuilder::empty()
        .extend(test_squares())
        .build(PlayOrder::new_in_order(5));
    assert_eq!(first.squares()[0].players().len(), 5);
}

use quilt_model::piece::examples;
use quilt_model::piece::examples::{piece1, piece2, piece3, piece4};
use quilt_model::piece::Piece;
use quilt_model::piece_board::{default_pieces, PieceBoard, PieceBoardBuilder, DEFAULT_DEPTH};
use quilt_model::result::PlayerError;

fn pieces() -> Vec<Piece> {
    vec![piece1(), piece2(), piece3(), piece4()]
}

fn remaining(board: &PieceBoard) -> Vec<Piece> {
    let mut it = board.pieces();
    let mut all = Vec::new();
    while let Some(piece) = it.next() {
        all.push(piece.clone());
    }
    all
}

#[test]
fn make_default_board() {
    let board = PieceBoard::default();
    assert_eq!(board.depth(), DEFAULT_DEPTH);
}

#[test]
fn make_board_with_pieces() {
    let board = PieceBoardBuilder::empty().extend(pieces()).build();
    assert_eq!(board.len(), 4);
}

#[test]
fn take_over_depth_error() {
    let mut board = PieceBoardBuilder::empty().extend(pieces()).build();
    assert_eq!(board.take(5), Err(PlayerError::TakeOverDepth));
}

#[test]
fn take_0_repeatedly() {
    let mut board = PieceBoardBuilder::empty().extend(pieces()).build_in_order();

    assert_eq!(board.take(0), Ok(examples::piece1()));
    assert_eq!(board.take(0), Ok(examples::piece2()));
    assert_eq!(board.take(0), Ok(examples::piece3()));
    assert_eq!(board.take(0), Ok(examples::piece4()));
    assert_eq!(board.take(0), Err(PlayerError::OutOfPieces));
}

#[test]
fn take_deeper() {
    let mut board = PieceBoardBuilder::empty().extend(pieces()).build_in_order();

    assert_eq!(board.take(1), Ok(examples::piece2()));
    assert_eq!(board.take(2), Ok(examples::piece4()));
    assert_eq!(board.take(1), Ok(examples::piece3()));
    assert_eq!(board.take(0), Ok(examples::piece1()));
    assert_eq!(board.take(0), Err(PlayerError::OutOfPieces));
}

#[test]
fn take_keeps_the_order_of_the_others() {
    let mut board = PieceBoardBuilder::empty().extend(pieces()).build_in_order();
    assert_eq!(board.take(1), Ok(piece2()));
    assert_eq!(remaining(&board), vec![piece1(), piece3(), piece4()]);
    assert_eq!(board.len(), 3);

    let mut board = PieceBoardBuilder::empty().extend(pieces()).build_in_order();
    assert_eq!(board.take(2), Ok(piece3()));
    assert_eq!(remaining(&board), vec![piece1(), piece2(), piece4()]);

    let mut board = PieceBoardBuilder::empty().extend(pieces()).depth(3).build_in_order();
    assert_eq!(board.take(3), Ok(piece4()));
    assert_eq!(remaining(&board), vec![piece1(), piece2(), piece3()]);
}

#[test]
fn failed_take_leaves_the_queue_alone() {
    let mut board = PieceBoardBuilder::empty().extend(pieces()).build_in_order();
    let before = board.clone();
    assert_eq!(board.take(3), Err(PlayerError::TakeOverDepth));
    assert_eq!(board, before);
    assert_eq!(board.take(usize::MAX), Err(PlayerError::TakeOverDepth));
    assert_eq!(board, before);

    let mut short = PieceBoardBuilder::empty().extend(vec![piece1()]).build_in_order();
    let before = short.clone();
    assert_eq!(short.take(1), Err(PlayerError::OutOfPieces));
    assert_eq!(short.take(2), Err(PlayerError::OutOfPieces));
    assert_eq!(short, before);
    assert_eq!(short.len(), 1);
}

#[test]
fn depth_is_checked_before_the_length() {
    let mut board = PieceBoardBuilder::empty().build_in_order();
    assert!(board.is_empty());
    assert_eq!(board.take(0), Err(PlayerError::OutOfPieces));
    assert_eq!(board.take(2), Err(PlayerError::OutOfPieces));
    assert_eq!(board.take(3), Err(PlayerError::TakeOverDepth));

    let mut board = PieceBoardBuilder::empty().depth(0).extend(pieces()).build_in_order();
    assert_eq!(board.depth(), 0);
    assert_eq!(board.take(1), Err(PlayerError::TakeOverDepth));
    assert_eq!(board.take(0), Ok(piece1()));
}

#[test]
fn builder_settings() {
    let builder = PieceBoardBuilder::empty();
    assert_eq!(builder, PieceBoardBuilder::empty());
    let board = builder.build_in_order();
    assert_eq!(board.depth(), 2);
    assert_eq!(board.len(), 0);
    assert!(board.is_empty());

    let board = PieceBoardBuilder::empty().depth(7).extend(pieces()).build_in_order();
    assert_eq!(board.depth(), 7);
    assert_eq!(board.len(), 4);
    assert!(!board.is_empty());

    let board = PieceBoardBuilder::empty()
        .extend(vec![piece1(), piece2()])
        .extend(vec![piece3()])
        .build_in_order();
    assert_eq!(remaining(&board), vec![piece1(), piece2(), piece3()]);

    let board = PieceBoardBuilder::empty().extend(pieces()).depth(4).clear().build_in_order();
    assert_eq!(board.len(), 0);
    assert_eq!(board.depth(), 4);
    let board = PieceBoardBuilder::empty().extend(pieces()).clear().extend(vec![piece4()]).build();
    assert_eq!(remaining(&board), vec![piece4()]);
}

#[test]
fn default_builder_holds_the_default_pieces() {
    let board = PieceBoardBuilder::new().build_in_order();
    assert_eq!(board.depth(), DEFAULT_DEPTH);
    assert_eq!(remaining(&board), default_pieces());
    assert_eq!(PieceBoardBuilder::default(), PieceBoardBuilder::new());
    assert_eq!(
        default_pieces(),
        vec![examples::piece0(), piece1(), piece2(), piece3(), piece4()]
    );
}

#[test]
fn shuffling_keeps_the_pieces() {
    let mut given = Vec::new();
    for i in 0..40 {
        given.push(Piece::new(vec![], i, 0, 0));
    }
    let mut moved = false;
    for _ in 0..20 {
        let board = PieceBoardBuilder::empty().extend(given.clone()).depth(5).build();
        assert_eq!(board.depth(), 5);
        assert_eq!(board.len(), 40);
        let mut costs: Vec<usize> = remaining(&board).iter().map(|p| p.cost()).collect();
        if costs != (0..40).collect::<Vec<usize>>() {
            moved = true;
        }
        costs.sort();
        assert_eq!(costs, (0..40).collect::<Vec<usize>>());
    }
    // Twenty shuffles of forty pieces that all leave them in place: that
    // does not happen.
    assert!(moved);
}

#[test]
fn shuffling_few_pieces() {
    let board = PieceBoardBuilder::empty().build();
    assert_eq!(board.len(), 0);
    let board = PieceBoardBuilder::empty().extend(vec![piece3()]).build();
    assert_eq!(remaining(&board), vec![piece3()]);
    for _ in 0..10 {
        let board = PieceBoardBuilder::empty().extend(vec![piece3(), piece4()]).build();
        let all = remaining(&board);
        assert!(all == vec![piece3(), piece4()] || all == vec![piece4(), piece3()]);
    }
}

#[test]
fn both_orders_of_two_pieces_occur() {
    // Each of sixty-four shuffles gives either order with equal chance.
    let mut first = Vec::new();
    for _ in 0..64 {
        let board = PieceBoardBuilder::empty().extend(vec![piece3(), piece4()]).build();
        first.push(remaining(&board)[0].clone());
    }
    assert!(first.contains(&piece3()));
    assert!(first.contains(&piece4()));
}

#[test]
fn pieces_iterator_from_both_ends() {
    let board = PieceBoardBuilder::empty().extend(pieces()).build_in_order();
    let mut it = board.pieces();
    assert_eq!(it.len(), 4);
    assert_eq!(it.size_hint(), (4, Some(4)));
    assert_eq!(it.next(), Some(&piece1()));
    assert_eq!(it.next_back(), Some(&piece4()));
    assert_eq!(it.len(), 2);
    let mut copy = it.clone();
    assert_eq!(it.next_back(), Some(&piece3()));
    assert_eq!(it.next(), Some(&piece2()));
    assert_eq!(it.next(), None);
    assert_eq!(it.next_back(), None);
    assert_eq!(it.size_hint(), (0, Some(0)));
    assert_eq!(copy.next(), Some(&piece2()));
    assert_eq!(copy.next(), Some(&piece3()));
    assert_eq!(copy.next(), None);
}

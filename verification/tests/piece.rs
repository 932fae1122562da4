use quilt_model::piece::examples;
use quilt_model::piece::Piece;
use quilt_model::position::Flip::{Horizontal, Identity};
use quilt_model::position::Rotation::{Clockwise180, Clockwise270, Clockwise90, NoRotation};
use quilt_model::position::{Dimension, Position, Transformation};

fn pos(x: usize, y: usize) -> Position {
    Position::new(x, y)
}

fn collect(piece: &Piece, t: Transformation) -> Vec<Position> {
    let mut positions = piece.positions(t);
    let mut all = Vec::new();
    while let Some(p) = positions.next() {
        all.push(p);
    }
    all
}

#[test]
fn piece_transform_width_height() {
    let piece = examples::piece0();
    let t1 = Transformation::new(NoRotation, Identity);
    let t2 = Transformation::new(Clockwise90, Identity);

    assert_eq!(piece.width(t1), 2);
    assert_eq!(piece.width(t2), 3);
    assert_eq!(piece.height(t1), 3);
    assert_eq!(piece.height(t2), 2);
}

#[test]
fn positions_iterator_with_identity() {
    let piece = examples::piece0();
    // 01
    //  2
    //  3
    let mut positions = piece.positions(Transformation::new(NoRotation, Identity));
    assert_eq!(positions.next(), Some(pos(0, 0)));
    assert_eq!(positions.next(), Some(pos(1, 0)));
    assert_eq!(positions.next(), Some(pos(1, 1)));
    assert_eq!(positions.next(), Some(pos(1, 2)));
    assert_eq!(positions.next(), None);
}

#[test]
fn positions_iterator_with_0_h() {
    let piece = examples::piece0();
    // 10
    // 2
    // 3
    let mut positions = piece.positions(Transformation::new(NoRotation, Horizontal));
    assert_eq!(positions.next(), Some(pos(1, 0)));
    assert_eq!(positions.next(), Some(pos(0, 0)));
    assert_eq!(positions.next(), Some(pos(0, 1)));
    assert_eq!(positions.next(), Some(pos(0, 2)));
}

#[test]
fn positions_iterator_with_90_i() {
    let piece = examples::piece0();
    //   0
    // 321
    let mut positions = piece.positions(Transformation::new(Clockwise90, Identity));
    assert_eq!(positions.next(), Some(pos(2, 0)));
    assert_eq!(positions.next(), Some(pos(2, 1)));
    assert_eq!(positions.next(), Some(pos(1, 1)));
    assert_eq!(positions.next(), Some(pos(0, 1)));
    assert_eq!(positions.next(), None);
}

#[test]
fn positions_iterator_with_90_h() {
    let piece = examples::piece0();
    // 0
    // 123
    let mut positions = piece.positions(Transformation::new(Clockwise90, Horizontal));
    assert_eq!(positions.next(), Some(pos(0, 0)));
    assert_eq!(positions.next(), Some(pos(0, 1)));
    assert_eq!(positions.next(), Some(pos(1, 1)));
    assert_eq!(positions.next(), Some(pos(2, 1)));
    assert_eq!(positions.next(), None);
}

#[test]
fn new_sorts_and_removes_duplicates() {
    let piece = Piece::new(
        vec![pos(2, 1), pos(0, 0), pos(1, 2), pos(0, 0), pos(1, 0), pos(2, 1), pos(1, 2)],
        3,
        4,
        5,
    );
    assert_eq!(piece.size(), 4);
    assert_eq!(
        collect(&piece, Transformation::identity()),
        vec![pos(0, 0), pos(1, 0), pos(1, 2), pos(2, 1)]
    );
    assert_eq!(piece.dimension(Transformation::identity()), Dimension::new(3, 3));
    assert_eq!(piece.cost(), 3);
    assert_eq!(piece.distance(), 4);
    assert_eq!(piece.collect(), 5);
}

#[test]
fn new_orders_by_x_before_y() {
    let piece = Piece::new(vec![pos(0, 5), pos(1, 0)], 0, 0, 0);
    assert_eq!(collect(&piece, Transformation::identity()), vec![pos(0, 5), pos(1, 0)]);
    let piece = Piece::new(vec![pos(1, 0), pos(0, 5)], 0, 0, 0);
    assert_eq!(collect(&piece, Transformation::identity()), vec![pos(0, 5), pos(1, 0)]);
}

#[test]
fn pieces_of_the_same_cells_are_equal() {
    let a = Piece::new(vec![pos(1, 1), pos(0, 0), pos(1, 0)], 1, 2, 3);
    let b = Piece::new(vec![pos(1, 0), pos(0, 0), pos(1, 1), pos(0, 0)], 1, 2, 3);
    assert_eq!(a, b);
    assert_eq!(a.clone(), a);
    assert_ne!(a, Piece::new(vec![pos(1, 1), pos(0, 0), pos(1, 0)], 1, 2, 4));
}

#[test]
fn empty_piece_is_zero_by_zero() {
    let piece = Piece::new(vec![], 1, 2, 3);
    assert_eq!(piece.size(), 0);
    assert_eq!(piece.dimension(Transformation::identity()), Dimension::new(0, 0));
    assert_eq!(piece.width(Transformation::new(Clockwise90, Horizontal)), 0);
    assert_eq!(piece.height(Transformation::new(Clockwise90, Horizontal)), 0);
    let mut positions = piece.positions(Transformation::identity());
    assert_eq!(positions.len(), 0);
    assert_eq!(positions.next(), None);
}

#[test]
fn dimension_is_tight() {
    let piece = Piece::new(vec![pos(4, 0), pos(0, 6)], 0, 0, 0);
    assert_eq!(piece.dimension(Transformation::identity()), Dimension::new(5, 7));
    assert_eq!(piece.width(Transformation::identity()), 5);
    assert_eq!(piece.height(Transformation::identity()), 7);
}

#[test]
fn single_position_piece() {
    let piece = Piece::single_position();
    assert_eq!(piece, Piece::new(vec![pos(0, 0)], 0, 0, 0));
    assert_eq!(piece.size(), 1);
    assert_eq!(piece.cost(), 0);
    assert_eq!(piece.distance(), 0);
    assert_eq!(piece.collect(), 0);
    assert_eq!(piece.dimension(Transformation::identity()), Dimension::new(1, 1));
}

#[test]
fn sample_pieces() {
    let zero = examples::piece0();
    assert_eq!((zero.size(), zero.cost(), zero.distance(), zero.collect()), (4, 2, 1, 0));
    let one = examples::piece1();
    assert_eq!((one.size(), one.cost(), one.distance(), one.collect()), (6, 1, 2, 0));
    assert_eq!(one.dimension(Transformation::identity()), Dimension::new(3, 4));
    let two = examples::piece2();
    assert_eq!((two.size(), two.cost(), two.distance(), two.collect()), (6, 8, 6, 3));
    assert_eq!(
        collect(&two, Transformation::identity()),
        vec![pos(0, 0), pos(1, 0), pos(1, 1), pos(1, 2), pos(2, 1), pos(2, 2)]
    );
    let three = examples::piece3();
    assert_eq!((three.size(), three.cost(), three.distance(), three.collect()), (3, 1, 3, 0));
    assert_eq!(collect(&three, Transformation::identity()), vec![pos(0, 1), pos(1, 0), pos(1, 1)]);
    let four = examples::piece4();
    assert_eq!((four.size(), four.cost(), four.distance(), four.collect()), (7, 1, 4, 1));
    assert_eq!(four.dimension(Transformation::identity()), Dimension::new(3, 5));
}

#[test]
fn positions_have_the_size_of_the_piece_and_lie_within_its_dimension() {
    let pieces = vec![
        examples::piece0(),
        examples::piece1(),
        examples::piece2(),
        examples::piece3(),
        examples::piece4(),
        Piece::single_position(),
        Piece::new(vec![], 0, 0, 0),
    ];
    for piece in &pieces {
        for r in [NoRotation, Clockwise90, Clockwise180, Clockwise270] {
            for f in [Identity, Horizontal] {
                let t = Transformation::new(r, f);
                let all = collect(piece, t);
                assert_eq!(all.len(), piece.size());
                assert_eq!(piece.positions(t).len(), piece.size());
                let d = piece.dimension(t);
                assert_eq!(d.width, piece.width(t));
                assert_eq!(d.height, piece.height(t));
                for p in &all {
                    assert!(p.x < piece.width(t));
                    assert!(p.y < piece.height(t));
                }
                // No two cells of a piece fall together.
                for i in 0..all.len() {
                    for j in 0..i {
                        assert_ne!(all[i], all[j]);
                    }
                }
            }
        }
    }
}

#[test]
fn positions_can_be_walked_again() {
    let piece = examples::piece4();
    let t = Transformation::new(Clockwise270, Horizontal);
    let first = collect(&piece, t);
    let second = collect(&piece, t);
    assert_eq!(first, second);
    assert_eq!(first.len(), 7);
}

#[test]
fn positions_count_down() {
    let piece = examples::piece0();
    let mut positions = piece.positions(Transformation::identity());
    assert_eq!(positions.len(), 4);
    assert_eq!(positions.size_hint(), (4, Some(4)));
    positions.next();
    assert_eq!(positions.len(), 3);
    let mut copy = positions.clone();
    assert_eq!(copy.next(), Some(pos(1, 0)));
    assert_eq!(positions.len(), 3);
    positions.next();
    positions.next();
    positions.next();
    assert_eq!(positions.size_hint(), (0, Some(0)));
    assert_eq!(positions.next(), None);
    assert_eq!(positions.next(), None);
}

#[test]
fn identity_keeps_the_piece() {
    let piece = examples::piece2();
    assert_eq!(
        collect(&piece, Transformation::identity()),
        vec![pos(0, 0), pos(1, 0), pos(1, 1), pos(1, 2), pos(2, 1), pos(2, 2)]
    );
    assert_eq!(piece.dimension(Transformation::identity()), Dimension::new(3, 3));
}

#[test]
fn half_turn_of_a_piece() {
    let piece = examples::piece0();
    // 2x3 box: (x, y) -> (1 - x, 2 - y)
    assert_eq!(
        collect(&piece, Transformation::new(Clockwise180, Identity)),
        vec![pos(1, 2), pos(0, 2), pos(0, 1), pos(0, 0)]
    );
    assert_eq!(
        collect(&piece, Transformation::new(Clockwise270, Identity)),
        vec![pos(0, 1), pos(0, 0), pos(1, 0), pos(2, 0)]
    );
}

use std::collections::VecDeque;

use quilt_model::shuffle::{shuffle_vec_deque_with, shuffle_vec_with};

#[test]
fn shuffle_of_a_vector_follows_the_picks() {
    // Index 3 with 0, then index 2 with 0, then index 1 with 0.
    let mut v = vec![10, 20, 30, 40];
    shuffle_vec_with(&mut v, &vec![0, 0, 0]);
    assert_eq!(v, vec![20, 30, 40, 10]);

    // Index 3 with 1, then index 2 with 1, then index 1 with 0.
    let mut v = vec![10, 20, 30, 40];
    shuffle_vec_with(&mut v, &vec![1, 1, 0]);
    assert_eq!(v, vec![30, 10, 40, 20]);

    let mut v = vec!['a', 'b', 'c'];
    shuffle_vec_with(&mut v, &vec![2, 0]);
    assert_eq!(v, vec!['b', 'a', 'c']);
}

#[test]
fn picks_of_the_own_index_leave_a_vector_alone() {
    let mut v = vec![10, 20, 30, 40];
    shuffle_vec_with(&mut v, &vec![3, 2, 1]);
    assert_eq!(v, vec![10, 20, 30, 40]);
}

#[test]
fn shuffle_of_short_vectors() {
    let mut v: Vec<u8> = vec![];
    shuffle_vec_with(&mut v, &vec![]);
    assert_eq!(v, Vec::<u8>::new());
    let mut v = vec![7];
    shuffle_vec_with(&mut v, &vec![]);
    assert_eq!(v, vec![7]);
    let mut v = vec![7, 8];
    shuffle_vec_with(&mut v, &vec![0]);
    assert_eq!(v, vec![8, 7]);
    let mut v = vec![7, 8];
    shuffle_vec_with(&mut v, &vec![1]);
    assert_eq!(v, vec![7, 8]);
}

#[test]
fn shuffle_of_a_queue_follows_the_picks() {
    let mut vd: VecDeque<u32> = VecDeque::new();
    // Pushed at the front, so that the queue wraps around inside.
    vd.push_back(30);
    vd.push_back(40);
    vd.push_front(20);
    vd.push_front(10);
    shuffle_vec_deque_with(&mut vd, &vec![0, 0, 0]);
    assert_eq!(vd, VecDeque::from(vec![20, 30, 40, 10]));

    let mut vd = VecDeque::from(vec![10, 20, 30, 40]);
    shuffle_vec_deque_with(&mut vd, &vec![1, 1, 0]);
    assert_eq!(vd, VecDeque::from(vec![30, 10, 40, 20]));

    let mut vd = VecDeque::from(vec![10, 20, 30, 40]);
    shuffle_vec_deque_with(&mut vd, &vec![3, 2, 1]);
    assert_eq!(vd, VecDeque::from(vec![10, 20, 30, 40]));

    let mut vd: VecDeque<u32> = VecDeque::new();
    shuffle_vec_deque_with(&mut vd, &vec![]);
    assert!(vd.is_empty());
}

//! The Fisher-Yates shuffle, apart from where its numbers come from.
//!
//! A shuffle of `len` elements goes from the last index down to index 1 and
//! exchanges the element at each index with one at or below it. Which one is
//! a number that is drawn for that step: the picks. Given the picks, what
//! the shuffle makes is `shuffled`.

use rand::ThreadRng;
use std::collections::VecDeque;
use vstd::prelude::*;

use crate::player::lemma_swap_keeps_items;
use crate::trusted::{sample_range, vec_deque_swap, vec_swap};

verus! {

/// The sequence with the elements at `i` and `j` exchanged.
pub open spec fn swapped<T>(s: Seq<T>, i: int, j: int) -> Seq<T> {
    s.update(i, s[j]).update(j, s[i])
}

/// Whether each pick points at or below the index of its step: step `k` of a
/// shuffle of `len` elements is at index `len - 1 - k`.
pub open spec fn are_in_range(picks: Seq<usize>, len: nat) -> bool {
    forall|k: int| 0 <= k < picks.len() ==> #[trigger] picks[k] + k < len
}

/// Whether `picks` steer a whole shuffle of `len` elements: there is one for
/// each index from the last down to 1, and each is in range.
pub open spec fn are_picks(picks: Seq<usize>, len: nat) -> bool {
    &&& picks.len() == if len == 0 {
        0
    } else {
        len - 1
    }
    &&& are_in_range(picks, len)
}

/// What the steps that `picks` steer make of `s`: step `k` exchanges the
/// element at index `s.len() - 1 - k` with that at `picks[k]`.
pub open spec fn shuffled<T>(s: Seq<T>, picks: Seq<usize>) -> Seq<T>
    decreases picks.len(),
{
    if picks.len() == 0 {
        s
    } else {
        swapped(shuffled(s, picks.drop_last()), s.len() - picks.len(), picks.last() as int)
    }
}

/// Whatever the picks, as long as they are in range, the shuffled sequence
/// is as long as the given one and holds the same elements, each as often.
pub proof fn lemma_shuffled_keeps_items<T>(s: Seq<T>, picks: Seq<usize>)
    requires
        are_in_range(picks, s.len()),
    ensures
        shuffled(s, picks).len() == s.len(),
        shuffled(s, picks).to_multiset() == s.to_multiset(),
    decreases picks.len(),
{
    if picks.len() > 0 {
        let earlier = picks.drop_last();
        assert forall|k: int| 0 <= k < earlier.len() implies #[trigger] earlier[k] + k
            < s.len() by {
            assert(earlier[k] == picks[k]);
        }
        lemma_shuffled_keeps_items(s, earlier);
        let k = picks.len() - 1;
        assert(picks[k] + k < s.len());
        lemma_swap_keeps_items(shuffled(s, earlier), s.len() - picks.len(), picks.last() as int);
    }
}

/// Draws the picks for a shuffle of `len` elements, for the last index first:
/// for index `i` a number from 0 to `i`, `i` included.
pub(crate) fn draw_picks(rng: &mut ThreadRng, len: usize) -> (picks: Vec<usize>)
    ensures
        are_picks(picks@, len as nat),
{
    let mut picks: Vec<usize> = Vec::new();
    let mut i: usize = len;
    while i > 1
        invariant
            i <= len,
            len > 0 ==> i >= 1 && picks@.len() == len - i,
            len == 0 ==> picks@.len() == 0,
            are_in_range(picks@, len as nat),
        decreases i,
    {
        i = i - 1;
        let j = sample_range(rng, 0, i + 1);
        picks.push(j);
    }
    picks
}

/// Shuffles the vector as the picks say: from the last index down to
/// index 1, the element there is exchanged with the one that the pick of that
/// step points at.
pub fn shuffle_vec_with<T>(v: &mut Vec<T>, picks: &Vec<usize>)
    requires
        are_picks(picks@, old(v)@.len()),
    ensures
        final(v)@ == shuffled(old(v)@, picks@),
{
    let len = v.len();
    let mut k: usize = 0;
    assert(picks@.take(0) =~= Seq::<usize>::empty());
    while k < picks.len()
        invariant
            k <= picks@.len(),
            len == old(v)@.len(),
            are_picks(picks@, len as nat),
            v@.len() == len,
            v@ == shuffled(old(v)@, picks@.take(k as int)),
        decreases picks@.len() - k,
    {
        let i = len - 1 - k;
        let j = picks[k];
        assert(picks@[k as int] + k < len);
        vec_swap(v, i, j);
        proof {
            let longer = picks@.take(k + 1);
            assert(longer.drop_last() =~= picks@.take(k as int));
            assert(longer.last() == picks@[k as int]);
        }
        k = k + 1;
    }
    assert(picks@.take(k as int) =~= picks@);
}

/// Shuffles the queue as the picks say: from the last index down to index 1,
/// the element there is exchanged with the one that the pick of that step
/// points at.
pub fn shuffle_vec_deque_with<T>(vd: &mut VecDeque<T>, picks: &Vec<usize>)
    requires
        are_picks(picks@, old(vd)@.len()),
    ensures
        final(vd)@ == shuffled(old(vd)@, picks@),
{
    let len = vd.len();
    let mut k: usize = 0;
    assert(picks@.take(0) =~= Seq::<usize>::empty());
    while k < picks.len()
        invariant
            k <= picks@.len(),
            len == old(vd)@.len(),
            are_picks(picks@, len as nat),
            vd@.len() == len,
            vd@ == shuffled(old(vd)@, picks@.take(k as int)),
        decreases picks@.len() - k,
    {
        let i = len - 1 - k;
        let j = picks[k];
        assert(picks@[k as int] + k < len);
        vec_deque_swap(vd, i, j);
        proof {
            let longer = picks@.take(k + 1);
            assert(longer.drop_last() =~= picks@.take(k as int));
            assert(longer.last() == picks@[k as int]);
        }
        k = k + 1;
    }
    assert(picks@.take(k as int) =~= picks@);
}

} // verus!

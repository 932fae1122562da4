//! The calls that this library takes on trust.
//!
//! Nothing in this file is proved. Each item stands for one function of the
//! `rand` crate or of the standard library and says what the rest of the
//! library relies on about it.

use rand::distributions::{IndependentSample, Range};
use rand::ThreadRng;
use std::collections::VecDeque;
use vstd::prelude::*;

verus! {

/// `rand::ThreadRng`, the generator that each thread has for itself. Its state
/// is not modelled.
#[verifier::external_type_specification]
#[verifier::external_body]
pub struct ExThreadRng(ThreadRng);

/// `rand::thread_rng` hands out the generator of the current thread. Nothing
/// is claimed of it.
pub assume_specification[ rand::thread_rng ]() -> (rng: ThreadRng)
;

/// Draws a number with `Range::new(low, high).ind_sample(rng)`.
///
/// `Range::new` wants its lower end below its upper end; `ind_sample` then
/// returns a number of the half-open range from `low` to `high`, and that is
/// all that is claimed: not which number, nor that two draws agree.
#[verifier::external_body]
pub(crate) fn sample_range(rng: &mut ThreadRng, low: usize, high: usize) -> (sample: usize)
    requires
        low < high,
    ensures
        low <= sample < high,
{
    Range::new(low, high).ind_sample(rng)
}

/// `[T]::swap`, on a vector: exchanges the elements at the two indices, which
/// may be equal and must both be in bounds.
#[verifier::external_body]
pub(crate) fn vec_swap<T>(v: &mut Vec<T>, i: usize, j: usize)
    requires
        i < old(v)@.len(),
        j < old(v)@.len(),
    ensures
        final(v)@ == old(v)@.update(i as int, old(v)@[j as int]).update(j as int, old(v)@[i as int]),
{
    v.swap(i, j)
}

/// `VecDeque::swap` exchanges the elements at the two indices, which may be
/// equal and must both be in bounds.
#[verifier::external_body]
pub(crate) fn vec_deque_swap<T>(vd: &mut VecDeque<T>, i: usize, j: usize)
    requires
        i < old(vd)@.len(),
        j < old(vd)@.len(),
    ensures
        final(vd)@ == old(vd)@.update(i as int, old(vd)@[j as int]).update(
            j as int,
            old(vd)@[i as int],
        ),
{
    vd.swap(i, j)
}

/// `String::push` appends the given character to the end of the string.
pub assume_specification[ String::push ](s: &mut String, ch: char)
    ensures
        final(s)@ == old(s)@.push(ch),
;

} // verus!

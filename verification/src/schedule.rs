//! The stride sizes of a run: from the initial size, doubling, up to and
//! including the largest that does not exceed the maximum.

use vstd::arithmetic::power2::lemma2_to64;
use vstd::arithmetic::power2::lemma_pow2_unfold;
use vstd::arithmetic::power2::pow2;
use vstd::prelude::*;

verus! {

/// The stride size of trial number `trial`, counted from 0: the initial
/// size doubled that many times.
pub open spec fn stride_at(initial: usize, trial: nat) -> nat {
    initial as nat * pow2(trial)
}

/// Whether a trial at `step_size` is followed by another one.
pub open spec fn has_next(step_size: usize, max_step_size: usize) -> bool {
    step_size >= 1 && 2 * step_size <= max_step_size
}

/// The largest stride size of a run: the one given, or else the size of
/// the buffer.
pub fn effective_max_step_size(max_step_size: Option<usize>, total_size: usize) -> (max: usize)
    ensures
        max == (match max_step_size {
            Some(given) => given,
            None => total_size,
        }),
{
    match max_step_size {
        Some(given) => given,
        None => total_size,
    }
}

/// The stride size of the first trial, or `None` where no trial runs:
/// where the initial size is 0 or exceeds the maximum.
pub fn first_step_size(initial_step_size: usize, max_step_size: usize) -> (first: Option<usize>)
    ensures
        first == (if 1 <= initial_step_size <= max_step_size {
            Some(initial_step_size)
        } else {
            None
        }),
{
    if 1 <= initial_step_size && initial_step_size <= max_step_size {
        Some(initial_step_size)
    } else {
        None
    }
}

/// The stride size of the trial after the one at `step_size`: twice that,
/// or `None` where the double would exceed the maximum.
pub fn next_step_size(step_size: usize, max_step_size: usize) -> (next: Option<usize>)
    ensures
        next == (if has_next(step_size, max_step_size) {
            Some((2 * step_size) as usize)
        } else {
            None
        }),
{
    if step_size == 0 {
        return None;
    }
    match step_size.checked_mul(2) {
        Some(doubled) => if doubled <= max_step_size {
            Some(doubled)
        } else {
            None
        },
        None => None,
    }
}

/// The stride sizes of all trials of a run, in the order in which they
/// run: the initial size, twice that, four times that, and so on, up to
/// and including the largest such term that does not exceed the maximum.
/// Where the initial size is 0 or exceeds the maximum, there is none.
pub fn step_sizes(initial_step_size: usize, max_step_size: usize) -> (strides: Vec<usize>)
    ensures
        forall|trial: int|
            0 <= trial < strides@.len() ==> strides@[trial] == stride_at(
                initial_step_size,
                trial as nat,
            ) && strides@[trial] <= max_step_size,
        1 <= initial_step_size <= max_step_size ==> strides@.len() >= 1 && stride_at(
            initial_step_size,
            strides@.len(),
        ) > max_step_size,
        !(1 <= initial_step_size <= max_step_size) ==> strides@.len() == 0,
{
    let mut strides: Vec<usize> = Vec::new();
    let mut current = first_step_size(initial_step_size, max_step_size);
    proof {
        lemma2_to64();
    }
    while current.is_some()
        invariant
            forall|trial: int|
                0 <= trial < strides@.len() ==> strides@[trial] == stride_at(
                    initial_step_size,
                    trial as nat,
                ) && strides@[trial] <= max_step_size,
            current matches Some(step_size) ==> 1 <= step_size <= max_step_size && step_size
                == stride_at(initial_step_size, strides@.len()),
            current is None && 1 <= initial_step_size <= max_step_size ==> strides@.len() >= 1
                && stride_at(initial_step_size, strides@.len()) > max_step_size,
            !(1 <= initial_step_size <= max_step_size) ==> strides@.len() == 0 && current is None,
        decreases
            (match current {
                Some(step_size) => max_step_size - step_size + 1,
                None => 0,
            }),
    {
        let step_size = current.unwrap();
        proof {
            let done = strides@.len();
            lemma_pow2_unfold(done + 1);
            assert(stride_at(initial_step_size, done + 1) == 2 * stride_at(initial_step_size, done))
                by (nonlinear_arith)
                requires
                    pow2(done + 1) == 2 * pow2(done),
                    stride_at(initial_step_size, done + 1) == initial_step_size as nat * pow2(
                        done + 1,
                    ),
                    stride_at(initial_step_size, done) == initial_step_size as nat * pow2(done),
            ;
        }
        strides.push(step_size);
        current = next_step_size(step_size, max_step_size);
    }
    strides
}

} // verus!

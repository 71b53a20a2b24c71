//! Capacity arithmetic for the growth engine.
//!
//! When the container must grow, `reserve` targets the next power of two at
//! or above the requested element count, so that repeated pushes reallocate
//! only a logarithmic number of times. The target saturates at
//! `usize::MAX` instead of overflowing.

use vstd::prelude::*;

verus! {

/// The value reached from `p` by repeated doubling, stopping as soon as it
/// is at least `x`. For `p` a power of two this is the smallest power of two
/// that is both `>= p` and `>= x`.
pub open spec fn next_pow2_from(p: int, x: int) -> int
    decreases (if x - p > 0 { x - p } else { 0 }),
{
    if p <= 0 || p >= x {
        p
    } else {
        next_pow2_from(2 * p, x)
    }
}

/// The smallest power of two that is at least `x` (one, for `x <= 1`).
pub open spec fn next_pow2(x: int) -> int {
    next_pow2_from(1, x)
}

/// The capacity that `reserve` targets once it decides to grow: the next
/// power of two at or above `len + additional`, saturating at `usize::MAX`
/// when that power of two does not exist within `usize`.
pub open spec fn reserve_target(len: int, additional: int) -> int {
    if len + additional > usize::MAX as int {
        usize::MAX as int
    } else if next_pow2(len + additional) > usize::MAX as int {
        usize::MAX as int
    } else {
        next_pow2(len + additional)
    }
}

proof fn lemma_next_pow2_from_ge(p: int, x: int)
    requires
        1 <= p,
    ensures
        next_pow2_from(p, x) >= p,
        next_pow2_from(p, x) >= x,
    decreases (if x - p > 0 { x - p } else { 0 }),
{
    if p < x {
        lemma_next_pow2_from_ge(2 * p, x);
    }
}

/// The next power of two is at least one and at least its argument.
pub proof fn lemma_next_pow2_ge(x: int)
    ensures
        next_pow2(x) >= 1,
        next_pow2(x) >= x,
{
    lemma_next_pow2_from_ge(1, x);
}

/// The reserve target fits in `usize` and, absent saturation, covers the
/// requested element count.
pub proof fn lemma_reserve_target_bounds(len: int, additional: int)
    requires
        0 <= len <= usize::MAX as int,
        0 <= additional,
    ensures
        1 <= reserve_target(len, additional) <= usize::MAX as int,
        len + additional <= usize::MAX as int ==> reserve_target(len, additional) >= len
            + additional,
        reserve_target(len, additional) >= len,
{
    lemma_next_pow2_ge(len + additional);
}

/// Compute the reserve target: the next power of two at or above
/// `len + additional`, saturating at `usize::MAX` on overflow.
pub fn next_capacity(len: usize, additional: usize) -> (r: usize)
    ensures
        r as int == reserve_target(len as int, additional as int),
{
    let want: usize = match len.checked_add(additional) {
        Some(w) => w,
        None => {
            return usize::MAX;
        },
    };
    let mut p: usize = 1;
    while p < want
        invariant
            1 <= p,
            want == len + additional,
            next_pow2_from(p as int, want as int) == next_pow2(want as int),
        decreases (if want > p { want - p } else { 0int }),
    {
        if p > usize::MAX / 2 {
            proof {
                lemma_next_pow2_from_ge(2 * (p as int), want as int);
            }
            return usize::MAX;
        }
        p = p * 2;
    }
    p
}

} // verus!

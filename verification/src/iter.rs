//! Consuming and draining iteration.
//!
//! Both iterators own the elements they have yet to yield: `drain` empties
//! the container up front, and `into_iter` consumes it, so an iterator that
//! is dropped part-way through tears down the remaining elements itself —
//! the container is never responsible for them again. Both yield elements
//! from either end.

use vstd::prelude::*;

use crate::small_vec::SmallVec;
use std::collections::VecDeque;

verus! {

/// Move a vector's elements into a double-ended queue, preserving order.
fn vec_to_deque<T>(v: Vec<T>) -> (r: VecDeque<T>)
    ensures
        r@ == v@,
{
    let ghost orig = v@;
    let mut v = v;
    let mut dq: VecDeque<T> = VecDeque::new();
    while v.len() > 0
        invariant
            v@.len() <= orig.len(),
            v@ == orig.take(v@.len() as int),
            dq@ == orig.skip(v@.len() as int),
        decreases v@.len(),
    {
        match v.pop() {
            Some(x) => {
                dq.push_front(x);
                proof {
                    assert(v@ =~= orig.take(v@.len() as int));
                    assert(dq@ =~= orig.skip(v@.len() as int));
                }
            },
            None => {
                proof {
                    assert(false);
                }
            },
        }
    }
    proof {
        assert(dq@ =~= orig);
    }
    dq
}

/// An iterator that removes the items from a `SmallVec` and yields them by
/// value, from either end. It owns the items it has not yielded yet, and
/// drops them when it is itself dropped.
pub struct Drain<T> {
    items: VecDeque<T>,
}

impl<T> View for Drain<T> {
    type V = Seq<T>;

    closed spec fn view(&self) -> Seq<T> {
        self.items@
    }
}

impl<T> Drain<T> {
    /// The number of elements not yet yielded.
    pub fn len(&self) -> (r: usize)
        ensures
            r == self@.len(),
    {
        self.items.len()
    }

    /// Yield the element closest to the front, or `None` once exhausted.
    pub fn next(&mut self) -> (r: Option<T>)
        ensures
            old(self)@.len() == 0 ==> r is None && final(self)@ == old(self)@,
            old(self)@.len() > 0 ==> r == Some(old(self)@[0]) && final(self)@ == old(
                self,
            )@.drop_first(),
    {
        self.items.pop_front()
    }

    /// Yield the element closest to the back, or `None` once exhausted.
    pub fn next_back(&mut self) -> (r: Option<T>)
        ensures
            old(self)@.len() == 0 ==> r is None && final(self)@ == old(self)@,
            old(self)@.len() > 0 ==> r == Some(old(self)@.last()) && final(self)@ == old(
                self,
            )@.drop_last(),
    {
        self.items.pop_back()
    }
}

/// An iterator that consumes a `SmallVec` and yields its items by value,
/// from either end.
pub struct IntoIter<T> {
    items: VecDeque<T>,
}

impl<T> View for IntoIter<T> {
    type V = Seq<T>;

    closed spec fn view(&self) -> Seq<T> {
        self.items@
    }
}

impl<T> IntoIter<T> {
    /// The number of elements not yet yielded.
    pub fn len(&self) -> (r: usize)
        ensures
            r == self@.len(),
    {
        self.items.len()
    }

    /// Yield the element closest to the front, or `None` once exhausted.
    pub fn next(&mut self) -> (r: Option<T>)
        ensures
            old(self)@.len() == 0 ==> r is None && final(self)@ == old(self)@,
            old(self)@.len() > 0 ==> r == Some(old(self)@[0]) && final(self)@ == old(
                self,
            )@.drop_first(),
    {
        self.items.pop_front()
    }

    /// Yield the element closest to the back, or `None` once exhausted.
    pub fn next_back(&mut self) -> (r: Option<T>)
        ensures
            old(self)@.len() == 0 ==> r is None && final(self)@ == old(self)@,
            old(self)@.len() > 0 ==> r == Some(old(self)@.last()) && final(self)@ == old(
                self,
            )@.drop_last(),
    {
        self.items.pop_back()
    }
}

impl<T, const N: usize> SmallVec<T, N> {
    /// Empty the vector immediately and return an iterator over its former
    /// contents. The vector keeps its capacity and storage variant.
    pub fn drain(&mut self) -> (r: Drain<T>)
        requires
            old(self).wf(),
        ensures
            final(self).wf(),
            final(self)@ == Seq::<T>::empty(),
            final(self).capacity_spec() == old(self).capacity_spec(),
            final(self).spilled_spec() == old(self).spilled_spec(),
            r@ == old(self)@,
    {
        let ghost orig = self@;
        let mut dq: VecDeque<T> = VecDeque::new();
        while self.len() > 0
            invariant
                self.wf(),
                self@.len() <= orig.len(),
                self@ == orig.take(self@.len() as int),
                dq@ == orig.skip(self@.len() as int),
                self.capacity_spec() == old(self).capacity_spec(),
                self.spilled_spec() == old(self).spilled_spec(),
                orig == old(self)@,
            decreases self@.len(),
        {
            match self.pop() {
                Some(x) => {
                    dq.push_front(x);
                    proof {
                        assert(self@ =~= orig.take(self@.len() as int));
                        assert(dq@ =~= orig.skip(self@.len() as int));
                    }
                },
                None => {
                    proof {
                        assert(false);
                    }
                },
            }
        }
        proof {
            assert(dq@ =~= orig);
            assert(self@ =~= Seq::<T>::empty());
        }
        Drain { items: dq }
    }

    /// Consume the vector, returning an iterator that yields its elements
    /// by value.
    pub fn into_iter(self) -> (r: IntoIter<T>)
        requires
            self.wf(),
        ensures
            r@ == self@,
    {
        let items = vec_to_deque(self.into_vec());
        IntoIter { items }
    }
}

} // verus!

//! Bulk mutation: appending and inserting whole runs of elements, resizing,
//! and filling from a repeated element.

use vstd::prelude::*;

use crate::small_vec::SmallVec;
use crate::source::ElementSource;

verus! {

impl<T, const N: usize> SmallVec<T, N> {
    /// Append every element the source yields, in order.
    ///
    /// The source's size hint is used once, to pre-allocate; the result is
    /// the same whether the hint undercounts, overcounts, or is exact.
    pub fn extend<S: ElementSource<T>>(&mut self, iterable: S)
        requires
            old(self).wf(),
            old(self)@.len() + iterable.elements().len() <= usize::MAX,
        ensures
            final(self).wf(),
            final(self)@ == old(self)@ + iterable.elements(),
            final(self).capacity_spec() >= old(self).capacity_spec(),
    {
        let mut src = iterable;
        let hint = src.size_hint();
        self.reserve(hint);
        loop
            invariant
                self.wf(),
                old(self)@.len() + iterable.elements().len() <= usize::MAX,
                iterable.elements() == self@.subrange(old(self)@.len() as int, self@.len() as int)
                    + src.elements(),
                self@.subrange(0, old(self)@.len() as int) == old(self)@,
                self@.len() == old(self)@.len() + iterable.elements().len()
                    - src.elements().len(),
                self.capacity_spec() >= old(self).capacity_spec(),
            ensures
                self.wf(),
                src.elements().len() == 0,
                iterable.elements() == self@.subrange(old(self)@.len() as int, self@.len() as int)
                    + src.elements(),
                self@.subrange(0, old(self)@.len() as int) == old(self)@,
                self@.len() == old(self)@.len() + iterable.elements().len()
                    - src.elements().len(),
                self.capacity_spec() >= old(self).capacity_spec(),
            decreases src.elements().len(),
        {
            match src.next() {
                Some(x) => {
                    self.push(x);
                    proof {
                        assert(self@.subrange(0, old(self)@.len() as int) =~= old(self)@);
                        assert(self@.subrange(old(self)@.len() as int, self@.len() as int)
                            + src.elements() =~= iterable.elements());
                    }
                },
                None => {
                    break ;
                },
            }
        }
        proof {
            assert(self@ =~= old(self)@ + iterable.elements());
        }
    }

    /// Construct a vector holding every element the source yields.
    pub fn from_iter<S: ElementSource<T>>(iterable: S) -> (r: SmallVec<T, N>)
        requires
            iterable.elements().len() <= usize::MAX,
        ensures
            r.wf(),
            r@ == iterable.elements(),
    {
        let mut r = SmallVec::new();
        r.extend(iterable);
        proof {
            assert(r@ =~= iterable.elements());
        }
        r
    }

    /// Insert every element the source yields at position `index`, in
    /// order, shifting the following elements toward the back.
    ///
    /// The elements after `index` are detached before the source is
    /// consulted and reattached afterwards, so the logical length always
    /// counts exactly the live elements; the size hint only pre-allocates.
    pub fn insert_many<S: ElementSource<T>>(&mut self, index: usize, iterable: S)
        requires
            old(self).wf(),
            index <= old(self)@.len(),
            old(self)@.len() + iterable.elements().len() <= usize::MAX,
        ensures
            final(self).wf(),
            final(self)@ == old(self)@.subrange(0, index as int) + iterable.elements() + old(self)@.subrange(index as int, old(self)@.len() as int),
            final(self).capacity_spec() >= old(self).capacity_spec(),
    {
        let ghost orig = self@;
        // detach the tail (in reverse) so a source that stops early leaves
        // the logical length consistent with the elements actually live
        let mut tail: Vec<T> = Vec::new();
        while self.len() > index
            invariant
                self.wf(),
                self.capacity_spec() >= old(self).capacity_spec(),
                index <= self@.len() <= orig.len(),
                self@ == orig.subrange(0, self@.len() as int),
                tail@.len() == orig.len() - self@.len(),
                forall|j: int|
                    0 <= j < tail@.len() ==> tail@[j] == orig[orig.len() - 1 - j],
            decreases self@.len(),
        {
            match self.pop() {
                Some(x) => {
                    tail.push(x);
                },
                None => {
                    proof {
                        assert(false);
                    }
                },
            }
            proof {
                assert(self@ =~= orig.subrange(0, self@.len() as int));
            }
        }
        // append the source's elements
        let mut src = iterable;
        let hint = src.size_hint();
        self.reserve(hint);
        loop
            invariant
                self.wf(),
                self.capacity_spec() >= old(self).capacity_spec(),
                index <= self@.len(),
                index <= orig.len(),
                orig.len() + iterable.elements().len() <= usize::MAX,
                self@ == orig.subrange(0, index as int) + iterable.elements().take(
                    self@.len() - index,
                ),
                iterable.elements() == iterable.elements().take(self@.len() - index)
                    + src.elements(),
                tail@.len() == orig.len() - index,
                forall|j: int|
                    0 <= j < tail@.len() ==> tail@[j] == orig[orig.len() - 1 - j],
            ensures
                self.wf(),
                self.capacity_spec() >= old(self).capacity_spec(),
                src.elements().len() == 0,
                self@ == orig.subrange(0, index as int) + iterable.elements().take(
                    self@.len() - index,
                ),
                iterable.elements() == iterable.elements().take(self@.len() - index)
                    + src.elements(),
                tail@.len() == orig.len() - index,
                forall|j: int|
                    0 <= j < tail@.len() ==> tail@[j] == orig[orig.len() - 1 - j],
            decreases src.elements().len(),
        {
            match src.next() {
                Some(x) => {
                    self.push(x);
                    proof {
                        assert(self@ =~= orig.subrange(0, index as int)
                            + iterable.elements().take(self@.len() - index));
                        assert(iterable.elements() =~= iterable.elements().take(
                            self@.len() - index,
                        ) + src.elements());
                    }
                },
                None => {
                    break ;
                },
            }
        }
        proof {
            assert(iterable.elements().take(self@.len() - index) =~= iterable.elements());
        }
        // reattach the tail
        while tail.len() > 0
            invariant
                self.wf(),
                self.capacity_spec() >= old(self).capacity_spec(),
                index <= orig.len(),
                orig.len() + iterable.elements().len() <= usize::MAX,
                self@.len() == index + iterable.elements().len() + (orig.len() - index
                    - tail@.len()),
                self@ == orig.subrange(0, index as int) + iterable.elements() + orig.subrange(
                    index as int,
                    orig.len() - tail@.len(),
                ),
                tail@.len() <= orig.len() - index,
                forall|j: int|
                    0 <= j < tail@.len() ==> tail@[j] == orig[orig.len() - 1 - j],
            decreases tail@.len(),
        {
            match tail.pop() {
                Some(x) => {
                    proof {
                        assert(x == orig[orig.len() - tail@.len() - 1]);
                    }
                    self.push(x);
                    proof {
                        assert(self@ =~= orig.subrange(0, index as int) + iterable.elements()
                            + orig.subrange(index as int, orig.len() - tail@.len()));
                    }
                },
                None => {
                    proof {
                        assert(false);
                    }
                },
            }
        }
        proof {
            assert(self@ =~= orig.subrange(0, index as int) + iterable.elements() + orig.subrange(
                index as int,
                orig.len() as int,
            ));
        }
    }
}

impl<T: Copy, const N: usize> SmallVec<T, N> {
    /// Copy elements from a slice into the vector at position `index`,
    /// shifting the following elements toward the back.
    pub fn insert_from_slice(&mut self, index: usize, slice: &[T])
        requires
            old(self).wf(),
            index <= old(self)@.len(),
            old(self)@.len() + slice@.len() <= usize::MAX,
        ensures
            final(self).wf(),
            final(self)@ == old(self)@.subrange(0, index as int) + slice@ + old(self)@.subrange(
                index as int,
                old(self)@.len() as int,
            ),
    {
        self.reserve(slice.len());
        let mut k: usize = 0;
        while k < slice.len()
            invariant
                self.wf(),
                k <= slice@.len(),
                index <= old(self)@.len(),
                old(self)@.len() + slice@.len() <= usize::MAX,
                self@ == old(self)@.subrange(0, index as int) + slice@.subrange(0, k as int) + old(self)@.subrange(index as int, old(self)@.len() as int),
            decreases slice@.len() - k,
        {
            self.insert(index + k, slice[k]);
            proof {
                assert(self@ =~= old(self)@.subrange(0, index as int) + slice@.subrange(
                    0,
                    k + 1 as int,
                ) + old(self)@.subrange(index as int, old(self)@.len() as int));
            }
            k = k + 1;
        }
        proof {
            assert(slice@.subrange(0, slice@.len() as int) =~= slice@);
        }
    }

    /// Copy elements from a slice and append them to the vector.
    pub fn extend_from_slice(&mut self, slice: &[T])
        requires
            old(self).wf(),
            old(self)@.len() + slice@.len() <= usize::MAX,
        ensures
            final(self).wf(),
            final(self)@ == old(self)@ + slice@,
    {
        let len = self.len();
        self.insert_from_slice(len, slice);
        proof {
            assert(self@ =~= old(self)@ + slice@);
        }
    }
}

impl<T: Clone, const N: usize> SmallVec<T, N> {
    /// Resize the vector so that its length equals `len`, truncating when
    /// shrinking and appending clones of `value` when growing.
    pub fn resize(&mut self, len: usize, value: T)
        requires
            old(self).wf(),
        ensures
            final(self).wf(),
            len <= old(self)@.len() ==> final(self)@ == old(self)@.subrange(0, len as int),
            len > old(self)@.len() ==> {
                &&& final(self)@.len() == len
                &&& final(self)@.subrange(0, old(self)@.len() as int) == old(self)@
                &&& forall|i: int|
                    old(self)@.len() <= i < len ==> cloned::<T>(value, final(self)@[i])
            },
    {
        let old_len = self.len();
        if len > old_len {
            self.reserve(len - old_len);
            while self.len() < len
                invariant
                    self.wf(),
                    old(self)@.len() <= self@.len() <= len,
                    self@.subrange(0, old(self)@.len() as int) == old(self)@,
                    forall|i: int|
                        old(self)@.len() <= i < self@.len() ==> cloned::<T>(value, self@[i]),
                decreases len - self@.len(),
            {
                let c = value.clone();
                self.push(c);
                proof {
                    assert(self@.subrange(0, old(self)@.len() as int) =~= old(self)@);
                }
            }
        } else {
            self.truncate(len);
            proof {
                if len == old(self)@.len() {
                    assert(old(self)@.subrange(0, len as int) =~= old(self)@);
                }
            }
        }
    }

    /// Create a vector holding `n` clones of `elem`. The result is spilled
    /// exactly when `n` exceeds the inline capacity.
    pub fn from_elem(elem: T, n: usize) -> (r: SmallVec<T, N>)
        ensures
            r.wf(),
            r@.len() == n,
            forall|i: int| 0 <= i < n ==> cloned::<T>(elem, r@[i]),
            r.spilled_spec() == (n > N),
    {
        if n > N {
            let v = vec![elem;n];
            SmallVec::from_vec(v)
        } else {
            let mut r = SmallVec::new();
            let mut k: usize = 0;
            while k < n
                invariant
                    r.wf(),
                    k <= n,
                    n <= N,
                    r@.len() == k,
                    forall|i: int| 0 <= i < k ==> cloned::<T>(elem, r@[i]),
                    !r.spilled_spec(),
                    r.capacity_spec() == N as int,
                decreases n - k,
            {
                let c = elem.clone();
                r.push(c);
                k = k + 1;
            }
            r
        }
    }
}

} // verus!

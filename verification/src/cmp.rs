//! The ergonomic trait surface: cloning, default construction, equality,
//! conversions via `From`, and the slice-extension trait shared with `Vec`.

use vstd::prelude::*;

use crate::small_vec::{SmallVec, SmallVecData};
use vstd::std_specs::cmp::PartialEqSpec;
use vstd::std_specs::cmp::PartialEqSpecImpl;
use vstd::std_specs::cmp::PartialOrdSpec;
use vstd::std_specs::cmp::PartialOrdSpecImpl;
use core::cmp::Ordering;
use vstd::std_specs::convert::FromSpecImpl;

verus! {

impl<T: Clone, const N: usize> Clone for SmallVec<T, N> {
    /// Produce a fresh container pre-sized to the source's length, cloning
    /// element by element. The clone is spilled exactly when the elements
    /// do not fit inline.
    fn clone(&self) -> (res: Self)
        ensures
            res.wf(),
            res@.len() == self@.len(),
            forall|i: int| 0 <= i < self@.len() ==> cloned::<T>(self@[i], res@[i]),
            res.spilled_spec() == (self@.len() > N),
    {
        let elems: &Vec<T> = match &self.data {
            SmallVecData::Inline(v) => v,
            SmallVecData::Heap(v) => v,
        };
        let n = elems.len();
        let mut res: SmallVec<T, N> = SmallVec::with_capacity(n);
        let mut i: usize = 0;
        while i < n
            invariant
                res.wf(),
                i <= n,
                n == self@.len(),
                elems@ == self@,
                res@.len() == i,
                forall|k: int| 0 <= k < i ==> cloned::<T>(self@[k], res@[k]),
                res.capacity_spec() == (if n <= N {
                    N as int
                } else {
                    n as int
                }),
                res.spilled_spec() == (n > N),
            decreases n - i,
        {
            let c = elems[i].clone();
            res.push(c);
            i = i + 1;
        }
        res
    }
}

impl<T, const N: usize> Default for SmallVec<T, N> {
    /// The default container is empty and inline.
    fn default() -> (r: Self)
        ensures
            r.wf(),
            r@ == Seq::<T>::empty(),
            !r.spilled_spec(),
    {
        SmallVec::new()
    }
}

impl<T: PartialEq, const N: usize> PartialEqSpecImpl for SmallVec<T, N> {
    open spec fn obeys_eq_spec() -> bool {
        T::obeys_eq_spec()
    }

    open spec fn eq_spec(&self, other: &Self) -> bool {
        self@.len() == other@.len() && (forall|i: int|
            0 <= i < self@.len() ==> self@[i].eq_spec(&other@[i]))
    }
}

impl<T: PartialEq, const N: usize> PartialEq for SmallVec<T, N> {
    /// Element-wise equality of the live elements; capacity and storage
    /// variant do not take part.
    fn eq(&self, other: &Self) -> (r: bool) {
        let va: &Vec<T> = match &self.data {
            SmallVecData::Inline(v) => v,
            SmallVecData::Heap(v) => v,
        };
        let vb: &Vec<T> = match &other.data {
            SmallVecData::Inline(v) => v,
            SmallVecData::Heap(v) => v,
        };
        if va.len() != vb.len() {
            return false;
        }
        let n = va.len();
        let mut i: usize = 0;
        while i < n
            invariant
                i <= n,
                n == self@.len() == other@.len(),
                va@ == self@,
                vb@ == other@,
                T::obeys_eq_spec() ==> (forall|k: int|
                    0 <= k < i ==> self@[k].eq_spec(&other@[k])),
            decreases n - i,
        {
            let same = va[i] == vb[i];
            if !same {
                return false;
            }
            i = i + 1;
        }
        true
    }
}

/// Lexicographic comparison of two sequences under the elements'
/// specification-level ordering: the first unequal pair decides; a sequence
/// that runs out first is smaller; an incomparable pair makes the whole
/// comparison undecided.
pub open spec fn seq_lex_cmp<T: PartialOrd>(a: Seq<T>, b: Seq<T>) -> Option<Ordering>
    decreases a.len() + b.len(),
{
    if a.len() == 0 && b.len() == 0 {
        Some(Ordering::Equal)
    } else if a.len() == 0 {
        Some(Ordering::Less)
    } else if b.len() == 0 {
        Some(Ordering::Greater)
    } else {
        match a[0].partial_cmp_spec(&b[0]) {
            Some(Ordering::Equal) => seq_lex_cmp(a.drop_first(), b.drop_first()),
            c => c,
        }
    }
}

impl<T: PartialOrd, const N: usize> PartialOrdSpecImpl for SmallVec<T, N> {
    open spec fn obeys_partial_cmp_spec() -> bool {
        T::obeys_partial_cmp_spec()
    }

    open spec fn partial_cmp_spec(&self, other: &Self) -> Option<Ordering> {
        seq_lex_cmp(self@, other@)
    }
}

impl<T: PartialOrd, const N: usize> PartialOrd for SmallVec<T, N> {
    /// Lexicographic order over the live elements.
    fn partial_cmp(&self, other: &Self) -> (r: Option<Ordering>) {
        let va: &Vec<T> = match &self.data {
            SmallVecData::Inline(v) => v,
            SmallVecData::Heap(v) => v,
        };
        let vb: &Vec<T> = match &other.data {
            SmallVecData::Inline(v) => v,
            SmallVecData::Heap(v) => v,
        };
        let mut i: usize = 0;
        proof {
            assert(self@.skip(0) =~= self@);
            assert(other@.skip(0) =~= other@);
        }
        loop
            invariant
                i <= self@.len(),
                i <= other@.len(),
                va@ == self@,
                vb@ == other@,
                T::obeys_partial_cmp_spec() ==> seq_lex_cmp(self@, other@) == seq_lex_cmp(
                    self@.skip(i as int),
                    other@.skip(i as int),
                ),
            decreases self@.len() + other@.len() - 2 * i,
        {
            if i >= va.len() && i >= vb.len() {
                return Some(Ordering::Equal);
            }
            if i >= va.len() {
                return Some(Ordering::Less);
            }
            if i >= vb.len() {
                return Some(Ordering::Greater);
            }
            let c = va[i].partial_cmp(&vb[i]);
            proof {
                assert(self@.skip(i as int)[0] == self@[i as int]);
                assert(other@.skip(i as int)[0] == other@[i as int]);
            }
            match c {
                Some(Ordering::Equal) => {
                    proof {
                        assert(self@.skip(i as int).drop_first() =~= self@.skip(i + 1));
                        assert(other@.skip(i as int).drop_first() =~= other@.skip(i + 1));
                    }
                    i = i + 1;
                },
                _ => {
                    return c;
                },
            }
        }
    }
}

impl<T, const N: usize> FromSpecImpl<Vec<T>> for SmallVec<T, N> {
    open spec fn obeys_from_spec() -> bool {
        // adopting a vector inspects its allocated capacity, which is not a
        // function of the vector's elements, so the full result is not
        // determined by the argument; `from_vec` carries the contract
        false
    }

    open spec fn from_spec(v: Vec<T>) -> Self {
        arbitrary()
    }
}

impl<T, const N: usize> From<Vec<T>> for SmallVec<T, N> {
    fn from(vec: Vec<T>) -> Self {
        SmallVec::from_vec(vec)
    }
}

impl<T, const N: usize> FromSpecImpl<[T; N]> for SmallVec<T, N> {
    open spec fn obeys_from_spec() -> bool {
        // the elements are pinned by `from_buf`; the backing vector value
        // itself is not a function of the array alone
        false
    }

    open spec fn from_spec(buf: [T; N]) -> Self {
        arbitrary()
    }
}

impl<T, const N: usize> From<[T; N]> for SmallVec<T, N> {
    fn from(buf: [T; N]) -> Self {
        SmallVec::from_buf(buf)
    }
}

impl<'a, T: Clone, const N: usize> FromSpecImpl<&'a [T]> for SmallVec<T, N> {
    open spec fn obeys_from_spec() -> bool {
        // cloning elements is not a function of the slice alone
        false
    }

    open spec fn from_spec(slice: &'a [T]) -> Self {
        arbitrary()
    }
}

impl<'a, T: Clone, const N: usize> From<&'a [T]> for SmallVec<T, N> {
    fn from(slice: &'a [T]) -> Self {
        let n = slice.len();
        let mut r: SmallVec<T, N> = SmallVec::with_capacity(n);
        let mut i: usize = 0;
        while i < n
            invariant
                r.wf(),
                i <= n,
                n == slice@.len(),
                r@.len() == i,
                r.capacity_spec() >= n as int,
            decreases n - i,
        {
            let c = slice[i].clone();
            r.push(c);
            i = i + 1;
        }
        r
    }
}

/// A collection that can be extended by copying from a slice of its element
/// type; lets generic code fill either a `Vec` or a `SmallVec`.
pub trait ExtendFromSlice<T>: Sized {
    /// Whether the collection is in a state its operations may rely on.
    spec fn ready(&self) -> bool;

    /// The elements the collection currently holds, in order.
    spec fn contents(&self) -> Seq<T>;

    /// Append copies of the slice's elements, in order.
    fn extend_from_slice(&mut self, other: &[T])
        requires
            old(self).ready(),
            old(self).contents().len() + other@.len() <= usize::MAX,
        ensures
            final(self).ready(),
            final(self).contents() == old(self).contents() + other@,
    ;
}

impl<T: Copy, const N: usize> ExtendFromSlice<T> for SmallVec<T, N> {
    open spec fn ready(&self) -> bool {
        self.wf()
    }

    open spec fn contents(&self) -> Seq<T> {
        self@
    }

    fn extend_from_slice(&mut self, other: &[T]) {
        SmallVec::extend_from_slice(self, other);
    }
}

impl<T: Copy> ExtendFromSlice<T> for Vec<T> {
    open spec fn ready(&self) -> bool {
        true
    }

    open spec fn contents(&self) -> Seq<T> {
        self@
    }

    fn extend_from_slice(&mut self, other: &[T]) {
        let n = other.len();
        let mut i: usize = 0;
        while i < n
            invariant
                i <= n,
                n == other@.len(),
                self@.len() == old(self)@.len() + i,
                self@ == old(self)@ + other@.subrange(0, i as int),
            decreases n - i,
        {
            self.push(other[i]);
            proof {
                assert(self@ =~= old(self)@ + other@.subrange(0, i + 1 as int));
            }
            i = i + 1;
        }
        proof {
            assert(self@ =~= old(self)@ + other@);
        }
    }
}

} // verus!

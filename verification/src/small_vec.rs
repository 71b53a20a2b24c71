//! The container itself: its hybrid storage representation, the growth
//! engine that moves elements between the inline buffer and the heap, and
//! the element-level mutation operations.

use vstd::prelude::*;

use crate::growth::{lemma_reserve_target_bounds, next_capacity, reserve_target};

verus! {

/// The two storage variants. Exactly one is active at a time, and which one
/// is recorded redundantly by the container's `cap` field (see the
/// invariant `SmallVec::wf`).
#[derive(Debug)]
pub(crate) enum SmallVecData<T> {
    /// Elements held within the container's own (logical) footprint.
    Inline(Vec<T>),
    /// Elements held in a separately allocated buffer.
    Heap(Vec<T>),
}

/// A `Vec`-like container that can store a small number of elements inline.
///
/// `SmallVec` acts like a vector, but stores up to `N` elements inline
/// rather than in a separate allocation. If the data exceeds this limit,
/// the `SmallVec` "spills" its contents to the heap.
///
/// The abstract view (`self@`) is the sequence of live elements; the
/// capacity and the spilled state are exposed through `capacity_spec` and
/// `spilled_spec`, and every operation's contract says how it changes all
/// three.
#[derive(Debug)]
pub struct SmallVec<T, const N: usize> {
    /// Dual-purpose field: when the container is inline this is the current
    /// element count (at most `N`); when spilled this is the heap buffer's
    /// capacity (always greater than `N`). The comparison against `N` is
    /// the single source of truth for which storage variant is active.
    pub(crate) cap: usize,
    pub(crate) data: SmallVecData<T>,
}

impl<T, const N: usize> SmallVec<T, N> {
    /// The sequence of live elements, whichever variant holds them.
    pub open(crate) spec fn elems(&self) -> Seq<T> {
        match self.data {
            SmallVecData::Inline(v) => v@,
            SmallVecData::Heap(v) => v@,
        }
    }

    /// Well-formedness: the `cap` field agrees with the active variant.
    /// Inline storage holds exactly `cap <= N` elements; heap storage holds
    /// at most `cap` elements with `cap > N`.
    pub open(crate) spec fn wf(&self) -> bool {
        match self.data {
            SmallVecData::Inline(v) => self.cap == v@.len() && self.cap <= N,
            SmallVecData::Heap(v) => v@.len() <= self.cap && self.cap > N,
        }
    }

    /// Whether the elements live in a separately allocated heap buffer.
    pub open(crate) spec fn spilled_spec(&self) -> bool {
        self.cap > N
    }

    /// The number of elements the container can hold without reallocating:
    /// the inline bound `N` while inline, the heap buffer's capacity once
    /// spilled.
    pub open(crate) spec fn capacity_spec(&self) -> int {
        if self.cap <= N {
            N as int
        } else {
            self.cap as int
        }
    }
}

impl<T, const N: usize> SmallVec<T, N> {
    /// Basic facts every well-formed container satisfies: the length never
    /// exceeds the capacity, the capacity is at least the inline bound, and
    /// the container is spilled exactly when its capacity exceeds that
    /// bound.
    pub proof fn lemma_wf_bounds(&self)
        requires
            self.wf(),
        ensures
            self@.len() <= self.capacity_spec(),
            self.capacity_spec() >= N as int,
            self.spilled_spec() == (self.capacity_spec() > N as int),
            !self.spilled_spec() ==> self@.len() <= N,
    {
    }
}

impl<T, const N: usize> View for SmallVec<T, N> {
    type V = Seq<T>;

    open spec fn view(&self) -> Seq<T> {
        self.elems()
    }
}

impl<T, const N: usize> SmallVec<T, N> {
    /// Construct an empty vector.
    pub fn new() -> (r: SmallVec<T, N>)
        ensures
            r.wf(),
            r@ == Seq::<T>::empty(),
            !r.spilled_spec(),
            r.capacity_spec() == N as int,
    {
        SmallVec { cap: 0, data: SmallVecData::Inline(Vec::new()) }
    }

    /// The maximum number of elements this vector can hold inline.
    pub fn inline_size(&self) -> (r: usize)
        ensures
            r == N,
    {
        N
    }

    /// The number of elements stored in the vector.
    pub fn len(&self) -> (r: usize)
        requires
            self.wf(),
        ensures
            r == self@.len(),
    {
        match &self.data {
            SmallVecData::Inline(_) => self.cap,
            SmallVecData::Heap(v) => v.len(),
        }
    }

    /// Returns `true` if the vector is empty.
    pub fn is_empty(&self) -> (r: bool)
        requires
            self.wf(),
        ensures
            r == (self@.len() == 0),
    {
        self.len() == 0
    }

    /// The number of items the vector can hold without reallocating.
    pub fn capacity(&self) -> (r: usize)
        ensures
            r as int == self.capacity_spec(),
    {
        if self.cap <= N {
            N
        } else {
            self.cap
        }
    }

    /// Returns `true` if the data has spilled into a separately allocated
    /// heap buffer.
    pub fn spilled(&self) -> (r: bool)
        ensures
            r == self.spilled_spec(),
    {
        self.cap > N
    }

    /// Re-allocate to set the capacity to `max(new_cap, N)`.
    ///
    /// A target at or below the inline bound reclaims inline storage; a
    /// larger target moves the elements to a heap buffer of exactly that
    /// capacity.
    pub fn grow(&mut self, new_cap: usize)
        requires
            old(self).wf(),
            new_cap as int >= old(self)@.len(),
        ensures
            final(self).wf(),
            final(self)@ == old(self)@,
            new_cap <= N ==> !final(self).spilled_spec() && final(self).capacity_spec()
                == N as int,
            new_cap > N ==> final(self).spilled_spec() && final(self).capacity_spec()
                == new_cap as int,
    {
        if new_cap <= N {
            if self.cap <= N {
                // already inline; nothing to do
                return ;
            }
            // heap -> inline: move the elements back and switch the
            // discriminant over to the length
            let mut elems: Vec<T> = Vec::new();
            match &mut self.data {
                SmallVecData::Inline(_) => {
                    proof {
                        assert(false);
                    }
                },
                SmallVecData::Heap(v) => {
                    core::mem::swap(v, &mut elems);
                },
            }
            self.cap = elems.len();
            self.data = SmallVecData::Inline(elems);
        } else {
            // inline -> heap, or heap buffer resized: either way the
            // elements end up in a heap buffer of capacity `new_cap`
            let mut elems: Vec<T> = Vec::new();
            match &mut self.data {
                SmallVecData::Inline(v) => {
                    core::mem::swap(v, &mut elems);
                },
                SmallVecData::Heap(v) => {
                    core::mem::swap(v, &mut elems);
                },
            }
            self.data = SmallVecData::Heap(elems);
            self.cap = new_cap;
        }
    }

    /// Reserve capacity for `additional` more elements to be inserted.
    ///
    /// May reserve more space than requested, to amortize reallocation. If
    /// the target capacity would overflow `usize` it is set to
    /// `usize::MAX` instead, so inserting `additional` elements afterwards
    /// is not guaranteed to be possible.
    pub fn reserve(&mut self, additional: usize)
        requires
            old(self).wf(),
        ensures
            final(self).wf(),
            final(self)@ == old(self)@,
            old(self).capacity_spec() - old(self)@.len() >= additional ==> *final(self) == *old(self),
            old(self).capacity_spec() - old(self)@.len() < additional ==> {
                let target = reserve_target(old(self)@.len() as int, additional as int);
                &&& final(self).capacity_spec() == (if target > N as int {
                    target
                } else {
                    N as int
                })
                &&& (target > N as int ==> final(self).spilled_spec())
            },
            final(self).capacity_spec() - final(self)@.len() >= additional || final(self).capacity_spec() == usize::MAX as int,
    {
        let len = self.len();
        let cap = self.capacity();
        if cap - len < additional {
            let new_cap = next_capacity(len, additional);
            proof {
                lemma_reserve_target_bounds(len as int, additional as int);
            }
            self.grow(new_cap);
        }
    }

    /// Reserve the minimum capacity for `additional` more elements to be
    /// inserted. Unlike `reserve`, the new capacity is exact; the combined
    /// length must not overflow `usize`.
    pub fn reserve_exact(&mut self, additional: usize)
        requires
            old(self).wf(),
            old(self)@.len() + additional <= usize::MAX,
        ensures
            final(self).wf(),
            final(self)@ == old(self)@,
            old(self).capacity_spec() - old(self)@.len() >= additional ==> *final(self) == *old(self),
            old(self).capacity_spec() - old(self)@.len() < additional ==> final(self).capacity_spec() == old(self)@.len() + additional && final(self).spilled_spec(),
            final(self).capacity_spec() - final(self)@.len() >= additional,
    {
        let len = self.len();
        let cap = self.capacity();
        if cap - len < additional {
            self.grow(len + additional);
        }
    }

    /// Construct an empty vector with enough capacity pre-allocated to
    /// store at least `n` elements. Heap storage is used only if `n`
    /// exceeds the inline capacity.
    pub fn with_capacity(n: usize) -> (r: SmallVec<T, N>)
        ensures
            r.wf(),
            r@ == Seq::<T>::empty(),
            r.capacity_spec() == (if n <= N {
                N as int
            } else {
                n as int
            }),
            r.spilled_spec() == (n > N),
    {
        let mut v = SmallVec::new();
        v.reserve_exact(n);
        v
    }

    /// Shrink the capacity of the vector as much as possible: back into
    /// inline storage when the elements fit there, otherwise down to a heap
    /// buffer of exactly the current length.
    pub fn shrink_to_fit(&mut self)
        requires
            old(self).wf(),
        ensures
            final(self).wf(),
            final(self)@ == old(self)@,
            old(self)@.len() <= N ==> !final(self).spilled_spec() && final(self).capacity_spec()
                == N as int,
            old(self)@.len() > N ==> final(self).spilled_spec() && final(self).capacity_spec()
                == old(self)@.len(),
            crate::laws::shrink_step(*old(self), *final(self)),
    {
        if !self.spilled() {
            return ;
        }
        let len = self.len();
        if len <= N {
            self.grow(len);
        } else if self.capacity() > len {
            self.grow(len);
        }
    }

    /// Shorten the vector, keeping the first `len` elements and dropping
    /// the rest. A `len` at or above the current length has no effect.
    /// This never changes the capacity or the storage variant.
    pub fn truncate(&mut self, len: usize)
        requires
            old(self).wf(),
        ensures
            final(self).wf(),
            final(self)@ == (if len < old(self)@.len() {
                old(self)@.subrange(0, len as int)
            } else {
                old(self)@
            }),
            final(self).capacity_spec() == old(self).capacity_spec(),
            final(self).spilled_spec() == old(self).spilled_spec(),
    {
        match &mut self.data {
            SmallVecData::Inline(v) => {
                v.truncate(len);
                if len < self.cap {
                    self.cap = len;
                }
            },
            SmallVecData::Heap(v) => {
                v.truncate(len);
            },
        }
    }

    /// Remove all elements from the vector, keeping its capacity.
    pub fn clear(&mut self)
        requires
            old(self).wf(),
        ensures
            final(self).wf(),
            final(self)@ == Seq::<T>::empty(),
            final(self).capacity_spec() == old(self).capacity_spec(),
            final(self).spilled_spec() == old(self).spilled_spec(),
    {
        self.truncate(0);
        proof {
            assert(self@ =~= Seq::<T>::empty());
        }
    }

    /// Append an item to the vector. Grows (spilling to the heap if still
    /// inline) exactly when the vector is full.
    pub fn push(&mut self, value: T)
        requires
            old(self).wf(),
            old(self)@.len() < usize::MAX,
        ensures
            final(self).wf(),
            final(self)@ == old(self)@.push(value),
            old(self)@.len() < old(self).capacity_spec() ==> final(self).capacity_spec() == old(self).capacity_spec() && final(self).spilled_spec() == old(self).spilled_spec(),
            old(self)@.len() == old(self).capacity_spec() ==> final(self).capacity_spec()
                == reserve_target(old(self)@.len() as int, 1) && final(self).spilled_spec(),
            final(self).capacity_spec() >= old(self).capacity_spec(),
            crate::laws::push_step(*old(self), *final(self), value),
    {
        let len = self.len();
        let cap = self.capacity();
        if len == cap {
            self.reserve(1);
            proof {
                lemma_reserve_target_bounds(len as int, 1);
            }
        }
        match &mut self.data {
            SmallVecData::Inline(v) => {
                v.push(value);
                self.cap = self.cap + 1;
            },
            SmallVecData::Heap(v) => {
                v.push(value);
            },
        }
    }

    /// Append an item to the vector, with a fast path for inline storage
    /// that still has room. Unlike `push`, a full heap buffer grows by
    /// doubling its capacity, and a doubling that would overflow the
    /// address space is a caller error.
    pub fn push_light(&mut self, value: T)
        requires
            old(self).wf(),
            old(self)@.len() < usize::MAX,
            old(self).spilled_spec() && old(self)@.len() == old(self).capacity_spec() ==> old(self).capacity_spec() <= isize::MAX as int / 2,
        ensures
            final(self).wf(),
            final(self)@ == old(self)@.push(value),
            old(self)@.len() < old(self).capacity_spec() ==> final(self).capacity_spec() == old(self).capacity_spec() && final(self).spilled_spec() == old(self).spilled_spec(),
            old(self)@.len() == old(self).capacity_spec() && !old(self).spilled_spec() ==> final(self).capacity_spec() == reserve_target(N as int, 1) && final(self).spilled_spec(),
            old(self)@.len() == old(self).capacity_spec() && old(self).spilled_spec() ==> final(self).capacity_spec() == 2 * old(self).capacity_spec() && final(self).spilled_spec(),
    {
        if self.cap < N {
            // inline storage with room to spare
            match &mut self.data {
                SmallVecData::Inline(v) => {
                    v.push(value);
                    self.cap = self.cap + 1;
                },
                SmallVecData::Heap(_) => {
                    proof {
                        assert(false);
                    }
                },
            }
        } else if self.cap != N {
            // spilled; double the capacity if the buffer is full
            let len = self.len();
            if self.cap - len < 1 {
                let new_cap = self.cap * 2;
                self.grow(new_cap);
            }
            match &mut self.data {
                SmallVecData::Inline(_) => {
                    proof {
                        assert(false);
                    }
                },
                SmallVecData::Heap(v) => {
                    v.push(value);
                },
            }
        } else {
            // inline storage is full: spill to the heap
            let new_cap = next_capacity(N, 1);
            proof {
                lemma_reserve_target_bounds(N as int, 1);
            }
            self.grow(new_cap);
            match &mut self.data {
                SmallVecData::Inline(_) => {
                    proof {
                        assert(false);
                    }
                },
                SmallVecData::Heap(v) => {
                    v.push(value);
                },
            }
        }
    }

    /// Remove an item from the end of the vector and return it, or `None`
    /// if empty. Never changes the capacity or the storage variant.
    pub fn pop(&mut self) -> (r: Option<T>)
        requires
            old(self).wf(),
        ensures
            final(self).wf(),
            old(self)@.len() == 0 ==> r is None && final(self)@ == old(self)@,
            old(self)@.len() > 0 ==> r == Some(old(self)@.last()) && final(self)@ == old(self)@.drop_last(),
            final(self).capacity_spec() == old(self).capacity_spec(),
            final(self).spilled_spec() == old(self).spilled_spec(),
    {
        match &mut self.data {
            SmallVecData::Inline(v) => {
                let r = v.pop();
                if r.is_some() {
                    self.cap = self.cap - 1;
                }
                r
            },
            SmallVecData::Heap(v) => v.pop(),
        }
    }

    /// Insert an element at position `index`, shifting all elements after
    /// it to the right. Grows exactly when the vector is full.
    pub fn insert(&mut self, index: usize, element: T)
        requires
            old(self).wf(),
            index <= old(self)@.len(),
            old(self)@.len() < usize::MAX,
        ensures
            final(self).wf(),
            final(self)@ == old(self)@.insert(index as int, element),
            old(self)@.len() < old(self).capacity_spec() ==> final(self).capacity_spec() == old(self).capacity_spec() && final(self).spilled_spec() == old(self).spilled_spec(),
            old(self)@.len() == old(self).capacity_spec() ==> final(self).capacity_spec()
                == reserve_target(old(self)@.len() as int, 1) && final(self).spilled_spec(),
            final(self).capacity_spec() >= old(self).capacity_spec(),
    {
        let len = self.len();
        self.reserve(1);
        proof {
            lemma_reserve_target_bounds(len as int, 1);
        }
        match &mut self.data {
            SmallVecData::Inline(v) => {
                v.insert(index, element);
                self.cap = self.cap + 1;
            },
            SmallVecData::Heap(v) => {
                v.insert(index, element);
            },
        }
    }

    /// Remove and return the element at position `index`, shifting all
    /// elements after it to the left. Never changes the capacity.
    pub fn remove(&mut self, index: usize) -> (r: T)
        requires
            old(self).wf(),
            index < old(self)@.len(),
        ensures
            final(self).wf(),
            r == old(self)@[index as int],
            final(self)@ == old(self)@.remove(index as int),
            final(self).capacity_spec() == old(self).capacity_spec(),
            final(self).spilled_spec() == old(self).spilled_spec(),
    {
        match &mut self.data {
            SmallVecData::Inline(v) => {
                let r = v.remove(index);
                self.cap = self.cap - 1;
                r
            },
            SmallVecData::Heap(v) => v.remove(index),
        }
    }

    /// Remove the element at position `index`, replacing it with the last
    /// element. Does not preserve ordering, but takes constant time.
    pub fn swap_remove(&mut self, index: usize) -> (r: T)
        requires
            old(self).wf(),
            index < old(self)@.len(),
        ensures
            final(self).wf(),
            r == old(self)@[index as int],
            final(self)@ == old(self)@.update(index as int, old(self)@.last()).drop_last(),
            final(self).capacity_spec() == old(self).capacity_spec(),
            final(self).spilled_spec() == old(self).spilled_spec(),
    {
        match &mut self.data {
            SmallVecData::Inline(v) => {
                let r = v.swap_remove(index);
                self.cap = self.cap - 1;
                r
            },
            SmallVecData::Heap(v) => v.swap_remove(index),
        }
    }

    /// Extract a slice containing the entire vector.
    pub fn as_slice(&self) -> (r: &[T])
        requires
            self.wf(),
        ensures
            r@ == self@,
    {
        match &self.data {
            SmallVecData::Inline(v) => v.as_slice(),
            SmallVecData::Heap(v) => v.as_slice(),
        }
    }

    /// Extract a mutable slice of the entire vector. Writing through the
    /// slice updates the elements; the length and capacity cannot change
    /// through it.
    pub fn as_mut_slice(&mut self) -> (r: &mut [T])
        requires
            old(self).wf(),
        ensures
            r@ == old(self)@,
            final(r)@ == final(self)@,
            final(r)@.len() == old(self)@.len() ==> final(self).wf(),
            final(self).capacity_spec() == old(self).capacity_spec(),
            final(self).spilled_spec() == old(self).spilled_spec(),
    {
        match &mut self.data {
            SmallVecData::Inline(v) => v.as_mut_slice(),
            SmallVecData::Heap(v) => v.as_mut_slice(),
        }
    }

    /// Read the element at position `index`.
    pub fn get(&self, index: usize) -> (r: &T)
        requires
            self.wf(),
            index < self@.len(),
        ensures
            *r == self@[index as int],
    {
        match &self.data {
            SmallVecData::Inline(v) => &v[index],
            SmallVecData::Heap(v) => &v[index],
        }
    }

    /// Overwrite the element at position `index` with `value`, returning
    /// the previous element.
    pub fn replace(&mut self, index: usize, value: T) -> (r: T)
        requires
            old(self).wf(),
            index < old(self)@.len(),
        ensures
            final(self).wf(),
            r == old(self)@[index as int],
            final(self)@ == old(self)@.update(index as int, value),
            final(self).capacity_spec() == old(self).capacity_spec(),
            final(self).spilled_spec() == old(self).spilled_spec(),
    {
        // removing first guarantees the following insert finds room, so the
        // capacity provably never changes
        let r = self.remove(index);
        self.insert(index, value);
        proof {
            assert(self@ =~= old(self)@.update(index as int, value));
        }
        r
    }
}

} // verus!

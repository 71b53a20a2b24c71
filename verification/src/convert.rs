//! Conversions between the container and ordinary buffers: adopting a
//! dynamic array or a fixed-size buffer, and handing the elements back out.

use vstd::prelude::*;

use crate::small_vec::{SmallVec, SmallVecData};

verus! {

/// Relies on `Vec::capacity`: a vector's allocated capacity is at least its
/// length.
#[verifier::external_body]
fn vec_capacity<T>(v: &Vec<T>) -> (r: usize)
    ensures
        r >= v@.len(),
{
    v.capacity()
}

/// Relies on the standard conversion from an array into a vector
/// (`Vec::from`), which moves the array's elements over in order.
#[verifier::external_body]
fn array_into_vec<T, const N: usize>(buf: [T; N]) -> (r: Vec<T>)
    ensures
        r@ == buf@,
{
    Vec::from(buf)
}

/// Relies on the standard conversion from a vector into an array
/// (`TryFrom`), which succeeds exactly when the vector's length matches the
/// array size, and otherwise returns the vector unchanged.
#[verifier::external_body]
fn vec_into_array<T, const N: usize>(v: Vec<T>) -> (r: Result<[T; N], Vec<T>>)
    ensures
        v@.len() == N ==> r is Ok && r->Ok_0@ == v@,
        v@.len() != N ==> r is Err && r->Err_0 == v,
{
    v.try_into()
}

impl<T, const N: usize> SmallVec<T, N> {
    /// Construct a new `SmallVec` from a `Vec<T>`, adopting its buffer.
    /// The elements are moved to the inline buffer only when the vector's
    /// allocated capacity fits there; whether the result is spilled
    /// therefore depends on that capacity, which is why the contract pins
    /// the spilled state only when the length alone decides it.
    pub fn from_vec(vec: Vec<T>) -> (r: SmallVec<T, N>)
        ensures
            r.wf(),
            r@ == vec@,
            vec@.len() > N ==> r.spilled_spec(),
            !r.spilled_spec() ==> r.capacity_spec() == N as int,
    {
        let c = vec_capacity(&vec);
        if c <= N {
            let len = vec.len();
            SmallVec { cap: len, data: SmallVecData::Inline(vec) }
        } else {
            SmallVec { cap: c, data: SmallVecData::Heap(vec) }
        }
    }

    /// Convert the `SmallVec` into a `Vec<T>` holding the same elements,
    /// reusing the heap buffer when the elements have already spilled.
    pub fn into_vec(self) -> (r: Vec<T>)
        requires
            self.wf(),
        ensures
            r@ == self@,
    {
        let SmallVec { cap: _, data } = self;
        match data {
            SmallVecData::Inline(v) => v,
            SmallVecData::Heap(v) => v,
        }
    }

    /// Construct a new `SmallVec` from a full fixed-size buffer; the result
    /// holds all `N` elements inline.
    pub fn from_buf(buf: [T; N]) -> (r: SmallVec<T, N>)
        ensures
            r.wf(),
            r@ == buf@,
            r@.len() == N,
            !r.spilled_spec(),
    {
        let v = array_into_vec(buf);
        let len = v.len();
        SmallVec { cap: len, data: SmallVecData::Inline(v) }
    }

    /// Construct a new `SmallVec` from the first `len` elements of a
    /// fixed-size buffer; `len` must not exceed the buffer's size.
    pub fn from_buf_and_len(buf: [T; N], len: usize) -> (r: SmallVec<T, N>)
        requires
            len <= N,
        ensures
            r.wf(),
            r@ == buf@.subrange(0, len as int),
            !r.spilled_spec(),
    {
        let mut v = array_into_vec(buf);
        v.truncate(len);
        SmallVec { cap: len, data: SmallVecData::Inline(v) }
    }

    /// Convert the `SmallVec` back into a fixed-size buffer if possible;
    /// this succeeds exactly when the elements still sit inline and fill
    /// the buffer completely, and otherwise returns the container
    /// unchanged.
    pub fn into_inner(self) -> (r: Result<[T; N], SmallVec<T, N>>)
        requires
            self.wf(),
        ensures
            self.spilled_spec() || self@.len() != N ==> r is Err && r->Err_0 == self,
            !self.spilled_spec() && self@.len() == N ==> r is Ok && r->Ok_0@ == self@,
    {
        if self.spilled() || self.len() != N {
            Err(self)
        } else {
            let SmallVec { cap: _, data } = self;
            match data {
                SmallVecData::Inline(v) => {
                    match vec_into_array(v) {
                        Ok(a) => Ok(a),
                        Err(_) => {
                            proof {
                                assert(false);
                            }
                            vstd::pervasive::unreached()
                        },
                    }
                },
                SmallVecData::Heap(_) => {
                    proof {
                        assert(false);
                    }
                    vstd::pervasive::unreached()
                },
            }
        }
    }
}

impl<T: Copy, const N: usize> SmallVec<T, N> {
    /// Copy the elements from a slice into a new `SmallVec`. Unlike
    /// `from_vec`, the storage variant depends on the length alone: the
    /// elements sit inline exactly when they fit there.
    pub fn from_slice(slice: &[T]) -> (r: SmallVec<T, N>)
        ensures
            r.wf(),
            r@ == slice@,
            r.spilled_spec() == (slice@.len() > N),
            !r.spilled_spec() ==> r.capacity_spec() == N as int,
    {
        let n = slice.len();
        let mut v: Vec<T> = Vec::with_capacity(n);
        let mut i: usize = 0;
        while i < n
            invariant
                i <= n,
                n == slice@.len(),
                v@ == slice@.subrange(0, i as int),
            decreases n - i,
        {
            v.push(slice[i]);
            proof {
                assert(v@ =~= slice@.subrange(0, i + 1 as int));
            }
            i = i + 1;
        }
        proof {
            assert(v@ =~= slice@);
        }
        if n <= N {
            SmallVec { cap: n, data: SmallVecData::Inline(v) }
        } else {
            let c = vec_capacity(&v);
            SmallVec { cap: c, data: SmallVecData::Heap(v) }
        }
    }
}

} // verus!

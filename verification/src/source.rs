//! A pull-based source of elements for the bulk insertion operations.
//!
//! The container's bulk operations take elements one at a time from a
//! caller-supplied source. A source also reports a size hint, which carries
//! no guarantee at all — it may undercount or overcount the elements
//! actually yielded — so the operations may use it only to pre-allocate,
//! never to decide how many elements exist.

use vstd::prelude::*;

verus! {

/// Something that yields a known (in the specification) sequence of
/// elements, front first, together with a non-binding size hint.
pub trait ElementSource<T>: Sized {
    /// The elements this source will still yield, in order.
    spec fn elements(&self) -> Seq<T>;

    /// A hint of how many elements remain. No contract ties it to
    /// `elements`: a source may report any number here.
    fn size_hint(&self) -> usize;

    /// Yield the next element, or `None` once the source is exhausted.
    fn next(&mut self) -> (r: Option<T>)
        ensures
            old(self).elements().len() == 0 ==> r is None && final(self).elements() == old(self).elements(),
            old(self).elements().len() > 0 ==> r == Some(old(self).elements()[0]) && final(self).elements() == old(self).elements().drop_first(),
    ;
}

/// A source that yields the elements of a vector, front first. The size
/// hint defaults to the exact remaining count but can be overridden, which
/// lets callers exercise the bulk operations with an inaccurate hint.
pub struct VecSource<T> {
    items: Vec<T>,
    hint: usize,
}

impl<T> VecSource<T> {
    /// A source over `items` whose size hint is exact.
    pub fn new(items: Vec<T>) -> (r: VecSource<T>)
        ensures
            r.elements() == items@,
    {
        let hint = items.len();
        VecSource { items, hint }
    }

    /// A source over `items` that reports `hint` as its size hint, however
    /// wrong that may be.
    pub fn with_hint(items: Vec<T>, hint: usize) -> (r: VecSource<T>)
        ensures
            r.elements() == items@,
    {
        VecSource { items, hint }
    }
}

impl<T> ElementSource<T> for VecSource<T> {
    closed spec fn elements(&self) -> Seq<T> {
        self.items@
    }

    fn size_hint(&self) -> usize {
        self.hint
    }

    fn next(&mut self) -> (r: Option<T>) {
        if self.items.len() > 0 {
            let x = self.items.remove(0);
            proof {
                assert(self.items@ =~= old(self).elements().drop_first());
            }
            Some(x)
        } else {
            None
        }
    }
}

} // verus!

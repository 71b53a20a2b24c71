use smallvec::SmallVec;
use smallvec::iter::{Drain, IntoIter};
use std::cell::Cell;

fn collect_drain<T>(mut d: Drain<T>) -> Vec<T> {
    let mut out = Vec::new();
    while let Some(x) = d.next() {
        out.push(x);
    }
    out
}

fn collect_drain_rev<T>(mut d: Drain<T>) -> Vec<T> {
    let mut out = Vec::new();
    while let Some(x) = d.next_back() {
        out.push(x);
    }
    out
}

fn collect_into_iter<T>(mut it: IntoIter<T>) -> Vec<T> {
    let mut out = Vec::new();
    while let Some(x) = it.next() {
        out.push(x);
    }
    out
}

fn collect_into_iter_rev<T>(mut it: IntoIter<T>) -> Vec<T> {
    let mut out = Vec::new();
    while let Some(x) = it.next_back() {
        out.push(x);
    }
    out
}

#[test]
fn drain() {
    let mut v: SmallVec<u8, 2> = SmallVec::new();
    v.push(3);
    assert_eq!(collect_drain(v.drain()), &[3]);

    // spilling the vec
    v.push(3);
    v.push(4);
    v.push(5);
    assert_eq!(collect_drain(v.drain()), &[3, 4, 5]);
}

#[test]
fn drain_rev() {
    let mut v: SmallVec<u8, 2> = SmallVec::new();
    v.push(3);
    assert_eq!(collect_drain_rev(v.drain()), &[3]);

    // spilling the vec
    v.push(3);
    v.push(4);
    v.push(5);
    assert_eq!(collect_drain_rev(v.drain()), &[5, 4, 3]);
}

#[test]
fn drain_leaves_capacity() {
    let mut v: SmallVec<u8, 2> = SmallVec::new();
    v.push(3);
    v.push(4);
    v.push(5);
    assert!(v.spilled());
    let d = v.drain();
    assert!(v.is_empty());
    assert!(v.spilled(), "drain removes the elements, not the buffer");
    drop(d);
}

#[test]
fn into_iter() {
    let mut v: SmallVec<u8, 2> = SmallVec::new();
    v.push(3);
    assert_eq!(collect_into_iter(v.into_iter()), &[3]);

    // spilling the vec
    let mut v: SmallVec<u8, 2> = SmallVec::new();
    v.push(3);
    v.push(4);
    v.push(5);
    assert_eq!(collect_into_iter(v.into_iter()), &[3, 4, 5]);
}

#[test]
fn into_iter_rev() {
    let mut v: SmallVec<u8, 2> = SmallVec::new();
    v.push(3);
    assert_eq!(collect_into_iter_rev(v.into_iter()), &[3]);

    // spilling the vec
    let mut v: SmallVec<u8, 2> = SmallVec::new();
    v.push(3);
    v.push(4);
    v.push(5);
    assert_eq!(collect_into_iter_rev(v.into_iter()), &[5, 4, 3]);
}

#[test]
fn into_iter_drop() {

    struct DropCounter<'a>(&'a Cell<i32>);

    impl<'a> Drop for DropCounter<'a> {
        fn drop(&mut self) {
            self.0.set(self.0.get() + 1);
        }
    }

    {
        let cell = Cell::new(0);
        let mut v: SmallVec<DropCounter<'_>, 2> = SmallVec::new();
        v.push(DropCounter(&cell));
        v.into_iter();
        assert_eq!(cell.get(), 1);
    }

    {
        let cell = Cell::new(0);
        let mut v: SmallVec<DropCounter<'_>, 2> = SmallVec::new();
        v.push(DropCounter(&cell));
        v.push(DropCounter(&cell));
        assert!(v.into_iter().next().is_some());
        assert_eq!(cell.get(), 2);
    }

    {
        let cell = Cell::new(0);
        let mut v: SmallVec<DropCounter<'_>, 2> = SmallVec::new();
        v.push(DropCounter(&cell));
        v.push(DropCounter(&cell));
        v.push(DropCounter(&cell));
        assert!(v.into_iter().next().is_some());
        assert_eq!(cell.get(), 3);
    }
    {
        let cell = Cell::new(0);
        let mut v: SmallVec<DropCounter<'_>, 2> = SmallVec::new();
        v.push(DropCounter(&cell));
        v.push(DropCounter(&cell));
        v.push(DropCounter(&cell));
        {
            let mut it = v.into_iter();
            assert!(it.next().is_some());
            assert!(it.next_back().is_some());
        }
        assert_eq!(cell.get(), 3);
    }
}

#[test]
fn test_exact_size_iterator() {
    let mut vec = SmallVec::<u32, 2>::from(&[1, 2, 3][..]);
    assert_eq!(vec.clone().into_iter().len(), 3);
    assert_eq!(vec.drain().len(), 3);
}

use smallvec::SmallVec;
use std::cell::Cell;
use std::rc::Rc;

#[test]
fn pushes_track_length_and_spill() {
    // after n pushes the length is n, and the container is spilled exactly
    // when n exceeds the inline capacity
    for n in 0..20usize {
        let mut v: SmallVec<usize, 4> = SmallVec::new();
        for x in 0..n {
            v.push(x);
        }
        assert_eq!(v.len(), n);
        assert_eq!(v.spilled(), n > 4);
    }
}

#[test]
fn spill_then_shrink() {
    // push past the inline capacity, remove back below it, and shrink: the
    // container returns to inline storage with the elements untouched
    let mut v: SmallVec<u8, 3> = SmallVec::new();
    for x in 0..6 {
        v.push(x);
    }
    assert!(v.spilled());
    v.pop();
    v.pop();
    v.pop();
    assert!(v.spilled(), "removal alone does not give the buffer back");
    v.shrink_to_fit();
    assert!(!v.spilled());
    assert_eq!(v.as_slice(), &[0, 1, 2]);
}

#[test]
fn insert_remove_inverse() {
    let mut v: SmallVec<u8, 4> = SmallVec::new();
    for x in [10, 20, 30] {
        v.push(x);
    }
    for i in 0..=3usize {
        let before: Vec<u8> = v.clone().into_vec();
        v.insert(i, 99);
        let got = v.remove(i);
        assert_eq!(got, 99);
        assert_eq!(v.clone().into_vec(), before);
    }
}

#[test]
fn scenario_inline_two() {
    // inline capacity 2, small-integer elements
    let mut v: SmallVec<u8, 2> = SmallVec::new();
    v.push(1);
    v.push(2);
    assert!(!v.spilled());
    assert_eq!(v.as_slice(), &[1, 2]);
    v.push(3);
    assert!(v.spilled());
    assert_eq!(v.as_slice(), &[1, 2, 3]);
    assert!(v.capacity() >= 3);
    let popped = v.pop();
    assert_eq!(popped, Some(3));
    assert_eq!(v.as_slice(), &[1, 2]);
    assert!(v.spilled(), "capacity does not shrink on pop");
    v.shrink_to_fit();
    assert!(!v.spilled());
    assert_eq!(v.as_slice(), &[1, 2]);
}

#[test]
fn drops_happen_exactly_once() {

    struct Counted(Rc<Cell<i32>>);

    impl Drop for Counted {
        fn drop(&mut self) {
            self.0.set(self.0.get() + 1);
        }
    }

    let build = |cell: &Rc<Cell<i32>>, n: usize| {
        let mut v: SmallVec<Counted, 2> = SmallVec::new();
        for _ in 0..n {
            v.push(Counted(Rc::clone(cell)));
        }
        v
    };

    // truncate, then drop the container
    let cell = Rc::new(Cell::new(0));
    let v = {
        let mut v = build(&cell, 5);
        v.truncate(2);
        assert_eq!(cell.get(), 3);
        v
    };
    drop(v);
    assert_eq!(cell.get(), 5);

    // retain dropping everything
    let cell = Rc::new(Cell::new(0));
    let mut v = build(&cell, 4);
    v.retain(|_| false);
    assert_eq!(cell.get(), 4);

    // drain abandoned part-way: the iterator's teardown drops the rest
    let cell = Rc::new(Cell::new(0));
    let mut v = build(&cell, 4);
    {
        let mut d = v.drain();
        let first = d.next();
        assert!(first.is_some());
        drop(first);
        assert_eq!(cell.get(), 1);
    }
    assert_eq!(cell.get(), 4);
    drop(v);
    assert_eq!(cell.get(), 4);

    // consuming iteration abandoned part-way
    let cell = Rc::new(Cell::new(0));
    let v = build(&cell, 3);
    {
        let mut it = v.into_iter();
        drop(it.next());
        assert_eq!(cell.get(), 1);
    }
    assert_eq!(cell.get(), 3);
}

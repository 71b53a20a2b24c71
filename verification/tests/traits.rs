use smallvec::SmallVec;

#[test]
fn test_eq() {
    let mut a: SmallVec<u32, 2> = SmallVec::new();
    let mut b: SmallVec<u32, 2> = SmallVec::new();
    let mut c: SmallVec<u32, 2> = SmallVec::new();
    // a = [1, 2]
    a.push(1);
    a.push(2);
    // b = [1, 2]
    b.push(1);
    b.push(2);
    // c = [3, 4]
    c.push(3);
    c.push(4);

    assert!(a == b);
    assert!(a != c);
}

#[test]
fn test_ord() {
    let mut a: SmallVec<u32, 2> = SmallVec::new();
    let mut b: SmallVec<u32, 2> = SmallVec::new();
    let mut c: SmallVec<u32, 2> = SmallVec::new();
    // a = [1]
    a.push(1);
    // b = [1, 1]
    b.push(1);
    b.push(1);
    // c = [1, 2]
    c.push(1);
    c.push(2);

    assert!(a < b);
    assert!(b > a);
    assert!(b < c);
    assert!(c > b);
}

#[test]
fn test_as_ref() {
    let mut a: SmallVec<u32, 2> = SmallVec::new();
    a.push(1);
    assert_eq!(a.as_slice(), [1]);
    a.push(2);
    assert_eq!(a.as_slice(), [1, 2]);
    a.push(3);
    assert_eq!(a.as_slice(), [1, 2, 3]);
}

#[test]
fn test_as_mut() {
    let mut a: SmallVec<u32, 2> = SmallVec::new();
    a.push(1);
    assert_eq!(a.as_mut_slice(), [1]);
    a.push(2);
    assert_eq!(a.as_mut_slice(), [1, 2]);
    a.push(3);
    assert_eq!(a.as_mut_slice(), [1, 2, 3]);
    a.as_mut_slice()[1] = 4;
    assert_eq!(a.as_mut_slice(), [1, 4, 3]);
}

#[test]
fn test_borrow() {
    let mut a: SmallVec<u32, 2> = SmallVec::new();
    a.push(1);
    assert_eq!(a.as_slice(), [1]);
    a.push(2);
    assert_eq!(a.as_slice(), [1, 2]);
    a.push(3);
    assert_eq!(a.as_slice(), [1, 2, 3]);
}

#[test]
fn test_borrow_mut() {
    let mut a: SmallVec<u32, 2> = SmallVec::new();
    a.push(1);
    assert_eq!(a.as_mut_slice(), [1]);
    a.push(2);
    assert_eq!(a.as_mut_slice(), [1, 2]);
    a.push(3);
    assert_eq!(a.as_mut_slice(), [1, 2, 3]);
    a.as_mut_slice()[1] = 4;
    assert_eq!(a.as_mut_slice(), [1, 4, 3]);
}

#[test]
fn test_clone_pre_sizes() {
    let mut a: SmallVec<u32, 2> = SmallVec::with_capacity(100);
    a.push(1);
    a.push(2);
    assert!(a.spilled());
    let b = a.clone();
    assert_eq!(b.as_slice(), [1, 2]);
    assert!(!b.spilled(), "a clone is pre-sized to the length");

    let d: SmallVec<u32, 2> = SmallVec::default();
    assert!(d.is_empty());
    assert_eq!(d.capacity(), 2);
}

#[test]
fn test_get_and_replace() {
    let mut a: SmallVec<u32, 2> = SmallVec::new();
    a.push(7);
    a.push(8);
    assert_eq!(*a.get(1), 8);
    let prior = a.replace(1, 9);
    assert_eq!(prior, 8);
    assert_eq!(a.as_slice(), [7, 9]);
    assert_eq!(a.capacity(), 2);
}

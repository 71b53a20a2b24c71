use smallvec::SmallVec;

#[test]
pub fn test_zero() {
    let mut v = SmallVec::<usize, 0>::new();
    assert!(!v.spilled());
    v.push(0usize);
    assert!(v.spilled());
    assert_eq!(v.as_slice(), &[0]);
}

// We heap allocate all these strings so that double frees will show up
// under instrumentation.

#[test]
pub fn test_inline() {
    let mut v = SmallVec::<String, 16>::new();
    v.push("hello".to_owned());
    v.push("there".to_owned());
    assert_eq!(v.as_slice(), &["hello".to_owned(), "there".to_owned()][..]);
}

#[test]
pub fn test_spill() {
    let mut v = SmallVec::<String, 2>::new();
    v.push("hello".to_owned());
    assert_eq!(v.as_slice()[0], "hello");
    v.push("there".to_owned());
    v.push("burma".to_owned());
    assert_eq!(v.as_slice()[0], "hello");
    v.push("shave".to_owned());
    assert_eq!(
        v.as_slice(),
        &[
            "hello".to_owned(),
            "there".to_owned(),
            "burma".to_owned(),
            "shave".to_owned(),
        ][..]
    );
}

#[test]
pub fn test_double_spill() {
    let mut v = SmallVec::<String, 2>::new();
    v.push("hello".to_owned());
    v.push("there".to_owned());
    v.push("burma".to_owned());
    v.push("shave".to_owned());
    v.push("hello".to_owned());
    v.push("there".to_owned());
    v.push("burma".to_owned());
    v.push("shave".to_owned());
    assert_eq!(
        v.as_slice(),
        &[
            "hello".to_owned(),
            "there".to_owned(),
            "burma".to_owned(),
            "shave".to_owned(),
            "hello".to_owned(),
            "there".to_owned(),
            "burma".to_owned(),
            "shave".to_owned(),
        ][..]
    );
}

#[test]
fn issue_4() {
    SmallVec::<Box<u32>, 2>::new();
}

#[test]
fn issue_5() {
    assert!(Some(SmallVec::<&u32, 2>::new()).is_some());
}

#[test]
fn test_with_capacity() {
    let v: SmallVec<u8, 3> = SmallVec::with_capacity(1);
    assert!(v.is_empty());
    assert!(!v.spilled());
    assert_eq!(v.capacity(), 3);

    let v: SmallVec<u8, 3> = SmallVec::with_capacity(10);
    assert!(v.is_empty());
    assert!(v.spilled());
    assert_eq!(v.capacity(), 10);
}

#[test]
fn test_capacity() {
    let mut v: SmallVec<u8, 2> = SmallVec::new();
    v.reserve(1);
    assert_eq!(v.capacity(), 2);
    assert!(!v.spilled());

    v.reserve_exact(0x100);
    assert!(v.capacity() >= 0x100);

    v.push(0);
    v.push(1);
    v.push(2);
    v.push(3);

    v.shrink_to_fit();
    assert!(v.capacity() < 0x100);
}

#[test]
fn test_truncate() {
    let mut v: SmallVec<Box<u8>, 8> = SmallVec::new();

    for x in 0..8 {
        v.push(Box::new(x));
    }
    v.truncate(4);

    assert_eq!(v.len(), 4);
    assert!(!v.spilled());

    assert_eq!(*v.swap_remove(1), 1);
    assert_eq!(*v.remove(1), 3);
    v.insert(1, Box::new(3));

    assert_eq!(
        &v.as_slice().iter().map(|v| **v).collect::<Vec<_>>(),
        &[0, 3, 2]
    );
}

#[test]
fn shrink_to_fit_unspill() {
    let mut vec = SmallVec::<u8, 2>::new();
    for x in 0..3 {
        vec.push(x);
    }
    vec.pop();
    assert!(vec.spilled());
    vec.shrink_to_fit();
    assert!(!vec.spilled(), "shrink_to_fit will un-spill if possible");
}

#[test]
#[should_panic]
fn test_drop_panic_smallvec() {
    // This test should only panic once, and not double panic,
    // which would mean a double drop
    struct DropPanic;

    impl Drop for DropPanic {
        fn drop(&mut self) {
            panic!("drop");
        }
    }

    let mut v = SmallVec::<_, 1>::new();
    v.push(DropPanic);
}

#[test]
fn test_push_light() {
    let mut v: SmallVec<u8, 2> = SmallVec::new();
    v.push_light(1);
    v.push_light(2);
    assert!(!v.spilled());
    assert_eq!(v.capacity(), 2);
    v.push_light(3);
    assert!(v.spilled());
    assert_eq!(v.capacity(), 4);
    v.push_light(4);
    v.push_light(5);
    assert_eq!(v.capacity(), 8, "a full heap buffer doubles");
    assert_eq!(v.as_slice(), &[1, 2, 3, 4, 5]);
}

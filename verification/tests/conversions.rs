use smallvec::SmallVec;
use smallvec::source::VecSource;

#[test]
fn test_from() {
    assert_eq!(SmallVec::<u32, 2>::from(&[1][..]).as_slice(), [1]);
    assert_eq!(SmallVec::<u32, 2>::from(&[1, 2, 3][..]).as_slice(), [1, 2, 3]);

    let vec = vec![];
    let small_vec: SmallVec<u8, 3> = SmallVec::from(vec);
    assert_eq!(small_vec.as_slice(), &[]);
    drop(small_vec);

    let vec = vec![1, 2, 3, 4, 5];
    let small_vec: SmallVec<u8, 3> = SmallVec::from(vec);
    assert_eq!(small_vec.as_slice(), &[1, 2, 3, 4, 5]);
    drop(small_vec);

    let vec = vec![1, 2, 3, 4, 5];
    let small_vec: SmallVec<u8, 1> = SmallVec::from(vec);
    assert_eq!(small_vec.as_slice(), &[1, 2, 3, 4, 5]);
    drop(small_vec);

    let array = [1];
    let small_vec: SmallVec<u8, 1> = SmallVec::from(array);
    assert_eq!(small_vec.as_slice(), &[1]);
    drop(small_vec);

    let array = [99; 128];
    let small_vec: SmallVec<u8, 128> = SmallVec::from(array);
    assert_eq!(small_vec.as_slice(), vec![99u8; 128].as_slice());
    drop(small_vec);
}

#[test]
fn test_from_slice() {
    assert_eq!(SmallVec::<u32, 2>::from_slice(&[1][..]).as_slice(), [1]);
    assert_eq!(
        SmallVec::<u32, 2>::from_slice(&[1, 2, 3][..]).as_slice(),
        [1, 2, 3]
    );
}

#[test]
fn test_from_vec() {
    let vec = vec![];
    let small_vec: SmallVec<u8, 3> = SmallVec::from_vec(vec);
    assert_eq!(small_vec.as_slice(), &[]);
    drop(small_vec);

    let vec = vec![];
    let small_vec: SmallVec<u8, 1> = SmallVec::from_vec(vec);
    assert_eq!(small_vec.as_slice(), &[]);
    drop(small_vec);

    let vec = vec![1];
    let small_vec: SmallVec<u8, 3> = SmallVec::from_vec(vec);
    assert_eq!(small_vec.as_slice(), &[1]);
    drop(small_vec);

    let vec = vec![1, 2, 3];
    let small_vec: SmallVec<u8, 3> = SmallVec::from_vec(vec);
    assert_eq!(small_vec.as_slice(), &[1, 2, 3]);
    drop(small_vec);

    let vec = vec![1, 2, 3, 4, 5];
    let small_vec: SmallVec<u8, 3> = SmallVec::from_vec(vec);
    assert_eq!(small_vec.as_slice(), &[1, 2, 3, 4, 5]);
    drop(small_vec);

    let vec = vec![1, 2, 3, 4, 5];
    let small_vec: SmallVec<u8, 1> = SmallVec::from_vec(vec);
    assert_eq!(small_vec.as_slice(), &[1, 2, 3, 4, 5]);
    drop(small_vec);
}

#[test]
fn test_from_vec_spills_on_length() {
    // a vector longer than the inline bound always produces a spilled
    // container whose capacity covers at least its length
    let vec = vec![1, 2, 3, 4, 5];
    let small_vec: SmallVec<u8, 3> = SmallVec::from_vec(vec);
    assert!(small_vec.spilled());
    assert!(small_vec.capacity() >= 5);
}

#[test]
fn test_into_vec() {
    let vec = SmallVec::<u8, 2>::from_iter(VecSource::new(vec![0, 1]));
    assert_eq!(vec.into_vec(), vec![0, 1]);

    let vec = SmallVec::<u8, 2>::from_iter(VecSource::new(vec![0, 1, 2]));
    assert_eq!(vec.into_vec(), vec![0, 1, 2]);
}

#[test]
fn test_into_inner() {
    let vec = SmallVec::<u8, 2>::from_iter(VecSource::new(vec![0, 1]));
    assert_eq!(vec.into_inner(), Ok([0, 1]));

    let vec = SmallVec::<u8, 2>::from_iter(VecSource::new(vec![0]));
    assert_eq!(vec.clone().into_inner(), Err(vec));

    let vec = SmallVec::<u8, 2>::from_iter(VecSource::new(vec![0, 1, 2]));
    assert_eq!(vec.clone().into_inner(), Err(vec));
}

#[test]
fn test_from_buf() {
    let buf = [1, 2, 3, 4, 5];
    let small_vec: SmallVec<_, 5> = SmallVec::from_buf(buf);
    assert_eq!(small_vec.as_slice(), &[1, 2, 3, 4, 5]);
    assert!(!small_vec.spilled());
}

#[test]
fn test_from_buf_and_len() {
    let buf = [1, 2, 3, 4, 5, 0, 0, 0];
    let small_vec: SmallVec<_, 8> = SmallVec::from_buf_and_len(buf, 5);
    assert_eq!(small_vec.as_slice(), &[1, 2, 3, 4, 5]);
}

#[test]
fn test_from_elem() {
    let v = SmallVec::<char, 128>::from_elem('d', 2);
    assert_eq!(v.as_slice(), &['d', 'd']);
    assert!(!v.spilled());

    let v = SmallVec::<u8, 2>::from_elem(7, 5);
    assert_eq!(v.as_slice(), &[7, 7, 7, 7, 7]);
    assert!(v.spilled());
}

#[test]
fn test_round_trip_preserves_elements() {
    // not spilled
    let v: SmallVec<u8, 4> = SmallVec::from_slice(&[1, 2]);
    let w: SmallVec<u8, 4> = SmallVec::from_vec(v.clone().into_vec());
    assert_eq!(v, w);

    // spilled
    let v: SmallVec<u8, 2> = SmallVec::from_slice(&[1, 2, 3, 4, 5]);
    assert!(v.spilled());
    let w: SmallVec<u8, 2> = SmallVec::from_vec(v.clone().into_vec());
    assert_eq!(v, w);
}

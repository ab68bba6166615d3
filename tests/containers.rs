use zenalloc::{RawVec, VecError, ZenVec};

#[test]
fn test_raw_vec() {
    let mut vec = RawVec::<u8>::with_capacity(1024).unwrap();
    assert_eq!(vec.capacity(), 1024);

    vec.grow().unwrap();
    assert_eq!(vec.capacity(), 2048);
}

#[test]
fn test_zen_vec_ops() {
    let mut vec: ZenVec<u8> = ZenVec::new();
    assert!(vec.is_empty(), "ZenVec is_empty() failed");

    assert!(vec.push(0) == Ok(()), "ZenVec push() return failed");
    assert!(vec == [0], "ZenVec push() failed");

    let value = vec.pop();
    assert!(value == Some(0), "ZenVec pop() failed");

    assert!(vec.push(0) == Ok(()), "ZenVec push() #1 return failed");
    assert!(vec.push(1) == Ok(()), "ZenVec push() #2 return failed");
    assert!(vec.push(2) == Ok(()), "ZenVec push() #3 return failed");
    assert!(vec == [0, 1, 2], "ZenVec multi-push failed");

    assert!(vec.remove(3) == Err(VecError::IndexOutOfBounds), "ZenVec index checking failed");

    assert!(vec.remove(1) == Ok(1), "ZenVec remove() return failed");
    assert!(vec == [0, 2], "ZenVec remove() failed");

    assert!(vec.insert(1, 1) == Ok(()), "ZenVec insert() return failed");
    assert!(vec == [0, 1, 2], "ZenVec insert() failed");
}

#[test]
fn test_zen_vec_iter() {
    let mut vec: ZenVec<u8> = ZenVec::new();
    for i in 1..4 {
        vec.push(i).unwrap();
    }

    let mut iter = vec.iter();
    assert_eq!(iter.next(), Some(&1));
    assert_eq!(iter.next(), Some(&2));
    assert_eq!(iter.next(), Some(&3));
    assert_eq!(iter.next(), None);
}

#[test]
fn test_zen_vec_iter_mut() {
    let mut vec: ZenVec<u8> = ZenVec::new();
    for i in 1..4 {
        vec.push(i).unwrap();
    }

    let mut iter = vec.iter_mut();
    assert_eq!(iter.next(), Some(&mut 1));
    assert_eq!(iter.next(), Some(&mut 2));
    assert_eq!(iter.next(), Some(&mut 3));
    assert_eq!(iter.next(), None);
}

#[test]
fn iter_mut_writes_reach_the_array() {
    let mut vec: ZenVec<u32> = ZenVec::new();
    for i in 0..5u32 {
        vec.push(i).unwrap();
    }
    let mut iter = vec.iter_mut();
    while let Some(x) = iter.next() {
        *x *= 10;
    }
    assert!(vec == [0, 10, 20, 30, 40]);
}

#[test]
fn test_raw_vec_iter() {
    let mut raw_vec: RawVec<i32> = RawVec::with_capacity(4).unwrap();
    for i in 0..4 {
        raw_vec.write_next(i as i32);
    }

    let mut iter = raw_vec.iter();
    assert_eq!(iter.next(), Some(&0));
    assert_eq!(iter.next(), Some(&1));
    assert_eq!(iter.next(), Some(&2));
    assert_eq!(iter.next(), Some(&3));
    assert_eq!(iter.next(), None);
}

#[test]
fn test_zen_vec_partialeq() {
    let mut vec1: ZenVec<u8> = ZenVec::new();
    let mut vec2: ZenVec<u8> = ZenVec::new();
    for i in 0..4 {
        vec1.push(i).unwrap();
        vec2.push(i).unwrap();
    }
    assert_eq!(vec1.get(0), Some(&0));
    assert!(vec1 == vec2, "PartialEq #1 fail for ZenVec");

    vec2.pop();
    assert!(vec1 != vec2, "PartialEq #2 fail for ZenVec");
    assert!(vec1 == [0, 1, 2, 3]);
}

#[test]
fn push_then_pop_scenario() {
    let mut vec: ZenVec<u32> = ZenVec::new();
    vec.push(0).unwrap();
    vec.push(1).unwrap();
    vec.push(2).unwrap();
    assert!(vec == [0, 1, 2]);
    assert_eq!(vec.pop(), Some(2));
    assert!(vec == [0, 1]);
}

#[test]
fn remove_out_of_range_leaves_array() {
    let mut vec: ZenVec<u32> = ZenVec::new();
    vec.push(0).unwrap();
    vec.push(1).unwrap();
    assert_eq!(vec.remove(3), Err(VecError::IndexOutOfBounds));
    assert_eq!(vec.remove(2), Err(VecError::IndexOutOfBounds));
    assert!(vec == [0, 1]);
    assert_eq!(vec.len(), 2);
}

#[test]
fn insert_out_of_range_leaves_array() {
    let mut vec: ZenVec<u32> = ZenVec::new();
    vec.push(7).unwrap();
    assert_eq!(vec.insert(2, 9), Err(VecError::IndexOutOfBounds));
    assert!(vec == [7]);
    assert_eq!(vec.insert(1, 9), Ok(()));
    assert!(vec == [7, 9]);
}

#[test]
fn pops_come_back_last_in_first_out() {
    let mut vec: ZenVec<u32> = ZenVec::new();
    for i in 0..10u32 {
        vec.push(i * 3).unwrap();
    }
    assert_eq!(vec.len(), 10);
    for i in (0..10u32).rev() {
        assert_eq!(vec.pop(), Some(i * 3));
    }
    assert_eq!(vec.pop(), None);
    assert_eq!(vec.len(), 0);
}

#[test]
fn insert_then_remove_restores_at_every_index() {
    for i in 0..=4usize {
        let mut vec: ZenVec<u32> = ZenVec::new();
        for v in [10u32, 20, 30, 40] {
            vec.push(v).unwrap();
        }
        vec.insert(i, 99).unwrap();
        assert_eq!(vec.get(i), Some(&99));
        assert_eq!(vec.len(), 5);
        assert_eq!(vec.remove(i), Ok(99));
        assert!(vec == [10, 20, 30, 40]);
    }
}

#[test]
fn growth_keeps_elements_in_order() {
    let mut vec: ZenVec<u64> = ZenVec::new();
    assert_eq!(vec.capacity(), 0);
    let mut caps = Vec::new();
    for i in 0..33u64 {
        vec.push(i).unwrap();
        caps.push(vec.capacity());
    }
    assert_eq!(caps[0], 1);
    assert_eq!(caps[1], 2);
    assert_eq!(caps[2], 4);
    assert_eq!(caps[4], 8);
    assert_eq!(caps[32], 64);
    for i in 0..33usize {
        assert_eq!(vec.get(i), Some(&(i as u64)));
    }
    assert_eq!(vec.get(33), None);
}

#[test]
fn insert_at_front_shifts_everything() {
    let mut vec: ZenVec<char> = ZenVec::new();
    vec.push('b').unwrap();
    vec.push('c').unwrap();
    vec.insert(0, 'a').unwrap();
    vec.insert(3, 'd').unwrap();
    assert!(vec == ['a', 'b', 'c', 'd']);
    assert_eq!(vec.remove(0), Ok('a'));
    assert!(vec == ['b', 'c', 'd']);
}

#[test]
fn equality_ignores_capacity() {
    let mut a: ZenVec<u8> = ZenVec::with_capacity(16).unwrap();
    let mut b: ZenVec<u8> = ZenVec::new();
    a.push(5).unwrap();
    b.push(5).unwrap();
    assert_ne!(a.capacity(), b.capacity());
    assert!(a == b);
    assert!(a == [5][..]);
}

#[test]
fn slices_through_deref() {
    let mut vec: ZenVec<i32> = ZenVec::new();
    vec.push(3).unwrap();
    vec.push(4).unwrap();
    assert_eq!(vec.as_slice(), &[3, 4]);
    vec.as_mut_slice()[0] = 30;
    assert_eq!(vec[0], 30);
    assert_eq!(vec.iter().next(), Some(&30));
}

#[test]
fn raw_vec_starts_empty_and_grows_from_one() {
    let mut raw: RawVec<u16> = RawVec::new();
    assert_eq!(raw.capacity(), 0);
    raw.grow().unwrap();
    assert_eq!(raw.capacity(), 1);
    raw.grow().unwrap();
    assert_eq!(raw.capacity(), 2);
    let zero: RawVec<u16> = RawVec::with_capacity(0).unwrap();
    assert_eq!(zero.capacity(), 0);
    assert!(RawVec::<u64>::with_capacity(usize::MAX / 2).is_err());
}

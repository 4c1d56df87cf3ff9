use editcore::arena::{Arena, ALLOC_CHUNK_SIZE};
use editcore::bvec::BVec;

fn arena() -> Arena {
    Arena::new(4 * ALLOC_CHUNK_SIZE).unwrap()
}

#[test]
fn empty_has_no_capacity() {
    let v: BVec<u8> = BVec::empty();
    assert_eq!(v.len(), 0);
    assert_eq!(v.capacity(), 0);
    assert!(v.is_empty());
    assert!(v.is_full());
}

#[test]
fn push_and_read_back() {
    let mut a = arena();
    let mut v: BVec<u32> = BVec::empty();
    for i in 0..100u32 {
        v.push(&mut a, i * 2);
    }
    assert_eq!(v.len(), 100);
    assert!(v.capacity() >= 100);
    let s = v.as_slice();
    for i in 0..100usize {
        assert_eq!(s[i], (i as u32) * 2);
    }
}

#[test]
fn growth_doubles_with_a_floor_of_eight() {
    let mut a = arena();
    let mut v: BVec<u8> = BVec::empty();
    v.push(&mut a, 1);
    assert_eq!(v.capacity(), 8);
    v.push_repeat(&mut a, 0, 8);
    assert_eq!(v.capacity(), 16);
}

#[test]
fn push_repeat_fills_with_copies() {
    let mut a = arena();
    let mut v: BVec<u8> = BVec::empty();
    v.push_repeat(&mut a, b'x', 1000);
    assert_eq!(v.len(), 1000);
    assert!(v.capacity() >= 1000);
    for &b in v.as_slice() {
        assert_eq!(b, b'x');
    }
}

#[test]
fn from_slice_copies() {
    let v = BVec::from_slice(&[1u8, 2, 3]);
    assert_eq!(v.as_slice(), &[1, 2, 3]);
    assert_eq!(v.capacity(), 3);
    assert!(v.is_full());
}

#[test]
fn truncate_and_clear() {
    let mut a = arena();
    let mut v: BVec<u8> = BVec::empty();
    v.extend_from_slice(&mut a, &[1, 2, 3, 4, 5]);
    v.truncate(7);
    assert_eq!(v.as_slice(), &[1, 2, 3, 4, 5]);
    v.truncate(2);
    assert_eq!(v.as_slice(), &[1, 2]);
    let cap = v.capacity();
    v.clear();
    assert_eq!(v.len(), 0);
    assert_eq!(v.capacity(), cap);
}

#[test]
fn extend_appends_everything() {
    let mut a = arena();
    let mut v: BVec<u8> = BVec::empty();
    v.extend(&mut a, vec![1, 2, 3]);
    v.extend_sloppy(&mut a, vec![4, 5]);
    assert_eq!(v.as_slice(), &[1, 2, 3, 4, 5]);
}

#[test]
fn extend_from_within_duplicates_a_range() {
    let mut a = arena();
    let mut v: BVec<u8> = BVec::empty();
    v.extend_from_slice(&mut a, &[1, 2, 3, 4]);
    v.extend_from_within(&mut a, 1, 3);
    assert_eq!(v.as_slice(), &[1, 2, 3, 4, 2, 3]);
    // bounds past the end are clamped
    v.extend_from_within(&mut a, 5, 100);
    assert_eq!(v.as_slice(), &[1, 2, 3, 4, 2, 3, 3]);
}

#[test]
fn replace_range_splices() {
    let mut a = arena();
    let mut v: BVec<u8> = BVec::empty();
    v.extend_from_slice(&mut a, &[1, 2, 3, 4, 5]);
    v.replace_range(&mut a, 1, 3, &[9, 9, 9, 9]);
    assert_eq!(v.as_slice(), &[1, 9, 9, 9, 9, 4, 5]);
}

#[test]
fn replace_range_shrinks_and_removes() {
    let mut a = arena();
    let mut v: BVec<u8> = BVec::empty();
    v.extend_from_slice(&mut a, &[1, 2, 3, 4, 5]);
    v.replace_range(&mut a, 0, 2, &[7]);
    assert_eq!(v.as_slice(), &[7, 3, 4, 5]);
    v.replace_range(&mut a, 1, 3, &[]);
    assert_eq!(v.as_slice(), &[7, 5]);
    // insertion without removal
    v.replace_range(&mut a, 1, 1, &[8, 8]);
    assert_eq!(v.as_slice(), &[7, 8, 8, 5]);
}

#[test]
fn growing_most_recent_allocation_keeps_base_pointer() {
    let mut a = arena();
    let mut v: BVec<u8> = BVec::empty();
    v.push_repeat(&mut a, 1, 8);
    let base = v.as_ptr();
    let offset_before = a.offset();
    // v's storage is the arena's most recent allocation: growth extends it
    // in place, advancing the arena's offset without moving the base.
    v.push_repeat(&mut a, 2, 8);
    assert_eq!(v.as_ptr(), base);
    assert!(a.offset() > offset_before);
}

#[test]
fn growing_older_allocation_relocates() {
    let mut a = arena();
    let mut v: BVec<u8> = BVec::empty();
    v.push_repeat(&mut a, 1, 8);
    let base = v.as_ptr();
    // another allocation takes over the arena tail
    let mut w: BVec<u8> = BVec::empty();
    w.push_repeat(&mut a, 9, 8);
    // now v's storage is not the most recent allocation: growth relocates
    // it and copies the elements
    v.push_repeat(&mut a, 2, 8);
    assert_ne!(v.as_ptr(), base);
    assert_eq!(v.len(), 16);
    let s = v.as_slice();
    for i in 0..8 {
        assert_eq!(s[i], 1);
        assert_eq!(s[8 + i], 2);
    }
}

#[test]
fn as_mut_slice_edits_in_place() {
    let mut a = arena();
    let mut v: BVec<u8> = BVec::empty();
    v.extend_from_slice(&mut a, &[1, 2, 3]);
    let cap = v.capacity();
    v.as_mut_slice()[1] = 9;
    assert_eq!(v.as_slice(), &[1, 9, 3]);
    assert_eq!(v.capacity(), cap);
}

#[test]
fn std_vec_round_trip() {
    let v = BVec::from_std_vec(vec![1u8, 2, 3]);
    assert_eq!(v.len(), 3);
    let back = v.into_std_vec();
    assert_eq!(back, vec![1, 2, 3]);
}

#[test]
fn leak_hands_out_the_elements() {
    let mut a = arena();
    let mut v: BVec<u8> = BVec::empty();
    v.extend_from_slice(&mut a, b"abc");
    let leaked = v.leak();
    assert_eq!(leaked, b"abc".to_vec());
}

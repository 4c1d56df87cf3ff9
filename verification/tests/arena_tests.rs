use editcore::allocator::{Allocation, Allocator, GlobalAllocator};
use editcore::arena::{Arena, ALLOC_CHUNK_SIZE, FILL_BYTE_ALLOC, FILL_BYTE_RESET};

#[test]
fn new_arena_commits_nothing() {
    let arena = Arena::new(1000).unwrap();
    assert_eq!(arena.committed(), 0);
    assert_eq!(arena.offset(), 0);
    assert!(!arena.is_empty());
    assert_eq!(arena.capacity(), ALLOC_CHUNK_SIZE);
}

#[test]
fn capacity_rounds_up_to_chunks() {
    let arena = Arena::new(ALLOC_CHUNK_SIZE + 1).unwrap();
    assert_eq!(arena.capacity(), 2 * ALLOC_CHUNK_SIZE);
    let arena = Arena::new(0).unwrap();
    assert_eq!(arena.capacity(), ALLOC_CHUNK_SIZE);
}

#[test]
fn first_alloc_commits_one_chunk() {
    let mut arena = Arena::new(4 * ALLOC_CHUNK_SIZE).unwrap();
    assert_eq!(arena.committed(), 0);
    let a = arena.alloc_raw(10, 1);
    assert_eq!(a.off, 0);
    assert_eq!(a.size, 10);
    assert_eq!(arena.offset(), 10);
    // exactly one chunk was committed, covering the allocation
    assert_eq!(arena.committed(), ALLOC_CHUNK_SIZE);
    assert!(arena.committed() >= a.off + a.size);
    // a second small allocation commits nothing further
    let b = arena.alloc_raw(6, 1);
    assert_eq!(b.off, 10);
    assert_eq!(arena.committed(), ALLOC_CHUNK_SIZE);
}

#[test]
fn alloc_respects_alignment() {
    let mut arena = Arena::new(ALLOC_CHUNK_SIZE).unwrap();
    arena.alloc_raw(3, 1);
    let a = arena.alloc_raw(8, 8);
    assert_eq!(a.off, 8);
    assert_eq!(arena.offset(), 16);
}

#[test]
fn fresh_allocation_is_poisoned() {
    let mut arena = Arena::new(ALLOC_CHUNK_SIZE).unwrap();
    let a = arena.alloc_raw(16, 1);
    for i in a.off..a.off + a.size {
        assert_eq!(arena.committed_byte(i), FILL_BYTE_ALLOC);
    }
}

#[test]
fn reset_poisons_and_next_alloc_reuses() {
    let mut arena = Arena::new(ALLOC_CHUNK_SIZE).unwrap();
    let a = arena.alloc_raw(32, 1);
    let watermark = a.off;
    let end = arena.offset();
    arena.reset(watermark);
    assert_eq!(arena.offset(), watermark);
    // the discarded bytes were overwritten with the reset poison
    for i in watermark..end {
        assert_eq!(arena.committed_byte(i), FILL_BYTE_RESET);
    }
    // a subsequent allocation reuses memory starting at the watermark
    let b = arena.alloc_raw(8, 1);
    assert_eq!(b.off, watermark);
}

#[test]
fn realloc_grows_last_allocation_in_place() {
    let mut arena = Arena::new(ALLOC_CHUNK_SIZE).unwrap();
    let a = arena.alloc_raw(8, 1);
    let r = arena.realloc(a, 24, 1);
    assert_eq!(r.off, a.off);
    assert_eq!(r.size, 24);
    assert_eq!(arena.offset(), a.off + 24);
}

#[test]
fn realloc_shrinks_last_allocation_in_place() {
    let mut arena = Arena::new(ALLOC_CHUNK_SIZE).unwrap();
    let a = arena.alloc_raw(24, 1);
    let r = arena.realloc(a, 8, 1);
    assert_eq!(r.off, a.off);
    assert_eq!(arena.offset(), a.off + 8);
}

#[test]
fn realloc_relocates_non_last_allocation() {
    let mut arena = Arena::new(ALLOC_CHUNK_SIZE).unwrap();
    let a = arena.alloc_raw(8, 1);
    let _b = arena.alloc_raw(8, 1);
    let r = arena.realloc(a, 16, 1);
    assert_ne!(r.off, a.off);
    assert!(r.off >= 16);
    assert_eq!(arena.offset(), r.off + 16);
}

#[test]
fn dealloc_is_a_no_op() {
    let mut arena = Arena::new(ALLOC_CHUNK_SIZE).unwrap();
    let a = arena.alloc_raw(8, 1);
    let off = arena.offset();
    arena.dealloc(a, 1);
    assert_eq!(arena.offset(), off);
}

#[test]
fn global_allocator_moves_on_growth() {
    let mut heap = GlobalAllocator::new();
    let a = heap.realloc(Allocation { off: 0, size: 0 }, 16, 1);
    assert_eq!(a.size, 16);
    let b = heap.realloc(a, 32, 1);
    assert_ne!(b.off, a.off);
    let c = heap.realloc(b, 8, 1);
    assert_eq!(c.off, b.off);
}

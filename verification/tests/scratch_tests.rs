use editcore::scratch::{init, scratch_arena, ScratchPool, DEFAULT_SCRATCH_CAPACITY};

#[test]
fn init_sets_default_capacity() {
    let mut pool = ScratchPool::new();
    init(&mut pool, 65536);
    let h = scratch_arena(&mut pool, None);
    let arena = h.delegate_target(&mut pool);
    assert_eq!(arena.capacity(), 65536);
    h.release(&mut pool);
}

#[test]
fn init_ignores_zero() {
    let mut pool = ScratchPool::new();
    init(&mut pool, 0);
    let h = scratch_arena(&mut pool, None);
    let arena = h.delegate_target(&mut pool);
    assert_eq!(arena.capacity(), DEFAULT_SCRATCH_CAPACITY);
    h.release(&mut pool);
}

#[test]
fn conflicting_borrows_flip_flop() {
    let mut pool = ScratchPool::new();
    init(&mut pool, 65536);
    // No conflict: the first of the pair.
    let first = scratch_arena(&mut pool, None);
    // Conflicting with the first: a different underlying arena.
    let second = scratch_arena(&mut pool, Some(&first));
    assert_ne!(first.arena_index(), second.arena_index());
    // Conflicting with the second: the same arena as the first again.
    let third = scratch_arena(&mut pool, Some(&second));
    assert_eq!(third.arena_index(), first.arena_index());
    third.release(&mut pool);
    second.release(&mut pool);
    first.release(&mut pool);
}

#[test]
fn stale_borrow_is_detected() {
    let mut pool = ScratchPool::new();
    init(&mut pool, 65536);
    let older = scratch_arena(&mut pool, None);
    assert!(older.is_current(&pool));
    // A newer borrow of the same underlying arena supersedes the older
    // handle: the borrow tracker rejects its further use.
    let newer = scratch_arena(&mut pool, None);
    assert_eq!(older.arena_index(), newer.arena_index());
    assert!(!older.is_current(&pool));
    assert!(newer.is_current(&pool));
    newer.release(&mut pool);
    assert!(older.is_current(&pool));
    older.release(&mut pool);
}

#[test]
fn release_rewinds_the_watermark() {
    let mut pool = ScratchPool::new();
    init(&mut pool, 65536);
    let h = scratch_arena(&mut pool, None);
    let saved = h.saved_offset();
    {
        let arena = h.delegate_target(&mut pool);
        arena.alloc_raw(100, 1);
        assert_eq!(arena.offset(), saved + 100);
    }
    h.release(&mut pool);
    let again = scratch_arena(&mut pool, None);
    {
        let arena = again.delegate_target(&mut pool);
        assert_eq!(arena.offset(), saved);
    }
    again.release(&mut pool);
}

#[test]
fn nested_borrows_restore_in_order() {
    let mut pool = ScratchPool::new();
    init(&mut pool, 65536);
    let outer = scratch_arena(&mut pool, None);
    outer.delegate_target(&mut pool).alloc_raw(10, 1);
    let inner = scratch_arena(&mut pool, Some(&outer));
    inner.delegate_target(&mut pool).alloc_raw(20, 1);
    // Two arenas in flight: allocations are independent.
    assert_ne!(outer.arena_index(), inner.arena_index());
    inner.release(&mut pool);
    assert!(outer.is_current(&pool));
    outer.release(&mut pool);
}

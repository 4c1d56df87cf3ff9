//! The scratch-arena protocol: borrow an arena for a bounded scope, restore
//! its watermark on release, and flip-flop between a pair of arenas so that
//! nested borrows along one call path never alias.
//!
//! A function that receives an arena for its exterior (returned) data must
//! request its interior (temporary) scratch arena passing that arena as the
//! conflict; it is then handed the other member of the pair. Because a
//! callee's exterior allocations are its caller's interior ones, two arenas
//! suffice for arbitrarily deep recursion.
//!
//! The pair lives in an explicit [`ScratchPool`] value (one per thread in
//! a threaded program). Each borrow is tagged with the arena's borrow
//! counter; a handle is valid only while its tag still equals the counter,
//! so using a handle after a newer borrow has superseded it is caught by
//! the always-on borrow tracker.

use vstd::prelude::*;

use crate::arena::{Arena, ALLOC_CHUNK_SIZE, FILL_BYTE_RESET, FILL_TAIL};
use crate::arena::min_int;

verus! {

/// Default capacity of a lazily created scratch arena: 128 MiB of reserve.
pub const DEFAULT_SCRATCH_CAPACITY: usize = 134217728;

/// A pair of arenas for scratch borrows, with the capacity used when one of
/// them is first needed.
pub struct ScratchPool {
    arena_a: Arena,
    arena_b: Arena,
    default_capacity: usize,
}

/// Borrows an arena of a [`ScratchPool`] for temporary allocations. Created
/// by [`scratch_arena`]; released by [`ScratchArena::release`], which
/// rewinds the arena to the offset saved here.
pub struct ScratchArena {
    index: usize,
    borrow: usize,
    offset: usize,
}

impl ScratchPool {
    /// The pool member with the given index (0 or 1).
    pub closed spec fn spec_arena(&self, i: int) -> Arena {
        if i == 0 {
            self.arena_a
        } else {
            self.arena_b
        }
    }

    pub closed spec fn spec_default_capacity(&self) -> usize {
        self.default_capacity
    }

    /// The pool's invariant: both arenas are well-formed, the default
    /// capacity leaves room for chunk rounding, and an arena that was never
    /// created holds no borrows.
    pub open spec fn wf(&self) -> bool {
        &&& self.spec_arena(0).wf()
        &&& self.spec_arena(1).wf()
        &&& self.spec_default_capacity() + ALLOC_CHUNK_SIZE <= usize::MAX
        &&& self.spec_arena(0).spec_capacity() == 0 ==> self.spec_arena(0).spec_borrows() == 0
        &&& self.spec_arena(1).spec_capacity() == 0 ==> self.spec_arena(1).spec_borrows() == 0
    }

    /// A pool whose arenas are created lazily, on first borrow, with the
    /// default capacity.
    pub fn new() -> (r: ScratchPool)
        ensures
            r.wf(),
            r.spec_arena(0).spec_capacity() == 0,
            r.spec_arena(1).spec_capacity() == 0,
            r.spec_arena(0).spec_borrows() == 0,
            r.spec_arena(1).spec_borrows() == 0,
            r.spec_default_capacity() == DEFAULT_SCRATCH_CAPACITY,
    {
        ScratchPool {
            arena_a: Arena::empty(),
            arena_b: Arena::empty(),
            default_capacity: DEFAULT_SCRATCH_CAPACITY,
        }
    }
}

impl ScratchArena {
    pub closed spec fn spec_index(&self) -> usize {
        self.index
    }

    pub closed spec fn spec_borrow(&self) -> usize {
        self.borrow
    }

    pub closed spec fn spec_offset(&self) -> usize {
        self.offset
    }

    /// Which member of the pool backs this handle.
    pub fn arena_index(&self) -> (r: usize)
        ensures
            r == self.spec_index(),
    {
        self.index
    }

    /// The offset the backing arena will be rewound to on release.
    pub fn saved_offset(&self) -> (r: usize)
        ensures
            r == self.spec_offset(),
    {
        self.offset
    }

    /// A handle is current while its borrow tag still equals its arena's
    /// borrow counter: no newer scratch borrow of that arena exists.
    pub open spec fn spec_is_current(&self, pool: &ScratchPool) -> bool {
        self.spec_borrow() == pool.spec_arena(self.spec_index() as int).spec_borrows()
    }

    /// Checks whether this handle is still the newest borrow of its arena.
    pub fn is_current(&self, pool: &ScratchPool) -> (r: bool)
        ensures
            r == self.spec_is_current(pool),
    {
        let counter = if self.index == 0 {
            pool.arena_a.borrows_counter()
        } else {
            pool.arena_b.borrows_counter()
        };
        self.borrow == counter
    }

    /// The borrowed arena, for allocating through this handle. Using a
    /// stale handle - one superseded by a newer borrow of the same arena -
    /// is the bug the borrow tracker exists to catch, and is excluded here.
    pub fn delegate_target<'a>(&self, pool: &'a mut ScratchPool) -> (r: &'a mut Arena)
        requires
            self.spec_is_current(&*old(pool)),
            self.spec_index() <= 1,
        ensures
            *r == old(pool).spec_arena(self.spec_index() as int),
            final(pool).spec_arena(self.spec_index() as int) == *final(r),
            final(pool).spec_arena(1 - self.spec_index() as int) == old(pool).spec_arena(
                1 - self.spec_index() as int,
            ),
            final(pool).spec_default_capacity() == old(pool).spec_default_capacity(),
    {
        if self.index == 0 {
            &mut pool.arena_a
        } else {
            &mut pool.arena_b
        }
    }

    /// Like [`Self::delegate_target`], without the staleness check.
    pub fn delegate_target_unchecked<'a>(&self, pool: &'a mut ScratchPool) -> (r: &'a mut Arena)
        requires
            self.spec_index() <= 1,
        ensures
            *r == old(pool).spec_arena(self.spec_index() as int),
            final(pool).spec_arena(self.spec_index() as int) == *final(r),
            final(pool).spec_arena(1 - self.spec_index() as int) == old(pool).spec_arena(
                1 - self.spec_index() as int,
            ),
            final(pool).spec_default_capacity() == old(pool).spec_default_capacity(),
    {
        if self.index == 0 {
            &mut pool.arena_a
        } else {
            &mut pool.arena_b
        }
    }

    /// Ends the borrow: rewinds the arena to the offset saved at creation
    /// (poisoning the discarded bytes, as a reset does) and hands the
    /// borrow tag back. Must be the newest borrow, so borrows end strictly
    /// nested.
    pub fn release(self, pool: &mut ScratchPool)
        requires
            old(pool).wf(),
            self.spec_is_current(&*old(pool)),
            self.spec_index() <= 1,
            self.spec_borrow() >= 1,
            self.spec_offset() <= old(pool).spec_arena(
                self.spec_index() as int,
            ).spec_offset(),
        ensures
            final(pool).wf(),
            final(pool).spec_default_capacity() == old(pool).spec_default_capacity(),
            final(pool).spec_arena(1 - self.spec_index() as int) == old(pool).spec_arena(
                1 - self.spec_index() as int,
            ),
            ({
                let i = self.spec_index() as int;
                let pre = old(pool).spec_arena(i);
                let post = final(pool).spec_arena(i);
                &&& post.spec_borrows() == pre.spec_borrows() - 1
                &&& post.spec_offset() == self.spec_offset()
                &&& post.spec_capacity() == pre.spec_capacity()
                &&& post.spec_committed() == pre.spec_committed()
                &&& pre.spec_offset() > self.spec_offset() ==> forall|k: int|
                    self.spec_offset() <= k < min_int(
                        pre.spec_offset() + FILL_TAIL,
                        pre.spec_committed(),
                    ) ==> post.spec_mem()[k] == FILL_BYTE_RESET
            }),
    {
        let arena = if self.index == 0 {
            &mut pool.arena_a
        } else {
            &mut pool.arena_b
        };
        arena.reset(self.offset);
        arena.return_borrow();
    }
}

/// The index [`scratch_arena`] picks for a given conflict: the first member
/// of the pair unless the conflict is that very member.
pub open spec fn scratch_pick(conflict: Option<usize>) -> usize {
    if conflict == Some(0usize) {
        1
    } else {
        0
    }
}

/// The conflict handle's pool index, if a conflict was given.
pub open spec fn conflict_index(conflict: Option<&ScratchArena>) -> Option<usize> {
    match conflict {
        Some(h) => Some(h.spec_index()),
        None => None,
    }
}

/// Sets the capacity used for scratch arenas not yet created. A zero is
/// ignored, leaving the configured capacity in place.
pub fn init(pool: &mut ScratchPool, capacity: usize)
    requires
        old(pool).wf(),
        capacity + ALLOC_CHUNK_SIZE <= usize::MAX,
    ensures
        final(pool).wf(),
        final(pool).spec_arena(0) == old(pool).spec_arena(0),
        final(pool).spec_arena(1) == old(pool).spec_arena(1),
        final(pool).spec_default_capacity() == (if capacity != 0 {
            capacity
        } else {
            old(pool).spec_default_capacity()
        }),
{
    if capacity != 0 {
        pool.default_capacity = capacity;
    }
}

/// Need an arena for temporary allocations? Borrows whichever member of the
/// pool is *not* `conflict`, creating it with the configured capacity on
/// first use, and tags the borrow with the arena's bumped borrow counter.
///
/// A function that received an arena argument must pass that arena's
/// scratch handle here as the conflict, so its temporaries land in the
/// other member of the pair.
pub fn scratch_arena(pool: &mut ScratchPool, conflict: Option<&ScratchArena>) -> (h: ScratchArena)
    requires
        old(pool).wf(),
        old(pool).spec_arena(
            scratch_pick(conflict_index(conflict)) as int,
        ).spec_borrows() < usize::MAX,
    ensures
        final(pool).wf(),
        h.spec_index() == scratch_pick(conflict_index(conflict)),
        h.spec_index() <= 1,
        h.spec_is_current(&*final(pool)),
        h.spec_borrow() >= 1,
        final(pool).spec_default_capacity() == old(pool).spec_default_capacity(),
        final(pool).spec_arena(1 - h.spec_index() as int) == old(pool).spec_arena(
            1 - h.spec_index() as int,
        ),
        ({
            let i = h.spec_index() as int;
            let pre = old(pool).spec_arena(i);
            let post = final(pool).spec_arena(i);
            &&& post.spec_borrows() == pre.spec_borrows() + 1
            &&& h.spec_borrow() == pre.spec_borrows() + 1
            &&& h.spec_offset() == post.spec_offset()
            &&& if pre.spec_capacity() != 0 {
                &&& post.spec_offset() == pre.spec_offset()
                &&& post.spec_capacity() == pre.spec_capacity()
                &&& post.spec_committed() == pre.spec_committed()
                &&& post.spec_mem() == pre.spec_mem()
            } else {
                &&& post.spec_offset() == 0
                &&& post.spec_committed() == 0
                &&& post.spec_capacity() >= old(pool).spec_default_capacity()
            }
        }),
{
    let index: usize = match conflict {
        Some(h) if h.index == 0 => 1,
        _ => 0,
    };
    let arena = if index == 0 {
        &mut pool.arena_a
    } else {
        &mut pool.arena_b
    };
    if arena.is_empty() {
        let fresh = match Arena::new(pool.default_capacity) {
            Ok(a) => a,
            Err(_) => Arena::empty(),
        };
        *arena = fresh;
    }
    arena.take_borrow();
    let borrow = arena.borrows_counter();
    let offset = arena.offset();
    ScratchArena { index, borrow, offset }
}

/// The flip-flop discipline of the pair: a borrow with no conflict takes
/// the first arena, a borrow conflicting with it takes the second, and a
/// borrow conflicting with *that* one is backed by the same arena as the
/// first again.
pub proof fn lemma_scratch_flip_flop()
    ensures
        scratch_pick(None) == 0,
        scratch_pick(Some(scratch_pick(None))) == 1,
        scratch_pick(Some(scratch_pick(Some(scratch_pick(None))))) == scratch_pick(None),
{
}

/// Creating a newer scratch borrow of an arena supersedes every older
/// handle of that arena: the older handle stops being current, so the
/// borrow tracker rejects its further use.
pub proof fn lemma_newer_borrow_supersedes(
    older: ScratchArena,
    pre: ScratchPool,
    post: ScratchPool,
    newer: ScratchArena,
)
    requires
        older.spec_is_current(&pre),
        newer.spec_index() == older.spec_index(),
        post.spec_arena(older.spec_index() as int).spec_borrows() == pre.spec_arena(
            older.spec_index() as int,
        ).spec_borrows() + 1,
        newer.spec_borrow() == post.spec_arena(older.spec_index() as int).spec_borrows(),
    ensures
        !older.spec_is_current(&post),
        newer.spec_is_current(&post),
{
}

} // verus!

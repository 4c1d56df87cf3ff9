//! An arena allocator: a bump allocator over a reserved address range whose
//! pages are committed on demand, chunk by chunk.
//!
//! The reserved-but-unmapped part of the virtual-memory region is modelled
//! by `capacity`; the committed part is an owned byte vector that grows in
//! chunk-sized steps. Allocations are [`Allocation`] descriptors:
//! monotonically increasing byte ranges. Reclamation happens only by
//! [`Arena::reset`], which rewinds the bump offset; no individual free
//! exists and no destructors run on arena-resident data.
//!
//! The diagnostic layer is always on: freshly allocated bytes are filled
//! with `0xCD`, discarded bytes with `0xDD`, and the arena carries the
//! borrow counter that the scratch-arena protocol uses to detect stale
//! borrows.

use vstd::prelude::*;

use crate::allocator::{align_up, align_up_usize, lemma_align_up, Allocation, Allocator};
use crate::apperr::Error;

verus! {

/// Granularity, in bytes, at which the arena commits memory.
pub const ALLOC_CHUNK_SIZE: usize = 65536;

/// Byte written over freshly allocated memory.
pub const FILL_BYTE_ALLOC: u8 = 0xcd;

/// Byte written over memory discarded by a reset.
pub const FILL_BYTE_RESET: u8 = 0xdd;

/// How many bytes past the live region a poison fill extends, so that reads
/// just beyond an allocation also surface as poisoned.
pub const FILL_TAIL: usize = 128;

/// An arena allocator. See the module documentation.
pub struct Arena {
    /// The committed bytes: `mem.len()` is the commit boundary.
    mem: Vec<u8>,
    /// Size of the reserved region; never exceeded by the commit boundary.
    capacity: usize,
    /// The bump pointer: bytes in `[0, offset)` are live.
    offset: usize,
    /// Scratch-borrow counter; see the scratch module.
    borrows: usize,
}

impl Arena {
    pub closed spec fn spec_capacity(&self) -> usize {
        self.capacity
    }

    pub closed spec fn spec_offset(&self) -> usize {
        self.offset
    }

    pub closed spec fn spec_committed(&self) -> int {
        self.mem@.len() as int
    }

    pub closed spec fn spec_mem(&self) -> Seq<u8> {
        self.mem@
    }

    pub closed spec fn spec_borrows(&self) -> usize {
        self.borrows
    }

    /// The arena's internal invariant.
    pub open spec fn wf(&self) -> bool {
        &&& self.spec_offset() <= self.spec_committed() <= self.spec_capacity()
        &&& self.spec_capacity() as int % ALLOC_CHUNK_SIZE as int == 0
    }

    /// Where an allocation with the given alignment would start.
    pub open spec fn spec_alloc_start(&self, align: usize) -> int {
        align_up(self.spec_offset() as int, align as int)
    }

    /// Whether an allocation of `bytes` bytes at `align` fits the reserve.
    pub open spec fn can_alloc(&self, bytes: usize, align: usize) -> bool {
        self.spec_alloc_start(align) + bytes <= self.spec_capacity()
    }

    /// The commit boundary after the live region has grown to `end`.
    pub open spec fn spec_committed_after(&self, end: int) -> int {
        if end <= self.spec_committed() {
            self.spec_committed()
        } else {
            align_up(end, ALLOC_CHUNK_SIZE as int)
        }
    }

    /// Whether `block` is the most recent allocation: its end is the bump
    /// pointer. Only such a block can grow or shrink in place.
    pub open spec fn is_last(&self, block: Allocation) -> bool {
        block.end() == self.spec_offset()
    }

    /// An arena with no backing memory. The usable arenas come from
    /// [`Arena::new`]; this is the inert default.
    pub fn empty() -> (r: Arena)
        ensures
            r.wf(),
            r.spec_capacity() == 0,
            r.spec_offset() == 0,
            r.spec_committed() == 0,
            r.spec_borrows() == 0,
    {
        Arena { mem: Vec::new(), capacity: 0, offset: 0, borrows: 0 }
    }

    /// Reserves an arena of at least `capacity` bytes, rounded up to the
    /// commit chunk size. No memory is committed yet. Reservation failure is
    /// an OS-boundary event outside this model, so the result is always
    /// `Ok`; the `Result` preserves the call shape for callers that treat
    /// reservation as fallible.
    pub fn new(capacity: usize) -> (r: Result<Arena, Error>)
        requires
            capacity + ALLOC_CHUNK_SIZE <= usize::MAX,
        ensures
            r matches Ok(a) && {
                &&& a.wf()
                &&& a.spec_capacity() == align_up(
                    (if capacity == 0 { 1int } else { capacity as int }),
                    ALLOC_CHUNK_SIZE as int,
                )
                &&& a.spec_capacity() >= capacity
                &&& a.spec_offset() == 0
                &&& a.spec_committed() == 0
                &&& a.spec_borrows() == 0
            },
    {
        let want: usize = if capacity == 0 { 1 } else { capacity };
        proof {
            lemma_align_up(want as int, ALLOC_CHUNK_SIZE as int);
        }
        let rounded = align_up_usize(want, ALLOC_CHUNK_SIZE);
        Ok(Arena { mem: Vec::new(), capacity: rounded, offset: 0, borrows: 0 })
    }

    /// True if the arena was never given backing memory.
    pub fn is_empty(&self) -> (r: bool)
        ensures
            r == (self.spec_capacity() == 0),
    {
        self.capacity == 0
    }

    /// The size of the reserved region.
    pub fn capacity(&self) -> (r: usize)
        ensures
            r == self.spec_capacity(),
    {
        self.capacity
    }

    /// The current bump offset: everything below it is live.
    pub fn offset(&self) -> (r: usize)
        ensures
            r == self.spec_offset(),
    {
        self.offset
    }

    /// The current commit boundary.
    pub fn committed(&self) -> (r: usize)
        ensures
            r == self.spec_committed(),
    {
        self.mem.len()
    }

    /// Reads one committed byte; lets callers observe the poison fills.
    pub fn committed_byte(&self, i: usize) -> (r: u8)
        requires
            i < self.spec_committed(),
        ensures
            r == self.spec_mem()[i as int],
    {
        self.mem[i]
    }

    /// "Deallocates" down to the given offset, which the caller must have
    /// observed on this arena. Runs no destructors. The discarded bytes
    /// (with a short tail beyond them) are overwritten with the reset
    /// poison byte so use-after-reset surfaces in tests.
    pub fn reset(&mut self, to: usize)
        requires
            old(self).wf(),
            to <= old(self).spec_offset(),
        ensures
            final(self).wf(),
            final(self).spec_offset() == to,
            final(self).spec_capacity() == old(self).spec_capacity(),
            final(self).spec_committed() == old(self).spec_committed(),
            final(self).spec_borrows() == old(self).spec_borrows(),
            final(self).spec_mem().len() == old(self).spec_mem().len(),
            forall|i: int|
                0 <= i < to ==> final(self).spec_mem()[i] == old(self).spec_mem()[i],
            old(self).spec_offset() > to ==> forall|i: int|
                to <= i < min_int(
                    old(self).spec_offset() + FILL_TAIL,
                    old(self).spec_committed(),
                ) ==> final(self).spec_mem()[i] == FILL_BYTE_RESET,
            old(self).spec_offset() > to ==> forall|i: int|
                min_int(old(self).spec_offset() + FILL_TAIL, old(self).spec_committed()) <= i
                    < old(self).spec_committed() ==> final(self).spec_mem()[i] == old(
                    self,
                ).spec_mem()[i],
            old(self).spec_offset() <= to ==> final(self).spec_mem() == old(self).spec_mem(),
    {
        if self.offset > to {
            let commit = self.mem.len();
            let fill_end: usize = if self.offset <= usize::MAX - FILL_TAIL && self.offset
                + FILL_TAIL <= commit {
                self.offset + FILL_TAIL
            } else {
                commit
            };
            fill_range(&mut self.mem, to, fill_end, FILL_BYTE_RESET);
        }
        self.offset = to;
    }

    /// The current value of the scratch-borrow counter.
    pub fn borrows_counter(&self) -> (r: usize)
        ensures
            r == self.spec_borrows(),
    {
        self.borrows
    }

    /// Registers a scratch borrow: bumps the borrow counter. Only the
    /// scratch module calls this.
    pub(crate) fn take_borrow(&mut self)
        requires
            old(self).spec_borrows() < usize::MAX,
        ensures
            final(self).spec_borrows() == old(self).spec_borrows() + 1,
            final(self).spec_offset() == old(self).spec_offset(),
            final(self).spec_capacity() == old(self).spec_capacity(),
            final(self).spec_committed() == old(self).spec_committed(),
            final(self).spec_mem() == old(self).spec_mem(),
    {
        self.borrows = self.borrows + 1;
    }

    /// Unregisters the newest scratch borrow: decrements the counter.
    pub(crate) fn return_borrow(&mut self)
        requires
            old(self).spec_borrows() >= 1,
        ensures
            final(self).spec_borrows() == old(self).spec_borrows() - 1,
            final(self).spec_offset() == old(self).spec_offset(),
            final(self).spec_capacity() == old(self).spec_capacity(),
            final(self).spec_committed() == old(self).spec_committed(),
            final(self).spec_mem() == old(self).spec_mem(),
    {
        self.borrows = self.borrows - 1;
    }

    /// The allocation entry point: hands out the next `bytes` bytes at the
    /// requested alignment, committing further chunks when the range passes
    /// the commit boundary, and fills the fresh region (plus a short tail)
    /// with the allocation poison byte. Exhausting the reserve is a fatal
    /// error by design and is excluded by the precondition.
    pub fn alloc_raw(&mut self, bytes: usize, alignment: usize) -> (a: Allocation)
        requires
            old(self).wf(),
            alignment >= 1,
            old(self).can_alloc(bytes, alignment),
        ensures
            final(self).wf(),
            a.off == old(self).spec_alloc_start(alignment),
            a.size == bytes,
            final(self).spec_offset() == a.off + bytes,
            final(self).spec_capacity() == old(self).spec_capacity(),
            final(self).spec_borrows() == old(self).spec_borrows(),
            final(self).spec_committed() == old(self).spec_committed_after(a.off + bytes),
            final(self).spec_committed() >= a.off + bytes,
            forall|i: int|
                0 <= i < old(self).spec_offset() ==> final(self).spec_mem()[i] == old(
                    self,
                ).spec_mem()[i],
            forall|i: int|
                old(self).spec_offset() <= i < min_int(
                    a.off + bytes + FILL_TAIL,
                    final(self).spec_committed(),
                ) ==> final(self).spec_mem()[i] == FILL_BYTE_ALLOC,
    {
        proof {
            lemma_align_up(self.offset as int, alignment as int);
        }
        let beg = align_up_usize(self.offset, alignment);
        let end = beg + bytes;

        if end > self.mem.len() {
            proof {
                lemma_align_up(end as int, ALLOC_CHUNK_SIZE as int);
                lemma_align_up_le_multiple(end as int, ALLOC_CHUNK_SIZE as int,
                    self.capacity as int);
            }
            let commit_new = align_up_usize(end, ALLOC_CHUNK_SIZE);
            zero_extend(&mut self.mem, commit_new);
        }

        let commit = self.mem.len();
        let fill_end: usize = if end <= usize::MAX - FILL_TAIL && end + FILL_TAIL <= commit {
            end + FILL_TAIL
        } else {
            commit
        };
        fill_range(&mut self.mem, self.offset, fill_end, FILL_BYTE_ALLOC);
        self.offset = end;
        Allocation { off: beg, size: bytes }
    }
}

impl Allocator for Arena {
    open spec fn wf(&self) -> bool {
        Arena::wf(self)
    }

    open spec fn can_realloc(&self, block: Allocation, new_size: usize, align: usize) -> bool {
        &&& block.end() <= usize::MAX
        &&& if self.is_last(block) {
            new_size > block.size ==> self.can_alloc((new_size - block.size) as usize, align)
        } else {
            new_size > block.size && self.can_alloc(new_size, align)
        }
    }

    open spec fn realloc_rel(
        pre: Arena,
        post: Arena,
        block: Allocation,
        new_size: usize,
        align: usize,
        r: Allocation,
    ) -> bool {
        &&& post.spec_capacity() == pre.spec_capacity()
        &&& post.spec_borrows() == pre.spec_borrows()
        &&& if pre.is_last(block) {
            &&& r.off == block.off
            &&& if new_size > block.size {
                &&& post.spec_offset() == pre.spec_alloc_start(align) + (new_size - block.size)
                &&& post.spec_committed() == pre.spec_committed_after(post.spec_offset() as int)
            } else {
                &&& post.spec_offset() == pre.spec_offset() - block.size + new_size
                &&& post.spec_committed() == pre.spec_committed()
            }
        } else {
            &&& r.off == pre.spec_alloc_start(align)
            &&& post.spec_offset() == r.off + new_size
            &&& post.spec_committed() == pre.spec_committed_after(r.off + new_size)
        }
    }

    /// Grows or shrinks `block` in place when it is the most recent
    /// allocation, by just moving the bump pointer; otherwise growth
    /// allocates a fresh range (the element copy is the container's
    /// concern in this model). Shrinking any other allocation is not
    /// supported and is excluded by `can_realloc`.
    fn realloc(&mut self, block: Allocation, new_size: usize, align: usize) -> (r: Allocation) {
        proof {
            lemma_align_up(self.offset as int, align as int);
        }
        if block.off + block.size == self.offset {
            if new_size > block.size {
                self.alloc_raw(new_size - block.size, align);
            } else {
                self.offset = self.offset - block.size + new_size;
            }
            Allocation { off: block.off, size: new_size }
        } else {
            self.alloc_raw(new_size, align)
        }
    }

    /// Individual frees are meaningless in a bump allocator: a no-op.
    fn dealloc(&mut self, block: Allocation, align: usize) {
    }
}

/// An arena starts with nothing committed, and its first allocation commits
/// at least one whole chunk, covering the allocation: the commit boundary
/// jumps from zero to `align_up(end, ALLOC_CHUNK_SIZE)`, which is at least
/// `ALLOC_CHUNK_SIZE`. Together with [`Arena::alloc_raw`]'s contract this
/// pins the commit behaviour of a fresh arena.
pub proof fn lemma_first_alloc_commits_one_chunk(a: Arena, bytes: usize, align: usize)
    requires
        a.wf(),
        a.spec_committed() == 0,
        bytes >= 1,
        align >= 1,
        a.can_alloc(bytes, align),
    ensures
        a.spec_committed_after(a.spec_alloc_start(align) + bytes) >= ALLOC_CHUNK_SIZE,
        a.spec_committed_after(a.spec_alloc_start(align) + bytes) >= a.spec_alloc_start(align)
            + bytes,
{
    let end = a.spec_alloc_start(align) + bytes;
    lemma_align_up(a.spec_offset() as int, align as int);
    lemma_align_up(end, ALLOC_CHUNK_SIZE as int);
    let m = align_up(end, ALLOC_CHUNK_SIZE as int);
    if m < ALLOC_CHUNK_SIZE {
        vstd::arithmetic::div_mod::lemma_small_mod(m as nat, ALLOC_CHUNK_SIZE as nat);
    }
}

/// After `reset(to)`, the very next allocation with alignment 1 starts
/// exactly at `to`: reset rewinds the bump pointer and allocation reuses
/// the discarded range.
pub proof fn lemma_alloc_start_after_reset(a: Arena)
    ensures
        a.spec_alloc_start(1) == a.spec_offset(),
{
}

/// Growing the most recent allocation keeps its base offset and advances
/// the arena's bump pointer: the in-place fast path never relocates.
pub proof fn lemma_realloc_last_grows_in_place(
    pre: Arena,
    post: Arena,
    block: Allocation,
    new_size: usize,
    align: usize,
    r: Allocation,
)
    requires
        pre.wf(),
        align >= 1,
        pre.is_last(block),
        new_size > block.size,
        <Arena as Allocator>::realloc_rel(pre, post, block, new_size, align, r),
    ensures
        r.off == block.off,
        post.spec_offset() > pre.spec_offset(),
{
    lemma_align_up(pre.spec_offset() as int, align as int);
}

/// Growing an allocation that is not the most recent one relocates it: the
/// fresh range starts at or past the bump pointer, above the old base.
pub proof fn lemma_realloc_not_last_relocates(
    pre: Arena,
    post: Arena,
    block: Allocation,
    new_size: usize,
    align: usize,
    r: Allocation,
)
    requires
        pre.wf(),
        align >= 1,
        !pre.is_last(block),
        block.size >= 1,
        block.end() < pre.spec_offset(),
        <Arena as Allocator>::realloc_rel(pre, post, block, new_size, align, r),
    ensures
        r.off != block.off,
        r.off >= pre.spec_offset(),
        post.spec_offset() == r.off + new_size,
{
    lemma_align_up(pre.spec_offset() as int, align as int);
}

pub open spec fn min_int(a: int, b: int) -> int {
    if a <= b {
        a
    } else {
        b
    }
}

/// Overwrites `v[start..end)` with `value`.
fn fill_range(v: &mut Vec<u8>, start: usize, end: usize, value: u8)
    requires
        start <= end <= old(v)@.len(),
    ensures
        final(v)@.len() == old(v)@.len(),
        forall|i: int| start <= i < end ==> final(v)@[i] == value,
        forall|i: int| 0 <= i < start ==> final(v)@[i] == old(v)@[i],
        forall|i: int| end <= i < old(v)@.len() ==> final(v)@[i] == old(v)@[i],
{
    let mut i: usize = start;
    while i < end
        invariant
            start <= i <= end <= v@.len(),
            v@.len() == old(v)@.len(),
            forall|k: int| start <= k < i ==> v@[k] == value,
            forall|k: int| 0 <= k < start ==> v@[k] == old(v)@[k],
            forall|k: int| end <= k < old(v)@.len() ==> v@[k] == old(v)@[k],
            forall|k: int| i <= k < end ==> v@[k] == old(v)@[k],
        decreases end - i,
    {
        let e = vstd::std_specs::vec::vec_index_mut(v, i);
        *e = value;
        i = i + 1;
    }
}

/// Extends `v` with zero bytes up to `new_len`, as committing fresh pages
/// does.
fn zero_extend(v: &mut Vec<u8>, new_len: usize)
    requires
        old(v)@.len() <= new_len,
    ensures
        final(v)@.len() == new_len,
        forall|i: int| 0 <= i < old(v)@.len() ==> final(v)@[i] == old(v)@[i],
        forall|i: int| old(v)@.len() <= i < new_len ==> final(v)@[i] == 0,
{
    while v.len() < new_len
        invariant
            old(v)@.len() <= v@.len() <= new_len,
            forall|i: int| 0 <= i < old(v)@.len() ==> v@[i] == old(v)@[i],
            forall|i: int| old(v)@.len() <= i < v@.len() ==> v@[i] == 0,
        decreases new_len - v@.len(),
    {
        v.push(0);
    }
}

/// Any multiple of `a` at or above `x` is at or above `align_up(x, a)`:
/// rounding up lands on the smallest such multiple.
pub proof fn lemma_align_up_le_multiple(x: int, a: int, m: int)
    requires
        a >= 1,
        0 <= x <= m,
        m % a == 0,
    ensures
        align_up(x, a) <= m,
{
    let r = x % a;
    if r != 0 {
        assert(x - r + a <= m) by (nonlinear_arith)
            requires
                a >= 1,
                0 <= x <= m,
                m % a == 0,
                r == x % a,
                r != 0,
        ;
    }
}

} // verus!

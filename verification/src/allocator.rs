//! The allocator capability: a minimal grow/shrink interface that both the
//! arena and the process heap satisfy, letting containers stay agnostic of
//! their backing storage.
//!
//! Pointers are modelled as [`Allocation`] descriptors: an offset into the
//! allocator's address space plus a size in bytes. The trait's behaviour is pinned down per implementation by the
//! spec functions `can_realloc` and `realloc_rel`, which every implementation
//! defines openly; generic container code reasons through them.

use vstd::prelude::*;

verus! {

/// A contiguous byte range handed out by an allocator: the model's stand-in
/// for a pointer plus a length.
#[derive(Debug, Clone, Copy, PartialEq, Eq, Structural)]
pub struct Allocation {
    /// Offset of the range's first byte in the allocator's address space.
    pub off: usize,
    /// Size of the range in bytes.
    pub size: usize,
}

impl Allocation {
    /// The null allocation: what an unallocated container carries.
    pub fn empty() -> (r: Allocation)
        ensures
            r == (Allocation { off: 0, size: 0 }),
    {
        Allocation { off: 0, size: 0 }
    }

    /// One past the range's last byte.
    pub open spec fn end(self) -> int {
        self.off + self.size
    }
}

/// The allocator capability. `realloc` grows or shrinks a previously
/// returned range, in place or by relocating it; `dealloc` releases one.
///
/// Each implementation states its whole behaviour through `can_realloc`
/// (when a reallocation is allowed at all) and `realloc_rel` (how the
/// allocator's state and the returned range relate to the inputs), so a
/// caller that knows the concrete allocator can recover every detail.
pub trait Allocator: Sized {
    /// The allocator's internal invariant.
    spec fn wf(&self) -> bool;

    /// Whether `block` (a range previously returned by this allocator, or
    /// the null allocation) may be resized to `new_size` bytes.
    spec fn can_realloc(&self, block: Allocation, new_size: usize, align: usize) -> bool;

    /// The exact relation between the allocator before (`pre`) and after
    /// (`post`) a reallocation of `block` to `new_size` bytes that returned
    /// the range `r`.
    spec fn realloc_rel(
        pre: Self,
        post: Self,
        block: Allocation,
        new_size: usize,
        align: usize,
        r: Allocation,
    ) -> bool;

    /// Resizes `block` to `new_size` bytes, returning the new range. The
    /// bytes' contents are not part of this model; containers own their
    /// elements and use the returned range as bookkeeping.
    fn realloc(&mut self, block: Allocation, new_size: usize, align: usize) -> (r: Allocation)
        requires
            old(self).wf(),
            old(self).can_realloc(block, new_size, align),
            align >= 1,
            block.end() <= usize::MAX,
        ensures
            final(self).wf(),
            r.size == new_size,
            r.end() <= usize::MAX,
            Self::realloc_rel(*old(self), *final(self), block, new_size, align, r),
    ;

    /// Releases `block`. A bump allocator reclaims nothing here.
    fn dealloc(&mut self, block: Allocation, align: usize)
        requires
            old(self).wf(),
        ensures
            final(self).wf(),
    ;
}

/// The process heap as an allocator. The model hands out fresh,
/// monotonically increasing offsets whenever a range has to grow, mirroring
/// the fact that the real heap may relocate a growing allocation; shrinking
/// keeps the range where it is.
#[derive(Debug, Clone, Copy, PartialEq, Eq, Structural)]
pub struct GlobalAllocator {
    /// First offset never handed out.
    pub next: usize,
}

impl GlobalAllocator {
    pub fn new() -> (r: GlobalAllocator)
        ensures
            r == (GlobalAllocator { next: 0 }),
    {
        GlobalAllocator { next: 0 }
    }
}

impl Allocator for GlobalAllocator {
    open spec fn wf(&self) -> bool {
        true
    }

    open spec fn can_realloc(&self, block: Allocation, new_size: usize, align: usize) -> bool {
        new_size > block.size ==> self.next + align + new_size <= usize::MAX
    }

    open spec fn realloc_rel(
        pre: GlobalAllocator,
        post: GlobalAllocator,
        block: Allocation,
        new_size: usize,
        align: usize,
        r: Allocation,
    ) -> bool {
        if new_size > block.size {
            &&& r.off == align_up(pre.next as int, align as int)
            &&& post.next == r.off + new_size
        } else {
            &&& r.off == block.off
            &&& post == pre
        }
    }

    fn realloc(&mut self, block: Allocation, new_size: usize, align: usize) -> (r: Allocation) {
        if new_size > block.size {
            proof {
                lemma_align_up(self.next as int, align as int);
            }
            let off = align_up_usize(self.next, align);
            self.next = off + new_size;
            Allocation { off, size: new_size }
        } else {
            Allocation { off: block.off, size: new_size }
        }
    }

    fn dealloc(&mut self, block: Allocation, align: usize) {
    }
}

/// `x` rounded up to the next multiple of `align`.
pub open spec fn align_up(x: int, align: int) -> int
    recommends
        align >= 1,
{
    if x % align == 0 {
        x
    } else {
        x + align - x % align
    }
}

/// Executable counterpart of [`align_up`]. The modular form never overflows
/// as long as the rounded result itself fits in `usize`.
pub fn align_up_usize(x: usize, align: usize) -> (r: usize)
    requires
        align >= 1,
        align_up(x as int, align as int) <= usize::MAX,
    ensures
        r == align_up(x as int, align as int),
        r >= x,
        r % align == 0,
{
    let rem = x % align;
    proof {
        lemma_align_up(x as int, align as int);
    }
    if rem == 0 {
        x
    } else {
        x + (align - rem)
    }
}

/// Basic facts about [`align_up`]: it does not move a value down, it lands
/// on a multiple of `align`, and it moves by less than `align`.
pub proof fn lemma_align_up(x: int, align: int)
    requires
        x >= 0,
        align >= 1,
    ensures
        align_up(x, align) >= x,
        align_up(x, align) < x + align,
        align_up(x, align) % align == 0,
{
    let r = x % align;
    if r != 0 {
        assert((x + (align - r)) % align == 0) by (nonlinear_arith)
            requires
                align >= 1,
                x >= 0,
                r == x % align,
                r != 0,
        ;
    }
}

} // verus!

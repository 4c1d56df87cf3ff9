//! A vector with manual length/capacity bookkeeping whose storage lives in
//! any [`Allocator`]: like a `Vec`, but on memory borrowed from an arena.
//!
//! The container owns no allocator; every operation that may grow takes one
//! explicitly, matching the arena's ambient-allocator style. In this model
//! the elements are owned by the container while the allocator tracks the
//! backing range as an [`Allocation`] descriptor, so growth behaviour -
//! in-place extension of the arena's most recent allocation versus
//! relocation and copy - is fully visible in the contracts through
//! [`Allocator::realloc_rel`].

use vstd::prelude::*;

use crate::allocator::{Allocation, Allocator};

verus! {

/// Capacity, in elements, after a growth step: doubled from `cap_base`, but
/// at least enough for the pending length and never below a small floor.
pub open spec fn grow_cap(cap_base: int, len: int, add: int) -> int {
    let doubled = 2 * cap_base;
    let needed = len + add;
    let chosen = if doubled >= needed {
        doubled
    } else {
        needed
    };
    if chosen >= 8 {
        chosen
    } else {
        8
    }
}

/// Like a `Vec` but on borrowed memory: a growable slice with an explicit
/// capacity, fed by whatever allocator the caller passes in.
pub struct BVec<T> {
    items: Vec<T>,
    cap: usize,
    block: Allocation,
}

impl<T> View for BVec<T> {
    type V = Seq<T>;

    closed spec fn view(&self) -> Seq<T> {
        self.items@
    }
}

impl<T> BVec<T> {
    /// Total capacity in elements.
    pub closed spec fn spec_cap(&self) -> usize {
        self.cap
    }

    /// The backing range in the allocator that last grew this vector.
    pub closed spec fn spec_block(&self) -> Allocation {
        self.block
    }

    /// The container's invariant: the initialized prefix fits the capacity
    /// and the backing range covers exactly the capacity in bytes.
    pub open spec fn wf(&self) -> bool {
        &&& self@.len() <= self.spec_cap()
        &&& self.spec_block().size == self.spec_cap() * vstd::layout::size_of::<T>()
        &&& self.spec_block().end() <= usize::MAX
    }

    /// Whether the allocator admits the growth step `grow` performs for
    /// `add` more elements over a doubling base of `cap_base`.
    pub open spec fn spec_can_grow<A: Allocator>(
        &self,
        alloc: A,
        cap_base: int,
        add: int,
    ) -> bool {
        let new_cap = grow_cap(cap_base, self@.len() as int, add);
        let new_size = new_cap * vstd::layout::size_of::<T>();
        &&& new_cap <= usize::MAX
        &&& new_size <= usize::MAX
        &&& alloc.can_realloc(
            self.spec_block(),
            new_size as usize,
            vstd::layout::align_of::<T>() as usize,
        )
    }

    /// [`Self::spec_can_grow`] as it applies to a vector fresh from
    /// [`Self::empty`]: no contents yet and the null backing range.
    pub open spec fn spec_can_grow_empty<A: Allocator>(alloc: A, add: int) -> bool {
        let new_cap = grow_cap(0, 0, add);
        let new_size = new_cap * vstd::layout::size_of::<T>();
        &&& new_cap <= usize::MAX
        &&& new_size <= usize::MAX
        &&& alloc.can_realloc(
            Allocation { off: 0, size: 0 },
            new_size as usize,
            vstd::layout::align_of::<T>() as usize,
        )
    }

    /// The relation a growth step leaves behind: same contents, the new
    /// capacity, and a backing range obtained from the allocator by
    /// reallocation - so a caller that knows the allocator knows whether
    /// the vector stayed in place.
    pub open spec fn spec_grown<A: Allocator>(
        pre_v: BVec<T>,
        pre_a: A,
        post_v: BVec<T>,
        post_a: A,
        new_cap: int,
    ) -> bool {
        &&& post_v@ == pre_v@
        &&& post_v.spec_cap() == new_cap
        &&& A::realloc_rel(
            pre_a,
            post_a,
            pre_v.spec_block(),
            (new_cap * vstd::layout::size_of::<T>()) as usize,
            vstd::layout::align_of::<T>() as usize,
            post_v.spec_block(),
        )
    }

    /// The label on the tin says "empty". You open it. It's empty.
    pub fn empty() -> (r: BVec<T>)
        ensures
            r.wf(),
            r@ == Seq::<T>::empty(),
            r.spec_cap() == 0,
            r.spec_block() == (Allocation { off: 0, size: 0 }),
    {
        BVec { items: Vec::new(), cap: 0, block: Allocation { off: 0, size: 0 } }
    }

    /// Takes over a standard `Vec`'s elements, full to capacity.
    pub fn from_std_vec(vec: Vec<T>) -> (r: BVec<T>)
        requires
            vec@.len() * vstd::layout::size_of::<T>() <= usize::MAX,
        ensures
            r.wf(),
            r@ == vec@,
            r.spec_cap() == vec@.len(),
    {
        let cap = vec.len();
        let size = cap * core::mem::size_of::<T>();
        BVec { items: vec, cap, block: Allocation { off: 0, size } }
    }

    /// Hands the elements back as a standard `Vec`.
    pub fn into_std_vec(self) -> (r: Vec<T>)
        ensures
            r@ == self@,
    {
        self.items
    }

    /// Consume the vector, keeping the initialized elements alive past it:
    /// the model's counterpart of leaking the slice with the arena's
    /// lifetime.
    pub fn leak(self) -> (r: Vec<T>)
        ensures
            r@ == self@,
    {
        self.items
    }

    /// Number of initialized elements.
    pub fn len(&self) -> (r: usize)
        ensures
            r == self@.len(),
    {
        self.items.len()
    }

    /// Total number of elements the buffer can hold.
    pub fn capacity(&self) -> (r: usize)
        ensures
            r == self.spec_cap(),
    {
        self.cap
    }

    /// True if there are zero elements.
    pub fn is_empty(&self) -> (r: bool)
        ensures
            r == (self@.len() == 0),
    {
        self.items.len() == 0
    }

    /// True if the buffer is full.
    pub fn is_full(&self) -> (r: bool)
        ensures
            r == (self@.len() == self.spec_cap()),
    {
        self.items.len() == self.cap
    }

    /// The backing range's base offset: the model's address of the buffer.
    pub fn as_ptr(&self) -> (r: usize)
        ensures
            r == self.spec_block().off,
    {
        self.block.off
    }

    /// Same as [`Self::as_ptr`]; kept for call-site parity with the
    /// mutable-pointer accessor of a pointer-based vector.
    pub fn as_mut_ptr(&mut self) -> (r: usize)
        ensures
            *final(self) == *old(self),
            r == old(self).spec_block().off,
    {
        self.block.off
    }

    /// View as a shared slice.
    pub fn as_slice(&self) -> (r: &[T])
        ensures
            r@ == self@,
    {
        self.items.as_slice()
    }

    /// View as a mutable slice: writes through it change the elements but
    /// never the length, so the capacity bookkeeping stays intact.
    pub fn as_mut_slice(&mut self) -> (r: &mut [T])
        requires
            old(self).wf(),
        ensures
            r@ == old(self)@,
            final(self)@ == final(r)@,
            final(self).spec_cap() == old(self).spec_cap(),
            final(self).spec_block() == old(self).spec_block(),
            final(r)@.len() == old(self)@.len() ==> final(self).wf(),
    {
        self.items.as_mut_slice()
    }

    /// Shortens the vector, dropping the elements beyond `len`; a `len` at
    /// or past the current length is a no-op.
    pub fn truncate(&mut self, len: usize)
        requires
            old(self).wf(),
        ensures
            final(self).wf(),
            len <= old(self)@.len() ==> final(self)@ == old(self)@.subrange(0, len as int),
            len > old(self)@.len() ==> final(self)@ == old(self)@,
            final(self).spec_cap() == old(self).spec_cap(),
            final(self).spec_block() == old(self).spec_block(),
    {
        self.items.truncate(len);
    }

    /// Drops all elements and resets length to zero. The allocation is
    /// kept.
    pub fn clear(&mut self)
        requires
            old(self).wf(),
        ensures
            final(self).wf(),
            final(self)@ == Seq::<T>::empty(),
            final(self).spec_cap() == old(self).spec_cap(),
            final(self).spec_block() == old(self).spec_block(),
    {
        self.items.clear();
    }

    /// The growth step: asks the allocator to resize the backing range to
    /// `grow_cap` elements and records the new range and capacity. Cold
    /// path of the reserve family.
    fn grow<A: Allocator>(&mut self, alloc: &mut A, cap_base: usize, add: usize)
        requires
            old(self).wf(),
            old(alloc).wf(),
            add >= 1,
            cap_base <= old(self).spec_cap(),
            old(self).spec_can_grow(*old(alloc), cap_base as int, add as int),
        ensures
            final(self).wf(),
            final(alloc).wf(),
            BVec::spec_grown(
                *old(self),
                *old(alloc),
                *final(self),
                *final(alloc),
                grow_cap(cap_base as int, old(self)@.len() as int, add as int),
            ),
    {
        proof {
            broadcast use vstd::layout::align_nonzero;

        }
        let len = self.items.len();
        let doubled = cap_base * 2;
        let needed = len + add;
        let chosen = if doubled >= needed {
            doubled
        } else {
            needed
        };
        let new_cap = if chosen >= 8 {
            chosen
        } else {
            8
        };
        let new_size = new_cap * core::mem::size_of::<T>();
        let new_block = alloc.realloc(self.block, new_size, core::mem::align_of::<T>());
        self.block = new_block;
        self.cap = new_cap;
    }

    /// Ensures space for at least `additional` more elements, with
    /// amortized (doubling) growth.
    pub fn reserve<A: Allocator>(&mut self, alloc: &mut A, additional: usize)
        requires
            old(self).wf(),
            old(alloc).wf(),
            additional > old(self).spec_cap() - old(self)@.len() ==> old(self).spec_can_grow(
                *old(alloc),
                old(self).spec_cap() as int,
                additional as int,
            ),
        ensures
            final(self).wf(),
            final(alloc).wf(),
            final(self)@ == old(self)@,
            old(self)@.len() + additional <= final(self).spec_cap(),
            additional <= old(self).spec_cap() - old(self)@.len() ==> *final(self) == *old(self)
                && *final(alloc) == *old(alloc),
            additional > old(self).spec_cap() - old(self)@.len() ==> BVec::spec_grown(
                *old(self),
                *old(alloc),
                *final(self),
                *final(alloc),
                grow_cap(old(self).spec_cap() as int, old(self)@.len() as int, additional as int),
            ),
    {
        if additional > self.cap - self.items.len() {
            self.grow(alloc, self.cap, additional);
        }
    }

    /// Ensures space for at least `additional` more elements, without the
    /// doubling of [`Self::reserve`] (a small floor still applies).
    pub fn reserve_exact<A: Allocator>(&mut self, alloc: &mut A, additional: usize)
        requires
            old(self).wf(),
            old(alloc).wf(),
            additional > old(self).spec_cap() - old(self)@.len() ==> old(self).spec_can_grow(
                *old(alloc),
                0,
                additional as int,
            ),
        ensures
            final(self).wf(),
            final(alloc).wf(),
            final(self)@ == old(self)@,
            old(self)@.len() + additional <= final(self).spec_cap(),
            additional <= old(self).spec_cap() - old(self)@.len() ==> *final(self) == *old(self)
                && *final(alloc) == *old(alloc),
            additional > old(self).spec_cap() - old(self)@.len() ==> BVec::spec_grown(
                *old(self),
                *old(alloc),
                *final(self),
                *final(alloc),
                grow_cap(0, old(self)@.len() as int, additional as int),
            ),
    {
        if additional > self.cap - self.items.len() {
            self.grow(alloc, 0, additional);
        }
    }

    /// Space for one more element, growing amortized when full.
    fn reserve_one<A: Allocator>(&mut self, alloc: &mut A)
        requires
            old(self).wf(),
            old(alloc).wf(),
            old(self)@.len() == old(self).spec_cap() ==> old(self).spec_can_grow(
                *old(alloc),
                old(self).spec_cap() as int,
                1,
            ),
        ensures
            final(self).wf(),
            final(alloc).wf(),
            final(self)@ == old(self)@,
            old(self)@.len() < final(self).spec_cap(),
            old(self)@.len() < old(self).spec_cap() ==> *final(self) == *old(self) && *final(alloc)
                == *old(alloc),
            old(self)@.len() == old(self).spec_cap() ==> BVec::spec_grown(
                *old(self),
                *old(alloc),
                *final(self),
                *final(alloc),
                grow_cap(old(self).spec_cap() as int, old(self)@.len() as int, 1),
            ),
    {
        if self.items.len() == self.cap {
            self.grow(alloc, self.cap, 1);
        }
    }

    /// Appends one element.
    pub fn push<A: Allocator>(&mut self, alloc: &mut A, value: T)
        requires
            old(self).wf(),
            old(alloc).wf(),
            old(self)@.len() == old(self).spec_cap() ==> old(self).spec_can_grow(
                *old(alloc),
                old(self).spec_cap() as int,
                1,
            ),
        ensures
            final(self).wf(),
            final(alloc).wf(),
            final(self)@ == old(self)@.push(value),
            old(self)@.len() < old(self).spec_cap() ==> final(self).spec_cap() == old(
                self,
            ).spec_cap() && final(self).spec_block() == old(self).spec_block() && *final(alloc)
                == *old(alloc),
            old(self)@.len() == old(self).spec_cap() ==> {
                let new_cap = grow_cap(old(self).spec_cap() as int, old(self)@.len() as int, 1);
                &&& final(self).spec_cap() == new_cap
                &&& A::realloc_rel(
                    *old(alloc),
                    *final(alloc),
                    old(self).spec_block(),
                    (new_cap * vstd::layout::size_of::<T>()) as usize,
                    vstd::layout::align_of::<T>() as usize,
                    final(self).spec_block(),
                )
            },
    {
        self.reserve_one(alloc);
        self.items.push(value);
    }

    /// Appends every element of `other`, reserving the exact count up
    /// front.
    pub fn extend<A: Allocator>(&mut self, alloc: &mut A, other: Vec<T>)
        requires
            old(self).wf(),
            old(alloc).wf(),
            old(self)@.len() + other@.len() <= usize::MAX,
            other@.len() > old(self).spec_cap() - old(self)@.len() ==> old(self).spec_can_grow(
                *old(alloc),
                old(self).spec_cap() as int,
                other@.len() as int,
            ),
        ensures
            final(self).wf(),
            final(alloc).wf(),
            final(self)@ == old(self)@ + other@,
    {
        let mut incoming = other;
        self.reserve(alloc, incoming.len());
        self.items.append(&mut incoming);
    }

    /// The bad path of [`Self::extend`], for sources whose length cannot be
    /// trusted up front: reserves the reported count, then pushes element
    /// by element.
    pub fn extend_sloppy<A: Allocator>(&mut self, alloc: &mut A, other: Vec<T>)
        requires
            old(self).wf(),
            old(alloc).wf(),
            old(self)@.len() + other@.len() <= usize::MAX,
            other@.len() > old(self).spec_cap() - old(self)@.len() ==> old(self).spec_can_grow(
                *old(alloc),
                old(self).spec_cap() as int,
                other@.len() as int,
            ),
        ensures
            final(self).wf(),
            final(alloc).wf(),
            final(self)@ == old(self)@ + other@,
    {
        let mut incoming = other;
        self.reserve(alloc, incoming.len());
        let ghost all = incoming@;
        let mut taken: usize = 0;
        while incoming.len() > 0
            invariant
                self.wf(),
                taken + incoming@.len() == all.len(),
                incoming@ == all.subrange(taken as int, all.len() as int),
                self@ == old(self)@ + all.subrange(0, taken as int),
                self@.len() + incoming@.len() <= self.spec_cap(),
            decreases incoming@.len(),
        {
            let x = incoming.remove(0);
            self.items.push(x);
            taken = taken + 1;
            proof {
                assert(self@ == old(self)@ + all.subrange(0, taken as int)) by {
                    assert(all.subrange(0, taken as int) == all.subrange(0, taken - 1).push(
                        all[taken - 1],
                    ));
                }
                assert(incoming@ == all.subrange(taken as int, all.len() as int));
            }
        }
        proof {
            assert(self@ == old(self)@ + all) by {
                assert(all.subrange(0, all.len() as int) == all);
            }
        }
    }
}

impl<T: Copy> BVec<T> {
    /// Copies a borrowed slice into a fresh vector, full to capacity.
    pub fn from_slice(other: &[T]) -> (r: BVec<T>)
        requires
            other@.len() * vstd::layout::size_of::<T>() <= usize::MAX,
        ensures
            r.wf(),
            r@ == other@,
            r.spec_cap() == other@.len(),
    {
        let items = vstd::slice::slice_to_vec(other);
        let cap = items.len();
        let size = cap * core::mem::size_of::<T>();
        BVec { items, cap, block: Allocation { off: 0, size } }
    }

    /// Pushes `total_copies` copies of `value`: the vector's `memset`.
    pub fn push_repeat<A: Allocator>(&mut self, alloc: &mut A, value: T, total_copies: usize)
        requires
            old(self).wf(),
            old(alloc).wf(),
            old(self)@.len() + total_copies <= usize::MAX,
            total_copies > old(self).spec_cap() - old(self)@.len() ==> old(self).spec_can_grow(
                *old(alloc),
                old(self).spec_cap() as int,
                total_copies as int,
            ),
        ensures
            final(self).wf(),
            final(alloc).wf(),
            final(self)@ == old(self)@ + Seq::new(total_copies as nat, |i: int| value),
            final(self).spec_cap() >= old(self)@.len() + total_copies,
            total_copies <= old(self).spec_cap() - old(self)@.len() ==> final(self).spec_cap()
                == old(self).spec_cap() && final(self).spec_block() == old(self).spec_block()
                && *final(alloc) == *old(alloc),
    {
        if total_copies == 0 {
            proof {
                assert(old(self)@ + Seq::new(0, |i: int| value) =~= old(self)@);
            }
            return ;
        }
        self.reserve(alloc, total_copies);
        let ghost cap_g = self.spec_cap();
        let ghost block_g = self.spec_block();
        let mut pushed: usize = 0;
        while pushed < total_copies
            invariant
                self.wf(),
                pushed <= total_copies,
                self@ == old(self)@ + Seq::new(pushed as nat, |i: int| value),
                self@.len() + (total_copies - pushed) <= self.spec_cap(),
                self.spec_cap() == cap_g,
                self.spec_block() == block_g,
            decreases total_copies - pushed,
        {
            self.items.push(value);
            pushed = pushed + 1;
            proof {
                assert(self@ =~= old(self)@ + Seq::new(pushed as nat, |i: int| value));
            }
        }
    }

    /// Appends all elements from a slice: a copying append.
    pub fn extend_from_slice<A: Allocator>(&mut self, alloc: &mut A, other: &[T])
        requires
            old(self).wf(),
            old(alloc).wf(),
            old(self)@.len() + other@.len() <= usize::MAX,
            other@.len() > old(self).spec_cap() - old(self)@.len() ==> old(self).spec_can_grow(
                *old(alloc),
                old(self).spec_cap() as int,
                other@.len() as int,
            ),
        ensures
            final(self).wf(),
            final(alloc).wf(),
            final(self)@ == old(self)@ + other@,
            final(self).spec_cap() >= old(self)@.len() + other@.len(),
            other@.len() <= old(self).spec_cap() - old(self)@.len() ==> final(self).spec_cap()
                == old(self).spec_cap() && final(self).spec_block() == old(self).spec_block()
                && *final(alloc) == *old(alloc),
    {
        self.reserve(alloc, other.len());
        let ghost cap_g = self.spec_cap();
        let ghost block_g = self.spec_block();
        let mut i: usize = 0;
        while i < other.len()
            invariant
                self.wf(),
                i <= other@.len(),
                self@ == old(self)@ + other@.subrange(0, i as int),
                self@.len() + (other@.len() - i) <= self.spec_cap(),
                self.spec_cap() == cap_g,
                self.spec_block() == block_g,
            decreases other@.len() - i,
        {
            let x = *vstd::slice::slice_index_get(other, i);
            self.items.push(x);
            i = i + 1;
            proof {
                assert(self@ =~= old(self)@ + other@.subrange(0, i as int));
            }
        }
        proof {
            assert(other@.subrange(0, other@.len() as int) =~= other@);
        }
    }

    /// [`Self::extend_from_slice`] but for a subslice of the buffer itself,
    /// with the bounds clamped to the current length.
    pub fn extend_from_within<A: Allocator>(&mut self, alloc: &mut A, start: usize, end: usize)
        requires
            old(self).wf(),
            old(alloc).wf(),
            ({
                let e = if end <= old(self)@.len() {
                    end as int
                } else {
                    old(self)@.len() as int
                };
                let b = if start as int <= e {
                    start as int
                } else {
                    e
                };
                e - b > old(self).spec_cap() - old(self)@.len() ==> old(self).spec_can_grow(
                    *old(alloc),
                    old(self).spec_cap() as int,
                    e - b,
                )
            }),
        ensures
            final(self).wf(),
            final(alloc).wf(),
            ({
                let e = if end <= old(self)@.len() {
                    end as int
                } else {
                    old(self)@.len() as int
                };
                let b = if start as int <= e {
                    start as int
                } else {
                    e
                };
                final(self)@ == old(self)@ + old(self)@.subrange(b, e)
            }),
            ({
                let e = if end <= old(self)@.len() {
                    end as int
                } else {
                    old(self)@.len() as int
                };
                let b = if start as int <= e {
                    start as int
                } else {
                    e
                };
                e - b <= old(self).spec_cap() - old(self)@.len() ==> final(self).spec_cap()
                    == old(self).spec_cap() && final(self).spec_block() == old(self).spec_block()
                    && *final(alloc) == *old(alloc)
            }),
    {
        let len = self.items.len();
        let e = if end <= len {
            end
        } else {
            len
        };
        let b = if start <= e {
            start
        } else {
            e
        };
        let add = e - b;
        self.reserve(alloc, add);
        let ghost cap_g = self.spec_cap();
        let ghost block_g = self.spec_block();
        let mut i: usize = b;
        while i < e
            invariant
                self.wf(),
                b <= i <= e <= old(self)@.len(),
                self@ == old(self)@ + old(self)@.subrange(b as int, i as int),
                self@.len() + (e - i) <= self.spec_cap(),
                self.spec_cap() == cap_g,
                self.spec_block() == block_g,
            decreases e - i,
        {
            let x = self.items[i];
            self.items.push(x);
            i = i + 1;
            proof {
                assert(self@ =~= old(self)@ + old(self)@.subrange(b as int, i as int));
            }
        }
    }

    /// Replaces the elements in `[start, end)` (clamped to the current
    /// length) with the contents of `src`: an efficient splice for `Copy`
    /// payloads, shifting the tail and growing only when the replacement is
    /// larger than what it removes.
    pub fn replace_range<A: Allocator>(
        &mut self,
        alloc: &mut A,
        start: usize,
        end: usize,
        src: &[T],
    )
        requires
            old(self).wf(),
            old(alloc).wf(),
            old(self)@.len() + src@.len() <= usize::MAX,
            ({
                let off = if start <= old(self)@.len() {
                    start as int
                } else {
                    old(self)@.len() as int
                };
                let avail = old(self)@.len() - off;
                let want = if end as int >= off {
                    end - off
                } else {
                    0
                };
                let del = if want <= avail {
                    want
                } else {
                    avail
                };
                src@.len() > del ==> (src@.len() - del > old(self).spec_cap() - old(
                    self,
                )@.len() ==> old(self).spec_can_grow(
                    *old(alloc),
                    old(self).spec_cap() as int,
                    src@.len() - del,
                ))
            }),
        ensures
            final(self).wf(),
            final(alloc).wf(),
            ({
                let off = if start <= old(self)@.len() {
                    start as int
                } else {
                    old(self)@.len() as int
                };
                let avail = old(self)@.len() - off;
                let want = if end as int >= off {
                    end - off
                } else {
                    0
                };
                let del = if want <= avail {
                    want
                } else {
                    avail
                };
                final(self)@ == old(self)@.subrange(0, off) + src@ + old(self)@.subrange(
                    off + del,
                    old(self)@.len() as int,
                )
            }),
    {
        let dst_len = self.items.len();
        let src_len = src.len();
        let off = if start <= dst_len {
            start
        } else {
            dst_len
        };
        let want = if end >= off {
            end - off
        } else {
            0
        };
        let avail = dst_len - off;
        let del_len = if want <= avail {
            want
        } else {
            avail
        };

        if del_len == 0 && src_len == 0 {
            proof {
                let off_s = off as int;
                assert(old(self)@.subrange(0, off_s) + src@ + old(self)@.subrange(
                    off_s,
                    old(self)@.len() as int,
                ) =~= old(self)@);
            }
            return ;
        }

        if src_len > del_len {
            self.reserve(alloc, src_len - del_len);
        }
        let ghost cap_after = self.spec_cap();
        let ghost block_after = self.spec_block();

        let mut tail = self.items.split_off(off + del_len);
        self.items.truncate(off);
        proof {
            assert(tail@ =~= old(self)@.subrange(off + del_len, old(self)@.len() as int));
            assert(self.items@ =~= old(self)@.subrange(0, off as int));
            assert(self.items@ =~= old(self)@.subrange(0, off as int) + src@.subrange(0, 0));
        }
        let mut i: usize = 0;
        while i < src_len
            invariant
                i <= src@.len(),
                src_len == src@.len(),
                off <= old(self)@.len(),
                off + del_len <= old(self)@.len(),
                tail@ == old(self)@.subrange(off + del_len, old(self)@.len() as int),
                self.items@ == old(self)@.subrange(0, off as int) + src@.subrange(0, i as int),
                self.spec_cap() == cap_after,
                self.spec_block() == block_after,
                block_after.size == cap_after * vstd::layout::size_of::<T>(),
                block_after.end() <= usize::MAX,
                old(self)@.len() - del_len + src@.len() <= cap_after,
            decreases src_len - i,
        {
            let x = *vstd::slice::slice_index_get(src, i);
            self.items.push(x);
            i = i + 1;
            proof {
                assert(self.items@ =~= old(self)@.subrange(0, off as int) + src@.subrange(
                    0,
                    i as int,
                ));
            }
        }
        self.items.append(&mut tail);
        proof {
            assert(src@.subrange(0, src@.len() as int) =~= src@);
            assert(self.items@ =~= old(self)@.subrange(0, off as int) + src@ + old(
                self,
            )@.subrange(off + del_len, old(self)@.len() as int));
        }
    }
}

/// Growing a vector whose storage is the arena's most recent allocation
/// extends it in place: the base offset is unchanged while the arena's bump
/// offset advances. The in-place fast path of the grow step, stated over
/// the relation that the reserve family's contracts expose.
pub proof fn lemma_grow_on_arena_in_place<T>(
    pre_v: BVec<T>,
    pre_a: crate::arena::Arena,
    post_v: BVec<T>,
    post_a: crate::arena::Arena,
    new_cap: int,
)
    requires
        pre_v.wf(),
        pre_a.wf(),
        BVec::spec_grown(pre_v, pre_a, post_v, post_a, new_cap),
        pre_a.is_last(pre_v.spec_block()),
        new_cap * vstd::layout::size_of::<T>() <= usize::MAX,
        new_cap * vstd::layout::size_of::<T>() > pre_v.spec_block().size,
        vstd::layout::align_of::<T>() <= usize::MAX,
        vstd::layout::align_of::<T>() >= 1,
    ensures
        post_v.spec_block().off == pre_v.spec_block().off,
        post_a.spec_offset() > pre_a.spec_offset(),
{
    crate::allocator::lemma_align_up(
        pre_a.spec_offset() as int,
        vstd::layout::align_of::<T>() as usize as int,
    );
}

/// Growing a vector whose storage is *not* the arena's most recent
/// allocation relocates it: the fresh range starts at or past the bump
/// offset, so the base offset changes and the elements are copied over.
pub proof fn lemma_grow_on_arena_relocates<T>(
    pre_v: BVec<T>,
    pre_a: crate::arena::Arena,
    post_v: BVec<T>,
    post_a: crate::arena::Arena,
    new_cap: int,
)
    requires
        pre_v.wf(),
        pre_a.wf(),
        BVec::spec_grown(pre_v, pre_a, post_v, post_a, new_cap),
        !pre_a.is_last(pre_v.spec_block()),
        pre_v.spec_block().size >= 1,
        pre_v.spec_block().end() < pre_a.spec_offset(),
        vstd::layout::align_of::<T>() <= usize::MAX,
        vstd::layout::align_of::<T>() >= 1,
    ensures
        post_v.spec_block().off != pre_v.spec_block().off,
        post_v.spec_block().off >= pre_a.spec_offset(),
        post_v@ == pre_v@,
{
    crate::allocator::lemma_align_up(
        pre_a.spec_offset() as int,
        vstd::layout::align_of::<T>() as usize as int,
    );
}

} // verus!

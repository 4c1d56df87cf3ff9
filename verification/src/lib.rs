//! Memory-management core of a terminal text editor, with the small pure
//! modules that sit beside it: a family of arena (bump) allocators backed by
//! committed byte storage, growable container types (`BVec`, `BString`) that
//! live inside any allocator, a scratch-arena borrow protocol with a debug
//! borrow tracker, a glob matcher, and assorted geometry and string helpers.
//!
//! Raw-pointer storage is modelled throughout as plain values: an arena
//! owns its committed bytes and hands out `Allocation` descriptors (offset
//! plus size) in place of pointers, while the containers own their elements
//! and carry the descriptor of the backing region. All observable
//! bookkeeping - offsets, capacities, commit boundaries, poison bytes,
//! borrow counters - behaves as a pointer-based bump allocator prescribes.

pub mod allocator;
pub mod apperr;
pub mod arena;
pub mod bstring;
pub mod bvec;
pub mod documents;
pub mod glob;
pub mod scratch;
pub mod unicode;
pub mod helpers;
pub mod json;

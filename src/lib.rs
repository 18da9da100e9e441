//! Generational handles and slot storage.
//!
//! A [`HandleAllocator`] issues [`Handle`]s (an index paired with a generation)
//! and recycles freed indices under a fresh generation. A [`GenerationalVec`]
//! keys values by handle and refuses reads through a handle whose generation
//! does not match the slot, so a recycled index is never mistaken for its
//! earlier occupant.
//!
//! The two are independent: several stores may share one allocator's handles,
//! and keeping a store in step with the allocator (removing a value when its
//! handle is freed) is the caller's part.
pub mod allocator;
pub mod error;
pub mod handle;
pub mod storage;

pub use allocator::{Allocation, AllocatorView, HandleAllocator};
pub use error::{GenerationError, HandleNotFoundError};
pub use handle::Handle;
pub use storage::{GenerationalVec, Slot, SlotVec};

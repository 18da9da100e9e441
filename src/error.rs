use vstd::prelude::*;

use crate::handle::Handle;

verus! {

/// A write was refused because the slot already holds a value written under a
/// newer generation than the handle's.
#[derive(Debug)]
pub struct GenerationError {
    pub handle: Handle,
}

/// No entry exists for the handle. Reserved for a failing form of lookup; the
/// present lookups report absence as `None` instead.
#[derive(Debug)]
pub struct HandleNotFoundError {
    pub handle: Handle,
}

} // verus!

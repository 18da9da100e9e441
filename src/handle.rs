use vstd::prelude::*;

verus! {

/// An identity token for a logical slot: an index into a store, and the
/// generation under which that index was issued.
///
/// Two handles are equal exactly when both fields are equal.
#[derive(Default, Debug, PartialEq, Eq, Structural, Copy, Clone, Hash)]
pub struct Handle {
    pub index: usize,
    pub generation: usize,
}

impl Handle {
    /// The slot index this handle refers to.
    pub fn index(&self) -> (r: &usize)
        ensures
            *r == self.index,
    {
        &self.index
    }

    /// The generation under which this handle was issued.
    pub fn generation(&self) -> (r: &usize)
        ensures
            *r == self.generation,
    {
        &self.generation
    }
}

} // verus!

use vstd::prelude::*;

use crate::handle::Handle;

verus! {

/// The allocation record kept for one index: whether it is currently handed
/// out, and the generation under which it was last issued.
pub struct Allocation {
    allocated: bool,
    generation: usize,
}

impl View for Allocation {
    type V = (bool, usize);

    closed spec fn view(&self) -> (bool, usize) {
        (self.allocated, self.generation)
    }
}

/// The abstract state of a [`HandleAllocator`]: one `(allocated, generation)`
/// record per index ever used, and the stack of freed indices (top last).
pub struct AllocatorView {
    pub records: Seq<(bool, usize)>,
    pub free: Seq<usize>,
}

impl AllocatorView {
    /// Every index fits in `usize`, every index on the free stack names an
    /// existing, unallocated record, and no index is on the stack twice.
    pub open spec fn wf(self) -> bool {
        &&& self.records.len() <= usize::MAX
        &&& forall|k: int|
            0 <= k < self.free.len() ==> {
                &&& (#[trigger] self.free[k]) < self.records.len()
                &&& !self.records[self.free[k] as int].0
            }
        &&& forall|j: int, k: int|
            0 <= j < k < self.free.len() ==> #[trigger] self.free[j] != #[trigger] self.free[k]
    }

    /// The handle's index has a record, irrespective of its state.
    pub open spec fn handle_exists(self, h: Handle) -> bool {
        h.index < self.records.len()
    }

    /// The handle's index has a record that is allocated under the handle's
    /// generation.
    pub open spec fn is_allocated(self, h: Handle) -> bool {
        &&& self.handle_exists(h)
        &&& self.records[h.index as int].0
        &&& self.records[h.index as int].1 == h.generation
    }

    /// The next allocation stays within `usize`: the generation it bumps, or
    /// the index it appends.
    pub open spec fn can_allocate(self) -> bool {
        if self.free.len() > 0 {
            self.records[self.free.last() as int].1 < usize::MAX
        } else {
            self.records.len() < usize::MAX
        }
    }

    /// The state after an allocation, and the handle it returns: the top of
    /// the free stack is reissued one generation later, or else a new record
    /// is appended at generation 0.
    pub open spec fn allocate(self) -> (AllocatorView, Handle) {
        if self.free.len() > 0 {
            let i = self.free.last();
            let g = (self.records[i as int].1 + 1) as usize;
            (
                AllocatorView { records: self.records.update(i as int, (true, g)), free: self.free.drop_last() },
                Handle { index: i, generation: g },
            )
        } else {
            (
                AllocatorView { records: self.records.push((true, 0usize)), free: self.free },
                Handle { index: self.records.len() as usize, generation: 0 },
            )
        }
    }

    /// The allocated handles among the first `n` records, by ascending index.
    pub open spec fn allocated_below(self, n: nat) -> Seq<Handle>
        recommends
            n <= self.records.len(),
        decreases n,
    {
        if n == 0 {
            Seq::empty()
        } else {
            let i = (n - 1) as nat;
            let below = self.allocated_below(i);
            if self.records[i as int].0 {
                below.push(Handle { index: i as usize, generation: self.records[i as int].1 })
            } else {
                below
            }
        }
    }

    /// Every allocated handle, by ascending index.
    pub open spec fn allocated_handles(self) -> Seq<Handle> {
        self.allocated_below(self.records.len())
    }

    /// The state after freeing a handle: nothing changes unless the handle is
    /// allocated; then its record is marked free (generation kept) and its
    /// index is pushed on the free stack.
    pub open spec fn deallocate(self, h: Handle) -> AllocatorView {
        if self.is_allocated(h) {
            AllocatorView {
                records: self.records.update(h.index as int, (false, h.generation)),
                free: self.free.push(h.index),
            }
        } else {
            self
        }
    }
}

/// The top of the free stack, if any, names an unallocated record.
proof fn lemma_free_top(a: AllocatorView)
    requires
        a.wf(),
    ensures
        a.free.len() > 0 ==> a.free.last() < a.records.len() && !a.records[a.free.last() as int].0,
{
    if a.free.len() > 0 {
        assert(a.free[a.free.len() - 1] == a.free.last());
    }
}

/// Allocating preserves well-formedness.
pub proof fn lemma_allocate_wf(a: AllocatorView)
    requires
        a.wf(),
        a.can_allocate(),
    ensures
        a.allocate().0.wf(),
{
    lemma_free_top(a);
}

/// Deallocating preserves well-formedness.
pub proof fn lemma_deallocate_wf(a: AllocatorView, h: Handle)
    requires
        a.wf(),
    ensures
        a.deallocate(h).wf(),
{
}

/// A handle is allocated as soon as `allocate` has returned it.
pub proof fn lemma_allocate_then_allocated(a: AllocatorView)
    requires
        a.wf(),
        a.can_allocate(),
    ensures
        a.allocate().0.is_allocated(a.allocate().1),
{
    lemma_free_top(a);
}

/// A handle is not allocated once `deallocate` has been called with it.
pub proof fn lemma_deallocate_then_not_allocated(a: AllocatorView, h: Handle)
    ensures
        !a.deallocate(h).is_allocated(h),
{
}

/// Two allocated handles with the same index are the same handle: no index is
/// allocated under two generations at once.
pub proof fn lemma_allocated_unique(a: AllocatorView, h1: Handle, h2: Handle)
    requires
        a.is_allocated(h1),
        a.is_allocated(h2),
        h1.index == h2.index,
    ensures
        h1 == h2,
{
}

/// The handle `allocate` returns shares its index with no handle that was
/// allocated before, and if its index was used before, its generation exceeds
/// every generation issued there. Handles already allocated stay allocated.
pub proof fn lemma_allocate_fresh(a: AllocatorView, g: Handle)
    requires
        a.wf(),
        a.can_allocate(),
    ensures
        !a.is_allocated(a.allocate().1),
        a.is_allocated(g) ==> g.index != a.allocate().1.index && a.allocate().0.is_allocated(g),
        a.handle_exists(a.allocate().1) ==> a.allocate().1.generation > a.records[a.allocate().1.index as int].1,
{
    lemma_free_top(a);
}

/// Generations never decrease: every record keeps or raises its generation
/// under `allocate` and `deallocate`, and no record disappears.
pub proof fn lemma_generations_never_decrease(a: AllocatorView, h: Handle, i: int)
    requires
        a.wf(),
        a.can_allocate(),
        0 <= i < a.records.len(),
    ensures
        i < a.allocate().0.records.len(),
        a.allocate().0.records[i].1 >= a.records[i].1,
        i < a.deallocate(h).records.len(),
        a.deallocate(h).records[i].1 == a.records[i].1,
{
    lemma_free_top(a);
}

/// A handle that was issued and is no longer allocated (its generation is at
/// most the one recorded for its index) never becomes allocated again, under
/// either operation.
pub proof fn lemma_retired_stays_invalid(a: AllocatorView, h: Handle, d: Handle)
    requires
        a.wf(),
        a.can_allocate(),
        a.handle_exists(h),
        h.generation <= a.records[h.index as int].1,
        !a.is_allocated(h),
    ensures
        !a.allocate().0.is_allocated(h),
        h.generation <= a.allocate().0.records[h.index as int].1,
        !a.deallocate(d).is_allocated(h),
        h.generation <= a.deallocate(d).records[h.index as int].1,
{
    lemma_free_top(a);
}

/// Reuse order: allocate `h0`, allocate `h1`, free `h0`, allocate `h2`; then
/// `h2` reuses `h0`'s index one generation later, `h0` is no longer
/// allocated, and `h1` and `h2` are.
pub proof fn lemma_reuse_sequence(a: AllocatorView)
    requires
        a.wf(),
        a.can_allocate(),
        a.allocate().0.can_allocate(),
        a.allocate().1.generation < usize::MAX,
    ensures
        ({
            let (a1, h0) = a.allocate();
            let (a2, h1) = a1.allocate();
            let a3 = a2.deallocate(h0);
            let (a4, h2) = a3.allocate();
            &&& h2.index == h0.index
            &&& h2.generation == h0.generation + 1
            &&& !a4.is_allocated(h0)
            &&& a4.is_allocated(h1)
            &&& a4.is_allocated(h2)
        }),
{
    let (a1, h0) = a.allocate();
    lemma_allocate_wf(a);
    lemma_allocate_fresh(a, h0);
    let (a2, h1) = a1.allocate();
    lemma_allocate_wf(a1);
    lemma_allocate_fresh(a1, h0);
    let a3 = a2.deallocate(h0);
    lemma_deallocate_wf(a2, h0);
    assert(a3.free.last() == h0.index);
}

/// The list of allocated handles holds exactly the allocated handles, in
/// strictly ascending order of index.
pub proof fn lemma_allocated_handles(a: AllocatorView)
    requires
        a.wf(),
    ensures
        forall|k: int|
            0 <= k < a.allocated_handles().len() ==> a.is_allocated(#[trigger] a.allocated_handles()[k]),
        forall|h: Handle| a.is_allocated(h) ==> a.allocated_handles().contains(h),
        forall|j: int, k: int|
            0 <= j < k < a.allocated_handles().len() ==> (#[trigger] a.allocated_handles()[j]).index
                < (#[trigger] a.allocated_handles()[k]).index,
{
    lemma_allocated_below(a, a.records.len());
}

proof fn lemma_allocated_below(a: AllocatorView, n: nat)
    requires
        a.wf(),
        n <= a.records.len(),
    ensures
        forall|k: int|
            0 <= k < a.allocated_below(n).len() ==> {
                &&& a.is_allocated(#[trigger] a.allocated_below(n)[k])
                &&& a.allocated_below(n)[k].index < n
            },
        forall|h: Handle| a.is_allocated(h) && h.index < n ==> a.allocated_below(n).contains(h),
        forall|j: int, k: int|
            0 <= j < k < a.allocated_below(n).len() ==> (#[trigger] a.allocated_below(n)[j]).index
                < (#[trigger] a.allocated_below(n)[k]).index,
    decreases n,
{
    if n > 0 {
        let i = (n - 1) as nat;
        lemma_allocated_below(a, i);
        let below = a.allocated_below(i);
        assert forall|h: Handle| a.is_allocated(h) && h.index < n implies a.allocated_below(n).contains(h) by {
            if h.index < i {
                let k = choose|k: int| 0 <= k < below.len() && below[k] == h;
                assert(a.allocated_below(n)[k] == h);
            } else {
                assert(a.allocated_below(n).last() == h);
            }
        }
    }
}

/// Issues and recycles handles. Freed indices are reused last in, first out,
/// each time under a generation one greater than before.
pub struct HandleAllocator {
    allocations: Vec<Allocation>,
    available_handles: Vec<usize>,
}

impl View for HandleAllocator {
    type V = AllocatorView;

    closed spec fn view(&self) -> AllocatorView {
        AllocatorView {
            records: self.allocations@.map_values(|a: Allocation| a@),
            free: self.available_handles@,
        }
    }
}

impl Default for HandleAllocator {
    /// An allocator that has issued nothing.
    fn default() -> (r: Self)
        ensures
            r@.records == Seq::<(bool, usize)>::empty(),
            r@.free == Seq::<usize>::empty(),
            r@.wf(),
    {
        HandleAllocator { allocations: Vec::new(), available_handles: Vec::new() }
    }
}

impl HandleAllocator {
    /// An allocator that has issued nothing.
    pub fn new() -> (r: Self)
        ensures
            r@.records == Seq::<(bool, usize)>::empty(),
            r@.free == Seq::<usize>::empty(),
            r@.wf(),
    {
        Self::default()
    }

    /// Issues a handle: the most recently freed index under its next
    /// generation, or a new index at generation 0.
    pub fn allocate(&mut self) -> (h: Handle)
        requires
            old(self)@.wf(),
            old(self)@.can_allocate(),
        ensures
            (final(self)@, h) == old(self)@.allocate(),
            final(self)@.wf(),
    {
        match self.available_handles.pop() {
            Some(index) => {
                self.allocations[index].generation += 1;
                self.allocations[index].allocated = true;
                assert(self@.records =~= old(self)@.allocate().0.records);
                Handle { index, generation: self.allocations[index].generation }
            },
            None => {
                self.allocations.push(Allocation { allocated: true, generation: 0 });
                assert(self@.records =~= old(self)@.allocate().0.records);
                Handle { index: self.allocations.len() - 1, generation: 0 }
            },
        }
    }

    /// Frees an allocated handle's index for reuse. A handle that is not
    /// currently allocated (unknown index, stale generation, already freed)
    /// leaves the allocator unchanged.
    pub fn deallocate(&mut self, handle: &Handle)
        requires
            old(self)@.wf(),
        ensures
            final(self)@ == old(self)@.deallocate(*handle),
            final(self)@.wf(),
    {
        if !self.is_allocated(handle) {
            return;
        }
        self.allocations[handle.index].allocated = false;
        self.available_handles.push(handle.index);
        assert(self@.records =~= old(self)@.deallocate(*handle).records);
        assert(self@.free =~= old(self)@.deallocate(*handle).free);
    }

    /// Whether the handle's index is allocated under the handle's generation.
    pub fn is_allocated(&self, handle: &Handle) -> (r: bool)
        ensures
            r == self@.is_allocated(*handle),
    {
        self.handle_exists(handle)
            && self.allocations[handle.index].generation == handle.generation
            && self.allocations[handle.index].allocated
    }

    /// Whether the handle's index has ever been issued, whatever its
    /// generation or current state.
    pub fn handle_exists(&self, handle: &Handle) -> (r: bool)
        ensures
            r == self@.handle_exists(*handle),
    {
        handle.index < self.allocations.len()
    }

    /// Every currently allocated handle, in ascending order of index.
    pub fn allocated_handles(&self) -> (r: Vec<Handle>)
        requires
            self@.wf(),
        ensures
            r@ == self@.allocated_handles(),
            forall|k: int| 0 <= k < r@.len() ==> self@.is_allocated(#[trigger] r@[k]),
            forall|h: Handle| self@.is_allocated(h) ==> r@.contains(h),
            forall|j: int, k: int|
                0 <= j < k < r@.len() ==> (#[trigger] r@[j]).index < (#[trigger] r@[k]).index,
    {
        proof {
            lemma_allocated_handles(self@);
        }
        let mut handles: Vec<Handle> = Vec::new();
        let mut index: usize = 0;
        while index < self.allocations.len()
            invariant
                index <= self.allocations@.len(),
                handles@ == self@.allocated_below(index as nat),
            decreases self.allocations@.len() - index,
        {
            assert(self@.records[index as int] == self.allocations@[index as int]@);
            let allocation = &self.allocations[index];
            if allocation.allocated {
                handles.push(Handle { index, generation: allocation.generation });
            }
            index = index + 1;
        }
        handles
    }
}

} // verus!

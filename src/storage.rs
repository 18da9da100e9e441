use vstd::prelude::*;

use crate::error::GenerationError;
use crate::handle::Handle;

verus! {

/// A stored value tagged with the generation it was written under.
pub struct Slot<T> {
    value: T,
    generation: usize,
}

impl<T> View for Slot<T> {
    type V = (T, usize);

    closed spec fn view(&self) -> (T, usize) {
        (self.value, self.generation)
    }
}

impl<T> Slot<T> {
    /// A slot holding `value` under `generation`.
    pub fn new(value: T, generation: usize) -> (r: Self)
        ensures
            r@ == (value, generation),
    {
        Slot { value, generation }
    }

    /// The generation the value was written under.
    pub fn generation(&self) -> (r: &usize)
        ensures
            *r == self@.1,
    {
        &self.generation
    }
}

impl<T> core::ops::Deref for Slot<T> {
    type Target = T;

    fn deref(&self) -> (r: &T)
        ensures
            *r == self@.0,
    {
        &self.value
    }
}

impl<T> core::ops::DerefMut for Slot<T> {
    fn deref_mut(&mut self) -> (r: &mut T)
        ensures
            *r == old(self)@.0,
            final(self)@ == (*final(r), old(self)@.1),
    {
        &mut self.value
    }
}

/// The backing array of a [`GenerationalVec`]: one optional slot per index.
pub type SlotVec<T> = Vec<Option<Slot<T>>>;

/// The abstract value of an optional slot: its `(value, generation)` pair.
pub open spec fn slot_view<T>(s: Option<Slot<T>>) -> Option<(T, usize)> {
    match s {
        Some(slot) => Some(slot@),
        None => None,
    }
}

/// The generation stored at index `i`, counting a missing or empty slot as 0.
pub open spec fn stored_generation<T>(s: Seq<Option<(T, usize)>>, i: int) -> usize {
    if 0 <= i < s.len() && s[i] is Some {
        (s[i]->0).1
    } else {
        0
    }
}

/// `s` extended with empty slots to at least `n` entries.
pub open spec fn padded<T>(s: Seq<Option<(T, usize)>>, n: nat) -> Seq<Option<(T, usize)>> {
    if s.len() >= n {
        s
    } else {
        s + Seq::new((n - s.len()) as nat, |k: int| None)
    }
}

/// Whether a write through `h` is refused: the slot holds a newer generation.
pub open spec fn write_refused<T>(s: Seq<Option<(T, usize)>>, h: Handle) -> bool {
    stored_generation(s, h.index as int) > h.generation
}

/// The slots after an accepted write of `v` through `h`.
pub open spec fn written<T>(s: Seq<Option<(T, usize)>>, h: Handle, v: T) -> Seq<Option<(T, usize)>> {
    padded(s, (h.index + 1) as nat).update(h.index as int, Some((v, h.generation)))
}

/// The slots after clearing the slot at `h.index`, whatever its generation.
pub open spec fn cleared<T>(s: Seq<Option<(T, usize)>>, h: Handle) -> Seq<Option<(T, usize)>> {
    if h.index < s.len() {
        s.update(h.index as int, None)
    } else {
        s
    }
}

/// The value readable through `h`: present only when the slot at `h.index`
/// holds a value written under exactly `h.generation`.
pub open spec fn lookup<T>(s: Seq<Option<(T, usize)>>, h: Handle) -> Option<T> {
    if h.index < s.len() && s[h.index as int] is Some && (s[h.index as int]->0).1 == h.generation {
        Some((s[h.index as int]->0).0)
    } else {
        None
    }
}

/// A value written through a handle reads back through the same handle,
/// provided the write was accepted.
pub proof fn lemma_write_then_read<T>(s: Seq<Option<(T, usize)>>, h: Handle, v: T)
    requires
        !write_refused(s, h),
    ensures
        lookup(written(s, h, v), h) == Some(v),
{
}

/// Nothing reads back through a handle once its slot has been cleared.
pub proof fn lemma_clear_then_read<T>(s: Seq<Option<(T, usize)>>, h: Handle)
    ensures
        lookup(cleared(s, h), h) is None,
{
}

/// A write through a handle for index `i` is accepted exactly when its
/// generation is at least the one stored at `i` (0 for an empty slot).
pub proof fn lemma_generation_guard<T>(s: Seq<Option<(T, usize)>>, h: Handle)
    ensures
        !write_refused(s, h) <==> h.generation >= stored_generation(s, h.index as int),
        write_refused(s, h) <==> h.generation < stored_generation(s, h.index as int),
{
}

/// A handle whose generation differs from the one stored at its index reads
/// nothing.
pub proof fn lemma_stale_read<T>(s: Seq<Option<(T, usize)>>, h: Handle)
    requires
        h.index < s.len(),
        s[h.index as int] is Some,
        (s[h.index as int]->0).1 != h.generation,
    ensures
        lookup(s, h) is None,
{
}

/// Writing through one index leaves what every other index reads unchanged.
pub proof fn lemma_write_keeps_others<T>(s: Seq<Option<(T, usize)>>, h: Handle, v: T, o: Handle)
    requires
        o.index != h.index,
    ensures
        lookup(written(s, h, v), o) == lookup(s, o),
{
}

/// Clearing one index leaves what every other index reads unchanged.
pub proof fn lemma_clear_keeps_others<T>(s: Seq<Option<(T, usize)>>, h: Handle, o: Handle)
    requires
        o.index != h.index,
    ensures
        lookup(cleared(s, h), o) == lookup(s, o),
{
}

/// A growable array of values keyed by [`Handle`], where each read and write
/// is checked against the generation stored with the value.
pub struct GenerationalVec<T> {
    elements: SlotVec<T>,
}

impl<T> View for GenerationalVec<T> {
    type V = Seq<Option<(T, usize)>>;

    closed spec fn view(&self) -> Seq<Option<(T, usize)>> {
        self.elements@.map_values(|s: Option<Slot<T>>| slot_view(s))
    }
}

impl<T> GenerationalVec<T> {
    /// A store over the given slots.
    pub fn new(elements: SlotVec<T>) -> (r: Self)
        ensures
            r@ == elements@.map_values(|s: Option<Slot<T>>| slot_view(s)),
    {
        GenerationalVec { elements }
    }

    /// Writes `value` through `handle`, growing the array with empty slots as
    /// needed. Refused, with nothing changed, when the slot holds a value
    /// written under a newer generation than the handle's.
    pub fn insert(&mut self, handle: Handle, value: T) -> (r: Result<(), GenerationError>)
        ensures
            r is Err <==> write_refused(old(self)@, handle),
            r matches Err(e) ==> e.handle == handle && final(self)@ == old(self)@,
            r is Ok ==> final(self)@ == written(old(self)@, handle, value),
    {
        while self.elements.len() <= handle.index
            invariant
                self@ == padded(old(self)@, self@.len()),
                old(self)@.len() <= self@.len(),
                self@.len() > old(self)@.len() ==> self@.len() <= handle.index + 1,
            decreases handle.index + 1 - self.elements@.len(),
        {
            let ghost before = self@;
            self.elements.push(None);
            assert(self@ =~= before.push(None));
            assert(self@ =~= padded(old(self)@, self@.len()));
        }
        let previous_generation = match &self.elements[handle.index] {
            Some(entry) => entry.generation,
            None => 0,
        };
        assert(self@[handle.index as int] == slot_view(self.elements@[handle.index as int]));
        assert(previous_generation == stored_generation(old(self)@, handle.index as int));
        if previous_generation > handle.generation {
            assert(self@ =~= old(self)@);
            return Err(GenerationError { handle });
        }
        self.elements.set(handle.index, Some(Slot { value, generation: handle.generation }));
        assert(self@ =~= written(old(self)@, handle, value));
        Ok(())
    }

    /// Empties the slot at `handle.index` if that index is in range. The
    /// generation is not compared: a stale handle clears whatever the slot
    /// holds, even a value written under a newer generation.
    pub fn remove(&mut self, handle: Handle)
        ensures
            final(self)@ == cleared(old(self)@, handle),
    {
        if handle.index < self.elements.len() {
            self.elements.set(handle.index, None);
            assert(self@ =~= cleared(old(self)@, handle));
        }
    }

    /// The value at `handle.index`, if that slot holds one written under
    /// exactly `handle.generation`.
    pub fn get(&self, handle: Handle) -> (r: Option<&T>)
        ensures
            match r {
                Some(v) => lookup(self@, handle) == Some(*v),
                None => lookup(self@, handle) is None,
            },
    {
        if handle.index >= self.elements.len() {
            return None;
        }
        assert(self@[handle.index as int] == slot_view(self.elements@[handle.index as int]));
        match &self.elements[handle.index] {
            Some(entry) => {
                if entry.generation == handle.generation {
                    Some(&entry.value)
                } else {
                    None
                }
            },
            None => None,
        }
    }

    /// Mutable access to the value at `handle.index`, under the same check
    /// as [`GenerationalVec::get`]. A write through the result keeps the
    /// slot's generation.
    pub fn get_mut(&mut self, handle: Handle) -> (r: Option<&mut T>)
        ensures
            match r {
                Some(v) => {
                    &&& lookup(old(self)@, handle) == Some(*v)
                    &&& final(self)@ == old(self)@.update(handle.index as int, Some((*final(v), handle.generation)))
                },
                None => {
                    &&& lookup(old(self)@, handle) is None
                    &&& final(self)@ == old(self)@
                },
            },
    {
        if handle.index >= self.elements.len() {
            return None;
        }
        assert(self@[handle.index as int] == slot_view(self.elements@[handle.index as int]));
        match &mut self.elements[handle.index] {
            Some(entry) => {
                if entry.generation == handle.generation {
                    Some(&mut entry.value)
                } else {
                    None
                }
            },
            None => None,
        }
    }
}

impl<T> core::ops::Deref for GenerationalVec<T> {
    type Target = SlotVec<T>;

    fn deref(&self) -> (r: &SlotVec<T>)
        ensures
            r@.map_values(|s: Option<Slot<T>>| slot_view(s)) == self@,
    {
        &self.elements
    }
}

impl<T> core::ops::DerefMut for GenerationalVec<T> {
    fn deref_mut(&mut self) -> (r: &mut SlotVec<T>)
        ensures
            r@.map_values(|s: Option<Slot<T>>| slot_view(s)) == old(self)@,
            final(self)@ == final(r)@.map_values(|s: Option<Slot<T>>| slot_view(s)),
    {
        &mut self.elements
    }
}

} // verus!

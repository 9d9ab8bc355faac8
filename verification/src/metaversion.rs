//! Two-counter reload protocol for shared batches.
//!
//! Every shared batch carries a `memory` counter and a `batch` counter. An
//! observer holding a cached memory mapping is current iff its remembered
//! `memory` equals the batch's; a parsed record-batch view is current iff its
//! remembered `batch` equals the batch's. A resize bumps both counters, an
//! in-place shift that keeps the mapping bumps only `batch`.

use vstd::prelude::*;

verus! {

/// What a mutation did to a batch's buffers: whether the backing memory was
/// reallocated, and whether data moved in place.
#[derive(Debug, Clone, Copy, PartialEq, Eq, Structural)]
pub struct BufferChange {
    pub resized: bool,
    pub shifted: bool,
}

impl BufferChange {
    pub fn new(resized: bool, shifted: bool) -> (r: BufferChange)
        ensures
            r.resized == resized,
            r.shifted == shifted,
    {
        BufferChange { resized, shifted }
    }

    pub fn resized(&self) -> (r: bool)
        ensures
            r == self.resized,
    {
        self.resized
    }

    pub fn shifted(&self) -> (r: bool)
        ensures
            r == self.shifted,
    {
        self.shifted
    }
}

/// The `(memory, batch)` counter pair gating reload decisions.
#[derive(Debug, Clone, Copy, PartialEq, Eq, Structural)]
pub struct Metaversion {
    pub memory: u32,
    pub batch: u32,
}

/// Pointwise order on counter pairs: each counter is at most the other's.
pub open spec fn metaversion_le(a: Metaversion, b: Metaversion) -> bool {
    a.memory <= b.memory && a.batch <= b.batch
}

impl Metaversion {
    /// The counter pair after a full increment of both counters.
    pub open spec fn spec_incremented(self) -> Metaversion {
        Metaversion { memory: (self.memory + 1) as u32, batch: (self.batch + 1) as u32 }
    }

    /// The counter pair after an increment of the batch counter alone.
    pub open spec fn spec_batch_incremented(self) -> Metaversion {
        Metaversion { memory: self.memory, batch: (self.batch + 1) as u32 }
    }

    pub fn new(memory: u32, batch: u32) -> (r: Metaversion)
        ensures
            r.memory == memory,
            r.batch == batch,
    {
        Metaversion { memory, batch }
    }

    /// Adopt another observer's counters wholesale.
    pub fn update(&mut self, new_state: &Metaversion)
        ensures
            *final(self) == *new_state,
    {
        self.memory = new_state.memory;
        self.batch = new_state.batch;
    }

    pub fn memory(&self) -> (r: u32)
        ensures
            r == self.memory,
    {
        self.memory
    }

    pub fn batch(&self) -> (r: u32)
        ensures
            r == self.batch,
    {
        self.batch
    }

    /// A resize: both counters advance.
    pub fn increment(&mut self)
        requires
            old(self).memory < u32::MAX,
            old(self).batch < u32::MAX,
        ensures
            *final(self) == old(self).spec_incremented(),
    {
        self.memory = self.memory + 1;
        self.batch = self.batch + 1;
    }

    /// An in-place shift: only the batch counter advances.
    pub fn increment_batch(&mut self)
        requires
            old(self).batch < u32::MAX,
        ensures
            *final(self) == old(self).spec_batch_incremented(),
    {
        self.batch = self.batch + 1;
    }

    /// Advance the counters according to what a mutation reported:
    /// `memory` grows exactly when the batch was resized, and `batch` grows
    /// exactly when it was resized or shifted.
    pub fn increment_with(&mut self, change: &BufferChange)
        requires
            old(self).memory < u32::MAX,
            old(self).batch < u32::MAX,
        ensures
            final(self).memory > old(self).memory <==> change.resized,
            final(self).batch > old(self).batch <==> change.resized || change.shifted,
            change.resized ==> *final(self) == old(self).spec_incremented(),
            !change.resized && change.shifted ==> *final(self) == old(
                self,
            ).spec_batch_incremented(),
            !change.resized && !change.shifted ==> *final(self) == *old(self),
    {
        if change.resized() {
            self.increment();
        } else if change.shifted() {
            self.increment_batch();
        }
    }
}

impl Default for Metaversion {
    /// A fresh batch starts with both counters at zero.
    fn default() -> (r: Metaversion)
        ensures
            r.memory == 0,
            r.batch == 0,
    {
        Metaversion { memory: 0, batch: 0 }
    }
}

/// Equality of counter pairs is reflexive.
pub proof fn lemma_metaversion_eq_reflexive(a: Metaversion)
    ensures
        a == a,
{
}

/// Equality of counter pairs is symmetric.
pub proof fn lemma_metaversion_eq_symmetric(a: Metaversion, b: Metaversion)
    requires
        a == b,
    ensures
        b == a,
{
}

/// Equality of counter pairs is transitive.
pub proof fn lemma_metaversion_eq_transitive(a: Metaversion, b: Metaversion, c: Metaversion)
    requires
        a == b,
        b == c,
    ensures
        a == c,
{
}

/// Incrementing one or both of an equal pair keeps the pair comparable by the
/// pointwise order: the untouched copy is below the incremented one, and two
/// equally incremented copies stay equal.
pub proof fn lemma_increment_keeps_comparable(a: Metaversion, b: Metaversion)
    requires
        a == b,
        a.memory < u32::MAX,
        a.batch < u32::MAX,
    ensures
        metaversion_le(b, a.spec_incremented()),
        metaversion_le(b, a.spec_batch_incremented()),
        a.spec_incremented() == b.spec_incremented(),
        a.spec_batch_incremented() == b.spec_batch_incremented(),
        metaversion_le(a.spec_batch_incremented(), b.spec_incremented()),
{
}

/// Batch-by-group version bookkeeping for one observer of the state pools.
pub struct Metaversioning {
    pub group_ids: Vec<usize>,
    pub agent_batch_metaversions: Vec<Metaversion>,
    pub outbox_batch_metaversions: Vec<Metaversion>,
}

} // verus!

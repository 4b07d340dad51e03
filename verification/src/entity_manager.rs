//! Allocation of unique entity identifiers.

use vstd::prelude::*;

verus! {

/// An opaque entity identifier. Identifiers are allocated starting at 1 and
/// are never reused once handed out.
#[derive(Clone, Copy, PartialEq, Eq, Hash, Debug, Structural)]
pub struct Entity(pub u64);

/// Allocates entity identifiers and tracks the live entities in creation
/// order. Entities are never reclaimed.
pub struct EntityManager {
    /// Every live entity, in creation order.
    pub entities: Vec<Entity>,
    /// The identifier the next call to `create` will hand out.
    pub next_id: u64,
}

impl EntityManager {
    /// The manager always holds exactly the entities 1, 2, ..., n in order,
    /// and the next identifier continues that run.
    pub open spec fn wf(&self) -> bool {
        &&& self.next_id == self.entities@.len() + 1
        &&& forall|i: int| 0 <= i < self.entities@.len() ==> (#[trigger] self.entities@[i]).0 == i + 1
    }

    pub fn new() -> (r: EntityManager)
        ensures
            r.wf(),
            r.entities@ == Seq::<Entity>::empty(),
    {
        EntityManager { entities: Vec::new(), next_id: 1 }
    }

    /// Allocates the next unused identifier and registers it as live.
    pub fn create(&mut self) -> (r: Entity)
        requires
            old(self).wf(),
            old(self).entities@.len() + 1 < u64::MAX,
        ensures
            final(self).wf(),
            r.0 == old(self).next_id,
            final(self).entities@ == old(self).entities@.push(r),
    {
        let id = self.next_id;
        self.next_id = id + 1;
        let e = Entity(id);
        self.entities.push(e);
        e
    }

    /// How many entities have been created.
    pub fn count(&self) -> (r: usize)
        ensures
            r == self.entities@.len(),
    {
        self.entities.len()
    }
}

} // verus!

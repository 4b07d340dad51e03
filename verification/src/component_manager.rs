//! A generic sparse set associating entities with one component each.
//!
//! The store keeps a dense list of component values, a parallel list of the
//! owning entities, and a hash map from entity identifier to dense index.
//! Removal swaps with the last slot to keep the dense list compact, so dense
//! indices are never stable across mutations; callers use entity-keyed
//! lookups only.

use vstd::prelude::*;
use std::collections::HashMap;
use crate::components::DefaultComponent;
use crate::entity_manager::Entity;

verus! {

broadcast use vstd::std_specs::hash::group_hash_axioms;

/// Associates entities with one component of type `T` each.
pub struct ComponentManager<T> {
    components: Vec<T>,
    entities: Vec<Entity>,
    lookup: HashMap<u64, usize>,
}

impl<T> ComponentManager<T> {
    /// The dense component values, in slot order.
    pub closed spec fn components_seq(&self) -> Seq<T> {
        self.components@
    }

    /// The owning entities, parallel to `components_seq`.
    pub closed spec fn entities_seq(&self) -> Seq<Entity> {
        self.entities@
    }

    /// The mapping from entity identifier to dense slot index.
    pub closed spec fn lookup_map(&self) -> Map<u64, usize> {
        self.lookup@
    }

    /// Sparse-set consistency: the three parts agree. `lookup[e] == i` iff
    /// `entities[i] == e`, and the dense lists have equal length, so
    /// `components[lookup[e]]` is `e`'s component.
    pub open spec fn wf(&self) -> bool {
        &&& self.components_seq().len() == self.entities_seq().len()
        &&& forall|i: int|
            0 <= i < self.entities_seq().len() ==> {
                &&& self.lookup_map().contains_key((#[trigger] self.entities_seq()[i]).0)
                &&& self.lookup_map()[self.entities_seq()[i].0] == i
            }
        &&& forall|id: u64|
            #[trigger] self.lookup_map().contains_key(id) ==> {
                &&& self.lookup_map()[id] < self.entities_seq().len()
                &&& self.entities_seq()[self.lookup_map()[id] as int].0 == id
            }
    }
}

impl<T> View for ComponentManager<T> {
    type V = Map<u64, T>;

    /// The store seen as a map from entity identifier to component value.
    open spec fn view(&self) -> Map<u64, T> {
        Map::new(
            |id: u64| self.lookup_map().contains_key(id),
            |id: u64| self.components_seq()[self.lookup_map()[id] as int],
        )
    }
}

impl<T: DefaultComponent> ComponentManager<T> {
    pub fn new() -> (r: ComponentManager<T>)
        ensures
            r.wf(),
            r@ == Map::<u64, T>::empty(),
            r.entities_seq() == Seq::<Entity>::empty(),
            r.components_seq() == Seq::<T>::empty(),
    {
        let r = ComponentManager {
            components: Vec::new(),
            entities: Vec::<Entity>::new(),
            lookup: HashMap::new(),
        };
        proof {
            assert(r@ =~= Map::<u64, T>::empty());
        }
        r
    }

    /// Whether the entity carries a component of this kind.
    pub fn contains(&self, entity: &Entity) -> (r: bool)
        ensures
            r == self@.contains_key(entity.0),
    {
        self.lookup.contains_key(&entity.0)
    }

    /// How many entities carry a component of this kind.
    pub fn len(&self) -> (r: usize)
        ensures
            r == self.components_seq().len(),
    {
        self.components.len()
    }

    /// The dense slot the entity's component sits in, or `None` iff the
    /// entity carries no component. Slot numbers are invalidated by any
    /// removal; callers must not hold one across mutations.
    pub fn lookup_index(&self, entity: &Entity) -> (r: Option<usize>)
        ensures
            match r {
                Some(i) => self.lookup_map().contains_key(entity.0) && i
                    == self.lookup_map()[entity.0],
                None => !self.lookup_map().contains_key(entity.0),
            },
    {
        match self.lookup.get(&entity.0) {
            Some(i) => Some(*i),
            None => None,
        }
    }

    /// The entity owning dense slot `i`. Slot numbering is internal and not
    /// stable across removals; it is exposed for enumeration only.
    pub fn entity_at(&self, i: usize) -> (r: Entity)
        requires
            i < self.entities_seq().len(),
        ensures
            r == self.entities_seq()[i as int],
    {
        self.entities[i]
    }

    /// Associates a component with the given initial value to the entity,
    /// and hands back a reference to it. The entity must not already carry a
    /// component of this kind.
    pub fn create_with(&mut self, entity: &Entity, init_v: T) -> (r: &mut T)
        requires
            old(self).wf(),
            !old(self)@.contains_key(entity.0),
        ensures
            final(self).wf(),
            *r == init_v,
            final(self).entities_seq() == old(self).entities_seq().push(*entity),
            final(self).components_seq() =~= old(self).components_seq().push(*final(r)),
            final(self).lookup_map() == old(self).lookup_map().insert(
                entity.0,
                old(self).entities_seq().len() as usize,
            ),
            final(self)@ =~= old(self)@.insert(entity.0, *final(r)),
            final(self)@.contains_key(entity.0),
    {
        let entity_index = self.components.len();
        self.components.push(init_v);
        self.entities.push(*entity);
        self.lookup.insert(entity.0, entity_index);
        proof {
            assert(self.entities@.last() == *entity);
            assert forall|i: int| 0 <= i < self.entities@.len() implies {
                &&& self.lookup@.contains_key((#[trigger] self.entities@[i]).0)
                &&& self.lookup@[self.entities@[i].0] == i
            } by {
                if i < self.entities@.len() - 1 {
                    assert(old(self).entities@[i] == self.entities@[i]);
                    assert(self.entities@[i].0 != entity.0);
                }
            }
        }
        &mut self.components[entity_index]
    }

    /// Associates a freshly initialized component to the entity and hands
    /// back a reference to it. The entity must not already carry a component
    /// of this kind.
    pub fn create(&mut self, entity: &Entity) -> (r: &mut T)
        requires
            old(self).wf(),
            !old(self)@.contains_key(entity.0),
        ensures
            final(self).wf(),
            (*r).is_init(),
            final(self).entities_seq() == old(self).entities_seq().push(*entity),
            final(self).components_seq() =~= old(self).components_seq().push(*final(r)),
            final(self).lookup_map() == old(self).lookup_map().insert(
                entity.0,
                old(self).entities_seq().len() as usize,
            ),
            final(self)@ =~= old(self)@.insert(entity.0, *final(r)),
            final(self)@.contains_key(entity.0),
    {
        let v = T::init_value();
        self.create_with(entity, v)
    }

    /// The entity's component, or `None` iff the entity does not carry one.
    pub fn get(&self, entity: &Entity) -> (r: Option<&T>)
        requires
            self.wf(),
        ensures
            match r {
                Some(v) => self@.contains_key(entity.0) && *v == self@[entity.0],
                None => !self@.contains_key(entity.0),
            },
    {
        match self.lookup.get(&entity.0) {
            Some(i) => {
                proof {
                    assert(self.lookup_map().contains_key(entity.0));
                    assert(*i == self.lookup_map()[entity.0]);
                }
                Some(&self.components[*i])
            },
            None => None,
        }
    }

    /// A mutable reference to the entity's component, or `None` iff the
    /// entity does not carry one.
    pub fn get_mut(&mut self, entity: &Entity) -> (r: Option<&mut T>)
        requires
            old(self).wf(),
        ensures
            match r {
                Some(p) => {
                    &&& old(self)@.contains_key(entity.0)
                    &&& *p == old(self)@[entity.0]
                    &&& final(self).wf()
                    &&& final(self).entities_seq() == old(self).entities_seq()
                    &&& final(self).lookup_map() == old(self).lookup_map()
                    &&& final(self).components_seq() =~= old(self).components_seq().update(
                        old(self).lookup_map()[entity.0] as int,
                        *final(p),
                    )
                    &&& final(self)@ =~= old(self)@.insert(entity.0, *final(p))
                },
                None => {
                    &&& !old(self)@.contains_key(entity.0)
                    &&& *final(self) == *old(self)
                },
            },
    {
        let idx_found: Option<usize> = match self.lookup.get(&entity.0) {
            Some(i) => Some(*i),
            None => None,
        };
        match idx_found {
            Some(i) => {
                proof {
                    assert(old(self).lookup_map().contains_key(entity.0));
                    assert(i == old(self).lookup_map()[entity.0]);
                }
                Some(&mut self.components[i])
            },
            None => None,
        }
    }

    /// Removes the entity's component if it carries one; a no-op otherwise.
    /// Removal swaps the last dense slot into the freed one, so previously
    /// observed slot numbers become invalid.
    pub fn remove(&mut self, entity: &Entity)
        requires
            old(self).wf(),
        ensures
            final(self).wf(),
            final(self)@ == old(self)@.remove(entity.0),
            !final(self)@.contains_key(entity.0),
            old(self)@.contains_key(entity.0) ==> {
                &&& final(self).entities_seq() == old(self).entities_seq().update(
                    old(self).lookup_map()[entity.0] as int,
                    old(self).entities_seq().last(),
                ).drop_last()
                &&& final(self).components_seq() == old(self).components_seq().update(
                    old(self).lookup_map()[entity.0] as int,
                    old(self).components_seq().last(),
                ).drop_last()
            },
            !old(self)@.contains_key(entity.0) ==> *final(self) == *old(self),
    {
        let idx_found: Option<usize> = match self.lookup.get(&entity.0) {
            Some(i) => Some(*i),
            None => None,
        };
        match idx_found {
            Some(entity_index) => {
                proof {
                    assert(old(self).lookup_map().contains_key(entity.0));
                    assert(entity_index == old(self).lookup_map()[entity.0]);
                    assert(entity_index < old(self).entities_seq().len());
                }
                self.components.swap_remove(entity_index);
                self.entities.swap_remove(entity_index);
                self.lookup.remove(&entity.0);
                if entity_index < self.entities.len() {
                    let moved = self.entities[entity_index];
                    proof {
                        assert(moved == old(self).entities_seq().last());
                        assert(moved.0 != entity.0);
                    }
                    self.lookup.insert(moved.0, entity_index);
                }
                proof {
                    let old_idx = old(self).lookup_map()[entity.0] as int;
                    let old_len = old(self).entities_seq().len();
                    assert forall|i: int| 0 <= i < self.entities@.len() implies {
                        &&& self.lookup@.contains_key((#[trigger] self.entities@[i]).0)
                        &&& self.lookup@[self.entities@[i].0] == i
                    } by {
                        if i != old_idx {
                            assert(self.entities@[i] == old(self).entities_seq()[i]);
                            assert(old(self).entities_seq()[i].0 != entity.0);
                        } else {
                            assert(self.entities@[i] == old(self).entities_seq().last());
                        }
                    }
                    assert forall|id: u64| #[trigger] self.lookup@.contains_key(id) implies {
                        &&& self.lookup@[id] < self.entities@.len()
                        &&& self.entities@[self.lookup@[id] as int].0 == id
                    } by {
                        if old_idx < self.entities@.len() && id == old(
                            self,
                        ).entities_seq().last().0 {
                        } else {
                            assert(old(self).lookup_map().contains_key(id));
                            let j = old(self).lookup_map()[id] as int;
                            assert(old(self).entities_seq()[j].0 == id);
                            assert(j != old_idx);
                            assert(j != old_len - 1);
                            assert(self.entities@[j] == old(self).entities_seq()[j]);
                        }
                    }
                    assert(self@ =~= old(self)@.remove(entity.0));
                }
            },
            None => {
                proof {
                    assert(self@ =~= old(self)@.remove(entity.0));
                }
            },
        }
    }
}

/// Sparse-set consistency, stated for any coherent store: the dense lists
/// and the lookup map have matching sizes, each live entity's lookup slot
/// holds its component, and each lookup entry points back at its entity.
pub proof fn lemma_sparse_set_consistency<T>(m: &ComponentManager<T>)
    requires
        m.wf(),
    ensures
        m.components_seq().len() == m.entities_seq().len(),
        m.lookup_map().dom().len() == m.entities_seq().len(),
        forall|i: int|
            0 <= i < m.entities_seq().len() ==> {
                &&& m.lookup_map()[(#[trigger] m.entities_seq()[i]).0] == i
                &&& m@.contains_key(m.entities_seq()[i].0)
                &&& m@[m.entities_seq()[i].0] == m.components_seq()[i]
            },
        forall|id: u64|
            #[trigger] m@.contains_key(id) ==> m@[id] == m.components_seq()[m.lookup_map()[id] as int],
{
    broadcast use vstd::set_lib::group_set_lib_default, vstd::set::group_set_axioms;

    let ids = m.entities_seq().map_values(|e: Entity| e.0);
    assert(ids.no_duplicates()) by {
        assert forall|i: int, j: int|
            0 <= i < ids.len() && 0 <= j < ids.len() && i != j implies ids[i] != ids[j] by {
            assert(m.lookup_map()[m.entities_seq()[i].0] == i);
            assert(m.lookup_map()[m.entities_seq()[j].0] == j);
        }
    }
    assert(ids.to_set() =~= m.lookup_map().dom()) by {
        assert forall|id: u64| ids.to_set().contains(id) implies m.lookup_map().contains_key(
            id,
        ) by {
            let i = choose|i: int| 0 <= i < ids.len() && ids[i] == id;
            assert(m.lookup_map().contains_key(m.entities_seq()[i].0));
        }
        assert forall|id: u64| m.lookup_map().contains_key(id) implies ids.to_set().contains(
            id,
        ) by {
            let i = m.lookup_map()[id] as int;
            assert(m.entities_seq()[i].0 == id);
            assert(ids[i] == id);
        }
    }
    ids.unique_seq_to_set();
}

} // verus!

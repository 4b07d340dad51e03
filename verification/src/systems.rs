//! The movement and harvest systems: pure rules over borrowed component
//! stores.

use vstd::prelude::*;
use crate::component_manager::ComponentManager;
use crate::components::{Collision, Position, ResourceKind, SolidContainer};
use crate::entity_manager::Entity;
use crate::utils::{manhat_distance, spec_manhat};

verus! {

/// Total iron held across a run of containers.
pub open spec fn iron_sum(s: Seq<SolidContainer>) -> int
    decreases s.len(),
{
    if s.len() == 0 {
        0
    } else {
        iron_sum(s.drop_last()) + s.last().iron_count
    }
}

pub proof fn lemma_iron_sum_push(s: Seq<SolidContainer>, c: SolidContainer)
    ensures
        iron_sum(s.push(c)) == iron_sum(s) + c.iron_count,
{
    assert(s.push(c).drop_last() =~= s);
    assert(s.push(c).last() == c);
}

pub proof fn lemma_iron_sum_nonneg(s: Seq<SolidContainer>)
    ensures
        iron_sum(s) >= 0,
    decreases s.len(),
{
    if s.len() > 0 {
        lemma_iron_sum_nonneg(s.drop_last());
    }
}

pub proof fn lemma_iron_sum_update(s: Seq<SolidContainer>, i: int, c: SolidContainer)
    requires
        0 <= i < s.len(),
    ensures
        iron_sum(s.update(i, c)) == iron_sum(s) - s[i].iron_count + c.iron_count,
    decreases s.len(),
{
    if i == s.len() - 1 {
        assert(s.update(i, c).drop_last() =~= s.drop_last());
        assert(s.update(i, c).last() == c);
    } else {
        assert(s.update(i, c).drop_last() =~= s.drop_last().update(i, c));
        assert(s.update(i, c).last() == s.last());
        lemma_iron_sum_update(s.drop_last(), i, c);
    }
}

pub proof fn lemma_iron_sum_elem(s: Seq<SolidContainer>, i: int)
    requires
        0 <= i < s.len(),
    ensures
        s[i].iron_count <= iron_sum(s),
    decreases s.len(),
{
    if i == s.len() - 1 {
        lemma_iron_sum_nonneg(s.drop_last());
    } else {
        lemma_iron_sum_elem(s.drop_last(), i);
    }
}

pub proof fn lemma_iron_sum_pair(s: Seq<SolidContainer>, i: int, j: int)
    requires
        0 <= i < s.len(),
        0 <= j < s.len(),
        i != j,
    ensures
        s[i].iron_count + s[j].iron_count <= iron_sum(s),
    decreases s.len(),
{
    if i == s.len() - 1 {
        lemma_iron_sum_elem(s.drop_last(), j);
    } else if j == s.len() - 1 {
        lemma_iron_sum_elem(s.drop_last(), i);
    } else {
        lemma_iron_sum_pair(s.drop_last(), i, j);
    }
}

/// Whether some entity carrying a Collision component stands exactly on `p`.
/// Only entities with the component take part; the flag's boolean value does
/// not matter, and an entity without a Position cannot block a tile.
pub open spec fn occupied_by_collider(
    positions: Map<u64, Position>,
    collisions: Map<u64, Collision>,
    p: Position,
) -> bool {
    exists|id: u64|
        {
            &&& #[trigger] collisions.contains_key(id)
            &&& positions.contains_key(id)
            &&& positions[id] == p
        }
}

/// What a move request does to the position map: rejected without any
/// change when a collider occupies the target tile, otherwise the mover's
/// position is overwritten.
pub open spec fn spec_move(
    positions: Map<u64, Position>,
    collisions: Map<u64, Collision>,
    mover: u64,
    new_pos: Position,
) -> Map<u64, Position> {
    if occupied_by_collider(positions, collisions, new_pos) {
        positions
    } else {
        positions.insert(mover, new_pos)
    }
}

/// Scans every entity carrying a Collision component and reports whether one
/// of them stands on `p`.
pub(crate) fn find_collider_at(
    positions: &ComponentManager<Position>,
    collisions: &ComponentManager<Collision>,
    p: Position,
) -> (r: bool)
    requires
        positions.wf(),
        collisions.wf(),
    ensures
        r == occupied_by_collider(positions@, collisions@, p),
{
    let mut is_colliding = false;
    let n = collisions.len();
    let mut i: usize = 0;
    while i < n
        invariant
            positions.wf(),
            collisions.wf(),
            n == collisions.entities_seq().len(),
            i <= n,
            is_colliding ==> occupied_by_collider(positions@, collisions@, p),
            !is_colliding ==> forall|j: int|
                0 <= j < i ==> !{
                    let id = (#[trigger] collisions.entities_seq()[j]).0;
                    positions@.contains_key(id) && positions@[id] == p
                },
        decreases n - i,
    {
        let e_collision = collisions.entity_at(i);
        match positions.get(&e_collision) {
            Some(t) => {
                if t.x == p.x && t.y == p.y {
                    proof {
                        assert(collisions@.contains_key(e_collision.0));
                        assert(positions@[e_collision.0] == p);
                    }
                    is_colliding = true;
                }
            },
            None => {},
        }
        i = i + 1;
    }
    proof {
        if !is_colliding {
            assert forall|id: u64|
                #[trigger] collisions@.contains_key(id) implies !(positions@.contains_key(id)
                && positions@[id] == p) by {
                let j = collisions.lookup_map()[id] as int;
                assert(collisions.entities_seq()[j].0 == id);
            }
        }
    }
    is_colliding
}

/// Moves `entity` to `new_pos` unless some entity carrying a Collision
/// component already stands exactly there; a blocked move changes nothing,
/// neither the mover nor any other entity. The moving entity must carry a
/// Position component.
pub fn movement_system(
    entity: &Entity,
    positions: &mut ComponentManager<Position>,
    collisions: &mut ComponentManager<Collision>,
    new_pos: Position,
) -> (moved: bool)
    requires
        old(positions).wf(),
        old(collisions).wf(),
        old(positions)@.contains_key(entity.0),
    ensures
        *final(collisions) == *old(collisions),
        final(positions).wf(),
        final(positions).entities_seq() == old(positions).entities_seq(),
        final(positions).lookup_map() == old(positions).lookup_map(),
        moved == !occupied_by_collider(old(positions)@, old(collisions)@, new_pos),
        final(positions)@ == spec_move(old(positions)@, old(collisions)@, entity.0, new_pos),
        !moved ==> *final(positions) == *old(positions),
{
    let is_colliding = find_collider_at(positions, collisions, new_pos);
    if !is_colliding {
        match positions.get_mut(entity) {
            Some(pos) => {
                *pos = new_pos;
            },
            None => {},
        }
    }
    !is_colliding
}

/// Whether the two entities stand within harvesting range of each other
/// (Manhattan distance at most 2).
pub open spec fn in_harvest_range(positions: Map<u64, Position>, a: u64, b: u64) -> bool {
    spec_manhat(
        positions[a].x as int,
        positions[a].y as int,
        positions[b].x as int,
        positions[b].y as int,
    ) <= 2
}

/// Both gates of a transfer: the entities are in range, and the harvested
/// entity has a container which, for an iron transfer, still holds iron.
pub open spec fn harvest_gates_pass(
    positions: Map<u64, Position>,
    containers: Map<u64, SolidContainer>,
    entity: u64,
    harvest_entity: u64,
    kind: ResourceKind,
) -> bool {
    &&& in_harvest_range(positions, entity, harvest_entity)
    &&& containers.contains_key(harvest_entity)
    &&& (kind == ResourceKind::Iron ==> containers[harvest_entity].iron_count > 0)
}

/// What a successful iron transfer does to the containers: one unit leaves
/// `harvest_entity` and enters `entity`. When both are the same entity the
/// container ends unchanged.
pub open spec fn spec_harvest(
    containers: Map<u64, SolidContainer>,
    entity: u64,
    harvest_entity: u64,
) -> Map<u64, SolidContainer> {
    let drained = containers.insert(
        harvest_entity,
        SolidContainer {
            iron_count: (containers[harvest_entity].iron_count - 1) as u32,
            copper_count: containers[harvest_entity].copper_count,
        },
    );
    drained.insert(
        entity,
        SolidContainer {
            iron_count: (drained[entity].iron_count + 1) as u32,
            copper_count: drained[entity].copper_count,
        },
    )
}

/// The iron held by a pair of entities together. Counts one container once
/// when the two entities coincide.
pub open spec fn iron_total_pair(
    containers: Map<u64, SolidContainer>,
    a: u64,
    b: u64,
) -> int {
    if a == b {
        containers[a].iron_count as int
    } else {
        containers[a].iron_count + containers[b].iron_count
    }
}

/// Transfers one unit of `harvest_type` out of `harvest_entity`'s container
/// into `entity`'s container, gated on range and availability; a rejected
/// transfer changes nothing. Only iron transfers move anything; any other
/// kind is a no-op. Both entities must carry Position components, and when
/// the transfer would go through, `entity` must have a container with room
/// for one more unit.
pub fn harvest_system(
    entity: &Entity,
    positions: &mut ComponentManager<Position>,
    solid_containers: &mut ComponentManager<SolidContainer>,
    harvest_entity: &Entity,
    harvest_type: ResourceKind,
)
    requires
        old(positions).wf(),
        old(solid_containers).wf(),
        old(positions)@.contains_key(entity.0),
        old(positions)@.contains_key(harvest_entity.0),
        harvest_gates_pass(
            old(positions)@,
            old(solid_containers)@,
            entity.0,
            harvest_entity.0,
            harvest_type,
        ) ==> old(solid_containers)@.contains_key(entity.0),
        (harvest_gates_pass(
            old(positions)@,
            old(solid_containers)@,
            entity.0,
            harvest_entity.0,
            harvest_type,
        ) && harvest_type == ResourceKind::Iron && entity.0 != harvest_entity.0)
            ==> old(solid_containers)@[entity.0].iron_count < u32::MAX,
    ensures
        *final(positions) == *old(positions),
        final(solid_containers).wf(),
        final(solid_containers).entities_seq() == old(solid_containers).entities_seq(),
        final(solid_containers).lookup_map() == old(solid_containers).lookup_map(),
        if harvest_gates_pass(
            old(positions)@,
            old(solid_containers)@,
            entity.0,
            harvest_entity.0,
            harvest_type,
        ) && harvest_type == ResourceKind::Iron {
            &&& final(solid_containers)@ == spec_harvest(
                old(solid_containers)@,
                entity.0,
                harvest_entity.0,
            )
            &&& final(solid_containers).components_seq() == old(
                solid_containers,
            ).components_seq().update(
                old(solid_containers).lookup_map()[harvest_entity.0] as int,
                SolidContainer {
                    iron_count: (old(solid_containers)@[harvest_entity.0].iron_count - 1) as u32,
                    copper_count: old(solid_containers)@[harvest_entity.0].copper_count,
                },
            ).update(
                old(solid_containers).lookup_map()[entity.0] as int,
                spec_harvest(old(solid_containers)@, entity.0, harvest_entity.0)[entity.0],
            )
        } else {
            *final(solid_containers) == *old(solid_containers)
        },
        harvest_gates_pass(
            old(positions)@,
            old(solid_containers)@,
            entity.0,
            harvest_entity.0,
            harvest_type,
        ) && harvest_type == ResourceKind::Iron && entity.0 != harvest_entity.0 ==> {
            &&& final(solid_containers)@[harvest_entity.0].iron_count == old(
                solid_containers,
            )@[harvest_entity.0].iron_count - 1
            &&& final(solid_containers)@[entity.0].iron_count == old(
                solid_containers,
            )@[entity.0].iron_count + 1
        },
        harvest_gates_pass(
            old(positions)@,
            old(solid_containers)@,
            entity.0,
            harvest_entity.0,
            harvest_type,
        ) && harvest_type == ResourceKind::Iron ==> iron_total_pair(
            final(solid_containers)@,
            entity.0,
            harvest_entity.0,
        ) == iron_total_pair(old(solid_containers)@, entity.0, harvest_entity.0),
        iron_sum(final(solid_containers).components_seq()) == iron_sum(
            old(solid_containers).components_seq(),
        ),
{
    let ghost gates = harvest_gates_pass(
        old(positions)@,
        old(solid_containers)@,
        entity.0,
        harvest_entity.0,
        harvest_type,
    );
    let entity_pos: Position;
    let harvest_pos: Position;
    match positions.get(entity) {
        Some(p) => {
            entity_pos = *p;
        },
        None => {
            entity_pos = Position::new(0, 0);
        },
    }
    match positions.get(harvest_entity) {
        Some(p) => {
            harvest_pos = *p;
        },
        None => {
            harvest_pos = Position::new(0, 0);
        },
    }
    if manhat_distance(entity_pos.x, entity_pos.y, harvest_pos.x, harvest_pos.y) > 2 {
        return ;
    }
    match solid_containers.get(harvest_entity) {
        Some(harvest_container) => {
            match harvest_type {
                ResourceKind::Iron => {
                    if harvest_container.iron_count == 0 {
                        return ;
                    }
                },
                _ => {},
            }
        },
        None => {
            return ;
        },
    }
    proof {
        assert(gates);
    }
    match harvest_type {
        ResourceKind::Iron => {},
        _ => {
            return ;
        },
    }
    match solid_containers.get_mut(harvest_entity) {
        Some(harvest_c) => {
            harvest_c.iron_count = harvest_c.iron_count - 1;
        },
        None => {},
    }
    match solid_containers.get_mut(entity) {
        Some(entity_c) => {
            entity_c.iron_count = entity_c.iron_count + 1;
        },
        None => {},
    }
    proof {
        assert(solid_containers@ =~= spec_harvest(
            old(solid_containers)@,
            entity.0,
            harvest_entity.0,
        ));
        let s0 = old(solid_containers).components_seq();
        let j = old(solid_containers).lookup_map()[harvest_entity.0] as int;
        let i = old(solid_containers).lookup_map()[entity.0] as int;
        let drained = SolidContainer {
            iron_count: (old(solid_containers)@[harvest_entity.0].iron_count - 1) as u32,
            copper_count: old(solid_containers)@[harvest_entity.0].copper_count,
        };
        lemma_iron_sum_update(s0, j, drained);
        lemma_iron_sum_update(
            s0.update(j, drained),
            i,
            spec_harvest(old(solid_containers)@, entity.0, harvest_entity.0)[entity.0],
        );
    }
}

} // verus!

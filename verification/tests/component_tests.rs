use colony::component_manager::ComponentManager;
use colony::components::{Collision, Position, ResourceKind, SolidContainer};
use colony::entity_manager::EntityManager;
use colony::systems::{harvest_system, movement_system};

#[test]
fn components() {
    let position_component_manager = ComponentManager::<Position>::new();
    let mut p = EntityManager::new();
    let new_e = p.create();
    assert_eq!(new_e.0, 1);

    assert_eq!(position_component_manager.contains(&new_e), false);
}

#[test]
fn components_create() {
    let mut position_component_manager = ComponentManager::<Position>::new();
    let mut p = EntityManager::new();
    let new_e = p.create();
    assert_eq!(new_e.0, 1);

    {
        let pos = position_component_manager.create(&new_e);
        pos.x = 10;
        pos.y = 20;
    }
    assert_eq!(position_component_manager.contains(&new_e), true);

    match position_component_manager.lookup_index(&new_e) {
        Some(t) => assert_eq!(t, 0 as usize),
        None => assert_eq!(true, false),
    };

    assert_eq!(position_component_manager.contains(&new_e), true);

    let pos = match position_component_manager.get(&new_e) {
        Some(t) => t,
        _ => panic!("Failed to get item"),
    };
    assert_eq!(pos.x, 10);
    assert_eq!(pos.y, 20);
}

#[test]
fn component_remove() {
    let mut position_component_manager = ComponentManager::<Position>::new();
    let mut p = EntityManager::new();
    let new_e = p.create();

    {
        let pos = position_component_manager.create(&new_e);
        pos.x = 10;
        pos.y = 20;
    }

    position_component_manager.remove(&new_e);
    assert_eq!(position_component_manager.contains(&new_e), false);
    assert_eq!(position_component_manager.len(), 0);
}

#[test]
fn component_remove_swaps_last_slot_in() {
    let mut cm = ComponentManager::<Position>::new();
    let mut em = EntityManager::new();
    let a = em.create();
    let b = em.create();
    let c = em.create();
    {
        let pos = cm.create(&a);
        pos.x = 1;
    }
    {
        let pos = cm.create(&b);
        pos.x = 2;
    }
    {
        let pos = cm.create(&c);
        pos.x = 3;
    }

    cm.remove(&a);

    assert_eq!(cm.len(), 2);
    assert_eq!(cm.contains(&a), false);
    assert_eq!(cm.get(&b).unwrap().x, 2);
    assert_eq!(cm.get(&c).unwrap().x, 3);
    // The last slot was swapped into the freed one.
    assert_eq!(cm.lookup_index(&c), Some(0));
    assert_eq!(cm.lookup_index(&b), Some(1));
}

#[test]
fn test_harvest_system() {
    let mut entity_manager = EntityManager::new();

    let unit = entity_manager.create();
    let mut pos_c = ComponentManager::<Position>::new();

    let mut solid_c = ComponentManager::<SolidContainer>::new();

    {
        let unit_p = pos_c.create(&unit);
        unit_p.x = 0;
        unit_p.y = 0;
    }
    {
        let unit_s = solid_c.create(&unit);
        unit_s.iron_count = 0;
    }

    let iron_node = entity_manager.create();
    {
        let iron_p = pos_c.create(&iron_node);
        iron_p.x = 0;
        iron_p.y = 1;
    }
    {
        let iron_s = solid_c.create(&iron_node);
        iron_s.iron_count = 100;
    }

    harvest_system(&unit, &mut pos_c, &mut solid_c, &iron_node, ResourceKind::Iron);

    let iron_s = solid_c.get(&iron_node).unwrap();
    assert_eq!(iron_s.iron_count, 99);

    let unit_s = solid_c.get(&unit).unwrap();
    assert_eq!(unit_s.iron_count, 1);
}

#[test]
fn test_movement_system() {
    let mut entity_manager = EntityManager::new();

    let unit = entity_manager.create();
    let mut pos_c = ComponentManager::<Position>::new();
    let mut solid_c = ComponentManager::<Collision>::new();

    {
        let unit_p = pos_c.create(&unit);
        unit_p.x = 0;
        unit_p.y = 0;
    }
    {
        let unit_s = solid_c.create(&unit);
        unit_s.value = true;
    }

    let iron_node = entity_manager.create();
    {
        let iron_p = pos_c.create(&iron_node);
        iron_p.x = 0;
        iron_p.y = 1;
    }
    {
        let iron_s = solid_c.create(&iron_node);
        iron_s.value = true;
    }

    movement_system(&unit, &mut pos_c, &mut solid_c, Position { x: 0, y: 1 });

    let iron_s = pos_c.get(&iron_node).unwrap();
    assert_eq!(*iron_s, Position { x: 0, y: 1 });

    let unit_s = pos_c.get(&unit).unwrap();
    assert_eq!(*unit_s, Position { x: 0, y: 0 });
}

#[test]
fn test_movement_free_tile_moves() {
    let mut entity_manager = EntityManager::new();
    let unit = entity_manager.create();
    let mut pos_c = ComponentManager::<Position>::new();
    let mut col_c = ComponentManager::<Collision>::new();
    {
        let unit_p = pos_c.create(&unit);
        unit_p.x = 4;
        unit_p.y = 4;
    }

    let moved = movement_system(&unit, &mut pos_c, &mut col_c, Position { x: 4, y: 5 });

    assert!(moved);
    assert_eq!(*pos_c.get(&unit).unwrap(), Position { x: 4, y: 5 });
}

#[test]
fn test_harvest_range_gate() {
    // Manhattan distance 3 between (0, 0) and (0, 3): both containers stay
    // unchanged.
    let mut entity_manager = EntityManager::new();
    let unit = entity_manager.create();
    let node = entity_manager.create();
    let mut pos_c = ComponentManager::<Position>::new();
    let mut solid_c = ComponentManager::<SolidContainer>::new();
    {
        let p = pos_c.create(&unit);
        p.x = 0;
        p.y = 0;
    }
    {
        let p = pos_c.create(&node);
        p.x = 0;
        p.y = 3;
    }
    solid_c.create(&unit);
    {
        let s = solid_c.create(&node);
        s.iron_count = 42;
    }

    harvest_system(&unit, &mut pos_c, &mut solid_c, &node, ResourceKind::Iron);

    assert_eq!(solid_c.get(&node).unwrap().iron_count, 42);
    assert_eq!(solid_c.get(&unit).unwrap().iron_count, 0);
}

#[test]
fn test_harvest_availability_gate() {
    // An empty source container: both containers stay unchanged.
    let mut entity_manager = EntityManager::new();
    let unit = entity_manager.create();
    let node = entity_manager.create();
    let mut pos_c = ComponentManager::<Position>::new();
    let mut solid_c = ComponentManager::<SolidContainer>::new();
    {
        let p = pos_c.create(&unit);
        p.x = 0;
        p.y = 0;
    }
    {
        let p = pos_c.create(&node);
        p.x = 0;
        p.y = 1;
    }
    {
        let s = solid_c.create(&unit);
        s.iron_count = 7;
    }
    {
        let s = solid_c.create(&node);
        s.iron_count = 0;
    }

    harvest_system(&unit, &mut pos_c, &mut solid_c, &node, ResourceKind::Iron);

    assert_eq!(solid_c.get(&node).unwrap().iron_count, 0);
    assert_eq!(solid_c.get(&unit).unwrap().iron_count, 7);
}

#[test]
fn test_harvest_conservation() {
    // A successful transfer moves exactly one unit; the total over the two
    // containers is unchanged.
    let mut entity_manager = EntityManager::new();
    let unit = entity_manager.create();
    let node = entity_manager.create();
    let mut pos_c = ComponentManager::<Position>::new();
    let mut solid_c = ComponentManager::<SolidContainer>::new();
    {
        let p = pos_c.create(&unit);
        p.x = 2;
        p.y = 2;
    }
    {
        let p = pos_c.create(&node);
        p.x = 2;
        p.y = 4;
    }
    {
        let s = solid_c.create(&unit);
        s.iron_count = 10;
    }
    {
        let s = solid_c.create(&node);
        s.iron_count = 20;
    }
    let total_before = solid_c.get(&unit).unwrap().iron_count + solid_c.get(&node).unwrap().iron_count;

    harvest_system(&unit, &mut pos_c, &mut solid_c, &node, ResourceKind::Iron);

    let unit_iron = solid_c.get(&unit).unwrap().iron_count;
    let node_iron = solid_c.get(&node).unwrap().iron_count;
    assert_eq!(node_iron, 19);
    assert_eq!(unit_iron, 11);
    assert_eq!(unit_iron + node_iron, total_before);
}

#[test]
fn test_harvest_from_itself_changes_nothing() {
    // Puller and source are the same entity: one unit leaves and re-enters
    // the same container, so the count ends unchanged.
    let mut entity_manager = EntityManager::new();
    let unit = entity_manager.create();
    let mut pos_c = ComponentManager::<Position>::new();
    let mut solid_c = ComponentManager::<SolidContainer>::new();
    {
        let p = pos_c.create(&unit);
        p.x = 1;
        p.y = 1;
    }
    {
        let s = solid_c.create(&unit);
        s.iron_count = 8;
    }

    harvest_system(&unit, &mut pos_c, &mut solid_c, &unit, ResourceKind::Iron);

    assert_eq!(solid_c.get(&unit).unwrap().iron_count, 8);
}

#[test]
fn test_harvest_unknown_kind_is_noop() {
    // A transfer of a kind other than iron is silently a no-op.
    let mut entity_manager = EntityManager::new();
    let unit = entity_manager.create();
    let node = entity_manager.create();
    let mut pos_c = ComponentManager::<Position>::new();
    let mut solid_c = ComponentManager::<SolidContainer>::new();
    {
        let p = pos_c.create(&unit);
        p.x = 0;
        p.y = 0;
    }
    {
        let p = pos_c.create(&node);
        p.x = 0;
        p.y = 1;
    }
    solid_c.create(&unit);
    {
        let s = solid_c.create(&node);
        s.iron_count = 50;
        s.copper_count = 50;
    }

    harvest_system(&unit, &mut pos_c, &mut solid_c, &node, ResourceKind::Copper);

    assert_eq!(solid_c.get(&node).unwrap().iron_count, 50);
    assert_eq!(solid_c.get(&node).unwrap().copper_count, 50);
    assert_eq!(solid_c.get(&unit).unwrap().iron_count, 0);
    assert_eq!(solid_c.get(&unit).unwrap().copper_count, 0);
}

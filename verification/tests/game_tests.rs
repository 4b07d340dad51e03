use colony::components::{Command, MineableNode, Position};
use colony::entity_manager::Entity;
use colony::game_state::{game_init, game_load, game_update, GameInput, GameState, UserCommand};
use colony::utils::manhat_distance;

fn unit_position(gs: &GameState, e: &Entity) -> Position {
    gs.get_entity_pos(e).expect("entity should have a position")
}

#[test]
fn spawn_unit() {
    let mut game_state = game_init();
    let mut game_input = GameInput::default();
    game_input.create_unit = true;

    game_state = game_update(game_state, &game_input);

    // can't create entities if hive isn't a thing
    assert_eq!(game_state.entity_manager.count(), 0);
}

#[test]
fn test_spawn_unit_with_hive() {
    let mut game_state = game_init();
    let mut game_input = GameInput::default();
    game_input.create_hive = true;
    game_input.create_unit = true;

    game_state = game_update(game_state, &game_input);

    // The hive and one unit exist; the unit stands on the spawn tile.
    assert_eq!(game_state.entity_manager.count(), 2);
    assert!(game_state.has_hive());
    assert_eq!(unit_position(&game_state, &Entity(2)), Position { x: 0, y: 1 });
}

#[test]
fn test_create_hive_idempotent() {
    let mut gs = game_init();
    gs.create_hive(0, 0);
    assert!(gs.has_hive());
    assert_eq!(gs.entity_manager.count(), 1);
    gs.create_hive(5, 5);
    assert_eq!(gs.entity_manager.count(), 1);
    assert_eq!(unit_position(&gs, &Entity(1)), Position { x: 0, y: 0 });
}

#[test]
fn test_game_load_scenario() {
    // One tick moves the scripted unit to the first instruction's target;
    // after three more ticks the program has wrapped and moved it there
    // again.
    let mut gs = game_load();
    let unit = Entity(3);
    assert_eq!(unit_position(&gs, &unit), Position { x: 0, y: 1 });

    let input = GameInput::default();
    gs = game_update(gs, &input);
    assert_eq!(unit_position(&gs, &unit), Position { x: 0, y: 4 });

    gs = game_update(gs, &input);
    assert_eq!(unit_position(&gs, &unit), Position { x: 0, y: 5 });
    gs = game_update(gs, &input);
    assert_eq!(unit_position(&gs, &unit), Position { x: 0, y: 7 });
    gs = game_update(gs, &input);
    assert_eq!(unit_position(&gs, &unit), Position { x: 0, y: 4 });
}

#[test]
fn test_program_counter_wraparound() {
    // A 3-instruction program executed for 4 ticks runs instruction 0 again
    // on the 4th tick: the counter cycles 0, 1, 2, 0.
    let mut gs = game_load();
    let unit = Entity(3);
    let input = GameInput::default();
    for _ in 0..3 {
        gs = game_update(gs, &input);
    }
    let pc_after_three = gs.memory.get(&unit).expect("unit has memory").program_counter;
    assert_eq!(pc_after_three, 0);
    gs = game_update(gs, &input);
    assert_eq!(unit_position(&gs, &unit), Position { x: 0, y: 4 });
    let pc_after_four = gs.memory.get(&unit).expect("unit has memory").program_counter;
    assert_eq!(pc_after_four, 1);
}

#[test]
fn test_load_program_distance_gate() {
    // A LoadProgram request against a unit at Manhattan distance 6 from
    // (0, 0) leaves its program unchanged; at distance 5 it replaces it.
    let mut gs = game_load();
    let unit = Entity(3);

    // Walk the unit out of range first: load a program while it is still at
    // (0, 1) sending it to (0, 6), distance 6.
    let far_input = GameInput {
        create_unit: false,
        create_hive: false,
        user_commands: vec![UserCommand::LoadProgram(
            unit,
            vec![Command::MoveP(Position { x: 0, y: 6 })],
        )],
    };
    gs = game_update(gs, &far_input);
    assert_eq!(unit_position(&gs, &unit), Position { x: 0, y: 6 });

    // Out of range now: the program must stay as it is.
    let rejected = GameInput {
        create_unit: false,
        create_hive: false,
        user_commands: vec![UserCommand::LoadProgram(
            unit,
            vec![Command::MoveP(Position { x: 1, y: 1 })],
        )],
    };
    gs = game_update(gs, &rejected);
    let mem = gs.memory.get(&unit).expect("unit has memory");
    assert_eq!(mem.commands.len(), 1);
    assert!(matches!(mem.commands[0], Command::MoveP(Position { x: 0, y: 6 })));
    // The old program kept running: the unit stays on (0, 6).
    assert_eq!(unit_position(&gs, &unit), Position { x: 0, y: 6 });

}

#[test]
fn test_load_program_at_distance_five_replaces() {
    // A unit standing exactly at distance 5 still accepts a program.
    let mut gs = game_load();
    let unit = Entity(3);
    let input = GameInput {
        create_unit: false,
        create_hive: false,
        user_commands: vec![UserCommand::LoadProgram(
            unit,
            vec![Command::MoveP(Position { x: 0, y: 5 })],
        )],
    };
    gs = game_update(gs, &input);
    assert_eq!(unit_position(&gs, &unit), Position { x: 0, y: 5 });
    // Now at (0, 5): Manhattan distance 5 from the hive tile.
    let replace = GameInput {
        create_unit: false,
        create_hive: false,
        user_commands: vec![UserCommand::LoadProgram(
            unit,
            vec![Command::MoveP(Position { x: 1, y: 5 })],
        )],
    };
    gs = game_update(gs, &replace);
    assert_eq!(unit_position(&gs, &unit), Position { x: 1, y: 5 });
    let mem = gs.memory.get(&unit).expect("unit has memory");
    assert_eq!(mem.commands.len(), 1);
}

#[test]
fn test_load_program_resets_counter_for_shorter_program() {
    // Loading a shorter program restarts the counter at 0, so the next tick
    // runs the new first instruction instead of indexing past the end.
    let mut gs = game_load();
    let unit = Entity(3);
    let input = GameInput::default();
    gs = game_update(gs, &input);
    gs = game_update(gs, &input);
    assert_eq!(gs.memory.get(&unit).unwrap().program_counter, 2);

    let short = GameInput {
        create_unit: false,
        create_hive: false,
        user_commands: vec![UserCommand::LoadProgram(
            unit,
            vec![Command::MoveP(Position { x: 2, y: 2 })],
        )],
    };
    gs = game_update(gs, &short);
    assert_eq!(unit_position(&gs, &unit), Position { x: 2, y: 2 });
    assert_eq!(gs.memory.get(&unit).unwrap().program_counter, 0);
    assert_eq!(gs.memory.get(&unit).unwrap().commands.len(), 1);
}

#[test]
fn test_load_command_appends() {
    let mut gs = game_load();
    let unit = Entity(3);
    let input = GameInput {
        create_unit: false,
        create_hive: false,
        user_commands: vec![UserCommand::LoadCommand(
            unit,
            Command::MoveP(Position { x: 1, y: 0 }),
        )],
    };
    gs = game_update(gs, &input);
    let mem = gs.memory.get(&unit).expect("unit has memory");
    assert_eq!(mem.commands.len(), 4);
    assert!(matches!(mem.commands[3], Command::MoveP(Position { x: 1, y: 0 })));
}

#[test]
fn test_tick_harvest_and_deposit_conserve_iron() {
    // A unit harvests one unit of iron out of an adjacent node, and deposits
    // it into the hive on the next tick: each transfer moves exactly one
    // unit and the total never changes.
    let mut gs = game_init();
    gs.create_hive(0, 0);
    let hive = Entity(1);

    let node = gs.entity_manager.create();
    {
        let p = gs.positions.create(&node);
        p.x = 0;
        p.y = 2;
    }
    {
        let s = gs.solid_containers.create(&node);
        s.iron_count = 5;
    }

    let unit = gs.entity_manager.create();
    {
        let p = gs.positions.create(&unit);
        p.x = 0;
        p.y = 1;
    }
    gs.solid_containers.create(&unit);
    {
        let m = gs.memory.create(&unit);
        m.commands.push(Command::Harvest(node));
        m.commands.push(Command::Deposit(hive));
    }

    let input = GameInput::default();
    gs = game_update(gs, &input);
    assert_eq!(gs.solid_containers.get(&node).unwrap().iron_count, 4);
    assert_eq!(gs.solid_containers.get(&unit).unwrap().iron_count, 1);
    assert_eq!(gs.solid_containers.get(&hive).unwrap().iron_count, 0);

    gs = game_update(gs, &input);
    assert_eq!(gs.solid_containers.get(&node).unwrap().iron_count, 4);
    assert_eq!(gs.solid_containers.get(&unit).unwrap().iron_count, 0);
    assert_eq!(gs.solid_containers.get(&hive).unwrap().iron_count, 1);

    let total = gs.solid_containers.get(&node).unwrap().iron_count
        + gs.solid_containers.get(&unit).unwrap().iron_count
        + gs.solid_containers.get(&hive).unwrap().iron_count;
    assert_eq!(total, 5);
}

#[test]
fn test_move_direction_is_observational() {
    // A MoveD instruction changes no position, but still advances the
    // counter: the MoveP behind it runs on the second tick.
    let mut gs = game_init();
    gs.create_hive(0, 0);
    let unit = gs.entity_manager.create();
    {
        let p = gs.positions.create(&unit);
        p.x = 3;
        p.y = 3;
    }
    {
        let m = gs.memory.create(&unit);
        m.commands.push(Command::MoveD(colony::components::Direction::North));
        m.commands.push(Command::MoveP(Position { x: 3, y: 4 }));
    }

    let input = GameInput::default();
    gs = game_update(gs, &input);
    assert_eq!(unit_position(&gs, &unit), Position { x: 3, y: 3 });
    gs = game_update(gs, &input);
    assert_eq!(unit_position(&gs, &unit), Position { x: 3, y: 4 });
}

#[test]
fn test_get_mineable_nodes() {
    let mut gs = game_init();
    gs.create_hive(0, 0);
    let node = gs.entity_manager.create();
    {
        let m = gs.iron_mines.create(&node);
        m.current_amount = 10;
        m.initial_amount = 10;
    }
    let other = gs.entity_manager.create();

    let nodes = gs.get_mineable_nodes();
    assert_eq!(nodes.len(), 1);
    assert_eq!(nodes[0], node);
    assert_ne!(nodes[0], other);
}

#[test]
fn test_get_units_and_entity_pos() {
    let gs = game_load();
    let units = gs.get_units();
    assert_eq!(units.len(), 3);
    assert_eq!(units[0], Entity(1));
    assert_eq!(units[2], Entity(3));
    assert_eq!(gs.get_entity_pos(&Entity(2)), Some(Position { x: 10, y: 5 }));
    assert_eq!(gs.get_entity_pos(&Entity(9)), None);
}

#[test]
fn test_manhat_distance_values() {
    assert_eq!(manhat_distance(0, 0, 0, 3), 3);
    assert_eq!(manhat_distance(0, 0, 2, 3), 5);
    assert_eq!(manhat_distance(7, 1, 2, 9), 13);
    assert_eq!(manhat_distance(4, 4, 4, 4), 0);
    assert_eq!(manhat_distance(u32::MAX, 0, 0, u32::MAX), 2 * (u32::MAX as u64));
}

#[test]
fn test_game_input_default() {
    let input = GameInput::default();
    assert!(!input.create_unit);
    assert!(!input.create_hive);
    assert!(input.user_commands.is_empty());
}

#[test]
fn test_mineable_node_placeholder() {
    let mn = MineableNode { current_amount: 3, initial_amount: 9 };
    assert_eq!(mn.current_amount, 3);
    assert_eq!(mn.initial_amount, 9);
}

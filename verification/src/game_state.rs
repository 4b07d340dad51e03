//! One frame of the simulation, and the per-tick update that turns a frame
//! plus the player's input into the next frame.

use vstd::prelude::*;
use crate::component_manager::ComponentManager;
use crate::components::{
    Collision, Command, copy_commands, DefaultComponent, Direction, EnergyLevel, Memory,
    MineableNode, Position, ResourceKind, SolidContainer,
};
use crate::entity_manager::{Entity, EntityManager};
use crate::systems::{
    find_collider_at, harvest_gates_pass, harvest_system, iron_sum, lemma_iron_sum_pair,
    lemma_iron_sum_push, movement_system, occupied_by_collider, spec_harvest, spec_move,
};
use crate::utils::{manhat_distance, spec_manhat};

verus! {

/// A unit's memory as the specification sees it: the counter and the plain
/// sequence of commands.
#[verifier::ext_equal]
pub struct MemSnap {
    pub program_counter: usize,
    pub commands: Seq<Command>,
}

/// A whole game frame as the specification sees it: the live entities in
/// creation order, one map per component kind from entity identifier to
/// component value, and the hive entity if one exists.
#[verifier::ext_equal]
pub struct WorldSnap {
    pub ids: Seq<Entity>,
    pub positions: Map<u64, Position>,
    pub collisions: Map<u64, Collision>,
    pub energy: Map<u64, EnergyLevel>,
    pub mines: Map<u64, MineableNode>,
    pub containers: Map<u64, SolidContainer>,
    pub memories: Map<u64, MemSnap>,
    pub hive: Option<Entity>,
}

/// The frame with no entities at all.
pub open spec fn empty_snap() -> WorldSnap {
    WorldSnap {
        ids: Seq::empty(),
        positions: Map::empty(),
        collisions: Map::empty(),
        energy: Map::empty(),
        mines: Map::empty(),
        containers: Map::empty(),
        memories: Map::empty(),
        hive: None,
    }
}

/// Holds a single frame of the game at a given point. A tick consumes one
/// frame and produces the next; no mutation of a frame is visible across
/// ticks.
pub struct GameState {
    pub entity_manager: EntityManager,
    pub positions: ComponentManager<Position>,
    pub collision: ComponentManager<Collision>,
    pub energy_levels: ComponentManager<EnergyLevel>,
    pub hive_entity: Option<Entity>,
    pub iron_mines: ComponentManager<MineableNode>,
    pub memory: ComponentManager<Memory>,
    pub solid_containers: ComponentManager<SolidContainer>,
}

impl GameState {
    /// The frame as the specification sees it.
    pub open spec fn snap(&self) -> WorldSnap {
        WorldSnap {
            ids: self.entity_manager.entities@,
            positions: self.positions@,
            collisions: self.collision@,
            energy: self.energy_levels@,
            mines: self.iron_mines@,
            containers: self.solid_containers@,
            memories: self.memory@.map_values(
                |m: Memory| MemSnap { program_counter: m.program_counter, commands: m.commands@ },
            ),
            hive: self.hive_entity,
        }
    }

    /// Frame validity: every store is a coherent sparse set, every component
    /// belongs to a live entity, every unit's program counter points into
    /// its program, the hive entity (if set) is live, and the iron in all
    /// containers together fits a single counter, so a transfer can never
    /// overflow the receiver.
    pub open spec fn wf(&self) -> bool {
        &&& self.entity_manager.wf()
        &&& self.positions.wf()
        &&& self.collision.wf()
        &&& self.energy_levels.wf()
        &&& self.iron_mines.wf()
        &&& self.memory.wf()
        &&& self.solid_containers.wf()
        &&& forall|id: u64|
            #[trigger] self.positions@.contains_key(id) ==> 1 <= id <= self.entity_manager.entities@.len()
        &&& forall|id: u64|
            #[trigger] self.collision@.contains_key(id) ==> 1 <= id <= self.entity_manager.entities@.len()
        &&& forall|id: u64|
            #[trigger] self.energy_levels@.contains_key(id) ==> 1 <= id <= self.entity_manager.entities@.len()
        &&& forall|id: u64|
            #[trigger] self.iron_mines@.contains_key(id) ==> 1 <= id <= self.entity_manager.entities@.len()
        &&& forall|id: u64|
            #[trigger] self.memory@.contains_key(id) ==> 1 <= id <= self.entity_manager.entities@.len()
        &&& forall|id: u64|
            #[trigger] self.solid_containers@.contains_key(id) ==> 1 <= id
                <= self.entity_manager.entities@.len()
        &&& forall|id: u64| #[trigger] self.memory@.contains_key(id) ==> self.memory@[id].wf()
        &&& iron_sum(self.solid_containers.components_seq()) <= u32::MAX
        &&& match self.hive_entity {
            Some(h) => 1 <= h.0 <= self.entity_manager.entities@.len(),
            None => true,
        }
    }

    pub fn new() -> (r: GameState)
        ensures
            r.wf(),
            r.snap() == empty_snap(),
            r.solid_containers.components_seq() == Seq::<SolidContainer>::empty(),
    {
        let r = GameState {
            entity_manager: EntityManager::new(),
            positions: ComponentManager::<Position>::new(),
            energy_levels: ComponentManager::<EnergyLevel>::new(),
            hive_entity: None,
            collision: ComponentManager::<Collision>::new(),
            iron_mines: ComponentManager::<MineableNode>::new(),
            memory: ComponentManager::<Memory>::new(),
            solid_containers: ComponentManager::<SolidContainer>::new(),
        };
        proof {
            assert(r.snap().memories =~= empty_snap().memories);
            assert(r.snap() =~~= empty_snap());
        }
        r
    }

    /// Creates the hive: a no-op if one already exists, otherwise a fresh
    /// entity carrying a Position at (x, y) and an empty SolidContainer,
    /// recorded as the one hive of the game.
    pub fn create_hive(&mut self, x: u32, y: u32)
        requires
            old(self).wf(),
            old(self).entity_manager.entities@.len() + 1 < u64::MAX,
        ensures
            final(self).wf(),
            final(self).snap() == spec_create_hive(old(self).snap(), x, y),
            final(self).entity_manager.entities@.len() <= old(
                self,
            ).entity_manager.entities@.len() + 1,
            iron_sum(final(self).solid_containers.components_seq()) == iron_sum(
                old(self).solid_containers.components_seq(),
            ),
    {
        match self.hive_entity {
            None => {
                let e = self.entity_manager.create();
                self.hive_entity = Some(e);
                proof {
                    assert(!old(self).positions@.contains_key(e.0));
                    assert(!old(self).solid_containers@.contains_key(e.0));
                }
                self.positions.create_with(&e, Position::new(x, y));
                self.solid_containers.create_with(
                    &e,
                    SolidContainer { iron_count: 0, copper_count: 0 },
                );
                proof {
                    lemma_iron_sum_push(
                        old(self).solid_containers.components_seq(),
                        SolidContainer { iron_count: 0, copper_count: 0 },
                    );
                    assert(self.snap().memories =~= spec_create_hive(
                        old(self).snap(),
                        x,
                        y,
                    ).memories);
                    assert(self.snap() =~~= spec_create_hive(old(self).snap(), x, y));
                }
            },
            _ => (),
        };
    }

    pub fn has_hive(&self) -> (r: bool)
        ensures
            r == self.hive_entity.is_some(),
    {
        match self.hive_entity {
            Some(_) => true,
            None => false,
        }
    }

    /// Every live entity, in creation order.
    pub fn get_units(&self) -> (r: Vec<Entity>)
        ensures
            r@ == self.entity_manager.entities@,
    {
        let mut r: Vec<Entity> = Vec::new();
        let mut i: usize = 0;
        let n = self.entity_manager.count();
        while i < n
            invariant
                n == self.entity_manager.entities@.len(),
                i <= n,
                r@ == self.entity_manager.entities@.subrange(0, i as int),
            decreases n - i,
        {
            r.push(self.entity_manager.entities[i]);
            proof {
                assert(r@ =~= self.entity_manager.entities@.subrange(0, i + 1 as int));
            }
            i = i + 1;
        }
        proof {
            assert(r@ =~= self.entity_manager.entities@);
        }
        r
    }

    /// Which entities of a run carry a mineable node, kept in order.
    pub open spec fn mineable_of(ids: Seq<Entity>, mines: Map<u64, MineableNode>) -> Seq<Entity>
        decreases ids.len(),
    {
        if ids.len() == 0 {
            Seq::empty()
        } else {
            let rest = Self::mineable_of(ids.drop_last(), mines);
            if mines.contains_key(ids.last().0) {
                rest.push(ids.last())
            } else {
                rest
            }
        }
    }

    /// The entities carrying a MineableNode component, in creation order.
    pub fn get_mineable_nodes(&self) -> (r: Vec<Entity>)
        requires
            self.iron_mines.wf(),
        ensures
            r@ == Self::mineable_of(self.entity_manager.entities@, self.iron_mines@),
    {
        let mut result: Vec<Entity> = Vec::new();
        let mut i: usize = 0;
        let n = self.entity_manager.count();
        while i < n
            invariant
                self.iron_mines.wf(),
                n == self.entity_manager.entities@.len(),
                i <= n,
                result@ == Self::mineable_of(
                    self.entity_manager.entities@.subrange(0, i as int),
                    self.iron_mines@,
                ),
            decreases n - i,
        {
            let e = self.entity_manager.entities[i];
            match self.iron_mines.get(&e) {
                Some(_t) => {
                    result.push(e);
                },
                None => (),
            }
            proof {
                let pre = self.entity_manager.entities@.subrange(0, i as int);
                let cur = self.entity_manager.entities@.subrange(0, i + 1 as int);
                assert(cur.drop_last() =~= pre);
                assert(cur.last() == e);
            }
            i = i + 1;
        }
        proof {
            assert(self.entity_manager.entities@.subrange(
                0,
                self.entity_manager.entities@.len() as int,
            ) =~= self.entity_manager.entities@);
        }
        result
    }

    /// The entity's position, or `None` iff it has no Position component.
    pub fn get_entity_pos(&self, entity: &Entity) -> (r: Option<Position>)
        requires
            self.positions.wf(),
        ensures
            match r {
                Some(p) => self.positions@.contains_key(entity.0) && p == self.positions@[entity.0],
                None => !self.positions@.contains_key(entity.0),
            },
    {
        match self.positions.get(entity) {
            Some(p) => Some(*p),
            None => None,
        }
    }
}

/// What creating the hive does to a frame: nothing when a hive already
/// exists, otherwise one fresh entity with a Position at (x, y) and an
/// empty container, recorded as the hive.
pub open spec fn spec_create_hive(w: WorldSnap, x: u32, y: u32) -> WorldSnap {
    match w.hive {
        Some(_) => w,
        None => {
            let id = (w.ids.len() + 1) as u64;
            WorldSnap {
                ids: w.ids.push(Entity(id)),
                positions: w.positions.insert(id, Position { x, y }),
                containers: w.containers.insert(
                    id,
                    SolidContainer { iron_count: 0, copper_count: 0 },
                ),
                hive: Some(Entity(id)),
                ..w
            }
        },
    }
}

/// A request issued by the player against a specific unit's memory.
pub enum UserCommand {
    /// Appends one command to the unit's existing program.
    LoadCommand(Entity, Command),
    /// Replaces the unit's whole program. The program counter restarts at
    /// 0, so a shorter new program can never leave the counter out of
    /// range.
    LoadProgram(Entity, Vec<Command>),
}

/// The player's input for one tick: spawn requests and an ordered run of
/// user commands, consumed once.
pub struct GameInput {
    pub create_unit: bool,
    pub create_hive: bool,
    pub user_commands: Vec<UserCommand>,
}

impl GameInput {
    /// An input that requests nothing.
    pub fn default() -> (r: GameInput)
        ensures
            !r.create_unit,
            !r.create_hive,
            r.user_commands@ == Seq::<UserCommand>::empty(),
    {
        GameInput { create_unit: false, create_hive: false, user_commands: Vec::new() }
    }
}

/// What spawning a unit does to a frame: one fresh entity carrying the
/// given Position, an empty program, a Collision flag and an empty
/// container.
pub open spec fn spec_spawn_unit(w: WorldSnap, p: Position) -> WorldSnap {
    let id = (w.ids.len() + 1) as u64;
    WorldSnap {
        ids: w.ids.push(Entity(id)),
        positions: w.positions.insert(id, p),
        memories: w.memories.insert(id, MemSnap { program_counter: 0, commands: Seq::empty() }),
        collisions: w.collisions.insert(id, Collision { value: false }),
        containers: w.containers.insert(id, SolidContainer { iron_count: 0, copper_count: 0 }),
        ..w
    }
}

/// Spawns a unit at the given position. The caller is responsible for
/// checking the target tile beforehand; no collision check happens here.
fn spawn_unit(game_state: &mut GameState, p: Position)
    requires
        old(game_state).wf(),
        old(game_state).entity_manager.entities@.len() + 1 < u64::MAX,
    ensures
        final(game_state).wf(),
        final(game_state).snap() == spec_spawn_unit(old(game_state).snap(), p),
        iron_sum(final(game_state).solid_containers.components_seq()) == iron_sum(
            old(game_state).solid_containers.components_seq(),
        ),
{
    let new_entity = game_state.entity_manager.create();
    proof {
        assert(!old(game_state).positions@.contains_key(new_entity.0));
        assert(!old(game_state).memory@.contains_key(new_entity.0));
        assert(!old(game_state).collision@.contains_key(new_entity.0));
        assert(!old(game_state).solid_containers@.contains_key(new_entity.0));
    }
    game_state.positions.create_with(&new_entity, p);
    game_state.memory.create(&new_entity);
    game_state.collision.create(&new_entity);
    game_state.solid_containers.create(&new_entity);
    proof {
        lemma_iron_sum_push(
            old(game_state).solid_containers.components_seq(),
            game_state.solid_containers.components_seq().last(),
        );
        assert(game_state.snap().memories =~~= spec_spawn_unit(
            old(game_state).snap(),
            p,
        ).memories);
        assert(game_state.snap() =~~= spec_spawn_unit(old(game_state).snap(), p));
    }
}

pub fn game_init() -> (r: GameState)
    ensures
        r.wf(),
        r.snap() == empty_snap(),
{
    GameState::new()
}

/// The bootstrap frame `game_load` builds: the hive at (0, 0), one
/// iron-bearing collidable entity with 900 iron at (10, 5), and one unit at
/// (0, 1) scripted with a three-step patrol.
pub open spec fn spec_loaded_snap() -> WorldSnap {
    WorldSnap {
        ids: seq![Entity(1), Entity(2), Entity(3)],
        positions: map![
            1u64 => Position { x: 0, y: 0 },
            2u64 => Position { x: 10, y: 5 },
            3u64 => Position { x: 0, y: 1 },
        ],
        collisions: map![2u64 => Collision { value: true }],
        energy: Map::empty(),
        mines: Map::empty(),
        containers: map![
            1u64 => SolidContainer { iron_count: 0, copper_count: 0 },
            2u64 => SolidContainer { iron_count: 900, copper_count: 0 },
        ],
        memories: map![
            3u64 => MemSnap {
                program_counter: 0,
                commands: seq![
                    Command::MoveP(Position { x: 0, y: 4 }),
                    Command::MoveP(Position { x: 0, y: 5 }),
                    Command::MoveP(Position { x: 0, y: 7 }),
                ],
            },
        ],
        hive: Some(Entity(1)),
    }
}

/// Builds the hard-coded in-memory bootstrap scenario.
pub fn game_load() -> (r: GameState)
    ensures
        r.wf(),
        r.snap() == spec_loaded_snap(),
{
    let mut new_game_state = GameState::new();

    new_game_state.create_hive(0, 0);

    let iron_e = new_game_state.entity_manager.create();
    proof {
        assert(!new_game_state.solid_containers@.contains_key(iron_e.0));
    }
    let ghost hive_containers = new_game_state.solid_containers.components_seq();
    new_game_state.solid_containers.create_with(
        &iron_e,
        SolidContainer { iron_count: 900, copper_count: 0 },
    );
    new_game_state.positions.create_with(&iron_e, Position::new(10, 5));
    new_game_state.collision.create_with(&iron_e, Collision { value: true });
    proof {
        lemma_iron_sum_push(hive_containers, SolidContainer { iron_count: 900, copper_count: 0 });
        assert(iron_sum(new_game_state.solid_containers.components_seq()) == 900);
    }

    let new_entity = new_game_state.entity_manager.create();
    new_game_state.positions.create_with(&new_entity, Position::new(0, 1));

    let mut program: Vec<Command> = Vec::new();
    program.push(Command::MoveP(Position { x: 0, y: 4 }));
    program.push(Command::MoveP(Position { x: 0, y: 5 }));
    program.push(Command::MoveP(Position { x: 0, y: 7 }));
    new_game_state.memory.create_with(
        &new_entity,
        Memory { program_counter: 0, commands: program },
    );
    proof {
        assert(new_game_state.snap().memories =~~= spec_loaded_snap().memories);
        assert(new_game_state.snap() =~~= spec_loaded_snap());
    }
    new_game_state
}

/// The fixed tile new units spawn on.
pub open spec fn spawn_target() -> Position {
    Position { x: 0, y: 1 }
}

/// Whether an entity stands close enough to the hive position (0, 0) for
/// commands to be loaded into it: Manhattan distance at most 5.
pub open spec fn load_range_ok(positions: Map<u64, Position>, id: u64) -> bool {
    &&& positions.contains_key(id)
    &&& spec_manhat(positions[id].x as int, positions[id].y as int, 0, 0) <= 5
}

/// What one user command does to a frame. A request against an entity out
/// of hive range, or without a Position or Memory component, changes
/// nothing. In range, LoadProgram replaces the whole program and restarts
/// the counter at 0; LoadCommand appends one command.
pub open spec fn spec_apply_user_command(w: WorldSnap, uc: UserCommand) -> WorldSnap {
    match uc {
        UserCommand::LoadProgram(e, prog) => {
            if load_range_ok(w.positions, e.0) && w.memories.contains_key(e.0) {
                WorldSnap {
                    memories: w.memories.insert(
                        e.0,
                        MemSnap { program_counter: 0, commands: prog@ },
                    ),
                    ..w
                }
            } else {
                w
            }
        },
        UserCommand::LoadCommand(e, c) => {
            if load_range_ok(w.positions, e.0) && w.memories.contains_key(e.0) {
                WorldSnap {
                    memories: w.memories.insert(
                        e.0,
                        MemSnap {
                            program_counter: w.memories[e.0].program_counter,
                            commands: w.memories[e.0].commands.push(c),
                        },
                    ),
                    ..w
                }
            } else {
                w
            }
        },
    }
}

/// The first `n` user commands of a tick, applied in order.
pub open spec fn spec_apply_user_commands(w: WorldSnap, ucs: Seq<UserCommand>, n: int) -> WorldSnap
    decreases n,
{
    if n <= 0 {
        w
    } else {
        spec_apply_user_command(spec_apply_user_commands(w, ucs, n - 1), ucs[n - 1])
    }
}

/// Applies every user command of the tick, each gated on hive distance.
fn apply_user_commands_phase(gs: &mut GameState, ucs: &Vec<UserCommand>)
    requires
        old(gs).wf(),
    ensures
        final(gs).wf(),
        final(gs).snap() == spec_apply_user_commands(old(gs).snap(), ucs@, ucs@.len() as int),
        final(gs).entity_manager == old(gs).entity_manager,
        final(gs).solid_containers == old(gs).solid_containers,
{
    let n = ucs.len();
    let mut i: usize = 0;
    while i < n
        invariant
            gs.wf(),
            n == ucs@.len(),
            i <= n,
            gs.snap() == spec_apply_user_commands(old(gs).snap(), ucs@, i as int),
            gs.entity_manager == old(gs).entity_manager,
            gs.solid_containers == old(gs).solid_containers,
        decreases n - i,
    {
        let ghost w_pre = gs.snap();
        match &ucs[i] {
            UserCommand::LoadProgram(e, prog) => {
                let in_range: bool;
                match gs.positions.get(e) {
                    Some(t) => {
                        in_range = manhat_distance(t.x, t.y, 0, 0) <= 5;
                    },
                    None => {
                        in_range = false;
                    },
                }
                if in_range {
                    match gs.memory.get_mut(e) {
                        Some(t) => {
                            t.commands = copy_commands(prog);
                            t.program_counter = 0;
                        },
                        None => (),
                    }
                }
            },
            UserCommand::LoadCommand(e, c) => {
                let in_range: bool;
                match gs.positions.get(e) {
                    Some(t) => {
                        in_range = manhat_distance(t.x, t.y, 0, 0) <= 5;
                    },
                    None => {
                        in_range = false;
                    },
                }
                if in_range {
                    match gs.memory.get_mut(e) {
                        Some(t) => {
                            t.commands.push(*c);
                        },
                        None => (),
                    }
                }
            },
        }
        proof {
            assert(gs.snap().memories =~~= spec_apply_user_command(w_pre, ucs@[i as int]).memories);
            assert(gs.snap() =~~= spec_apply_user_command(w_pre, ucs@[i as int]));
        }
        i = i + 1;
    }
}

/// What the spawn request does to a frame: with a hive present and no
/// Collision-flagged entity standing on the spawn tile (0, 1), one unit is
/// spawned there; otherwise nothing changes.
pub open spec fn spec_spawn_phase(w: WorldSnap, create_unit: bool) -> WorldSnap {
    if w.hive.is_some() && create_unit && !occupied_by_collider(
        w.positions,
        w.collisions,
        spawn_target(),
    ) {
        spec_spawn_unit(w, spawn_target())
    } else {
        w
    }
}

/// Spawns one unit at (0, 1) when requested, the hive exists, and the tile
/// is not blocked by a collider.
fn spawn_phase(gs: &mut GameState, create_unit: bool)
    requires
        old(gs).wf(),
        old(gs).entity_manager.entities@.len() + 1 < u64::MAX,
    ensures
        final(gs).wf(),
        final(gs).snap() == spec_spawn_phase(old(gs).snap(), create_unit),
        iron_sum(final(gs).solid_containers.components_seq()) == iron_sum(
            old(gs).solid_containers.components_seq(),
        ),
{
    if gs.has_hive() {
        if create_unit {
            let is_colliding = find_collider_at(&gs.positions, &gs.collision, Position::new(0, 1));
            if !is_colliding {
                spawn_unit(gs, Position::new(0, 1));
            }
        }
    }
}

/// Whether one dispatched command can run without hitting a missing
/// component the systems treat as an invariant violation: a transfer needs
/// both ends positioned, and a transfer whose gates pass needs the pulling
/// entity to carry a container.
pub open spec fn dispatch_safe(w: WorldSnap, e: Entity, cmd: Command) -> bool {
    match cmd {
        Command::Harvest(t) => w.positions.contains_key(e.0) ==> {
            &&& w.positions.contains_key(t.0)
            &&& (harvest_gates_pass(w.positions, w.containers, e.0, t.0, ResourceKind::Iron)
                ==> w.containers.contains_key(e.0))
        },
        Command::Deposit(t) => w.positions.contains_key(t.0) ==> {
            &&& w.positions.contains_key(e.0)
            &&& (harvest_gates_pass(w.positions, w.containers, t.0, e.0, ResourceKind::Iron)
                ==> w.containers.contains_key(t.0))
        },
        _ => true,
    }
}

/// `dispatch_safe` for the command the entity's program counter points at,
/// if the entity has a non-empty program.
pub open spec fn entity_step_safe(w: WorldSnap, e: Entity) -> bool {
    (w.memories.contains_key(e.0) && w.memories[e.0].commands.len() > 0) ==> dispatch_safe(
        w,
        e,
        w.memories[e.0].commands[w.memories[e.0].program_counter as int],
    )
}

/// What dispatching one command for entity `e` does to a frame. A failed
/// gate changes nothing; MoveD is observational only.
pub open spec fn spec_dispatch(w: WorldSnap, e: Entity, cmd: Command) -> WorldSnap {
    match cmd {
        Command::MoveP(p) => if w.positions.contains_key(e.0) {
            WorldSnap { positions: spec_move(w.positions, w.collisions, e.0, p), ..w }
        } else {
            w
        },
        Command::MoveD(_d) => w,
        Command::Harvest(t) => if w.positions.contains_key(e.0) && harvest_gates_pass(
            w.positions,
            w.containers,
            e.0,
            t.0,
            ResourceKind::Iron,
        ) {
            WorldSnap { containers: spec_harvest(w.containers, e.0, t.0), ..w }
        } else {
            w
        },
        Command::Deposit(t) => if w.positions.contains_key(t.0) && harvest_gates_pass(
            w.positions,
            w.containers,
            t.0,
            e.0,
            ResourceKind::Iron,
        ) {
            WorldSnap { containers: spec_harvest(w.containers, t.0, e.0), ..w }
        } else {
            w
        },
    }
}

/// One entity's turn: run the command under its program counter, and step
/// the counter, wrapping to 0 past the end of the program. An entity
/// without a memory, or with an empty program, changes nothing. A failed
/// instruction still advances the counter.
pub open spec fn spec_exec_entity(w: WorldSnap, e: Entity) -> WorldSnap {
    if w.memories.contains_key(e.0) && w.memories[e.0].commands.len() > 0 {
        let m = w.memories[e.0];
        let cmd = m.commands[m.program_counter as int];
        let stepped = spec_dispatch(w, e, cmd);
        let new_pc: usize = if m.program_counter + 1 >= m.commands.len() {
            0
        } else {
            (m.program_counter + 1) as usize
        };
        WorldSnap {
            memories: stepped.memories.insert(
                e.0,
                MemSnap { program_counter: new_pc, commands: m.commands },
            ),
            ..stepped
        }
    } else {
        w
    }
}

/// The first `n` live entities of the frame, each given one turn, in
/// creation order.
pub open spec fn spec_run_entities(w: WorldSnap, n: int) -> WorldSnap
    decreases n,
{
    if n <= 0 {
        w
    } else {
        let prev = spec_run_entities(w, n - 1);
        spec_exec_entity(prev, prev.ids[n - 1])
    }
}

/// The frame after the input phases of a tick (hive creation, command
/// loading, unit spawning), before the interpreter runs.
pub open spec fn spec_pre_phases(
    w: WorldSnap,
    make_hive: bool,
    create_unit: bool,
    ucs: Seq<UserCommand>,
) -> WorldSnap {
    let w1 = if make_hive {
        spec_create_hive(w, 0, 0)
    } else {
        w
    };
    let w2 = spec_apply_user_commands(w1, ucs, ucs.len() as int);
    spec_spawn_phase(w2, create_unit)
}

/// A whole tick: the input phases, followed by one turn for every live
/// entity in creation order.
pub open spec fn spec_tick(
    w: WorldSnap,
    make_hive: bool,
    create_unit: bool,
    ucs: Seq<UserCommand>,
) -> WorldSnap {
    let w3 = spec_pre_phases(w, make_hive, create_unit, ucs);
    spec_run_entities(w3, w3.ids.len() as int)
}

/// Whether the whole tick steers clear of the aborts `dispatch_safe`
/// rules out: at each entity's turn, evaluated in the frame as it stands
/// at that turn, the entity's current command can run.
pub open spec fn tick_safe(
    w: WorldSnap,
    make_hive: bool,
    create_unit: bool,
    ucs: Seq<UserCommand>,
) -> bool {
    let w3 = spec_pre_phases(w, make_hive, create_unit, ucs);
    forall|n: int|
        0 <= n < w3.ids.len() ==> entity_step_safe(
            #[trigger] spec_run_entities(w3, n),
            w3.ids[n],
        )
}

/// Gives every live entity with a non-empty program one turn, in creation
/// order.
fn run_entities_phase(gs: &mut GameState)
    requires
        old(gs).wf(),
        forall|n: int|
            0 <= n < old(gs).snap().ids.len() ==> entity_step_safe(
                #[trigger] spec_run_entities(old(gs).snap(), n),
                old(gs).snap().ids[n],
            ),
    ensures
        final(gs).wf(),
        final(gs).snap() == spec_run_entities(old(gs).snap(), old(gs).snap().ids.len() as int),
        iron_sum(final(gs).solid_containers.components_seq()) == iron_sum(
            old(gs).solid_containers.components_seq(),
        ),
{
    let n_entities = gs.entity_manager.count();
    let mut idx: usize = 0;
    while idx < n_entities
        invariant
            gs.wf(),
            n_entities == gs.entity_manager.entities@.len(),
            idx <= n_entities,
            gs.entity_manager == old(gs).entity_manager,
            gs.snap() == spec_run_entities(old(gs).snap(), idx as int),
            iron_sum(gs.solid_containers.components_seq()) == iron_sum(
                old(gs).solid_containers.components_seq(),
            ),
            forall|n: int|
                0 <= n < old(gs).snap().ids.len() ==> entity_step_safe(
                    #[trigger] spec_run_entities(old(gs).snap(), n),
                    old(gs).snap().ids[n],
                ),
        decreases n_entities - idx,
    {
        let e = gs.entity_manager.entities[idx];
        let ghost w_pre = gs.snap();
        proof {
            assert(e == old(gs).snap().ids[idx as int]);
            assert(entity_step_safe(w_pre, e));
        }
        let mut has_cmd = false;
        let mut cmd = Command::MoveD(Direction::North);
        let mut pc: usize = 0;
        let mut prog_len: usize = 0;
        match gs.memory.get(&e) {
            Some(m) => {
                if m.commands.len() > 0 {
                    proof {
                        assert(gs.memory@.contains_key(e.0) && gs.memory@[e.0].wf());
                    }
                    has_cmd = true;
                    pc = m.program_counter;
                    prog_len = m.commands.len();
                    cmd = m.commands[pc];
                }
            },
            None => {},
        }
        if has_cmd {
            proof {
                assert(dispatch_safe(w_pre, e, cmd));
            }
            match cmd {
                Command::MoveP(p) => {
                    if gs.positions.contains(&e) {
                        movement_system(&e, &mut gs.positions, &mut gs.collision, p);
                    }
                },
                Command::MoveD(_d) => {},
                Command::Harvest(t) => {
                    if gs.positions.contains(&e) {
                        proof {
                            harvest_receiver_fits(gs, e, t);
                        }
                        harvest_system(
                            &e,
                            &mut gs.positions,
                            &mut gs.solid_containers,
                            &t,
                            ResourceKind::Iron,
                        );
                    }
                },
                Command::Deposit(t) => {
                    if gs.positions.contains(&t) {
                        proof {
                            harvest_receiver_fits(gs, t, e);
                        }
                        harvest_system(
                            &t,
                            &mut gs.positions,
                            &mut gs.solid_containers,
                            &e,
                            ResourceKind::Iron,
                        );
                    }
                },
            }
            let new_pc: usize = if pc + 1 >= prog_len {
                0
            } else {
                pc + 1
            };
            match gs.memory.get_mut(&e) {
                Some(m) => {
                    m.program_counter = new_pc;
                },
                None => {},
            }
        }
        proof {
            assert(gs.snap().memories =~~= spec_exec_entity(w_pre, e).memories);
            assert(gs.snap() =~~= spec_exec_entity(w_pre, e));
        }
        idx = idx + 1;
    }
}

/// When a transfer's gates pass, the pulling entity's container has room
/// for one more unit: together the two containers never hold more than the
/// frame-wide iron bound.
proof fn harvest_receiver_fits(gs: &GameState, puller: Entity, source: Entity)
    requires
        gs.wf(),
        harvest_gates_pass(
            gs.positions@,
            gs.solid_containers@,
            puller.0,
            source.0,
            ResourceKind::Iron,
        ) && puller.0 != source.0 ==> gs.solid_containers@.contains_key(puller.0),
    ensures
        (harvest_gates_pass(
            gs.positions@,
            gs.solid_containers@,
            puller.0,
            source.0,
            ResourceKind::Iron,
        ) && puller.0 != source.0) ==> gs.solid_containers@[puller.0].iron_count < u32::MAX,
{
    if harvest_gates_pass(
        gs.positions@,
        gs.solid_containers@,
        puller.0,
        source.0,
        ResourceKind::Iron,
    ) && puller.0 != source.0 {
        let i = gs.solid_containers.lookup_map()[puller.0] as int;
        let j = gs.solid_containers.lookup_map()[source.0] as int;
        assert(gs.solid_containers.entities_seq()[i].0 == puller.0);
        assert(gs.solid_containers.entities_seq()[j].0 == source.0);
        lemma_iron_sum_pair(gs.solid_containers.components_seq(), i, j);
    }
}

/// One whole tick: the given frame plus this tick's input produce the next
/// frame. Input commands are applied first (distance-gated), a unit may be
/// spawned, and afterwards every live entity executes one instruction of its
/// program, the counter wrapping past the end. The total iron across all
/// containers never changes.
pub fn game_update(game_state: GameState, game_input: &GameInput) -> (r: GameState)
    requires
        game_state.wf(),
        game_state.entity_manager.entities@.len() + 2 < u64::MAX,
        tick_safe(
            game_state.snap(),
            game_input.create_hive,
            game_input.create_unit,
            game_input.user_commands@,
        ),
    ensures
        r.wf(),
        r.snap() == spec_tick(
            game_state.snap(),
            game_input.create_hive,
            game_input.create_unit,
            game_input.user_commands@,
        ),
        iron_sum(r.solid_containers.components_seq()) == iron_sum(
            game_state.solid_containers.components_seq(),
        ),
{
    let ghost w0 = game_state.snap();
    let ghost w1 = if game_input.create_hive {
        spec_create_hive(w0, 0, 0)
    } else {
        w0
    };
    let mut new_game_state = game_state;
    if game_input.create_hive {
        if !new_game_state.has_hive() {
            new_game_state.create_hive(0, 0);
        }
    }
    proof {
        assert(new_game_state.snap() == w1);
    }
    apply_user_commands_phase(&mut new_game_state, &game_input.user_commands);
    spawn_phase(&mut new_game_state, game_input.create_unit);
    proof {
        assert(new_game_state.snap() == spec_pre_phases(
            w0,
            game_input.create_hive,
            game_input.create_unit,
            game_input.user_commands@,
        ));
    }
    run_entities_phase(&mut new_game_state);
    new_game_state
}

/// Command-load distance gate: a LoadProgram request against an entity
/// standing farther than Manhattan distance 5 from the hive position (0, 0)
/// leaves that entity's program untouched; at distance 5 or less it fully
/// replaces the program, restarting the counter at 0.
pub proof fn lemma_load_program_gate(w: WorldSnap, e: Entity, prog: Vec<Command>)
    requires
        w.positions.contains_key(e.0),
        w.memories.contains_key(e.0),
    ensures
        spec_manhat(w.positions[e.0].x as int, w.positions[e.0].y as int, 0, 0) > 5
            ==> spec_apply_user_command(w, UserCommand::LoadProgram(e, prog)) == w,
        spec_manhat(w.positions[e.0].x as int, w.positions[e.0].y as int, 0, 0) <= 5
            ==> spec_apply_user_command(w, UserCommand::LoadProgram(e, prog)).memories[e.0]
            == (MemSnap { program_counter: 0, commands: prog@ }),
{
}

/// Program-counter wraparound: one turn advances the counter by exactly
/// one, wrapping to 0 when it passes the end of the program, and never
/// changes the program itself. A 3-step program therefore cycles
/// 0, 1, 2, 0 over four turns.
pub proof fn lemma_program_counter_wraps(w: WorldSnap, e: Entity)
    requires
        w.memories.contains_key(e.0),
        w.memories[e.0].commands.len() > 0,
        w.memories[e.0].program_counter < w.memories[e.0].commands.len(),
        w.memories[e.0].commands.len() <= usize::MAX,
    ensures
        spec_exec_entity(w, e).memories[e.0].program_counter == (
        if w.memories[e.0].program_counter + 1 >= w.memories[e.0].commands.len() {
            0
        } else {
            w.memories[e.0].program_counter + 1
        }),
        spec_exec_entity(w, e).memories[e.0].commands == w.memories[e.0].commands,
{
    let m = w.memories[e.0];
    let cmd = m.commands[m.program_counter as int];
    assert(spec_dispatch(w, e, cmd).memories == w.memories) by {
        match cmd {
            Command::MoveP(_p) => {},
            Command::MoveD(_d) => {},
            Command::Harvest(_t) => {},
            Command::Deposit(_t) => {},
        }
    }
}

} // verus!

//! The component kinds an entity can carry, and the commands a unit's
//! program is made of.

use vstd::prelude::*;
use crate::entity_manager::Entity;

verus! {

/// A component type that can be created with a well-known initial value.
/// Every component kind implements this; the sparse-set store uses it when a
/// component is created without an explicit value.
pub trait DefaultComponent: Sized {
    /// Whether a value is the initial value of this component kind.
    spec fn is_init(&self) -> bool;

    /// Builds the initial value of this component kind.
    fn init_value() -> (r: Self)
        ensures
            r.is_init(),
    ;
}

/// Position component: the tile an entity stands on.
#[derive(Clone, Copy, PartialEq, Eq, Hash, Debug, Structural)]
pub struct Position {
    pub x: u32,
    pub y: u32,
}

impl Position {
    pub fn new(x: u32, y: u32) -> (r: Position)
        ensures
            r == (Position { x, y }),
    {
        Position { x, y }
    }
}

impl DefaultComponent for Position {
    open spec fn is_init(&self) -> bool {
        self == (Position { x: 0, y: 0 })
    }

    fn init_value() -> (r: Position)
        ensures
            r.is_init(),
    {
        Position { x: 0, y: 0 }
    }
}

/// How much energy an entity holds.
#[derive(Clone, Copy, PartialEq, Eq, Debug, Structural)]
pub struct EnergyLevel {
    pub value: u32,
}

impl DefaultComponent for EnergyLevel {
    open spec fn is_init(&self) -> bool {
        self.value == 0
    }

    fn init_value() -> (r: EnergyLevel)
        ensures
            r.is_init(),
    {
        EnergyLevel { value: 0 }
    }
}

/// Storage of solid resources an entity holds.
#[derive(Clone, Copy, PartialEq, Eq, Debug, Structural)]
pub struct SolidContainer {
    pub iron_count: u32,
    pub copper_count: u32,
}

impl DefaultComponent for SolidContainer {
    open spec fn is_init(&self) -> bool {
        self == (SolidContainer { iron_count: 0, copper_count: 0 })
    }

    fn init_value() -> (r: SolidContainer)
        ensures
            r.is_init(),
    {
        SolidContainer { iron_count: 0, copper_count: 0 }
    }
}

/// Collision component: an entity carrying it takes part in collision
/// checks. Presence of the component is what matters to movement; an entity
/// without it never blocks a tile.
#[derive(Clone, Copy, PartialEq, Eq, Debug, Structural)]
pub struct Collision {
    pub value: bool,
}

impl DefaultComponent for Collision {
    open spec fn is_init(&self) -> bool {
        self.value == false
    }

    fn init_value() -> (r: Collision)
        ensures
            r.is_init(),
    {
        Collision { value: false }
    }
}

/// Aggregate resources of the hive.
#[derive(Clone, Copy, PartialEq, Eq, Debug, Structural)]
pub struct Hive {
    pub minerals: u32,
    pub gas: u32,
    pub iron: u32,
    pub copper: u32,
}

/// A node that units can mine resources out of. Harvesting currently
/// transfers out of a SolidContainer and leaves these depletion counters
/// untouched; the component only marks an entity as a mineable node.
#[derive(Clone, Copy, PartialEq, Eq, Debug, Structural)]
pub struct MineableNode {
    pub current_amount: u32,
    pub initial_amount: u32,
}

impl DefaultComponent for MineableNode {
    open spec fn is_init(&self) -> bool {
        self == (MineableNode { current_amount: 0, initial_amount: 0 })
    }

    fn init_value() -> (r: MineableNode)
        ensures
            r.is_init(),
    {
        MineableNode { current_amount: 0, initial_amount: 0 }
    }
}

/// A single tile of flooring that items can stand on.
#[derive(Clone, Copy, PartialEq, Eq, Debug, Structural)]
pub struct Tile {}

/// A compass direction.
#[derive(Clone, Copy, PartialEq, Eq, Debug, Structural)]
pub enum Direction {
    North,
    East,
    South,
    West,
}

/// One instruction of a unit's program.
#[derive(Clone, Copy, PartialEq, Eq, Debug, Structural)]
pub enum Command {
    /// Move to the given tile.
    MoveP(Position),
    /// Move one step in a direction. Currently observational only: the
    /// interpreter performs no position change for it.
    MoveD(Direction),
    /// Pull one resource unit out of the given entity.
    Harvest(Entity),
    /// Push one resource unit into the given entity.
    Deposit(Entity),
}

/// The kind of resource a transfer moves. Only iron transfers are
/// implemented; a transfer of any other kind leaves both containers
/// unchanged.
#[derive(Clone, Copy, PartialEq, Eq, Debug, Structural)]
pub enum ResourceKind {
    Iron,
    Copper,
}

/// Memory component: a unit's persistent program together with its program
/// counter. The counter points at the next command to run and wraps to 0
/// after the last command executes.
pub struct Memory {
    pub program_counter: usize,
    pub commands: Vec<Command>,
}

impl Memory {
    /// A memory is coherent when the counter points into the program (or is
    /// 0 while the program is empty).
    pub open spec fn wf(&self) -> bool {
        &&& self.commands@.len() == 0 ==> self.program_counter == 0
        &&& self.commands@.len() > 0 ==> self.program_counter < self.commands@.len()
    }
}

impl DefaultComponent for Memory {
    open spec fn is_init(&self) -> bool {
        self.program_counter == 0 && self.commands@.len() == 0
    }

    fn init_value() -> (r: Memory)
        ensures
            r.is_init(),
    {
        Memory { program_counter: 0, commands: Vec::new() }
    }
}

impl Default for Memory {
    fn default() -> (r: Memory)
        ensures
            r.is_init(),
    {
        Memory { program_counter: 0, commands: Vec::new() }
    }
}

/// Copies a program. Commands are plain values, so the copy holds exactly
/// the same sequence.
pub fn copy_commands(v: &Vec<Command>) -> (r: Vec<Command>)
    ensures
        r@ == v@,
{
    let mut r: Vec<Command> = Vec::new();
    let mut i: usize = 0;
    while i < v.len()
        invariant
            i <= v@.len(),
            r@ == v@.subrange(0, i as int),
        decreases v@.len() - i,
    {
        r.push(v[i]);
        proof {
            assert(r@ =~= v@.subrange(0, i + 1 as int));
        }
        i = i + 1;
    }
    proof {
        assert(r@ =~= v@);
    }
    r
}

} // verus!

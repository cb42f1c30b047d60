//! The game's data: classes, players, enemies and the shared world state.
use vstd::prelude::*;

use crate::tables::{EnemyTable, PlayerTable};

verus! {

/// A point or direction in the world, each coordinate held as the bit
/// pattern of its `f32` (`f32::to_bits`), so that it is carried unchanged.
#[derive(Clone, Copy, Debug, PartialEq, Eq, Structural)]
pub struct Vec3Bits {
    pub x: u32,
    pub y: u32,
    pub z: u32,
}

/// The bit pattern of `0.0_f32`.
pub const F32_ZERO_BITS: u32 = 0u32;

/// The bit pattern of `0.5_f32`.
pub const F32_HALF_BITS: u32 = 0x3F00_0000u32;

/// The bit pattern of `1.0_f32`.
pub const F32_ONE_BITS: u32 = 0x3F80_0000u32;

impl Vec3Bits {
    /// `(0.0, 0.0, 0.0)`.
    pub open spec fn spec_origin() -> Vec3Bits {
        Vec3Bits { x: F32_ZERO_BITS, y: F32_ZERO_BITS, z: F32_ZERO_BITS }
    }

    /// `(0.0, 1.0, 0.0)`, the upward unit vector.
    pub open spec fn spec_up() -> Vec3Bits {
        Vec3Bits { x: F32_ZERO_BITS, y: F32_ONE_BITS, z: F32_ZERO_BITS }
    }

    /// `(0.0, 0.5, 0.0)`, where a new player stands.
    pub open spec fn spec_spawn_point() -> Vec3Bits {
        Vec3Bits { x: F32_ZERO_BITS, y: F32_HALF_BITS, z: F32_ZERO_BITS }
    }

    /// `(0.0, 0.0, 0.0)`.
    pub fn origin() -> (v: Vec3Bits)
        ensures
            v == Vec3Bits::spec_origin(),
    {
        Vec3Bits { x: F32_ZERO_BITS, y: F32_ZERO_BITS, z: F32_ZERO_BITS }
    }

    /// `(0.0, 1.0, 0.0)`.
    pub fn up() -> (v: Vec3Bits)
        ensures
            v == Vec3Bits::spec_up(),
    {
        Vec3Bits { x: F32_ZERO_BITS, y: F32_ONE_BITS, z: F32_ZERO_BITS }
    }

    /// `(0.0, 0.5, 0.0)`.
    pub fn spawn_point() -> (v: Vec3Bits)
        ensures
            v == Vec3Bits::spec_spawn_point(),
    {
        Vec3Bits { x: F32_ZERO_BITS, y: F32_HALF_BITS, z: F32_ZERO_BITS }
    }
}

/// The classes a player can play.
#[derive(Clone, Copy, Debug, PartialEq, Eq, Structural)]
pub enum Class {
    Fighter,
    Engineer,
    Chronowatcher,
    Emperor,
    Mutant,
    Harbinger,
    Paladin,
    Mystic,
}

/// The text that names a class.
pub open spec fn class_text(c: Class) -> Seq<char> {
    match c {
        Class::Fighter => "Fighter"@,
        Class::Engineer => "Engineer"@,
        Class::Chronowatcher => "Chronowatcher"@,
        Class::Emperor => "Emperor"@,
        Class::Mutant => "Mutant"@,
        Class::Harbinger => "Harbinger"@,
        Class::Paladin => "Paladin"@,
        Class::Mystic => "Mystic"@,
    }
}

impl Class {
    /// The class's name as it is shown to players.
    pub fn to_text(&self) -> (s: String)
        ensures
            s@ == class_text(*self),
    {
        match self {
            Class::Fighter => String::from_str("Fighter"),
            Class::Engineer => String::from_str("Engineer"),
            Class::Chronowatcher => String::from_str("Chronowatcher"),
            Class::Emperor => String::from_str("Emperor"),
            Class::Mutant => String::from_str("Mutant"),
            Class::Harbinger => String::from_str("Harbinger"),
            Class::Paladin => String::from_str("Paladin"),
            Class::Mystic => String::from_str("Mystic"),
        }
    }
}

/// Every item the game has.
#[derive(Clone, Copy, Debug, PartialEq, Eq, Structural)]
pub enum Item {
    Test,
}

/// What is known of a player, as plain values.
pub ghost struct PlayerView {
    pub name: Seq<char>,
    pub id: Seq<char>,
    pub class: Class,
    pub loc: Vec3Bits,
    pub health: isize,
    pub inv: Seq<Item>,
    pub direction: Vec3Bits,
    pub client_assinged_id: Seq<char>,
    pub resource_amount: usize,
}

/// Data about a player.
#[derive(Debug)]
pub struct Player {
    /// Player name.
    pub name: String,
    /// Unique player id, given by the server.
    pub id: String,
    /// The player's class.
    pub class: Class,
    /// Where the player stands.
    pub loc: Vec3Bits,
    /// The player's health.
    pub health: isize,
    /// The player's inventory.
    pub inv: Vec<Item>,
    /// Where the player faces.
    pub direction: Vec3Bits,
    /// Unique player id, given by the client.
    pub client_assinged_id: String,
    /// The amount of a class resource, such as an engineer's nanobots.
    pub resource_amount: usize,
}

impl View for Player {
    type V = PlayerView;

    open spec fn view(&self) -> PlayerView {
        PlayerView {
            name: self.name@,
            id: self.id@,
            class: self.class,
            loc: self.loc,
            health: self.health,
            inv: self.inv@,
            direction: self.direction,
            client_assinged_id: self.client_assinged_id@,
            resource_amount: self.resource_amount,
        }
    }
}

/// A copy of a list of items.
pub fn copy_items(v: &Vec<Item>) -> (r: Vec<Item>)
    ensures
        r@ == v@,
{
    let mut r: Vec<Item> = Vec::new();
    let mut i: usize = 0;
    while i < v.len()
        invariant
            i <= v.len(),
            r@ == v@.take(i as int),
        decreases v.len() - i,
    {
        r.push(v[i]);
        i = i + 1;
        assert(r@ =~= v@.take(i as int));
    }
    assert(v@.take(v.len() as int) =~= v@);
    r
}

impl Player {
    /// A copy of this player.
    pub fn duplicate(&self) -> (r: Player)
        ensures
            r@ == self@,
    {
        Player {
            name: self.name.clone(),
            id: self.id.clone(),
            class: self.class,
            loc: self.loc,
            health: self.health,
            inv: copy_items(&self.inv),
            direction: self.direction,
            client_assinged_id: self.client_assinged_id.clone(),
            resource_amount: self.resource_amount,
        }
    }
}

/// The kinds of enemy.
#[derive(Clone, Copy, Debug, PartialEq, Eq, Structural)]
pub enum Enemy {
    /// Skeleton archer.
    SkeletonArcher,
    /// Vawnite.
    Vawnite,
    /// Debug, also a null kind.
    Debug,
    /// Filler: the client despawns any entity of this kind.
    Filler,
}

/// The text that names a kind of enemy.
pub open spec fn enemy_text(e: Enemy) -> Seq<char> {
    match e {
        Enemy::SkeletonArcher => "Skeleton Archer"@,
        Enemy::Vawnite => "Vamnite DEBUG: lvl1"@,
        Enemy::Debug => "Debug"@,
        Enemy::Filler => "None"@,
    }
}

impl Enemy {
    /// The kind's name as it is shown above an enemy.
    pub fn to_text(&self) -> (s: String)
        ensures
            s@ == enemy_text(*self),
    {
        match self {
            Enemy::SkeletonArcher => String::from_str("Skeleton Archer"),
            Enemy::Vawnite => String::from_str("Vamnite DEBUG: lvl1"),
            Enemy::Debug => String::from_str("Debug"),
            Enemy::Filler => String::from_str("None"),
        }
    }

    /// A living enemy of this kind with the given id at `loc`, facing nowhere.
    pub fn make_alive(&self, id: String, loc: Vec3Bits) -> (r: AliveEnemy)
        ensures
            r@ == (AliveEnemyView {
                id: id@,
                kind: *self,
                pos: loc,
                direction: Vec3Bits::spec_origin(),
            }),
    {
        AliveEnemy { id, kind: *self, pos: loc, direction: Vec3Bits::origin() }
    }
}

/// What is known of a living enemy, as plain values.
pub ghost struct AliveEnemyView {
    pub id: Seq<char>,
    pub kind: Enemy,
    pub pos: Vec3Bits,
    pub direction: Vec3Bits,
}

/// An enemy in the world.
#[derive(Debug)]
pub struct AliveEnemy {
    pub id: String,
    pub kind: Enemy,
    pub pos: Vec3Bits,
    pub direction: Vec3Bits,
}

impl View for AliveEnemy {
    type V = AliveEnemyView;

    open spec fn view(&self) -> AliveEnemyView {
        AliveEnemyView { id: self.id@, kind: self.kind, pos: self.pos, direction: self.direction }
    }
}

impl AliveEnemy {
    /// A copy of this enemy.
    pub fn duplicate(&self) -> (r: AliveEnemy)
        ensures
            r@ == self@,
    {
        AliveEnemy { id: self.id.clone(), kind: self.kind, pos: self.pos, direction: self.direction }
    }
}

/// The kinds of entity that the server tells clients about.
#[derive(Clone, Copy, Debug, PartialEq, Eq, Structural)]
pub enum EntityType {
    Player,
    Enemy,
    Other,
}

/// What is known of an entity on the wire, as plain values.
pub ghost struct RawEntityView {
    pub id: Seq<char>,
    pub pos: Vec3Bits,
    pub enemy_type: Enemy,
}

/// An entity as it travels between server and client.
#[derive(Debug)]
pub struct RawEntity {
    pub id: String,
    pub pos: Vec3Bits,
    pub enemy_type: Enemy,
}

impl View for RawEntity {
    type V = RawEntityView;

    open spec fn view(&self) -> RawEntityView {
        RawEntityView { id: self.id@, pos: self.pos, enemy_type: self.enemy_type }
    }
}

impl RawEntity {
    /// The living enemy that this entity stands for, as plain values.
    pub open spec fn make_alive_view(&self) -> AliveEnemyView {
        AliveEnemyView {
            id: self.id@,
            kind: self.enemy_type,
            pos: self.pos,
            direction: Vec3Bits::spec_origin(),
        }
    }

    /// The living enemy that this entity stands for, facing nowhere.
    pub fn make_alive(&self) -> (r: AliveEnemy)
        ensures
            r@ == self.make_alive_view(),
            r@ == (AliveEnemyView {
                id: self.id@,
                kind: self.enemy_type,
                pos: self.pos,
                direction: Vec3Bits::spec_origin(),
            }),
    {
        AliveEnemy {
            id: self.id.clone(),
            kind: self.enemy_type,
            pos: self.pos,
            direction: Vec3Bits::origin(),
        }
    }

    /// A copy of this entity.
    pub fn duplicate(&self) -> (r: RawEntity)
        ensures
            r@ == self@,
    {
        RawEntity { id: self.id.clone(), pos: self.pos, enemy_type: self.enemy_type }
    }
}

/// The enemy that an entity on the wire stands for has the entity's id,
/// kind and position, and faces `(0.0, 0.0, 0.0)`.
pub proof fn lemma_alive_keeps_entity(d: RawEntity)
    ensures
        d.make_alive_view().id == d.id@,
        d.make_alive_view().kind == d.enemy_type,
        d.make_alive_view().pos == d.pos,
        d.make_alive_view().direction == (Vec3Bits { x: 0, y: 0, z: 0 }),
{
}

/// An object placed in the world.
#[derive(Debug)]
pub struct WorldOject {
    /// The object's id.
    pub id: String,
    /// Its position.
    pub pos: Vec3Bits,
    /// Its size.
    pub size: Vec3Bits,
    /// The player that spawned it, if any.
    pub owner: Option<String>,
    /// How long it lasts, if it has a lifetime.
    pub lifetime: Option<u64>,
}

/// Everyone alive in the world: players and enemies, each under its key.
pub struct LivingEntities {
    /// Key to player.
    pub players: PlayerTable,
    /// Key to enemy.
    pub enemies: EnemyTable,
}

impl LivingEntities {
    /// Both tables hold finitely many entries.
    pub open spec fn wf(&self) -> bool {
        self.players@.dom().finite() && self.enemies@.dom().finite()
    }

    /// An empty world.
    pub fn default() -> (r: LivingEntities)
        ensures
            r.players@ == Map::<Seq<char>, PlayerView>::empty(),
            r.enemies@ == Map::<Seq<char>, AliveEnemyView>::empty(),
            r.wf(),
    {
        LivingEntities { players: PlayerTable::new(), enemies: EnemyTable::new() }
    }

    /// A copy of both tables.
    pub fn duplicate(&self) -> (r: LivingEntities)
        requires
            self.wf(),
        ensures
            r.players@ == self.players@,
            r.enemies@ == self.enemies@,
            r.wf(),
    {
        LivingEntities { players: self.players.duplicate(), enemies: self.enemies.duplicate() }
    }
}

/// The actions a player takes in one movement update.
#[derive(Debug)]
pub struct CurrentActions {
    pub actions: Vec<Action>,
}

/// What a player can do besides moving.
#[derive(Clone, Copy, Debug, PartialEq, Eq, Structural)]
pub enum Action {
    PrimaryFire,
    AltFire,
    Ability1,
    Ability2,
    Ability3,
    Crouch,
}

/// An object of the world that may belong to a player.
#[derive(Debug)]
pub struct WorldObject {
    /// The object's position.
    pub pos: Vec3Bits,
    /// The object's id.
    pub id: String,
    /// Whether a player can break it.
    pub breakable: bool,
    /// The id of its mesh asset.
    pub mesh_id: String,
    /// The server id of the player that spawned it, or the server's own mark.
    pub owner: String,
}

} // verus!

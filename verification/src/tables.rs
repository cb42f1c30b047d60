//! The keyed tables of the game, each a `bevy::utils::HashMap` held in a
//! private field, with what each operation does stated over the table's
//! contents.
use vstd::prelude::*;

use bevy::ecs::entity::Entity;
use bevy::utils::HashMap;

use crate::defaults::{AliveEnemy, AliveEnemyView, Player, PlayerView, RawEntity, RawEntityView};

verus! {

/// `bevy::ecs::entity::Entity`, a handle of the ECS world, carried as it is.
#[verifier::external_type_specification]
#[verifier::external_body]
pub struct ExEntity(Entity);

/// A table from key to player, held in a `bevy::utils::HashMap<String, Player>`.
#[verifier::external_body]
pub struct PlayerTable {
    inner: HashMap<String, Player>,
}

/// What a `PlayerTable` holds: each key to its player.
pub uninterp spec fn player_table_contents(t: PlayerTable) -> Map<Seq<char>, PlayerView>;

impl View for PlayerTable {
    type V = Map<Seq<char>, PlayerView>;

    open spec fn view(&self) -> Map<Seq<char>, PlayerView> {
        player_table_contents(*self)
    }
}

/// `HashMap::default`: an empty map.
#[verifier::external_body]
fn player_table_new() -> (fresh: PlayerTable)
    ensures
        player_table_contents(fresh).dom().is_empty(),
{
    PlayerTable { inner: HashMap::default() }
}

/// `HashMap::len`: the number of keys held.
#[verifier::external_body]
fn player_table_len(t: &PlayerTable) -> (n: usize)
    ensures
        n == player_table_contents(*t).len(),
{
    t.inner.len()
}

/// `HashMap::contains_key`: whether the key is held.
#[verifier::external_body]
fn player_table_contains(t: &PlayerTable, key: &String) -> (b: bool)
    ensures
        b == player_table_contents(*t).contains_key(key@),
{
    t.inner.contains_key(key)
}

/// `HashMap::get`: the value held under the key, if any.
#[verifier::external_body]
fn player_table_get<'a>(t: &'a PlayerTable, key: &String) -> (r: Option<&'a Player>)
    ensures
        match r {
            Some(v) => player_table_contents(*t).contains_key(key@) && (*v)@ == player_table_contents(*t)[key@],
            None => !player_table_contents(*t).contains_key(key@),
        },
{
    t.inner.get(key)
}

/// `HashMap::insert`: the key now holds the value; what it held before comes back.
#[verifier::external_body]
fn player_table_insert(t: &mut PlayerTable, key: String, value: Player) -> (prev: Option<Player>)
    ensures
        player_table_contents(*final(t)) == player_table_contents(*old(t)).insert(key@, value@),
        match prev {
            Some(v) => player_table_contents(*old(t)).contains_key(key@) && v@ == player_table_contents(*old(t))[key@],
            None => !player_table_contents(*old(t)).contains_key(key@),
        },
{
    t.inner.insert(key, value)
}

/// `HashMap::remove`: the key is no longer held; what it held comes back.
#[verifier::external_body]
fn player_table_remove(t: &mut PlayerTable, key: &String) -> (prev: Option<Player>)
    ensures
        player_table_contents(*final(t)) == player_table_contents(*old(t)).remove(key@),
        match prev {
            Some(v) => player_table_contents(*old(t)).contains_key(key@) && v@ == player_table_contents(*old(t))[key@],
            None => !player_table_contents(*old(t)).contains_key(key@),
        },
{
    t.inner.remove(key)
}

/// `HashMap::keys`, each key copied: every held key once, in the map's own
/// order, which depends on the hasher's random seed and is not stated.
#[verifier::external_body]
fn player_table_keys(t: &PlayerTable) -> (ks: Vec<String>)
    ensures
        forall|i: int| 0 <= i < ks.len() ==> player_table_contents(*t).contains_key(#[trigger] ks@[i]@),
        forall|k: Seq<char>| player_table_contents(*t).contains_key(k) ==> exists|i: int| 0 <= i < ks.len() && #[trigger] ks@[i]@ == k,
        forall|i: int, j: int| 0 <= i < j < ks.len() ==> ks@[i]@ != ks@[j]@,
{
    t.inner.keys().cloned().collect()
}

impl PlayerTable {
    /// An empty table.
    pub fn new() -> (t: PlayerTable)
        ensures
            t@ == Map::<Seq<char>, PlayerView>::empty(),
            t@.dom().finite(),
    {
        let t = player_table_new();
        assert(t@ =~= Map::<Seq<char>, PlayerView>::empty());
        t
    }

    /// The number of keys held.
    pub fn len(&self) -> (n: usize)
        ensures
            n == self@.len(),
    {
        player_table_len(self)
    }

    /// Whether the key is held.
    pub fn contains_key(&self, key: &String) -> (b: bool)
        ensures
            b == self@.contains_key(key@),
    {
        player_table_contains(self, key)
    }

    /// The value held under the key, if any.
    pub fn get<'a>(&'a self, key: &String) -> (r: Option<&'a Player>)
        ensures
            match r {
                Some(v) => self@.contains_key(key@) && (*v)@ == self@[key@],
                None => !self@.contains_key(key@),
            },
    {
        player_table_get(self, key)
    }

    /// Puts the value under the key, giving back what the key held before.
    pub fn insert(&mut self, key: String, value: Player) -> (prev: Option<Player>)
        ensures
            final(self)@ == old(self)@.insert(key@, value@),
            match prev {
                Some(v) => old(self)@.contains_key(key@) && v@ == old(self)@[key@],
                None => !old(self)@.contains_key(key@),
            },
    {
        player_table_insert(self, key, value)
    }

    /// Takes the key out, giving back what it held.
    pub fn remove(&mut self, key: &String) -> (prev: Option<Player>)
        ensures
            final(self)@ == old(self)@.remove(key@),
            match prev {
                Some(v) => old(self)@.contains_key(key@) && v@ == old(self)@[key@],
                None => !old(self)@.contains_key(key@),
            },
    {
        player_table_remove(self, key)
    }

    /// Every held key once, in no stated order.
    pub fn keys(&self) -> (ks: Vec<String>)
        ensures
            forall|i: int| 0 <= i < ks.len() ==> self@.contains_key(#[trigger] ks@[i]@),
            forall|k: Seq<char>| self@.contains_key(k) ==> exists|i: int| 0 <= i < ks.len() && #[trigger] ks@[i]@ == k,
            forall|i: int, j: int| 0 <= i < j < ks.len() ==> ks@[i]@ != ks@[j]@,
    {
        player_table_keys(self)
    }

    /// A copy of the table.
    pub fn duplicate(&self) -> (r: PlayerTable)
        requires
            self@.dom().finite(),
        ensures
            r@ == self@,
            r@.dom().finite(),
    {
        let ks = self.keys();
        let mut r = PlayerTable::new();
        let mut i: usize = 0;
        while i < ks.len()
            invariant
                i <= ks.len(),
                r@.dom().finite(),
                forall|j: int| 0 <= j < ks.len() ==> self@.contains_key(#[trigger] ks@[j]@),
                forall|j: int, l: int| 0 <= j < l < ks.len() ==> ks@[j]@ != ks@[l]@,
                forall|k: Seq<char>| #[trigger] r@.contains_key(k) <==> exists|j: int| 0 <= j < i && #[trigger] ks@[j]@ == k,
                forall|k: Seq<char>| #[trigger] r@.contains_key(k) ==> r@[k] == self@[k],
            decreases ks.len() - i,
        {
            let key = ks[i].clone();
            match self.get(&ks[i]) {
                Some(v) => {
                    let c = v.duplicate();
                    r.insert(key, c);
                },
                None => {},
            }
            i = i + 1;
        }
        assert(r@ =~= self@);
        r
    }
}

/// A table from key to enemy, held in a `bevy::utils::HashMap<String, AliveEnemy>`.
#[verifier::external_body]
pub struct EnemyTable {
    inner: HashMap<String, AliveEnemy>,
}

/// What a `EnemyTable` holds: each key to its enemy.
pub uninterp spec fn enemy_table_contents(t: EnemyTable) -> Map<Seq<char>, AliveEnemyView>;

impl View for EnemyTable {
    type V = Map<Seq<char>, AliveEnemyView>;

    open spec fn view(&self) -> Map<Seq<char>, AliveEnemyView> {
        enemy_table_contents(*self)
    }
}

/// `HashMap::default`: an empty map.
#[verifier::external_body]
fn enemy_table_new() -> (fresh: EnemyTable)
    ensures
        enemy_table_contents(fresh).dom().is_empty(),
{
    EnemyTable { inner: HashMap::default() }
}

/// `HashMap::len`: the number of keys held.
#[verifier::external_body]
fn enemy_table_len(t: &EnemyTable) -> (n: usize)
    ensures
        n == enemy_table_contents(*t).len(),
{
    t.inner.len()
}

/// `HashMap::contains_key`: whether the key is held.
#[verifier::external_body]
fn enemy_table_contains(t: &EnemyTable, key: &String) -> (b: bool)
    ensures
        b == enemy_table_contents(*t).contains_key(key@),
{
    t.inner.contains_key(key)
}

/// `HashMap::get`: the value held under the key, if any.
#[verifier::external_body]
fn enemy_table_get<'a>(t: &'a EnemyTable, key: &String) -> (r: Option<&'a AliveEnemy>)
    ensures
        match r {
            Some(v) => enemy_table_contents(*t).contains_key(key@) && (*v)@ == enemy_table_contents(*t)[key@],
            None => !enemy_table_contents(*t).contains_key(key@),
        },
{
    t.inner.get(key)
}

/// `HashMap::insert`: the key now holds the value; what it held before comes back.
#[verifier::external_body]
fn enemy_table_insert(t: &mut EnemyTable, key: String, value: AliveEnemy) -> (prev: Option<AliveEnemy>)
    ensures
        enemy_table_contents(*final(t)) == enemy_table_contents(*old(t)).insert(key@, value@),
        match prev {
            Some(v) => enemy_table_contents(*old(t)).contains_key(key@) && v@ == enemy_table_contents(*old(t))[key@],
            None => !enemy_table_contents(*old(t)).contains_key(key@),
        },
{
    t.inner.insert(key, value)
}

/// `HashMap::remove`: the key is no longer held; what it held comes back.
#[verifier::external_body]
fn enemy_table_remove(t: &mut EnemyTable, key: &String) -> (prev: Option<AliveEnemy>)
    ensures
        enemy_table_contents(*final(t)) == enemy_table_contents(*old(t)).remove(key@),
        match prev {
            Some(v) => enemy_table_contents(*old(t)).contains_key(key@) && v@ == enemy_table_contents(*old(t))[key@],
            None => !enemy_table_contents(*old(t)).contains_key(key@),
        },
{
    t.inner.remove(key)
}

/// `HashMap::keys`, each key copied: every held key once, in the map's own
/// order, which depends on the hasher's random seed and is not stated.
#[verifier::external_body]
fn enemy_table_keys(t: &EnemyTable) -> (ks: Vec<String>)
    ensures
        forall|i: int| 0 <= i < ks.len() ==> enemy_table_contents(*t).contains_key(#[trigger] ks@[i]@),
        forall|k: Seq<char>| enemy_table_contents(*t).contains_key(k) ==> exists|i: int| 0 <= i < ks.len() && #[trigger] ks@[i]@ == k,
        forall|i: int, j: int| 0 <= i < j < ks.len() ==> ks@[i]@ != ks@[j]@,
{
    t.inner.keys().cloned().collect()
}

impl EnemyTable {
    /// An empty table.
    pub fn new() -> (t: EnemyTable)
        ensures
            t@ == Map::<Seq<char>, AliveEnemyView>::empty(),
            t@.dom().finite(),
    {
        let t = enemy_table_new();
        assert(t@ =~= Map::<Seq<char>, AliveEnemyView>::empty());
        t
    }

    /// The number of keys held.
    pub fn len(&self) -> (n: usize)
        ensures
            n == self@.len(),
    {
        enemy_table_len(self)
    }

    /// Whether the key is held.
    pub fn contains_key(&self, key: &String) -> (b: bool)
        ensures
            b == self@.contains_key(key@),
    {
        enemy_table_contains(self, key)
    }

    /// The value held under the key, if any.
    pub fn get<'a>(&'a self, key: &String) -> (r: Option<&'a AliveEnemy>)
        ensures
            match r {
                Some(v) => self@.contains_key(key@) && (*v)@ == self@[key@],
                None => !self@.contains_key(key@),
            },
    {
        enemy_table_get(self, key)
    }

    /// Puts the value under the key, giving back what the key held before.
    pub fn insert(&mut self, key: String, value: AliveEnemy) -> (prev: Option<AliveEnemy>)
        ensures
            final(self)@ == old(self)@.insert(key@, value@),
            match prev {
                Some(v) => old(self)@.contains_key(key@) && v@ == old(self)@[key@],
                None => !old(self)@.contains_key(key@),
            },
    {
        enemy_table_insert(self, key, value)
    }

    /// Takes the key out, giving back what it held.
    pub fn remove(&mut self, key: &String) -> (prev: Option<AliveEnemy>)
        ensures
            final(self)@ == old(self)@.remove(key@),
            match prev {
                Some(v) => old(self)@.contains_key(key@) && v@ == old(self)@[key@],
                None => !old(self)@.contains_key(key@),
            },
    {
        enemy_table_remove(self, key)
    }

    /// Every held key once, in no stated order.
    pub fn keys(&self) -> (ks: Vec<String>)
        ensures
            forall|i: int| 0 <= i < ks.len() ==> self@.contains_key(#[trigger] ks@[i]@),
            forall|k: Seq<char>| self@.contains_key(k) ==> exists|i: int| 0 <= i < ks.len() && #[trigger] ks@[i]@ == k,
            forall|i: int, j: int| 0 <= i < j < ks.len() ==> ks@[i]@ != ks@[j]@,
    {
        enemy_table_keys(self)
    }

    /// A copy of the table.
    pub fn duplicate(&self) -> (r: EnemyTable)
        requires
            self@.dom().finite(),
        ensures
            r@ == self@,
            r@.dom().finite(),
    {
        let ks = self.keys();
        let mut r = EnemyTable::new();
        let mut i: usize = 0;
        while i < ks.len()
            invariant
                i <= ks.len(),
                r@.dom().finite(),
                forall|j: int| 0 <= j < ks.len() ==> self@.contains_key(#[trigger] ks@[j]@),
                forall|j: int, l: int| 0 <= j < l < ks.len() ==> ks@[j]@ != ks@[l]@,
                forall|k: Seq<char>| #[trigger] r@.contains_key(k) <==> exists|j: int| 0 <= j < i && #[trigger] ks@[j]@ == k,
                forall|k: Seq<char>| #[trigger] r@.contains_key(k) ==> r@[k] == self@[k],
            decreases ks.len() - i,
        {
            let key = ks[i].clone();
            match self.get(&ks[i]) {
                Some(v) => {
                    let c = v.duplicate();
                    r.insert(key, c);
                },
                None => {},
            }
            i = i + 1;
        }
        assert(r@ =~= self@);
        r
    }
}

/// A table from key to entity, held in a `bevy::utils::HashMap<String, RawEntity>`.
#[verifier::external_body]
pub struct RawEntityTable {
    inner: HashMap<String, RawEntity>,
}

/// What a `RawEntityTable` holds: each key to its entity.
pub uninterp spec fn raw_entity_table_contents(t: RawEntityTable) -> Map<Seq<char>, RawEntityView>;

impl View for RawEntityTable {
    type V = Map<Seq<char>, RawEntityView>;

    open spec fn view(&self) -> Map<Seq<char>, RawEntityView> {
        raw_entity_table_contents(*self)
    }
}

/// `HashMap::default`: an empty map.
#[verifier::external_body]
fn raw_entity_table_new() -> (fresh: RawEntityTable)
    ensures
        raw_entity_table_contents(fresh).dom().is_empty(),
{
    RawEntityTable { inner: HashMap::default() }
}

/// `HashMap::get`: the value held under the key, if any.
#[verifier::external_body]
fn raw_entity_table_get<'a>(t: &'a RawEntityTable, key: &String) -> (r: Option<&'a RawEntity>)
    ensures
        match r {
            Some(v) => raw_entity_table_contents(*t).contains_key(key@) && (*v)@ == raw_entity_table_contents(*t)[key@],
            None => !raw_entity_table_contents(*t).contains_key(key@),
        },
{
    t.inner.get(key)
}

/// `HashMap::insert`: the key now holds the value; what it held before comes back.
#[verifier::external_body]
fn raw_entity_table_insert(t: &mut RawEntityTable, key: String, value: RawEntity) -> (prev: Option<RawEntity>)
    ensures
        raw_entity_table_contents(*final(t)) == raw_entity_table_contents(*old(t)).insert(key@, value@),
        match prev {
            Some(v) => raw_entity_table_contents(*old(t)).contains_key(key@) && v@ == raw_entity_table_contents(*old(t))[key@],
            None => !raw_entity_table_contents(*old(t)).contains_key(key@),
        },
{
    t.inner.insert(key, value)
}

impl RawEntityTable {
    /// An empty table.
    pub fn new() -> (t: RawEntityTable)
        ensures
            t@ == Map::<Seq<char>, RawEntityView>::empty(),
            t@.dom().finite(),
    {
        let t = raw_entity_table_new();
        assert(t@ =~= Map::<Seq<char>, RawEntityView>::empty());
        t
    }

    /// The value held under the key, if any.
    pub fn get<'a>(&'a self, key: &String) -> (r: Option<&'a RawEntity>)
        ensures
            match r {
                Some(v) => self@.contains_key(key@) && (*v)@ == self@[key@],
                None => !self@.contains_key(key@),
            },
    {
        raw_entity_table_get(self, key)
    }

    /// Puts the value under the key, giving back what the key held before.
    pub fn insert(&mut self, key: String, value: RawEntity) -> (prev: Option<RawEntity>)
        ensures
            final(self)@ == old(self)@.insert(key@, value@),
            match prev {
                Some(v) => old(self)@.contains_key(key@) && v@ == old(self)@[key@],
                None => !old(self)@.contains_key(key@),
            },
    {
        raw_entity_table_insert(self, key, value)
    }
}

/// A table from player id to body entity, held in a `bevy::utils::HashMap<String, Entity>`.
#[verifier::external_body]
pub struct BodyTable {
    inner: HashMap<String, Entity>,
}

/// What a `BodyTable` holds: each player id to its body entity.
pub uninterp spec fn body_table_contents(t: BodyTable) -> Map<Seq<char>, Entity>;

impl View for BodyTable {
    type V = Map<Seq<char>, Entity>;

    open spec fn view(&self) -> Map<Seq<char>, Entity> {
        body_table_contents(*self)
    }
}

/// `HashMap::default`: an empty map.
#[verifier::external_body]
fn body_table_new() -> (fresh: BodyTable)
    ensures
        body_table_contents(fresh).dom().is_empty(),
{
    BodyTable { inner: HashMap::default() }
}

/// `HashMap::get`: the value held under the key, if any.
#[verifier::external_body]
fn body_table_get<'a>(t: &'a BodyTable, key: &String) -> (r: Option<&'a Entity>)
    ensures
        match r {
            Some(v) => body_table_contents(*t).contains_key(key@) && (*v) == body_table_contents(*t)[key@],
            None => !body_table_contents(*t).contains_key(key@),
        },
{
    t.inner.get(key)
}

/// `HashMap::insert`: the key now holds the value; what it held before comes back.
#[verifier::external_body]
fn body_table_insert(t: &mut BodyTable, key: String, value: Entity) -> (prev: Option<Entity>)
    ensures
        body_table_contents(*final(t)) == body_table_contents(*old(t)).insert(key@, value),
        match prev {
            Some(v) => body_table_contents(*old(t)).contains_key(key@) && v == body_table_contents(*old(t))[key@],
            None => !body_table_contents(*old(t)).contains_key(key@),
        },
{
    t.inner.insert(key, value)
}

impl BodyTable {
    /// An empty table.
    pub fn new() -> (t: BodyTable)
        ensures
            t@ == Map::<Seq<char>, Entity>::empty(),
            t@.dom().finite(),
    {
        let t = body_table_new();
        assert(t@ =~= Map::<Seq<char>, Entity>::empty());
        t
    }

    /// The value held under the key, if any.
    pub fn get<'a>(&'a self, key: &String) -> (r: Option<&'a Entity>)
        ensures
            match r {
                Some(v) => self@.contains_key(key@) && (*v) == self@[key@],
                None => !self@.contains_key(key@),
            },
    {
        body_table_get(self, key)
    }

    /// Puts the value under the key, giving back what the key held before.
    pub fn insert(&mut self, key: String, value: Entity) -> (prev: Option<Entity>)
        ensures
            final(self)@ == old(self)@.insert(key@, value),
            match prev {
                Some(v) => old(self)@.contains_key(key@) && v == old(self)@[key@],
                None => !old(self)@.contains_key(key@),
            },
    {
        body_table_insert(self, key, value)
    }
}

/// A table from server client id to client-given id, held in a `bevy::utils::HashMap<u64, String>`.
#[verifier::external_body]
pub struct IdTable {
    inner: HashMap<u64, String>,
}

/// What a `IdTable` holds: each server client id to its client-given id.
pub uninterp spec fn id_table_contents(t: IdTable) -> Map<u64, Seq<char>>;

impl View for IdTable {
    type V = Map<u64, Seq<char>>;

    open spec fn view(&self) -> Map<u64, Seq<char>> {
        id_table_contents(*self)
    }
}

/// `HashMap::default`: an empty map.
#[verifier::external_body]
fn id_table_new() -> (fresh: IdTable)
    ensures
        id_table_contents(fresh).dom().is_empty(),
{
    IdTable { inner: HashMap::default() }
}

/// `HashMap::contains_key`: whether the key is held.
#[verifier::external_body]
fn id_table_contains(t: &IdTable, key: &u64) -> (b: bool)
    ensures
        b == id_table_contents(*t).contains_key(*key),
{
    t.inner.contains_key(key)
}

/// `HashMap::get`: the value held under the key, if any.
#[verifier::external_body]
fn id_table_get<'a>(t: &'a IdTable, key: &u64) -> (r: Option<&'a String>)
    ensures
        match r {
            Some(v) => id_table_contents(*t).contains_key(*key) && (*v)@ == id_table_contents(*t)[*key],
            None => !id_table_contents(*t).contains_key(*key),
        },
{
    t.inner.get(key)
}

/// `HashMap::insert`: the key now holds the value; what it held before comes back.
#[verifier::external_body]
fn id_table_insert(t: &mut IdTable, key: u64, value: String) -> (prev: Option<String>)
    ensures
        id_table_contents(*final(t)) == id_table_contents(*old(t)).insert(key, value@),
        match prev {
            Some(v) => id_table_contents(*old(t)).contains_key(key) && v@ == id_table_contents(*old(t))[key],
            None => !id_table_contents(*old(t)).contains_key(key),
        },
{
    t.inner.insert(key, value)
}

impl IdTable {
    /// An empty table.
    pub fn new() -> (t: IdTable)
        ensures
            t@ == Map::<u64, Seq<char>>::empty(),
            t@.dom().finite(),
    {
        let t = id_table_new();
        assert(t@ =~= Map::<u64, Seq<char>>::empty());
        t
    }

    /// Whether the key is held.
    pub fn contains_key(&self, key: &u64) -> (b: bool)
        ensures
            b == self@.contains_key(*key),
    {
        id_table_contains(self, key)
    }

    /// The value held under the key, if any.
    pub fn get<'a>(&'a self, key: &u64) -> (r: Option<&'a String>)
        ensures
            match r {
                Some(v) => self@.contains_key(*key) && (*v)@ == self@[*key],
                None => !self@.contains_key(*key),
            },
    {
        id_table_get(self, key)
    }

    /// Puts the value under the key, giving back what the key held before.
    pub fn insert(&mut self, key: u64, value: String) -> (prev: Option<String>)
        ensures
            final(self)@ == old(self)@.insert(key, value@),
            match prev {
                Some(v) => old(self)@.contains_key(key) && v@ == old(self)@[key],
                None => !old(self)@.contains_key(key),
            },
    {
        id_table_insert(self, key, value)
    }
}

/// A list of distinct keys that names every key of a map, and only those,
/// is as long as the map.
pub proof fn lemma_keys_cover_len<V>(m: Map<Seq<char>, V>, ks: Seq<Seq<char>>)
    requires
        forall|i: int| 0 <= i < ks.len() ==> m.contains_key(#[trigger] ks[i]),
        forall|k: Seq<char>| m.contains_key(k) ==> exists|i: int| 0 <= i < ks.len() && #[trigger] ks[i] == k,
        forall|i: int, j: int| 0 <= i < j < ks.len() ==> ks[i] != ks[j],
    ensures
        ks.len() == m.len(),
{
    assert(ks.no_duplicates()) by {
        assert forall|i: int, j: int| 0 <= i < ks.len() && 0 <= j < ks.len() && i != j implies ks[i] != ks[j] by {
            if i < j {
            } else {
            }
        }
    }
    ks.unique_seq_to_set();
    assert forall|k: Seq<char>| #[trigger] ks.to_set().contains(k) == m.dom().contains(k) by {
        if m.dom().contains(k) {
            let i = choose|i: int| 0 <= i < ks.len() && #[trigger] ks[i] == k;
            assert(ks.contains(k));
        }
    }
    assert(ks.to_set() =~= m.dom());
}

} // verus!

//! Enemy spawning and tracking on the server.
use vstd::prelude::*;

use crate::combat::enemy_key;
use crate::decimal::{decimal, prefixed_decimal, u64_to_decimal};
use crate::defaults::{
    AliveEnemy,
    AliveEnemyView,
    Enemy,
    EntityType,
    LivingEntities,
    RawEntity,
    RawEntityView,
    Vec3Bits,
};
use crate::messages::ServerMessage;
use crate::tables::{EnemyTable, RawEntityTable};

verus! {

/// The enemies that the world director has spawned.
pub struct EntityList {
    /// Key to enemy.
    pub entites: EnemyTable,
    /// Key to the entity as it was sent to clients.
    pub simple_entites: RawEntityTable,
}

impl EntityList {
    /// Nothing spawned yet.
    pub fn default() -> (r: EntityList)
        ensures
            r.entites@.dom().is_empty(),
            r.simple_entites@.dom().is_empty(),
    {
        EntityList { entites: EnemyTable::new(), simple_entites: RawEntityTable::new() }
    }
}

/// The spawner's credits once refilled: a refill happens when they are used
/// up or when the refill key is held.
pub open spec fn refilled(credits: isize, refill_key: bool) -> isize {
    if credits == 0 || refill_key {
        100
    } else {
        credits
    }
}

/// One tick of the spawner's budget: the credits are refilled to 100 when
/// they are 0 or the refill key is held; at 100 an enemy spawns and costs 50.
/// Gives back the new credits and whether an enemy spawns.
pub fn spawner_credits(credits: isize, refill_key: bool) -> (r: (isize, bool))
    ensures
        r == spawner_step(credits, refill_key),
        r.1 == (refilled(credits, refill_key) == 100),
        r.0 == (if r.1 {
            50
        } else {
            refilled(credits, refill_key)
        }),
{
    let mut credits = credits;
    if credits == 0 || refill_key {
        credits = 100;
    }
    if credits == 100 {
        (credits - 50, true)
    } else {
        (credits, false)
    }
}

/// Starting from no credits, the spawner always holds 50 after a tick, and
/// an enemy spawns in a tick exactly when it is the first or the refill key
/// is held.
pub proof fn lemma_spawner_budget(credits: isize, refill_key: bool)
    requires
        credits == 0 || credits == 50,
    ensures
        (refilled(credits, refill_key) == 100) == (credits == 0 || refill_key),
        (if refilled(credits, refill_key) == 100 {
            50
        } else {
            refilled(credits, refill_key)
        }) == 50,
{
}

/// One tick of the spawner's budget as plain values: the new credits and
/// whether an enemy spawns.
pub open spec fn spawner_step(credits: isize, refill_key: bool) -> (isize, bool) {
    let c = refilled(credits, refill_key);
    if c == 100 {
        (50, true)
    } else {
        (c, false)
    }
}

/// The spawner run over ticks, `keys[i]` saying whether the refill key was
/// held at tick `i`, from no credits: the credits at the end and how many
/// enemies spawned.
pub open spec fn spawner_run(keys: Seq<bool>) -> (isize, nat)
    decreases keys.len(),
{
    if keys.len() == 0 {
        (0, 0)
    } else {
        let before = spawner_run(keys.drop_last());
        let step = spawner_step(before.0, keys.last());
        (step.0, before.1 + if step.1 {
            1nat
        } else {
            0nat
        })
    }
}

/// How many of the ticks are the first or have the refill key held.
pub open spec fn first_or_refill(keys: Seq<bool>) -> nat
    decreases keys.len(),
{
    if keys.len() == 0 {
        0
    } else {
        first_or_refill(keys.drop_last()) + if keys.len() == 1 || keys.last() {
            1nat
        } else {
            0nat
        }
    }
}

/// Over any run of ticks from no credits, the spawner holds 50 credits
/// after every tick, and as many enemies spawn as there are ticks that are
/// the first or have the refill key held.
pub proof fn lemma_spawner_run(keys: Seq<bool>)
    ensures
        keys.len() > 0 ==> spawner_run(keys).0 == 50,
        keys.len() == 0 ==> spawner_run(keys).0 == 0,
        spawner_run(keys).1 == first_or_refill(keys),
    decreases keys.len(),
{
    if keys.len() > 0 {
        lemma_spawner_run(keys.drop_last());
    }
}

/// Records a newly spawned skeleton archer whose entity number is `number`
/// and which stands at `pos`, and gives back the message that tells clients
/// to spawn it.
pub fn record_spawned_enemy(
    all_ents: &mut LivingEntities,
    entity_list: &mut EntityList,
    number: u32,
    pos: Vec3Bits,
) -> (message: ServerMessage)
    requires
        old(all_ents).wf(),
    ensures
        final(all_ents).wf(),
        final(all_ents).players@ == old(all_ents).players@,
        final(all_ents).enemies@ == old(all_ents).enemies@.insert(
            enemy_key(number as nat),
            AliveEnemyView {
                id: decimal(number as nat),
                kind: Enemy::SkeletonArcher,
                pos,
                direction: Vec3Bits::spec_origin(),
            },
        ),
        final(entity_list).entites@ == old(entity_list).entites@,
        final(entity_list).simple_entites@ == old(entity_list).simple_entites@.insert(
            enemy_key(number as nat),
            RawEntityView { id: decimal(number as nat), pos, enemy_type: Enemy::SkeletonArcher },
        ),
        message matches ServerMessage::EntitySpawn { entity_type: EntityType::Enemy, data } && data@
            == (RawEntityView { id: decimal(number as nat), pos, enemy_type: Enemy::SkeletonArcher }),
{
    let raw_entity = RawEntity {
        id: u64_to_decimal(number as u64),
        pos: pos,
        enemy_type: Enemy::SkeletonArcher,
    };
    let key = prefixed_decimal("enemy:", number as u64);
    all_ents.enemies.insert(key.clone(), raw_entity.make_alive());
    entity_list.simple_entites.insert(key, raw_entity.duplicate());
    ServerMessage::EntitySpawn { entity_type: EntityType::Enemy, data: raw_entity }
}

/// Where the enemy whose entity number is `number` was last known to stand,
/// if it is known.
pub fn cached_enemy_pos(cache: &LivingEntities, number: u64) -> (r: Option<Vec3Bits>)
    ensures
        match r {
            Some(p) => cache.enemies@.contains_key(enemy_key(number as nat)) && p == cache.enemies@[enemy_key(
                number as nat,
            )].pos,
            None => !cache.enemies@.contains_key(enemy_key(number as nat)),
        },
{
    let key = prefixed_decimal("enemy:", number as u64);
    match cache.enemies.get(&key) {
        Some(e) => Some(e.pos),
        None => None,
    }
}

/// Follows one spawned enemy: when it is known and `moved` says that it
/// left the unit cell it was known in, its new place `translation` is
/// recorded and the message that tells clients about it comes back.
pub fn track_enemy(cache: &mut LivingEntities, number: u64, translation: Vec3Bits, moved: bool) -> (r:
    Option<ServerMessage>)
    requires
        old(cache).wf(),
    ensures
        final(cache).wf(),
        final(cache).players@ == old(cache).players@,
        (old(cache).enemies@.contains_key(enemy_key(number as nat)) && moved) ==> ({
            let e = old(cache).enemies@[enemy_key(number as nat)];
            &&& final(cache).enemies@ == old(cache).enemies@.insert(
                enemy_key(number as nat),
                AliveEnemyView {
                    id: decimal(number as nat),
                    kind: e.kind,
                    pos: translation,
                    direction: e.direction,
                },
            )
            &&& r matches Some(ServerMessage::EntityChange { data }) && data@ == (RawEntityView {
                id: decimal(number as nat),
                pos: translation,
                enemy_type: e.kind,
            })
        }),
        !(old(cache).enemies@.contains_key(enemy_key(number as nat)) && moved) ==> ({
            &&& final(cache).enemies@ == old(cache).enemies@
            &&& r is None
        }),
{
    let key = prefixed_decimal("enemy:", number);
    let simple_key = u64_to_decimal(number);
    let (kind, direction) = match cache.enemies.get(&key) {
        Some(ent) => (ent.kind, ent.direction),
        None => {
            return None;
        },
    };
    if !moved {
        return None;
    }
    let data = RawEntity { id: simple_key.clone(), pos: translation, enemy_type: kind };
    let new_ent = AliveEnemy { id: simple_key, kind, pos: translation, direction };
    cache.enemies.insert(key, new_ent);
    Some(ServerMessage::EntityChange { data })
}

} // verus!

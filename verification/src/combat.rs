//! What a player's actions do: a primary shot that hits a known enemy
//! kills it, and an engineer's third ability raises a fortification.
use vstd::prelude::*;

use crate::decimal::{decimal, prefixed_decimal, u64_to_decimal};
use crate::defaults::{
    Action,
    Class,
    CurrentActions,
    Enemy,
    EntityType,
    LivingEntities,
    Player,
    RawEntity,
    RawEntityView,
    Vec3Bits,
};
use crate::messages::ServerMessage;

verus! {

/// The key under which the enemy with entity number `n` is held.
pub open spec fn enemy_key(n: nat) -> Seq<char> {
    "enemy:"@ + decimal(n)
}

/// Something the combat system does.
pub enum CombatEffect {
    /// Tells every client that the enemy that was hit is gone, and removes
    /// the hit entity from the world.
    DespawnHit { message: ServerMessage },
    /// Raises a fortification at the given place.
    Fortify { at: Vec3Bits },
}

/// What a combat effect is, as plain values.
pub ghost enum CombatEffectView {
    DespawnHit { number: u32 },
    Fortify { at: Vec3Bits },
}

/// Whether `e` is the effect that `v` describes.
pub open spec fn effect_is(e: CombatEffect, v: CombatEffectView) -> bool {
    match v {
        CombatEffectView::DespawnHit { number } => e matches CombatEffect::DespawnHit {
            message: ServerMessage::EntityDespawn { entity_type: EntityType::Enemy, data },
        } && data@ == (RawEntityView {
            id: decimal(number as nat),
            pos: Vec3Bits::spec_up(),
            enemy_type: Enemy::Filler,
        }),
        CombatEffectView::Fortify { at } => e matches CombatEffect::Fortify { at: a } && a == at,
    }
}

/// The actions that the combat system can carry out for a player of class
/// `class`; the others are not written yet.
pub open spec fn action_supported(a: Action, class: Class) -> bool {
    a == Action::PrimaryFire || (a == Action::Ability3 && class == Class::Engineer)
}

/// Whether the combat system can carry out the action for a player of the class.
pub fn action_supported_now(a: Action, class: Class) -> (b: bool)
    ensures
        b == action_supported(a, class),
{
    match a {
        Action::PrimaryFire => true,
        Action::Ability3 => match class {
            Class::Engineer => true,
            _ => false,
        },
        _ => false,
    }
}

/// The effects of `actions`, in order, for a player at `loc` whose shots hit
/// the enemy numbered `number`, which is known when `present` holds: the
/// first shot kills it, and each third ability raises a fortification.
pub open spec fn combat_effects(actions: Seq<Action>, present: bool, number: u32, loc: Vec3Bits) -> Seq<
    CombatEffectView,
>
    decreases actions.len(),
{
    if actions.len() == 0 {
        Seq::empty()
    } else {
        let before = combat_effects(actions.drop_last(), present, number, loc);
        let a = actions.last();
        if a == Action::Ability3 {
            before.push(CombatEffectView::Fortify { at: loc })
        } else if a == Action::PrimaryFire && present && !actions.drop_last().contains(
            Action::PrimaryFire,
        ) {
            before.push(CombatEffectView::DespawnHit { number })
        } else {
            before
        }
    }
}

proof fn lemma_no_shot_no_kill(actions: Seq<Action>, present: bool, number: u32, loc: Vec3Bits)
    requires
        !actions.contains(Action::PrimaryFire),
    ensures
        forall|i: int|
            0 <= i < combat_effects(actions, present, number, loc).len() ==> !(#[trigger] combat_effects(
                actions,
                present,
                number,
                loc,
            )[i] is DespawnHit),
    decreases actions.len(),
{
    if actions.len() > 0 {
        assert(!actions.drop_last().contains(Action::PrimaryFire)) by {
            if actions.drop_last().contains(Action::PrimaryFire) {
                let j = choose|j: int|
                    0 <= j < actions.drop_last().len() && actions.drop_last()[j] == Action::PrimaryFire;
                assert(actions[j] == Action::PrimaryFire);
            }
        }
        lemma_no_shot_no_kill(actions.drop_last(), present, number, loc);
        assert(actions.last() != Action::PrimaryFire) by {
            if actions.last() == Action::PrimaryFire {
                assert(actions[actions.len() - 1] == Action::PrimaryFire);
            }
        }
    }
}

/// However many shots one update holds, at most one enemy dies of them: the
/// effects hold at most one despawn.
pub proof fn lemma_at_most_one_kill(actions: Seq<Action>, present: bool, number: u32, loc: Vec3Bits)
    ensures
        forall|i: int, j: int|
            0 <= i < j < combat_effects(actions, present, number, loc).len() ==> !(#[trigger] combat_effects(
                actions,
                present,
                number,
                loc,
            )[i] is DespawnHit && #[trigger] combat_effects(actions, present, number, loc)[j] is DespawnHit),
    decreases actions.len(),
{
    if actions.len() > 0 {
        let prefix = actions.drop_last();
        lemma_at_most_one_kill(prefix, present, number, loc);
        let a = actions.last();
        if a == Action::PrimaryFire && present && !prefix.contains(Action::PrimaryFire) {
            lemma_no_shot_no_kill(prefix, present, number, loc);
        }
    }
}

/// Every fortification that a player's actions raise stands where the
/// player stands, and every kill is of the enemy that was hit.
pub proof fn lemma_effects_at_player(actions: Seq<Action>, present: bool, number: u32, loc: Vec3Bits)
    ensures
        forall|i: int|
            0 <= i < combat_effects(actions, present, number, loc).len() ==> match #[trigger] combat_effects(
                actions,
                present,
                number,
                loc,
            )[i] {
                CombatEffectView::Fortify { at } => at == loc,
                CombatEffectView::DespawnHit { number: n } => n == number,
            },
    decreases actions.len(),
{
    if actions.len() > 0 {
        lemma_effects_at_player(actions.drop_last(), present, number, loc);
    }
}

/// Carries out a player's actions. `hit` is the entity number that a ray
/// from the player along its facing meets first, if any; every shot of the
/// tick sees the same world, so it serves them all.
pub fn user_action(
    all_ents: &mut LivingEntities,
    player: &Player,
    actions: &CurrentActions,
    hit: Option<u32>,
) -> (effects: Vec<CombatEffect>)
    requires
        old(all_ents).wf(),
        forall|i: int|
            0 <= i < actions.actions@.len() ==> action_supported(
                #[trigger] actions.actions@[i],
                player.class,
            ),
    ensures
        final(all_ents).wf(),
        final(all_ents).players@ == old(all_ents).players@,
        ({
            let present = hit is Some && old(all_ents).enemies@.contains_key(
                enemy_key(hit->0 as nat),
            );
            let expected = combat_effects(actions.actions@, present, hit->0, player.loc);
            &&& effects@.len() == expected.len()
            &&& forall|i: int| 0 <= i < expected.len() ==> effect_is(#[trigger] effects@[i], expected[i])
            &&& final(all_ents).enemies@ == (if present && actions.actions@.contains(
                Action::PrimaryFire,
            ) {
                old(all_ents).enemies@.remove(enemy_key(hit->0 as nat))
            } else {
                old(all_ents).enemies@
            })
        }),
{
    let ghost present = hit is Some && old(all_ents).enemies@.contains_key(
        enemy_key(hit->0 as nat),
    );
    let ghost number = hit->0;
    let ghost start = all_ents.enemies@;
    let mut effects: Vec<CombatEffect> = Vec::new();
    let mut i: usize = 0;
    while i < actions.actions.len()
        invariant
            i <= actions.actions@.len(),
            all_ents.wf(),
            all_ents.players@ == old(all_ents).players@,
            start == old(all_ents).enemies@,
            present == (hit is Some && start.contains_key(enemy_key(hit->0 as nat))),
            number == hit->0,
            forall|j: int|
                0 <= j < actions.actions@.len() ==> action_supported(
                    #[trigger] actions.actions@[j],
                    player.class,
                ),
            effects@.len() == combat_effects(actions.actions@.take(i as int), present, number, player.loc).len(),
            forall|j: int|
                0 <= j < effects@.len() ==> effect_is(
                    #[trigger] effects@[j],
                    combat_effects(actions.actions@.take(i as int), present, number, player.loc)[j],
                ),
            all_ents.enemies@ == (if present && actions.actions@.take(i as int).contains(
                Action::PrimaryFire,
            ) {
                start.remove(enemy_key(hit->0 as nat))
            } else {
                start
            }),
        decreases actions.actions@.len() - i,
    {
        let ghost prefix = actions.actions@.take(i as int);
        let ghost next = actions.actions@.take(i + 1);
        assert(next.drop_last() =~= prefix);
        assert(next.last() == actions.actions@[i as int]);
        let action = actions.actions[i];
        assert(action_supported(action, player.class));
        match action {
            Action::PrimaryFire => {
                match hit {
                    Some(id) => {
                        let key = prefixed_decimal("enemy:", id as u64);
                        if all_ents.enemies.contains_key(&key) {
                            proof {
                                if prefix.contains(Action::PrimaryFire) {
                                    let j = choose|j: int|
                                        0 <= j < prefix.len() && prefix[j] == Action::PrimaryFire;
                                    assert(!all_ents.enemies@.contains_key(key@));
                                }
                            }
                            let data = RawEntity {
                                id: u64_to_decimal(id as u64),
                                pos: Vec3Bits::up(),
                                enemy_type: Enemy::Filler,
                            };
                            effects.push(
                                CombatEffect::DespawnHit {
                                    message: ServerMessage::EntityDespawn {
                                        entity_type: EntityType::Enemy,
                                        data,
                                    },
                                },
                            );
                            all_ents.enemies.remove(&key);
                        }
                    },
                    None => {},
                }
                proof {
                    assert(next.contains(Action::PrimaryFire)) by {
                        assert(next[i as int] == Action::PrimaryFire);
                    }
                    if prefix.contains(Action::PrimaryFire) {
                        let j = choose|j: int| 0 <= j < prefix.len() && prefix[j] == Action::PrimaryFire;
                        assert(next[j] == Action::PrimaryFire);
                    }
                }
            },
            Action::Ability3 => {
                effects.push(CombatEffect::Fortify { at: player.loc });
                proof {
                    if next.contains(Action::PrimaryFire) {
                        let j = choose|j: int| 0 <= j < next.len() && next[j] == Action::PrimaryFire;
                        assert(prefix[j] == Action::PrimaryFire);
                    }
                    if prefix.contains(Action::PrimaryFire) {
                        let j = choose|j: int| 0 <= j < prefix.len() && prefix[j] == Action::PrimaryFire;
                        assert(next[j] == Action::PrimaryFire);
                    }
                }
            },
            _ => {
                assert(false);
            },
        }
        i = i + 1;
    }
    assert(actions.actions@.take(actions.actions@.len() as int) =~= actions.actions@);
    effects
}

} // verus!

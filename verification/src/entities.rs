//! How the client keeps its enemies in step with what the server sends:
//! new ones are spawned with a label, known ones move, and filler ones go.
use vstd::prelude::*;

use crate::decimal::{
    contains_seq,
    contains_str,
    decimal,
    last_segment,
    last_segment_of,
    parse_u64,
    parse_u64_spec,
    push_decimal,
};
use crate::defaults::{enemy_text, AliveEnemy, AliveEnemyView, Enemy, Vec3Bits};
use crate::tables::EnemyTable;

verus! {

/// What the entity handler does first in a tick.
pub enum HandleStart {
    /// Everything it spawned is removed, and it forgets every enemy.
    ForgetAll,
    /// Nothing waits to be handled.
    Idle,
    /// One enemy is to be taken from the channel and handled.
    Receive,
}

/// The first decision of a tick: with nothing known and nothing waiting, or
/// when the forget key (O) was just released, everything is forgotten.
pub fn entity_handle_start(entity_list: &mut EnemyTable, channel_empty: bool, forget_key: bool) -> (r:
    HandleStart)
    requires
        old(entity_list)@.dom().finite(),
    ensures
        final(entity_list)@.dom().finite(),
        ((old(entity_list)@.len() == 0 && channel_empty) || forget_key) ==> (r is ForgetAll
            && final(entity_list)@.dom().is_empty()),
        !((old(entity_list)@.len() == 0 && channel_empty) || forget_key) ==> (final(entity_list)@
            == old(entity_list)@ && (if channel_empty {
            r is Idle
        } else {
            r is Receive
        })),
{
    if (entity_list.len() == 0 && channel_empty) || forget_key {
        *entity_list = EnemyTable::new();
        return HandleStart::ForgetAll;
    }
    if channel_empty {
        HandleStart::Idle
    } else {
        HandleStart::Receive
    }
}

/// The id under which an enemy sent as `id` is looked up: the piece after
/// the last `:` of an id that mentions "enemy", the id itself otherwise.
pub open spec fn local_id(id: Seq<char>) -> Seq<char> {
    if contains_seq(id, "enemy"@) {
        last_segment(id)
    } else {
        id
    }
}

/// The label shown above a newly spawned enemy.
pub open spec fn enemy_label(kind: Enemy, id: Seq<char>) -> Seq<char> {
    enemy_text(kind) + " | "@ + id
}

/// Something the entity handler does to the world.
pub enum EntityCommand {
    /// Spawns a labelled enemy body at `pos`, marked with `number`.
    SpawnLabelled { label: String, pos: Vec3Bits, number: u64 },
    /// Removes the spawned entity at this place of the spawned list.
    Despawn { index: usize },
    /// Moves the spawned entity at this place of the spawned list.
    Move { index: usize, pos: Vec3Bits },
}

/// The places of `spawned` that hold `number`, in order.
pub open spec fn matching_indices(spawned: Seq<u64>, number: u64) -> Seq<int>
    decreases spawned.len(),
{
    if spawned.len() == 0 {
        Seq::empty()
    } else {
        let before = matching_indices(spawned.drop_last(), number);
        if spawned.last() == number {
            before.push(spawned.len() - 1)
        } else {
            before
        }
    }
}

/// Whether an enemy sent as `id` can be handled: a new one must carry a
/// numeric id, and a known one must be looked up under a numeric id.
pub open spec fn receive_ready(known: Map<Seq<char>, AliveEnemyView>, id: Seq<char>, ent: AliveEnemyView) -> bool {
    if !known.contains_key(local_id(id)) {
        parse_u64_spec(ent.id) is Some
    } else {
        parse_u64_spec(local_id(id)) is Some
    }
}

proof fn lemma_matching_prefix(spawned: Seq<u64>, number: u64, i: int)
    requires
        0 <= i < spawned.len(),
    ensures
        matching_indices(spawned.take(i + 1), number) == (if spawned[i] == number {
            matching_indices(spawned.take(i), number).push(i)
        } else {
            matching_indices(spawned.take(i), number)
        }),
{
    assert(spawned.take(i + 1).drop_last() =~= spawned.take(i));
}

proof fn lemma_matching_bounds(spawned: Seq<u64>, number: u64)
    ensures
        forall|j: int|
            0 <= j < matching_indices(spawned, number).len() ==> 0 <= #[trigger] matching_indices(
                spawned,
                number,
            )[j] < spawned.len() && spawned[matching_indices(spawned, number)[j]] == number,
        (matching_indices(spawned, number).len() == 0) == (forall|j: int|
            0 <= j < spawned.len() ==> spawned[j] != number),
    decreases spawned.len(),
{
    if spawned.len() > 0 {
        lemma_matching_bounds(spawned.drop_last(), number);
        if matching_indices(spawned, number).len() == 0 {
            assert forall|j: int| 0 <= j < spawned.len() implies spawned[j] != number by {
                if j < spawned.len() - 1 {
                    assert(spawned.drop_last()[j] == spawned[j]);
                }
            }
        }
        if matching_indices(spawned.drop_last(), number).len() != 0 {
            let j = choose|j: int| 0 <= j < spawned.drop_last().len() && spawned.drop_last()[j] == number;
            assert(spawned[j] == number);
        }
    }
}

/// Whether an enemy sent as `id` can be handled.
pub fn can_receive(entity_list: &EnemyTable, id: &String, ent: &AliveEnemy) -> (b: bool)
    ensures
        b == receive_ready(entity_list@, id@, ent@),
{
    let local = if contains_str(id.as_str(), "enemy") {
        last_segment_of(id.as_str())
    } else {
        id.as_str()
    };
    let local_owned = String::from_str(local);
    if !entity_list.contains_key(&local_owned) {
        parse_u64(ent.id.as_str()).is_some()
    } else {
        parse_u64(local).is_some()
    }
}

/// Handles one enemy sent as `id`. `spawned` lists the numbers of the
/// enemy bodies now in the world, in the order the world gives them.
#[verifier::rlimit(40)]
pub fn entity_handle_receive(
    entity_list: &mut EnemyTable,
    id: String,
    ent: AliveEnemy,
    spawned: &Vec<u64>,
) -> (cmds: Vec<EntityCommand>)
    requires
        receive_ready(old(entity_list)@, id@, ent@),
    ensures
        !old(entity_list)@.contains_key(local_id(id@)) ==> {
            &&& final(entity_list)@ == old(entity_list)@.insert(ent.id@, ent@)
            &&& cmds@.len() == 1
            &&& cmds@[0] matches EntityCommand::SpawnLabelled { label, pos, number } && label@
                == enemy_label(ent.kind, local_id(id@)) && pos == ent.pos && number
                == parse_u64_spec(ent.id@)->0
        },
        old(entity_list)@.contains_key(local_id(id@)) ==> {
            let n = parse_u64_spec(local_id(id@))->0;
            let found = matching_indices(spawned@, n);
            if ent.kind == Enemy::Filler {
                let gone = found.len() > 0 && old(entity_list)@.contains_key(decimal(n as nat));
                &&& final(entity_list)@ == (if found.len() > 0 {
                    old(entity_list)@.remove(decimal(n as nat))
                } else {
                    old(entity_list)@
                })
                &&& cmds@.len() == (if gone {
                    1int
                } else {
                    0int
                })
                &&& gone ==> (cmds@[0] matches EntityCommand::Despawn { index } && index == found[0])
            } else {
                &&& final(entity_list)@ == (if found.len() > 0 {
                    old(entity_list)@.insert(ent.id@, ent@)
                } else {
                    old(entity_list)@
                })
                &&& cmds@.len() == found.len()
                &&& forall|j: int|
                    0 <= j < found.len() ==> (#[trigger] cmds@[j] matches EntityCommand::Move {
                        index,
                        pos,
                    } && index == found[j] && pos == ent.pos)
            }
        },
{
    let mut cmds: Vec<EntityCommand> = Vec::new();
    let local = if contains_str(id.as_str(), "enemy") {
        last_segment_of(id.as_str())
    } else {
        id.as_str()
    };
    let local_owned = String::from_str(local);
    if !entity_list.contains_key(&local_owned) {
        let mut label = ent.kind.to_text();
        label.append(" | ");
        label.append(local);
        let number = match parse_u64(ent.id.as_str()) {
            Some(n) => n,
            None => {
                assert(false);
                unreached()
            },
        };
        cmds.push(EntityCommand::SpawnLabelled { label, pos: ent.pos, number });
        entity_list.insert(ent.id.clone(), ent);
        return cmds;
    }
    let n = match parse_u64(local) {
        Some(n) => n,
        None => {
            assert(false);
            unreached()
        },
    };
    let mut key = String::new();
    push_decimal(&mut key, n);
    assert(key@ =~= decimal(n as nat));
    let ghost start = entity_list@;
    let ghost is_filler = ent.kind == Enemy::Filler;
    let mut i: usize = 0;
    while i < spawned.len()
        invariant
            i <= spawned.len(),
            key@ == decimal(n as nat),
            is_filler == (ent.kind == Enemy::Filler),
            ({
                let found = matching_indices(spawned@.take(i as int), n);
                if is_filler {
                    let gone = found.len() > 0 && start.contains_key(decimal(n as nat));
                    &&& entity_list@ == (if found.len() > 0 {
                        start.remove(decimal(n as nat))
                    } else {
                        start
                    })
                    &&& cmds@.len() == (if gone {
                        1int
                    } else {
                        0int
                    })
                    &&& gone ==> (cmds@[0] matches EntityCommand::Despawn { index } && index == found[0])
                } else {
                    &&& entity_list@ == (if found.len() > 0 {
                        start.insert(ent.id@, ent@)
                    } else {
                        start
                    })
                    &&& cmds@.len() == found.len()
                    &&& forall|j: int|
                        0 <= j < found.len() ==> (#[trigger] cmds@[j] matches EntityCommand::Move {
                            index,
                            pos,
                        } && index == found[j] && pos == ent.pos)
                }
            }),
        decreases spawned.len() - i,
    {
        proof {
            lemma_matching_prefix(spawned@, n, i as int);
        }
        if spawned[i] == n {
            if ent.kind == Enemy::Filler {
                let removed = entity_list.remove(&key);
                if removed.is_some() {
                    cmds.push(EntityCommand::Despawn { index: i });
                }
                proof {
                    let found = matching_indices(spawned@.take(i as int), n);
                    if found.len() > 0 {
                        assert(!entity_list@.contains_key(decimal(n as nat)) || !start.contains_key(decimal(n as nat)));
                    }
                    assert(entity_list@ =~= start.remove(decimal(n as nat)));
                }
            } else {
                cmds.push(EntityCommand::Move { index: i, pos: ent.pos });
                entity_list.insert(ent.id.clone(), ent.duplicate());
                proof {
                    assert(entity_list@ =~= start.insert(ent.id@, ent@));
                }
            }
        }
        i = i + 1;
    }
    assert(spawned@.take(spawned@.len() as int) =~= spawned@);
    cmds
}

} // verus!

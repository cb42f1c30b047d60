//! How the server answers each message of a client, and what a client's
//! leaving does.
use vstd::prelude::*;

use crate::decimal::{last_segment, last_segment_of, parse_u64, parse_u64_spec, u64_to_decimal};
use crate::defaults::{
    AliveEnemyView,
    CurrentActions,
    Enemy,
    EntityType,
    LivingEntities,
    Player,
    RawEntity,
    RawEntityView,
    Vec3Bits,
};
use crate::messages::{ClientMessage, ServerMessage};
use crate::players::{new_player_view, player_key, with_class, with_pos, CurrentConnections, Players};

verus! {

/// Something the server does in answer to a message.
pub enum ServerAction {
    /// Sends a message to one client.
    Send { client_id: u64, message: ServerMessage },
    /// Sends a message to every client.
    Broadcast { message: ServerMessage },
    /// Drops a client.
    Disconnect { client_id: u64 },
    /// Hands a player's actions to the combat system.
    ForwardActions { player: Player, actions: CurrentActions },
}

/// What the server does in answer to one message.
pub struct ServerReply {
    /// The actions, in the order they are done.
    pub actions: Vec<ServerAction>,
    /// The server stops reading messages for the rest of this tick.
    pub end_tick: bool,
}

/// Everything the server's message handling reads and changes.
pub struct ServerState {
    pub players: Players,
    pub all_ents: LivingEntities,
    pub connections: CurrentConnections,
}

/// The number that an enemy's id ends in, after its last `:`.
pub open spec fn enemy_number(e: AliveEnemyView) -> u64 {
    parse_u64_spec(last_segment(e.id))->0
}

/// The position of the first spawned entity with the given id, if any.
pub open spec fn first_pos(spawned: Seq<(u64, Vec3Bits)>, id: u64) -> Option<Vec3Bits>
    decreases spawned.len(),
{
    if spawned.len() == 0 {
        None
    } else if spawned[0].0 == id {
        Some(spawned[0].1)
    } else {
        first_pos(spawned.drop_first(), id)
    }
}

/// An enemy moved to where its spawned entity stands, if one does.
pub open spec fn refreshed(e: AliveEnemyView, spawned: Seq<(u64, Vec3Bits)>) -> AliveEnemyView {
    match first_pos(spawned, enemy_number(e)) {
        Some(p) => AliveEnemyView { pos: p, ..e },
        None => e,
    }
}

/// Every enemy moved to where its spawned entity stands.
pub open spec fn refresh_enemies(
    m: Map<Seq<char>, AliveEnemyView>,
    spawned: Seq<(u64, Vec3Bits)>,
) -> Map<Seq<char>, AliveEnemyView> {
    m.map_values(|e: AliveEnemyView| refreshed(e, spawned))
}

proof fn lemma_first_pos_at(spawned: Seq<(u64, Vec3Bits)>, id: u64, i: int)
    requires
        0 <= i < spawned.len(),
        spawned[i].0 == id,
        forall|j: int| 0 <= j < i ==> #[trigger] spawned[j].0 != id,
    ensures
        first_pos(spawned, id) == Some(spawned[i].1),
    decreases i,
{
    if i > 0 {
        let rest = spawned.drop_first();
        assert forall|j: int| 0 <= j < i - 1 implies #[trigger] rest[j].0 != id by {
            assert(rest[j] == spawned[j + 1]);
        }
        assert(spawned[0].0 != id);
        lemma_first_pos_at(rest, id, i - 1);
        assert(rest[i - 1] == spawned[i]);
    }
}

proof fn lemma_first_pos_none(spawned: Seq<(u64, Vec3Bits)>, id: u64)
    requires
        forall|j: int| 0 <= j < spawned.len() ==> #[trigger] spawned[j].0 != id,
    ensures
        first_pos(spawned, id) is None,
    decreases spawned.len(),
{
    if spawned.len() > 0 {
        let rest = spawned.drop_first();
        assert forall|j: int| 0 <= j < rest.len() implies #[trigger] rest[j].0 != id by {
            assert(rest[j] == spawned[j + 1]);
        }
        assert(spawned[0].0 != id);
        lemma_first_pos_none(rest, id);
    }
}

/// What a full resync does to the enemies: the same enemies are kept, each
/// with its id, kind and facing; an enemy whose number (the digits after the
/// last `:` of its id) is held by some spawned body stands where the first
/// such body stands; any other enemy stays where it was.
pub proof fn lemma_resync_moves_enemies(m: Map<Seq<char>, AliveEnemyView>, spawned: Seq<(u64, Vec3Bits)>)
    ensures
        refresh_enemies(m, spawned).dom() == m.dom(),
        forall|k: Seq<char>|
            #![trigger refresh_enemies(m, spawned)[k]]
            m.contains_key(k) ==> {
                &&& refresh_enemies(m, spawned)[k].id == m[k].id
                &&& refresh_enemies(m, spawned)[k].kind == m[k].kind
                &&& refresh_enemies(m, spawned)[k].direction == m[k].direction
            },
        forall|k: Seq<char>, i: int|
            #![trigger refresh_enemies(m, spawned)[k], spawned[i]]
            m.contains_key(k) && 0 <= i < spawned.len() && spawned[i].0 == parse_u64_spec(
                last_segment(m[k].id),
            )->0 && (forall|j: int|
                0 <= j < i ==> spawned[j].0 != parse_u64_spec(last_segment(m[k].id))->0)
                ==> refresh_enemies(m, spawned)[k].pos == spawned[i].1,
        forall|k: Seq<char>|
            #![trigger refresh_enemies(m, spawned)[k]]
            m.contains_key(k) && (forall|j: int|
                0 <= j < spawned.len() ==> spawned[j].0 != parse_u64_spec(last_segment(m[k].id))->0)
                ==> refresh_enemies(m, spawned)[k] == m[k],
{
    assert(refresh_enemies(m, spawned).dom() =~= m.dom());
    assert forall|k: Seq<char>, i: int|
        #![trigger refresh_enemies(m, spawned)[k], spawned[i]]
        m.contains_key(k) && 0 <= i < spawned.len() && spawned[i].0 == parse_u64_spec(
            last_segment(m[k].id),
        )->0 && (forall|j: int|
            0 <= j < i ==> spawned[j].0 != parse_u64_spec(last_segment(m[k].id))->0)
        implies refresh_enemies(m, spawned)[k].pos == spawned[i].1 by {
        let n = parse_u64_spec(last_segment(m[k].id))->0;
        assert forall|j: int| 0 <= j < i implies #[trigger] spawned[j].0 != n by {}
        lemma_first_pos_at(spawned, n, i);
    }
    assert forall|k: Seq<char>|
        #![trigger refresh_enemies(m, spawned)[k]]
        m.contains_key(k) && (forall|j: int|
            0 <= j < spawned.len() ==> spawned[j].0 != parse_u64_spec(last_segment(m[k].id))->0)
        implies refresh_enemies(m, spawned)[k] == m[k] by {
        let n = parse_u64_spec(last_segment(m[k].id))->0;
        assert forall|j: int| 0 <= j < spawned.len() implies #[trigger] spawned[j].0 != n by {}
        lemma_first_pos_none(spawned, n);
    }
}

/// Whether `a` sends `Ack` to client `c`: the answer to a request that
/// the server declines, or to a movement update.
pub open spec fn is_ack_to(a: ServerAction, c: u64) -> bool {
    a matches ServerAction::Send { client_id, message: ServerMessage::Ack } && client_id == c
}

impl ServerState {
    /// The tables hold finitely many entries.
    pub open spec fn wf(&self) -> bool {
        self.all_ents.wf() && self.players.wf()
    }

    /// A full sync can be built for the client: it has a player, and every
    /// enemy's id ends in a number.
    pub open spec fn desync_ready(&self, client_id: u64) -> bool {
        &&& self.players.players@.contains_key(player_key(client_id))
        &&& forall|k: Seq<char>| #[trigger] self.all_ents.enemies@.contains_key(k) ==> parse_u64_spec(
            last_segment(self.all_ents.enemies@[k].id),
        ) is Some
    }

    /// Nothing that the state holds differs between `a` and `b`.
    pub open spec fn same_as(&self, b: &ServerState) -> bool {
        &&& self.players.players@ == b.players.players@
        &&& self.all_ents.players@ == b.all_ents.players@
        &&& self.all_ents.enemies@ == b.all_ents.enemies@
        &&& self.connections.id_maps@ == b.connections.id_maps@
    }

    /// A state with no player, no enemy and no connection.
    pub fn new() -> (r: ServerState)
        ensures
            r.players.players@.dom().is_empty(),
            r.all_ents.players@.dom().is_empty(),
            r.all_ents.enemies@.dom().is_empty(),
            r.connections.id_maps@.dom().is_empty(),
            r.wf(),
    {
        ServerState {
            players: Players::default(),
            all_ents: LivingEntities::default(),
            connections: CurrentConnections::new(),
        }
    }

    /// Whether a full sync can be built for the client.
    pub fn can_resync(&self, client_id: u64) -> (b: bool)
        requires
            self.wf(),
        ensures
            b == self.desync_ready(client_id),
    {
        let key = u64_to_decimal(client_id);
        if !self.players.players.contains_key(&key) {
            return false;
        }
        let ks = self.all_ents.enemies.keys();
        let mut i: usize = 0;
        while i < ks.len()
            invariant
                i <= ks.len(),
                forall|j: int| 0 <= j < ks.len() ==> self.all_ents.enemies@.contains_key(
                    #[trigger] ks@[j]@,
                ),
                forall|k: Seq<char>| #[trigger]
                    self.all_ents.enemies@.contains_key(k) ==> exists|j: int|
                        0 <= j < ks.len() && #[trigger] ks@[j]@ == k,
                forall|j: int|
                    0 <= j < i ==> parse_u64_spec(
                        last_segment(self.all_ents.enemies@[#[trigger] ks@[j]@].id),
                    ) is Some,
            decreases ks.len() - i,
        {
            match self.all_ents.enemies.get(&ks[i]) {
                Some(e) => {
                    if parse_u64(last_segment_of(e.id.as_str())).is_none() {
                        return false;
                    }
                },
                None => {},
            }
            i = i + 1;
        }
        assert forall|k: Seq<char>| #[trigger]
            self.all_ents.enemies@.contains_key(k) implies parse_u64_spec(
            last_segment(self.all_ents.enemies@[k].id),
        ) is Some by {
            let j = choose|j: int| 0 <= j < ks.len() && #[trigger] ks@[j]@ == k;
        }
        true
    }

    /// Moves every enemy to where its spawned entity stands.
    fn refresh_enemy_positions(&mut self, spawned: &Vec<(u64, Vec3Bits)>)
        requires
            old(self).wf(),
            forall|k: Seq<char>| #[trigger]
                old(self).all_ents.enemies@.contains_key(k) ==> parse_u64_spec(
                    last_segment(old(self).all_ents.enemies@[k].id),
                ) is Some,
        ensures
            final(self).wf(),
            final(self).all_ents.enemies@ == refresh_enemies(old(self).all_ents.enemies@, spawned@),
            final(self).all_ents.players@ == old(self).all_ents.players@,
            final(self).players.players@ == old(self).players.players@,
            final(self).connections.id_maps@ == old(self).connections.id_maps@,
    {
        let ghost start = self.all_ents.enemies@;
        let ks = self.all_ents.enemies.keys();
        let mut i: usize = 0;
        while i < ks.len()
            invariant
                i <= ks.len(),
                self.wf(),
                start.dom().finite(),
                self.all_ents.enemies@.dom() == start.dom(),
                self.all_ents.players@ == old(self).all_ents.players@,
                self.players.players@ == old(self).players.players@,
                self.connections.id_maps@ == old(self).connections.id_maps@,
                forall|j: int| 0 <= j < ks.len() ==> start.contains_key(#[trigger] ks@[j]@),
                forall|j: int, l: int| 0 <= j < l < ks.len() ==> ks@[j]@ != ks@[l]@,
                forall|k: Seq<char>| #[trigger]
                    start.contains_key(k) ==> exists|j: int| 0 <= j < ks.len() && #[trigger] ks@[j]@ == k,
                forall|k: Seq<char>| #[trigger]
                    start.contains_key(k) ==> parse_u64_spec(last_segment(start[k].id)) is Some,
                forall|k: Seq<char>|
                    #![trigger self.all_ents.enemies@[k]]
                    start.contains_key(k) ==> (if exists|j: int| 0 <= j < i && #[trigger] ks@[j]@ == k {
                        self.all_ents.enemies@[k] == refreshed(start[k], spawned@)
                    } else {
                        self.all_ents.enemies@[k] == start[k]
                    }),
            decreases ks.len() - i,
        {
            let ghost k = ks@[i as int]@;
            let mut enemy = match self.all_ents.enemies.get(&ks[i]) {
                Some(e) => e.duplicate(),
                None => {
                    assert(false);
                    unreached()
                },
            };
            assert(enemy@ == start[k]);
            let number = match parse_u64(last_segment_of(enemy.id.as_str())) {
                Some(n) => n,
                None => {
                    assert(false);
                    unreached()
                },
            };
            assert(number == enemy_number(start[k]));
            let mut j: usize = 0;
            assert(spawned@.skip(0) =~= spawned@);
            while j < spawned.len() && spawned[j].0 != number
                invariant
                    j <= spawned.len(),
                    start.contains_key(k),
                    enemy@ == start[k],
                    number == enemy_number(start[k]),
                    first_pos(spawned@, number) == first_pos(spawned@.skip(j as int), number),
                decreases spawned.len() - j,
            {
                assert(spawned@.skip(j as int)[0] == spawned@[j as int]);
                assert(spawned@.skip(j as int).drop_first() =~= spawned@.skip(j + 1));
                j = j + 1;
            }
            if j < spawned.len() {
                assert(spawned@.skip(j as int)[0] == spawned@[j as int]);
                enemy.pos = spawned[j].1;
            } else {
                assert(spawned@.skip(j as int).len() == 0);
            }
            assert(enemy@ == refreshed(start[k], spawned@));
            self.all_ents.enemies.insert(ks[i].clone(), enemy);
            proof {
                assert forall|k2: Seq<char>| start.contains_key(k2) implies (if exists|j2: int|
                    0 <= j2 < i + 1 && #[trigger] ks@[j2]@ == k2 {
                    self.all_ents.enemies@[k2] == refreshed(start[k2], spawned@)
                } else {
                    self.all_ents.enemies@[k2] == start[k2]
                }) by {
                    if k2 == k {
                        assert(ks@[i as int]@ == k2);
                    } else {
                        if exists|j2: int| 0 <= j2 < i + 1 && #[trigger] ks@[j2]@ == k2 {
                            let j2 = choose|j2: int| 0 <= j2 < i + 1 && #[trigger] ks@[j2]@ == k2;
                            assert(j2 < i);
                        }
                    }
                }
                assert(self.all_ents.enemies@.dom() =~= start.dom());
            }
            i = i + 1;
        }
        proof {
            assert forall|k: Seq<char>| #[trigger] start.contains_key(k) implies self.all_ents.enemies@[k]
                == refreshed(start[k], spawned@) by {
                let j = choose|j: int| 0 <= j < ks.len() && #[trigger] ks@[j]@ == k;
            }
            assert(self.all_ents.enemies@ =~= refresh_enemies(start, spawned@));
        }
    }

    /// Answers one message from client `client_id`. `spawned` lists the
    /// server's spawned enemies, each by its number and where it stands.
    #[verifier::rlimit(40)]
    pub fn handle_client_message(
        &mut self,
        client_id: u64,
        message: ClientMessage,
        spawned: &Vec<(u64, Vec3Bits)>,
    ) -> (r: ServerReply)
        requires
            old(self).wf(),
            message is DeSynced ==> old(self).desync_ready(client_id),
        ensures
            final(self).wf(),
            match message {
                ClientMessage::Ping => {
                    &&& final(self).same_as(old(self))
                    &&& r.actions@.len() == 1
                    &&& r.actions@[0] matches ServerAction::Send {
                        client_id: c,
                        message: ServerMessage::Pong,
                    } && c == client_id
                    &&& !r.end_tick
                },
                ClientMessage::ServerReady { username, id } => {
                    let p = new_player_view(username@, client_id, id@);
                    &&& final(self).players.players@ == old(self).players.players@.insert(
                        player_key(client_id),
                        p,
                    )
                    &&& final(self).all_ents.players@ == old(self).all_ents.players@.insert(
                        player_key(client_id),
                        p,
                    )
                    &&& final(self).all_ents.enemies@ == old(self).all_ents.enemies@
                    &&& final(self).connections.id_maps@ == old(self).connections.id_maps@.insert(
                        client_id,
                        id@,
                    )
                    &&& r.actions@.len() == 2
                    &&& r.actions@[0] matches ServerAction::Broadcast {
                        message: ServerMessage::EntitySpawn { entity_type: EntityType::Player, data },
                    } && data@ == (RawEntityView {
                        id: id@,
                        pos: Vec3Bits::spec_spawn_point(),
                        enemy_type: Enemy::Debug,
                    })
                    &&& r.actions@[1] matches ServerAction::Send {
                        client_id: c,
                        message: ServerMessage::ClientReady { server_ready, server_client_id },
                    } && c == client_id && server_ready && server_client_id == client_id
                    &&& !r.end_tick
                },
                ClientMessage::ChangeClass { class } => {
                    &&& (old(self).players.players@.contains_key(player_key(client_id)) ==> final(self).players.players@ == old(self).players.players@.insert(
                        player_key(client_id),
                        with_class(old(self).players.players@[player_key(client_id)], client_id, class),
                    ))
                    &&& (!old(self).players.players@.contains_key(player_key(client_id)) ==> final(self).players.players@ == old(self).players.players@)
                    &&& final(self).all_ents.players@ == old(self).all_ents.players@
                    &&& final(self).all_ents.enemies@ == old(self).all_ents.enemies@
                    &&& final(self).connections.id_maps@ == old(self).connections.id_maps@
                    &&& r.actions@.len() == 1
                    &&& (old(self).players.players@.contains_key(player_key(client_id)) ==> (
                    r.actions@[0] matches ServerAction::Send {
                        client_id: c,
                        message: ServerMessage::Sync { player_data, living_entites },
                    } && c == client_id && player_data@ == final(self).players.players@[player_key(
                        client_id,
                    )] && living_entites.players@ == final(self).all_ents.players@
                        && living_entites.enemies@ == final(self).all_ents.enemies@))
                    &&& (!old(self).players.players@.contains_key(player_key(client_id))
                        ==> is_ack_to(r.actions@[0], client_id))
                    &&& !r.end_tick
                },
                ClientMessage::DeSynced => {
                    &&& final(self).players.players@ == old(self).players.players@
                    &&& final(self).all_ents.players@ == old(self).all_ents.players@
                    &&& final(self).all_ents.enemies@ == refresh_enemies(
                        old(self).all_ents.enemies@,
                        spawned@,
                    )
                    &&& final(self).connections.id_maps@ == old(self).connections.id_maps@
                    &&& r.actions@.len() == 1
                    &&& r.actions@[0] matches ServerAction::Send {
                        client_id: c,
                        message: ServerMessage::Sync { player_data, living_entites },
                    } && c == client_id && player_data@ == old(self).players.players@[player_key(
                        client_id,
                    )] && living_entites.players@ == final(self).all_ents.players@
                        && living_entites.enemies@ == final(self).all_ents.enemies@
                    &&& !r.end_tick
                },
                ClientMessage::Disconnect { reason } => {
                    &&& final(self).same_as(old(self))
                    &&& r.actions@.len() == 1
                    &&& r.actions@[0] matches ServerAction::Disconnect { client_id: c } && c
                        == client_id
                    &&& !r.end_tick
                },
                ClientMessage::MovementUpdate { pos, direction, actions } => {
                    if !old(self).connections.id_maps@.contains_key(client_id) {
                        &&& final(self).same_as(old(self))
                        &&& r.actions@.len() == 1
                        &&& r.actions@[0] matches ServerAction::Disconnect { client_id: c } && c
                            == client_id
                        &&& r.end_tick
                    } else {
                        let known = old(self).players.players@.contains_key(player_key(client_id));
                        let moved = with_pos(
                            old(self).players.players@[player_key(client_id)],
                            client_id,
                            pos,
                            direction,
                        );
                        let forwards = known && actions.actions@.len() != 0;
                        &&& (known ==> final(self).players.players@
                            == old(self).players.players@.insert(player_key(client_id), moved))
                        &&& (!known ==> final(self).players.players@ == old(self).players.players@)
                        &&& final(self).all_ents.players@ == old(self).all_ents.players@
                        &&& final(self).all_ents.enemies@ == old(self).all_ents.enemies@
                        &&& final(self).connections.id_maps@ == old(self).connections.id_maps@
                        &&& r.actions@.len() == (if forwards {
                            3int
                        } else {
                            2int
                        })
                        &&& r.actions@[0] matches ServerAction::Broadcast {
                            message: ServerMessage::PlayerChange { id, client_assigned_id, pos: p },
                        } && id == client_id && client_assigned_id@
                            == old(self).connections.id_maps@[client_id] && p == pos
                        &&& forwards ==> (r.actions@[1] matches ServerAction::ForwardActions {
                            player,
                            actions: a,
                        } && player@ == moved && a.actions@ == actions.actions@)
                        &&& is_ack_to(r.actions@[r.actions@.len() - 1], client_id)
                        &&& !r.end_tick
                    }
                },
            },
    {
        match message {
            ClientMessage::Ping => {
                let mut actions: Vec<ServerAction> = Vec::new();
                actions.push(ServerAction::Send { client_id, message: ServerMessage::Pong });
                ServerReply { actions, end_tick: false }
            },
            ClientMessage::ServerReady { username, id } => {
                let player = self.players.register_new_player(username.as_str(), client_id, id.clone());
                self.connections.id_maps.insert(client_id, id.clone());
                let data = RawEntity { id: id, pos: player.loc, enemy_type: Enemy::Debug };
                let mut actions: Vec<ServerAction> = Vec::new();
                actions.push(
                    ServerAction::Broadcast {
                        message: ServerMessage::EntitySpawn { entity_type: EntityType::Player, data },
                    },
                );
                self.all_ents.players.insert(u64_to_decimal(client_id), player);
                actions.push(
                    ServerAction::Send {
                        client_id,
                        message: ServerMessage::ClientReady {
                            server_ready: true,
                            server_client_id: client_id,
                        },
                    },
                );
                ServerReply { actions, end_tick: false }
            },
            ClientMessage::ChangeClass { class } => {
                let mut actions: Vec<ServerAction> = Vec::new();
                if self.players.is_player_connected(client_id) {
                    self.players.modify_player_class(client_id, class);
                    let player = self.players.fetch_player(client_id);
                    let living = self.all_ents.duplicate();
                    actions.push(
                        ServerAction::Send {
                            client_id,
                            message: ServerMessage::Sync { player_data: player, living_entites: living },
                        },
                    );
                } else {
                    actions.push(ServerAction::Send { client_id, message: ServerMessage::Ack });
                }
                ServerReply { actions, end_tick: false }
            },
            ClientMessage::DeSynced => {
                let player = self.players.fetch_player(client_id);
                self.refresh_enemy_positions(spawned);
                let living = self.all_ents.duplicate();
                let mut actions: Vec<ServerAction> = Vec::new();
                actions.push(
                    ServerAction::Send {
                        client_id,
                        message: ServerMessage::Sync { player_data: player, living_entites: living },
                    },
                );
                ServerReply { actions, end_tick: false }
            },
            ClientMessage::Disconnect { reason } => {
                let mut actions: Vec<ServerAction> = Vec::new();
                actions.push(ServerAction::Disconnect { client_id });
                ServerReply { actions, end_tick: false }
            },
            ClientMessage::MovementUpdate { pos, direction, actions } => {
                if !self.connections.id_maps.contains_key(&client_id) {
                    let mut out: Vec<ServerAction> = Vec::new();
                    out.push(ServerAction::Disconnect { client_id });
                    return ServerReply { actions: out, end_tick: true };
                }
                let player = self.players.modify_player_pos(client_id, pos, direction);
                let client_assinged_id = match self.connections.id_maps.get(&client_id) {
                    Some(s) => s.clone(),
                    None => {
                        assert(false);
                        unreached()
                    },
                };
                let mut out: Vec<ServerAction> = Vec::new();
                out.push(
                    ServerAction::Broadcast {
                        message: ServerMessage::PlayerChange {
                            id: client_id,
                            client_assigned_id: client_assinged_id,
                            pos: pos,
                        },
                    },
                );
                if actions.actions.len() != 0 && player.is_some() {
                    match player {
                        Some(p) => {
                            out.push(ServerAction::ForwardActions { player: p, actions });
                        },
                        None => {},
                    }
                }
                out.push(ServerAction::Send { client_id, message: ServerMessage::Ack });
                ServerReply { actions: out, end_tick: false }
            },
        }
    }

    /// A client left: its player is forgotten in both tables, and the number
    /// of players still known comes back.
    pub fn client_disconnected(&mut self, client_id: u64) -> (n: usize)
        requires
            old(self).wf(),
        ensures
            final(self).wf(),
            final(self).players.players@ == old(self).players.players@.remove(player_key(client_id)),
            final(self).all_ents.players@ == old(self).all_ents.players@.remove(player_key(client_id)),
            final(self).all_ents.enemies@ == old(self).all_ents.enemies@,
            final(self).connections.id_maps@ == old(self).connections.id_maps@,
            n == final(self).players.players@.len(),
    {
        self.players.remove_player(client_id);
        let key = u64_to_decimal(client_id);
        self.all_ents.players.remove(&key);
        self.players.known_players()
    }
}

} // verus!

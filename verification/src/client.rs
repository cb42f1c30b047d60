//! How the game client joins a server and answers what the server says.
use vstd::prelude::*;

use bevy::ecs::entity::Entity;

use crate::decimal::{decimal, prefixed_decimal};
use crate::defaults::{
    Action,
    AliveEnemy,
    AliveEnemyView,
    Class,
    CurrentActions,
    EntityType,
    Item,
    LivingEntities,
    Player,
    PlayerView,
    Vec3Bits,
};
use crate::messages::{ClientMessage, ServerMessage};
use crate::tables::{BodyTable, PlayerTable};


verus! {

/// Who this client is.
pub struct Me {
    pub username: String,
    /// The id this client gave itself.
    pub id: String,
    /// The id the server gave this client.
    pub server_id: u64,
}

/// Whether the client has received its first full state from the server.
pub struct GameReady {
    pub ready: bool,
}

/// Marks the body of another player with that player's client-given id.
pub struct PlayerBody {
    pub id: String,
}

/// The other players this client shows: each client-given id to the player
/// as first seen, and to the entity of its body.
pub struct Players {
    pub list: PlayerTable,
    pub body: BodyTable,
}

impl Players {
    /// Every listed player has a body.
    pub open spec fn wf(&self) -> bool {
        self.list@.dom().subset_of(self.body@.dom())
    }

    /// No other player is shown.
    pub fn new() -> (r: Players)
        ensures
            r.list@.dom().is_empty(),
            r.body@.dom().is_empty(),
            r.wf(),
    {
        Players { list: PlayerTable::new(), body: BodyTable::new() }
    }
}

/// The id a development client gives itself from the random byte `n`.
pub open spec fn dev_id(n: u8) -> Seq<char> {
    "dev-dev-dev-dev-"@ + decimal(n as nat)
}

/// The player a development client starts as, before the server answers.
pub open spec fn dev_player(n: u8) -> PlayerView {
    PlayerView {
        name: "Dev"@,
        id: dev_id(n),
        class: Class::Fighter,
        loc: Vec3Bits::spec_origin(),
        health: 0,
        inv: Seq::<Item>::empty(),
        direction: Vec3Bits::spec_origin(),
        client_assinged_id: dev_id(n),
        resource_amount: 0,
    }
}

/// `rand::thread_rng().gen::<u8>()`: a byte from the thread's random
/// generator; nothing is stated of which byte it is.
#[verifier::external_body]
fn random_byte() -> u8 {
    rand::Rng::gen(&mut rand::thread_rng())
}

/// Names the client from the byte `n` and builds the first message of the
/// handshake and the player the client starts as.
pub fn handshake_from(me: &mut Me, n: u8) -> (r: (ClientMessage, Player))
    ensures
        final(me).id@ == dev_id(n),
        final(me).username@ == "Dev"@,
        final(me).server_id == old(me).server_id,
        r.0 matches ClientMessage::ServerReady { username, id } && username@ == "Dev"@ && id@
            == dev_id(n),
        r.1@ == dev_player(n),
{
    let name = String::from_str("Dev");
    let id = prefixed_decimal("dev-dev-dev-dev-", n as u64);
    me.id = id.clone();
    me.username = name.clone();
    let message = ClientMessage::ServerReady { username: name.clone(), id: id.clone() };
    let player = Player {
        name,
        id: id.clone(),
        class: Class::Fighter,
        loc: Vec3Bits::origin(),
        health: 0,
        inv: Vec::new(),
        direction: Vec3Bits::origin(),
        client_assinged_id: id,
        resource_amount: 0,
    };
    assert(player@.inv =~= Seq::<Item>::empty());
    (message, player)
}

/// Starts connecting: the client names itself from a random byte and
/// builds the first message of the handshake and its starting player.
pub fn client_start_connection(me: &mut Me) -> (r: (ClientMessage, Player))
    ensures
        exists|n: u8|
            {
                &&& #[trigger] dev_id(n) == final(me).id@
                &&& final(me).username@ == "Dev"@
                &&& r.0 matches ClientMessage::ServerReady { username, id } && username@ == "Dev"@
                    && id@ == dev_id(n)
                &&& r.1@ == dev_player(n)
            },
        final(me).server_id == old(me).server_id,
{
    let n = random_byte();
    handshake_from(me, n)
}

/// Something the client does in answer to a message.
pub enum ClientAction {
    /// Sends a message to the server.
    SendToServer { message: ClientMessage },
    /// Leaves the server.
    Disconnect,
    /// Hands an enemy to the entity handler, under the given id.
    EnemyUpdate { id: String, enemy: AliveEnemy },
    /// Moves the body of the player with this client-given id.
    MovePlayer { id: String, pos: Vec3Bits },
    /// Spawns the body of a player that just joined.
    SpawnPlayerBody { id: String, pos: Vec3Bits },
}

/// What the client does in answer to one message.
pub struct ClientReply {
    /// The actions, in the order they are done.
    pub actions: Vec<ClientAction>,
    /// The client stops reading messages for the rest of this tick.
    pub end_tick: bool,
    /// The message was a full sync: the bodies of the other players are to be
    /// brought up to date, one key of `all_ents.players` at a time.
    pub sync_players: bool,
}

/// What a body update for one synced player is.
pub enum PlayerSync {
    /// The player is this client itself.
    Skip,
    /// A body is to be spawned for a player not shown yet.
    SpawnNew { id: String, name: String, pos: Vec3Bits },
    /// The body `old_body` is to be replaced by a new one.
    Respawn { id: String, name: String, pos: Vec3Bits, old_body: Entity },
}

/// Everything the client's message handling reads and changes.
pub struct ClientState {
    pub me: Me,
    pub player: Player,
    pub all_ents: LivingEntities,
    pub all_players: Players,
    pub game_ready: GameReady,
}

/// The server messages that a client whose own id is `me_id` handles; the
/// others are not written yet. A spawn of the client's own id is always
/// handled, whatever its kind.
pub open spec fn supported_server_message(m: ServerMessage, me_id: Seq<char>) -> bool {
    match m {
        ServerMessage::WorldObjectUpdate { .. } => false,
        ServerMessage::EntitySpawn { entity_type, data } => entity_type != EntityType::Other || data.id@
            == me_id,
        ServerMessage::EntityDespawn { entity_type, .. } => entity_type == EntityType::Enemy,
        _ => true,
    }
}

/// Whether `a` hands to the entity handler, under `id`, the enemy `e`.
pub open spec fn is_enemy_update(a: ClientAction, id: Seq<char>, e: AliveEnemyView) -> bool {
    a matches ClientAction::EnemyUpdate { id: i, enemy } && i@ == id && enemy@ == e
}

/// Whether `a` asks the server for a full sync.
pub open spec fn is_resync_request(a: ClientAction) -> bool {
    a matches ClientAction::SendToServer { message: ClientMessage::DeSynced }
}

impl ClientState {
    /// Every listed player has a body.
    pub open spec fn wf(&self) -> bool {
        self.all_players.wf()
    }

    /// Whether the client handles the message.
    pub fn handles(&self, message: &ServerMessage) -> (b: bool)
        ensures
            b == supported_server_message(*message, self.me.id@),
    {
        match message {
            ServerMessage::WorldObjectUpdate { .. } => false,
            ServerMessage::EntitySpawn { entity_type, data } => match entity_type {
                EntityType::Other => data.id == self.me.id,
                _ => true,
            },
            ServerMessage::EntityDespawn { entity_type, .. } => match entity_type {
                EntityType::Enemy => true,
                _ => false,
            },
            _ => true,
        }
    }

    /// Answers one message from the server.
    #[verifier::rlimit(40)]
    pub fn handle_server_message(&mut self, message: ServerMessage) -> (r: ClientReply)
        requires
            old(self).wf(),
            supported_server_message(message, old(self).me.id@),
        ensures
            final(self).wf(),
            final(self).game_ready.ready == (old(self).game_ready.ready || message is Sync),
            final(self).all_players == old(self).all_players,
            final(self).me.username@ == old(self).me.username@,
            final(self).me.id@ == old(self).me.id@,
            match message {
                ServerMessage::ClientReady { server_ready, server_client_id } => {
                    &&& final(self).all_ents.players@ == old(self).all_ents.players@
                    &&& final(self).all_ents.enemies@ == old(self).all_ents.enemies@
                    &&& final(self).player@ == old(self).player@
                    &&& final(self).game_ready.ready == old(self).game_ready.ready
                    &&& r.actions@.len() == 1
                    &&& !r.sync_players
                    &&& if server_ready {
                        &&& final(self).me.server_id == server_client_id
                        &&& is_resync_request(r.actions@[0])
                        &&& !r.end_tick
                    } else {
                        &&& final(self).me.server_id == old(self).me.server_id
                        &&& r.actions@[0] is Disconnect
                        &&& r.end_tick
                    }
                },
                ServerMessage::Sync { player_data, living_entites } => {
                    &&& final(self).all_ents.players@ == living_entites.players@
                    &&& final(self).all_ents.enemies@ == living_entites.enemies@
                    &&& final(self).player@ == player_data@
                    &&& final(self).game_ready.ready
                    &&& final(self).me.server_id == old(self).me.server_id
                    &&& r.sync_players
                    &&& !r.end_tick
                    &&& forall|i: int|
                        0 <= i < r.actions@.len() ==> (#[trigger] r.actions@[i] matches ClientAction::EnemyUpdate {
                            id,
                            enemy,
                        } && living_entites.enemies@.contains_key(id@) && enemy@
                            == living_entites.enemies@[id@])
                    &&& forall|k: Seq<char>| #[trigger]
                        living_entites.enemies@.contains_key(k) ==> exists|i: int|
                            0 <= i < r.actions@.len() && is_enemy_update(
                                #[trigger] r.actions@[i],
                                k,
                                living_entites.enemies@[k],
                            )
                    &&& r.actions@.len() == living_entites.enemies@.len()
                },
                ServerMessage::EntitySpawn { entity_type, data } => {
                    &&& final(self).all_ents.players@ == old(self).all_ents.players@
                    &&& final(self).all_ents.enemies@ == old(self).all_ents.enemies@
                    &&& final(self).player@ == old(self).player@
                    &&& final(self).game_ready.ready == old(self).game_ready.ready
                    &&& final(self).me.server_id == old(self).me.server_id
                    &&& r.actions@.len() == 1
                    &&& !r.sync_players
                    &&& if data.id@ == old(self).me.id@ {
                        &&& is_resync_request(r.actions@[0])
                        &&& r.end_tick
                    } else if entity_type == EntityType::Player {
                        &&& r.actions@[0] matches ClientAction::SpawnPlayerBody { id, pos } && id@
                            == data.id@ && pos == data.pos
                        &&& !r.end_tick
                    } else {
                        &&& is_enemy_update(r.actions@[0], data.id@, data.make_alive_view())
                        &&& !r.end_tick
                    }
                },
                ServerMessage::EntityDespawn { entity_type, data } => {
                    &&& final(self).all_ents.players@ == old(self).all_ents.players@
                    &&& final(self).all_ents.enemies@ == old(self).all_ents.enemies@
                    &&& final(self).player@ == old(self).player@
                    &&& final(self).game_ready.ready == old(self).game_ready.ready
                    &&& final(self).me.server_id == old(self).me.server_id
                    &&& r.actions@.len() == 1
                    &&& is_enemy_update(r.actions@[0], data.id@, data.make_alive_view())
                    &&& !r.end_tick
                    &&& !r.sync_players
                },
                ServerMessage::EntityChange { data } => {
                    &&& final(self).all_ents.players@ == old(self).all_ents.players@
                    &&& final(self).all_ents.enemies@ == old(self).all_ents.enemies@
                    &&& final(self).player@ == old(self).player@
                    &&& final(self).game_ready.ready == old(self).game_ready.ready
                    &&& final(self).me.server_id == old(self).me.server_id
                    &&& r.actions@.len() == 1
                    &&& is_enemy_update(r.actions@[0], data.id@, data.make_alive_view())
                    &&& !r.end_tick
                    &&& !r.sync_players
                },
                ServerMessage::PlayerChange { id, client_assigned_id, pos } => {
                    &&& final(self).all_ents.players@ == old(self).all_ents.players@
                    &&& final(self).all_ents.enemies@ == old(self).all_ents.enemies@
                    &&& final(self).player@ == old(self).player@
                    &&& final(self).game_ready.ready == old(self).game_ready.ready
                    &&& final(self).me.server_id == old(self).me.server_id
                    &&& !r.end_tick
                    &&& !r.sync_players
                    &&& if client_assigned_id@ == old(self).me.id@ || id == old(self).me.server_id {
                        r.actions@.len() == 0
                    } else {
                        &&& r.actions@.len() == 1
                        &&& r.actions@[0] matches ClientAction::MovePlayer { id: i, pos: p } && i@
                            == client_assigned_id@ && p == pos
                    }
                },
                ServerMessage::Kick { reason } => {
                    &&& final(self).all_ents.players@ == old(self).all_ents.players@
                    &&& final(self).all_ents.enemies@ == old(self).all_ents.enemies@
                    &&& final(self).player@ == old(self).player@
                    &&& final(self).me.server_id == old(self).me.server_id
                    &&& r.actions@.len() == 1
                    &&& r.actions@[0] is Disconnect
                    &&& r.end_tick
                    &&& !r.sync_players
                },
                _ => {
                    &&& final(self).all_ents.players@ == old(self).all_ents.players@
                    &&& final(self).all_ents.enemies@ == old(self).all_ents.enemies@
                    &&& final(self).player@ == old(self).player@
                    &&& final(self).game_ready.ready == old(self).game_ready.ready
                    &&& final(self).me.server_id == old(self).me.server_id
                    &&& r.actions@.len() == 0
                    &&& !r.end_tick
                    &&& !r.sync_players
                },
            },
    {
        let mut actions: Vec<ClientAction> = Vec::new();
        match message {
            ServerMessage::ClientReady { server_ready, server_client_id } => {
                if !server_ready {
                    actions.push(ClientAction::Disconnect);
                    return ClientReply { actions, end_tick: true, sync_players: false };
                }
                self.me.server_id = server_client_id;
                actions.push(ClientAction::SendToServer { message: ClientMessage::DeSynced });
                ClientReply { actions, end_tick: false, sync_players: false }
            },
            ServerMessage::Sync { player_data, living_entites } => {
                let ks = living_entites.enemies.keys();
                let mut i: usize = 0;
                while i < ks.len()
                    invariant
                        i <= ks.len(),
                        actions@.len() == i,
                        forall|j: int|
                            0 <= j < ks.len() ==> living_entites.enemies@.contains_key(
                                #[trigger] ks@[j]@,
                            ),
                        forall|k: Seq<char>| #[trigger]
                            living_entites.enemies@.contains_key(k) ==> exists|j: int|
                                0 <= j < ks.len() && #[trigger] ks@[j]@ == k,
                        forall|j: int|
                            0 <= j < i ==> is_enemy_update(
                                #[trigger] actions@[j],
                                ks@[j]@,
                                living_entites.enemies@[ks@[j]@],
                            ),
                    decreases ks.len() - i,
                {
                    match living_entites.enemies.get(&ks[i]) {
                        Some(e) => {
                            actions.push(
                                ClientAction::EnemyUpdate { id: ks[i].clone(), enemy: e.duplicate() },
                            );
                        },
                        None => {
                            assert(false);
                        },
                    }
                    i = i + 1;
                }
                proof {
                    assert forall|k: Seq<char>| #[trigger]
                        living_entites.enemies@.contains_key(k) implies exists|j: int|
                        0 <= j < actions@.len() && is_enemy_update(
                            #[trigger] actions@[j],
                            k,
                            living_entites.enemies@[k],
                        ) by {
                        let j = choose|j: int| 0 <= j < ks.len() && #[trigger] ks@[j]@ == k;
                        assert(is_enemy_update(actions@[j], ks@[j]@, living_entites.enemies@[ks@[j]@]));
                    }
                    assert forall|j: int| 0 <= j < actions@.len() implies (#[trigger] actions@[j] matches ClientAction::EnemyUpdate {
                        id,
                        enemy,
                    } && living_entites.enemies@.contains_key(id@) && enemy@
                        == living_entites.enemies@[id@]) by {
                        assert(is_enemy_update(actions@[j], ks@[j]@, living_entites.enemies@[ks@[j]@]));
                    }
                    let kv = ks@.map_values(|s: String| s@);
                    assert forall|j: int| 0 <= j < kv.len() implies #[trigger] kv[j] == ks@[j]@ by {}
                    assert forall|k: Seq<char>| living_entites.enemies@.contains_key(k) implies exists|j: int|
                        0 <= j < kv.len() && #[trigger] kv[j] == k by {
                        let j = choose|j: int| 0 <= j < ks.len() && #[trigger] ks@[j]@ == k;
                        assert(kv[j] == k);
                    }
                    crate::tables::lemma_keys_cover_len(living_entites.enemies@, kv);
                }
                self.all_ents = living_entites;
                self.player = player_data;
                self.game_ready = GameReady { ready: true };
                ClientReply { actions, end_tick: false, sync_players: true }
            },
            ServerMessage::EntitySpawn { entity_type, data } => {
                if data.id == self.me.id {
                    actions.push(ClientAction::SendToServer { message: ClientMessage::DeSynced });
                    return ClientReply { actions, end_tick: true, sync_players: false };
                }
                match entity_type {
                    EntityType::Player => {
                        actions.push(ClientAction::SpawnPlayerBody { id: data.id, pos: data.pos });
                    },
                    _ => {
                        let enemy = data.make_alive();
                        actions.push(ClientAction::EnemyUpdate { id: data.id, enemy });
                    },
                }
                ClientReply { actions, end_tick: false, sync_players: false }
            },
            ServerMessage::EntityDespawn { entity_type, data } => {
                let enemy = data.make_alive();
                actions.push(ClientAction::EnemyUpdate { id: data.id, enemy });
                ClientReply { actions, end_tick: false, sync_players: false }
            },
            ServerMessage::EntityChange { data } => {
                let enemy = data.make_alive();
                actions.push(ClientAction::EnemyUpdate { id: data.id, enemy });
                ClientReply { actions, end_tick: false, sync_players: false }
            },
            ServerMessage::PlayerChange { id, client_assigned_id, pos } => {
                if client_assigned_id == self.me.id {
                    return ClientReply { actions, end_tick: false, sync_players: false };
                }
                if id == self.me.server_id {
                    return ClientReply { actions, end_tick: false, sync_players: false };
                }
                actions.push(ClientAction::MovePlayer { id: client_assigned_id, pos });
                ClientReply { actions, end_tick: false, sync_players: false }
            },
            ServerMessage::Kick { reason } => {
                actions.push(ClientAction::Disconnect);
                ClientReply { actions, end_tick: true, sync_players: false }
            },
            _ => ClientReply { actions, end_tick: false, sync_players: false },
        }
    }

    /// What a sync does for the player held under `key` in `all_ents.players`:
    /// nothing for this client itself; otherwise a body, replacing the one
    /// the player had.
    pub fn plan_player_sync(&self, key: &String) -> (r: PlayerSync)
        requires
            self.wf(),
            self.all_ents.players@.contains_key(key@),
        ensures
            ({
                let fresh = self.all_ents.players@[key@];
                let cid = fresh.client_assinged_id;
                if cid == self.me.id@ {
                    r is Skip
                } else if !self.all_players.list@.contains_key(cid) {
                    r matches PlayerSync::SpawnNew { id, name, pos } && id@ == cid && name@ == fresh.name
                        && pos == fresh.loc
                } else {
                    r matches PlayerSync::Respawn { id, name, pos, old_body } && id@ == cid && name@
                        == fresh.name && pos == fresh.loc && old_body == self.all_players.body@[cid]
                }
            }),
    {
        let fresh = match self.all_ents.players.get(key) {
            Some(p) => p,
            None => {
                assert(false);
                unreached()
            },
        };
        let new_id = fresh.client_assinged_id.clone();
        if new_id == self.me.id {
            return PlayerSync::Skip;
        }
        if !self.all_players.list.contains_key(&new_id) {
            return PlayerSync::SpawnNew { id: new_id, name: fresh.name.clone(), pos: fresh.loc };
        }
        let old_body = match self.all_players.body.get(&new_id) {
            Some(b) => *b,
            None => {
                assert(false);
                unreached()
            },
        };
        PlayerSync::Respawn { id: new_id, name: fresh.name.clone(), pos: fresh.loc, old_body }
    }

    /// Records `body` as the body of the player held under `key` in
    /// `all_ents.players`; a player not shown before is listed as it is now.
    pub fn record_player_body(&mut self, key: &String, body: Entity)
        requires
            old(self).wf(),
            old(self).all_ents.players@.contains_key(key@),
        ensures
            final(self).wf(),
            ({
                let fresh = old(self).all_ents.players@[key@];
                let cid = fresh.client_assinged_id;
                &&& final(self).all_players.body@ == old(self).all_players.body@.insert(cid, body)
                &&& final(self).all_players.list@ == listed_after(old(self).all_players.list@, fresh)
            }),
            final(self).all_ents.players@ == old(self).all_ents.players@,
            final(self).all_ents.enemies@ == old(self).all_ents.enemies@,
            final(self).player@ == old(self).player@,
            final(self).me.id@ == old(self).me.id@,
            final(self).me.server_id == old(self).me.server_id,
            final(self).game_ready.ready == old(self).game_ready.ready,
    {
        let fresh = match self.all_ents.players.get(key) {
            Some(p) => p.duplicate(),
            None => {
                assert(false);
                unreached()
            },
        };
        let new_id = fresh.client_assinged_id.clone();
        if !self.all_players.list.contains_key(&new_id) {
            self.all_players.list.insert(new_id.clone(), fresh);
        }
        self.all_players.body.insert(new_id, body);
    }
}

/// The list of shown players after a body is recorded for `fresh`: a
/// player not shown before is listed as it is now; a shown one stays as it
/// was first seen.
pub open spec fn listed_after(list: Map<Seq<char>, PlayerView>, fresh: PlayerView) -> Map<Seq<char>, PlayerView> {
    if list.contains_key(fresh.client_assinged_id) {
        list
    } else {
        list.insert(fresh.client_assinged_id, fresh)
    }
}

/// The list of shown players after bodies are recorded, in order, for the
/// players `fresh`.
pub open spec fn sync_list(list: Map<Seq<char>, PlayerView>, fresh: Seq<PlayerView>) -> Map<Seq<char>, PlayerView>
    decreases fresh.len(),
{
    if fresh.len() == 0 {
        list
    } else {
        listed_after(sync_list(list, fresh.drop_last()), fresh.last())
    }
}

/// The bodies after the bodies `ents` are recorded, in order, for the
/// players `fresh`.
pub open spec fn sync_bodies(body: Map<Seq<char>, Entity>, fresh: Seq<PlayerView>, ents: Seq<Entity>) -> Map<
    Seq<char>,
    Entity,
>
    decreases fresh.len(),
{
    if fresh.len() == 0 {
        body
    } else {
        sync_bodies(body, fresh.drop_last(), ents).insert(
            fresh.last().client_assinged_id,
            ents[fresh.len() - 1],
        )
    }
}

/// The client-given ids of the players `fresh`.
pub open spec fn fresh_ids(fresh: Seq<PlayerView>) -> Set<Seq<char>> {
    Set::new(|k: Seq<char>| exists|i: int| 0 <= i < fresh.len() && #[trigger] fresh[i].client_assinged_id == k)
}

/// What a full sync does to the players the client shows. Let `fresh` be
/// the synced players other than the client itself, in the order their
/// bodies are recorded (the players for which `plan_player_sync` does not
/// skip), and `ents` their new bodies. When every shown player had a body,
/// afterwards the shown players and the bodies both have exactly the old
/// ids and the ids of `fresh`; a player shown before stays as it was; and
/// the client's own id is not added.
pub proof fn lemma_sync_players(
    list: Map<Seq<char>, PlayerView>,
    body: Map<Seq<char>, Entity>,
    fresh: Seq<PlayerView>,
    ents: Seq<Entity>,
    me_id: Seq<char>,
)
    requires
        list.dom() == body.dom(),
        ents.len() == fresh.len(),
        forall|i: int| 0 <= i < fresh.len() ==> #[trigger] fresh[i].client_assinged_id != me_id,
    ensures
        sync_list(list, fresh).dom() == list.dom().union(fresh_ids(fresh)),
        sync_bodies(body, fresh, ents).dom() == list.dom().union(fresh_ids(fresh)),
        forall|k: Seq<char>| #[trigger] list.contains_key(k) ==> sync_list(list, fresh)[k] == list[k],
        !list.contains_key(me_id) ==> !sync_list(list, fresh).contains_key(me_id) && !sync_bodies(
            body,
            fresh,
            ents,
        ).contains_key(me_id),
    decreases fresh.len(),
{
    if fresh.len() > 0 {
        let prefix = fresh.drop_last();
        assert forall|i: int| 0 <= i < prefix.len() implies #[trigger] prefix[i].client_assinged_id
            != me_id by {
            assert(prefix[i] == fresh[i]);
        }
        lemma_sync_players(list, body, prefix, ents.drop_last(), me_id);
        lemma_sync_bodies_prefix(body, fresh, ents);
        assert(fresh.last() == fresh[fresh.len() - 1]);
        assert(fresh_ids(fresh) =~= fresh_ids(prefix).insert(fresh.last().client_assinged_id)) by {
            assert forall|k: Seq<char>| fresh_ids(fresh).contains(k) implies fresh_ids(prefix).insert(
                fresh.last().client_assinged_id,
            ).contains(k) by {
                let i = choose|i: int| 0 <= i < fresh.len() && #[trigger] fresh[i].client_assinged_id == k;
                if i < fresh.len() - 1 {
                    assert(prefix[i] == fresh[i]);
                }
            }
            assert forall|k: Seq<char>| fresh_ids(prefix).contains(k) implies fresh_ids(fresh).contains(
                k,
            ) by {
                let i = choose|i: int| 0 <= i < prefix.len() && #[trigger] prefix[i].client_assinged_id == k;
                assert(fresh[i] == prefix[i]);
            }
        }
        assert(sync_list(list, fresh).dom() =~= list.dom().union(fresh_ids(fresh)));
        assert(sync_bodies(body, fresh, ents).dom() =~= list.dom().union(fresh_ids(fresh)));
    } else {
        assert(fresh_ids(fresh) =~= Set::<Seq<char>>::empty());
        assert(list.dom().union(fresh_ids(fresh)) =~= list.dom());
    }
}

proof fn lemma_sync_bodies_prefix(body: Map<Seq<char>, Entity>, fresh: Seq<PlayerView>, ents: Seq<Entity>)
    requires
        fresh.len() > 0,
        ents.len() == fresh.len(),
    ensures
        sync_bodies(body, fresh.drop_last(), ents) == sync_bodies(body, fresh.drop_last(), ents.drop_last()),
{
    lemma_sync_bodies_prefix_rec(body, fresh.drop_last(), ents, ents.drop_last());
}

proof fn lemma_sync_bodies_prefix_rec(
    body: Map<Seq<char>, Entity>,
    fresh: Seq<PlayerView>,
    a: Seq<Entity>,
    b: Seq<Entity>,
)
    requires
        fresh.len() <= a.len(),
        fresh.len() <= b.len(),
        forall|i: int| 0 <= i < fresh.len() ==> a[i] == b[i],
    ensures
        sync_bodies(body, fresh, a) == sync_bodies(body, fresh, b),
    decreases fresh.len(),
{
    if fresh.len() > 0 {
        lemma_sync_bodies_prefix_rec(body, fresh.drop_last(), a, b);
    }
}

/// The keys pressed and buttons held that turn into actions.
pub struct ActionInput {
    /// The first ability key (Q) was just released.
    pub ability1_released: bool,
    /// The second ability key (E) was just released.
    pub ability2_released: bool,
    /// The third ability key (R) was just released.
    pub ability3_released: bool,
    /// The crouch key (left control) was just released.
    pub crouch_released: bool,
    /// The right mouse button is held.
    pub right_held: bool,
    /// The left mouse button is held.
    pub left_held: bool,
}

/// The actions that the input makes, in the order they are listed.
pub open spec fn input_actions(i: ActionInput) -> Seq<Action> {
    let a1: Seq<Action> = if i.ability1_released { seq![Action::Ability1] } else { Seq::empty() };
    let a2: Seq<Action> = if i.ability2_released { seq![Action::Ability2] } else { Seq::empty() };
    let a3: Seq<Action> = if i.ability3_released { seq![Action::Ability3] } else { Seq::empty() };
    let c: Seq<Action> = if i.crouch_released { seq![Action::Crouch] } else { Seq::empty() };
    let alt: Seq<Action> = if i.right_held { seq![Action::AltFire] } else { Seq::empty() };
    let primary: Seq<Action> = if i.left_held { seq![Action::PrimaryFire] } else { Seq::empty() };
    a1 + a2 + a3 + c + alt + primary
}

proof fn lemma_concat_contains(x: Seq<Action>, y: Seq<Action>, a: Action)
    ensures
        (x + y).contains(a) == (x.contains(a) || y.contains(a)),
{
    if x.contains(a) {
        let i = choose|i: int| 0 <= i < x.len() && x[i] == a;
        assert((x + y)[i] == a);
    }
    if y.contains(a) {
        let i = choose|i: int| 0 <= i < y.len() && y[i] == a;
        assert((x + y)[x.len() + i] == a);
    }
    if (x + y).contains(a) {
        let i = choose|i: int| 0 <= i < (x + y).len() && (x + y)[i] == a;
        if i < x.len() {
            assert(x[i] == a);
        } else {
            assert(y[i - x.len()] == a);
        }
    }
}

proof fn lemma_flag_contains(flag: bool, b: Action, a: Action)
    ensures
        (if flag {
            seq![b]
        } else {
            Seq::<Action>::empty()
        }).contains(a) == (flag && a == b),
{
    if flag {
        assert(seq![b][0] == b);
    }
}

/// Each input makes its own action and no other: Q makes `Ability1`, E
/// `Ability2`, R `Ability3`, left control `Crouch`, the right button
/// `AltFire`, the left button `PrimaryFire`; each at most once.
pub proof fn lemma_input_actions(i: ActionInput)
    ensures
        input_actions(i).contains(Action::Ability1) == i.ability1_released,
        input_actions(i).contains(Action::Ability2) == i.ability2_released,
        input_actions(i).contains(Action::Ability3) == i.ability3_released,
        input_actions(i).contains(Action::Crouch) == i.crouch_released,
        input_actions(i).contains(Action::AltFire) == i.right_held,
        input_actions(i).contains(Action::PrimaryFire) == i.left_held,
        input_actions(i).len() == (if i.ability1_released { 1int } else { 0int }) + (if i.ability2_released {
            1int
        } else {
            0int
        }) + (if i.ability3_released { 1int } else { 0int }) + (if i.crouch_released { 1int } else { 0int })
            + (if i.right_held { 1int } else { 0int }) + (if i.left_held { 1int } else { 0int }),
{
    let a1: Seq<Action> = if i.ability1_released { seq![Action::Ability1] } else { Seq::empty() };
    let a2: Seq<Action> = if i.ability2_released { seq![Action::Ability2] } else { Seq::empty() };
    let a3: Seq<Action> = if i.ability3_released { seq![Action::Ability3] } else { Seq::empty() };
    let c: Seq<Action> = if i.crouch_released { seq![Action::Crouch] } else { Seq::empty() };
    let alt: Seq<Action> = if i.right_held { seq![Action::AltFire] } else { Seq::empty() };
    let primary: Seq<Action> = if i.left_held { seq![Action::PrimaryFire] } else { Seq::empty() };
    assert(input_actions(i) == a1 + a2 + a3 + c + alt + primary);
    let all = seq![
        Action::Ability1,
        Action::Ability2,
        Action::Ability3,
        Action::Crouch,
        Action::AltFire,
        Action::PrimaryFire,
    ];
    assert forall|k: int| 0 <= k < 6 implies #[trigger] input_actions(i).contains(all[k]) == (
    if all[k] == Action::Ability1 {
        i.ability1_released
    } else if all[k] == Action::Ability2 {
        i.ability2_released
    } else if all[k] == Action::Ability3 {
        i.ability3_released
    } else if all[k] == Action::Crouch {
        i.crouch_released
    } else if all[k] == Action::AltFire {
        i.right_held
    } else {
        i.left_held
    }) by {
        let a = all[k];
        lemma_flag_contains(i.ability1_released, Action::Ability1, a);
        lemma_flag_contains(i.ability2_released, Action::Ability2, a);
        lemma_flag_contains(i.ability3_released, Action::Ability3, a);
        lemma_flag_contains(i.crouch_released, Action::Crouch, a);
        lemma_flag_contains(i.right_held, Action::AltFire, a);
        lemma_flag_contains(i.left_held, Action::PrimaryFire, a);
        lemma_concat_contains(a1, a2, a);
        lemma_concat_contains(a1 + a2, a3, a);
        lemma_concat_contains(a1 + a2 + a3, c, a);
        lemma_concat_contains(a1 + a2 + a3 + c, alt, a);
        lemma_concat_contains(a1 + a2 + a3 + c + alt, primary, a);
    }
    assert(all[0] == Action::Ability1);
    assert(all[1] == Action::Ability2);
    assert(all[2] == Action::Ability3);
    assert(all[3] == Action::Crouch);
    assert(all[4] == Action::AltFire);
    assert(all[5] == Action::PrimaryFire);
}

/// The movement update the client sends once the game is ready: where the
/// player stands, where its camera looks, and the actions of the input.
#[verifier::rlimit(40)]
pub fn movement_update(pos: Vec3Bits, target: Vec3Bits, input: &ActionInput) -> (m: ClientMessage)
    ensures
        m matches ClientMessage::MovementUpdate { pos: p, direction, actions } && p == pos && direction
            == target && actions.actions@ == input_actions(*input),
{
    let mut buffer: Vec<Action> = Vec::new();
    if input.ability1_released {
        buffer.push(Action::Ability1);
    }
    if input.ability2_released {
        buffer.push(Action::Ability2);
    }
    if input.ability3_released {
        buffer.push(Action::Ability3);
    }
    if input.crouch_released {
        buffer.push(Action::Crouch);
    }
    if input.right_held {
        buffer.push(Action::AltFire);
    }
    if input.left_held {
        buffer.push(Action::PrimaryFire);
    }
    assert(buffer@ =~= input_actions(*input));
    ClientMessage::MovementUpdate {
        pos,
        direction: target,
        actions: CurrentActions { actions: buffer },
    }
}

impl ClientState {
    /// Whether the client takes a position to send this tick: only once the
    /// game is ready.
    pub fn wants_position(&self) -> (b: bool)
        ensures
            b == self.game_ready.ready,
    {
        self.game_ready.ready
    }

    /// The movement update the client sends: none before the game is ready,
    /// and after that where the player stands, where its camera looks, and
    /// the actions of the input.
    pub fn movement_update_if_ready(&self, pos: Vec3Bits, target: Vec3Bits, input: &ActionInput) -> (m:
        Option<ClientMessage>)
        ensures
            (m is Some) == self.game_ready.ready,
            m matches Some(msg) ==> (msg matches ClientMessage::MovementUpdate {
                pos: p,
                direction,
                actions,
            } && p == pos && direction == target && actions.actions@ == input_actions(*input)),
    {
        if self.game_ready.ready {
            Some(movement_update(pos, target, input))
        } else {
            None
        }
    }
}

/// Whether the game is ready after a run of server messages, starting from
/// `ready`; `syncs[i]` says whether message `i` was a full sync.
pub open spec fn ready_after(ready: bool, syncs: Seq<bool>) -> bool
    decreases syncs.len(),
{
    if syncs.len() == 0 {
        ready
    } else {
        ready_after(ready, syncs.drop_last()) || syncs.last()
    }
}

/// A client that starts not ready becomes ready, and so sends movement
/// updates, only once it has handled a full sync: over any run of messages,
/// readiness means that one of them was a sync.
pub proof fn lemma_ready_needs_sync(syncs: Seq<bool>)
    ensures
        ready_after(false, syncs) ==> exists|i: int| 0 <= i < syncs.len() && #[trigger] syncs[i],
    decreases syncs.len(),
{
    if syncs.len() > 0 {
        lemma_ready_needs_sync(syncs.drop_last());
        if ready_after(false, syncs.drop_last()) {
            let i = choose|i: int| 0 <= i < syncs.drop_last().len() && #[trigger] syncs.drop_last()[i];
            assert(syncs[i]);
        } else if syncs.last() {
            assert(syncs[syncs.len() - 1]);
        }
    }
}

/// The request for a full sync that the resync key (P) sends.
pub fn resync_request(key_pressed: bool) -> (m: Option<ClientMessage>)
    ensures
        key_pressed == (m matches Some(ClientMessage::DeSynced)),
        !key_pressed ==> m is None,
{
    if key_pressed {
        Some(ClientMessage::DeSynced)
    } else {
        None
    }
}

} // verus!

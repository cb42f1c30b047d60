//! The server's registry of connected players, keyed by the decimal writing
//! of the id that the server gave each client.
use vstd::prelude::*;

use crate::decimal::{decimal, u64_to_decimal};
use crate::defaults::{Class, Item, Player, PlayerView, Vec3Bits};
use crate::tables::{IdTable, PlayerTable};

verus! {

/// The key under which the client with server id `client_id` is held.
pub open spec fn player_key(client_id: u64) -> Seq<char> {
    decimal(client_id as nat)
}

/// The player that registering `username` as client `id`, with the
/// client-given id `client_assinged_id`, creates: an engineer with full
/// health and nothing else, standing at the spawn point and facing it.
pub open spec fn new_player_view(username: Seq<char>, id: u64, client_assinged_id: Seq<char>) -> PlayerView {
    PlayerView {
        name: username,
        id: player_key(id),
        class: Class::Engineer,
        loc: Vec3Bits::spec_spawn_point(),
        health: 100,
        inv: Seq::<Item>::empty(),
        direction: Vec3Bits::spec_spawn_point(),
        client_assinged_id,
        resource_amount: 0,
    }
}

/// `p` as a player of class `class` under the id `id`, all else kept.
pub open spec fn with_class(p: PlayerView, id: u64, class: Class) -> PlayerView {
    PlayerView { class, id: player_key(id), ..p }
}

/// `p` standing at `pos` and facing `direction` under the id `id`, all else kept.
pub open spec fn with_pos(p: PlayerView, id: u64, pos: Vec3Bits, direction: Vec3Bits) -> PlayerView {
    PlayerView { loc: pos, direction, id: player_key(id), ..p }
}

/// Moving a player changes where it stands and faces, and sets its id to
/// the client's key; its name, class, health, inventory, client-given id
/// and resource stay as they were.
pub proof fn lemma_move_keeps_player(p: PlayerView, id: u64, pos: Vec3Bits, direction: Vec3Bits)
    ensures
        with_pos(p, id, pos, direction).loc == pos,
        with_pos(p, id, pos, direction).direction == direction,
        with_pos(p, id, pos, direction).id == decimal(id as nat),
        with_pos(p, id, pos, direction).name == p.name,
        with_pos(p, id, pos, direction).class == p.class,
        with_pos(p, id, pos, direction).health == p.health,
        with_pos(p, id, pos, direction).inv == p.inv,
        with_pos(p, id, pos, direction).client_assinged_id == p.client_assinged_id,
        with_pos(p, id, pos, direction).resource_amount == p.resource_amount,
{
}

/// Changing a player's class changes only its class, and sets its id to the
/// client's key; everything else stays as it was.
pub proof fn lemma_class_change_keeps_player(p: PlayerView, id: u64, class: Class)
    ensures
        with_class(p, id, class).class == class,
        with_class(p, id, class).id == decimal(id as nat),
        with_class(p, id, class).name == p.name,
        with_class(p, id, class).loc == p.loc,
        with_class(p, id, class).direction == p.direction,
        with_class(p, id, class).health == p.health,
        with_class(p, id, class).inv == p.inv,
        with_class(p, id, class).client_assinged_id == p.client_assinged_id,
        with_class(p, id, class).resource_amount == p.resource_amount,
{
}

/// A newly registered player has the given name and client-given id, the
/// client's key as id, and starts as an engineer with 100 health, nothing
/// carried and no resource, at `(0.0, 0.5, 0.0)` facing the same point.
pub proof fn lemma_new_player(username: Seq<char>, id: u64, client_assinged_id: Seq<char>)
    ensures
        new_player_view(username, id, client_assinged_id).name == username,
        new_player_view(username, id, client_assinged_id).id == decimal(id as nat),
        new_player_view(username, id, client_assinged_id).client_assinged_id == client_assinged_id,
        new_player_view(username, id, client_assinged_id).class == Class::Engineer,
        new_player_view(username, id, client_assinged_id).health == 100,
        new_player_view(username, id, client_assinged_id).inv.len() == 0,
        new_player_view(username, id, client_assinged_id).resource_amount == 0,
        new_player_view(username, id, client_assinged_id).loc == (Vec3Bits { x: 0, y: 0x3F00_0000, z: 0 }),
        new_player_view(username, id, client_assinged_id).direction == (Vec3Bits {
            x: 0,
            y: 0x3F00_0000,
            z: 0,
        }),
{
}

/// The players known to the server.
pub struct Players {
    pub players: PlayerTable,
}

impl Players {
    /// The registry holds finitely many players.
    pub open spec fn wf(&self) -> bool {
        self.players@.dom().finite()
    }

    /// No player is known.
    pub fn default() -> (r: Players)
        ensures
            r.players@ == Map::<Seq<char>, PlayerView>::empty(),
            r.wf(),
    {
        Players { players: PlayerTable::new() }
    }

    /// Whether a player is known for the client.
    pub fn is_player_connected(&mut self, client_id: u64) -> (b: bool)
        ensures
            old(self).wf() ==> final(self).wf(),
            b == old(self).players@.contains_key(player_key(client_id)),
            final(self).players@ == old(self).players@,
    {
        let key = u64_to_decimal(client_id);
        self.players.contains_key(&key)
    }

    /// Changes the class of the client's player, if one is known; does
    /// nothing otherwise.
    pub fn modify_player_class(&mut self, client_id: u64, class: Class)
        ensures
            old(self).wf() ==> final(self).wf(),
            old(self).players@.contains_key(player_key(client_id)) ==> final(self).players@
                == old(self).players@.insert(
                player_key(client_id),
                with_class(old(self).players@[player_key(client_id)], client_id, class),
            ),
            !old(self).players@.contains_key(player_key(client_id)) ==> final(self).players@
                == old(self).players@,
    {
        let key = u64_to_decimal(client_id);
        let updated = match self.players.get(&key) {
            Some(old_player) => Player {
                loc: old_player.loc,
                class: class,
                id: key.clone(),
                name: old_player.name.clone(),
                health: old_player.health,
                inv: crate::defaults::copy_items(&old_player.inv),
                direction: old_player.direction,
                client_assinged_id: old_player.client_assinged_id.clone(),
                resource_amount: old_player.resource_amount,
            },
            None => {
                return ;
            },
        };
        self.players.insert(key, updated);
    }

    /// A copy of the client's player; the client must be known.
    pub fn fetch_player(&mut self, client_id: u64) -> (p: Player)
        requires
            old(self).players@.contains_key(player_key(client_id)),
        ensures
            old(self).wf() ==> final(self).wf(),
            p@ == old(self).players@[player_key(client_id)],
            final(self).players@ == old(self).players@,
    {
        let key = u64_to_decimal(client_id);
        match self.players.get(&key) {
            Some(p) => p.duplicate(),
            None => {
                assert(false);
                unreached()
            },
        }
    }

    /// Moves the client's player and turns it to `direction`, giving back a
    /// copy of the moved player; gives back `None` and changes nothing when
    /// no player is known for the client.
    pub fn modify_player_pos(&mut self, client_id: u64, pos: Vec3Bits, direction: Vec3Bits) -> (r:
        Option<Player>)
        ensures
            old(self).wf() ==> final(self).wf(),
            old(self).players@.contains_key(player_key(client_id)) ==> {
                let moved = with_pos(old(self).players@[player_key(client_id)], client_id, pos, direction);
                &&& final(self).players@ == old(self).players@.insert(player_key(client_id), moved)
                &&& r is Some
                &&& r->0@ == moved
            },
            !old(self).players@.contains_key(player_key(client_id)) ==> {
                &&& final(self).players@ == old(self).players@
                &&& r is None
            },
    {
        let key = u64_to_decimal(client_id);
        let updated = match self.players.get(&key) {
            Some(old_player) => Player {
                loc: pos,
                class: old_player.class,
                id: key.clone(),
                name: old_player.name.clone(),
                health: old_player.health,
                inv: crate::defaults::copy_items(&old_player.inv),
                direction: direction,
                client_assinged_id: old_player.client_assinged_id.clone(),
                resource_amount: old_player.resource_amount,
            },
            None => {
                return None;
            },
        };
        let copy = updated.duplicate();
        self.players.insert(key, updated);
        Some(copy)
    }

    /// Forgets the client's player.
    pub fn remove_player(&mut self, client_id: u64)
        ensures
            old(self).wf() ==> final(self).wf(),
            final(self).players@ == old(self).players@.remove(player_key(client_id)),
    {
        let key = u64_to_decimal(client_id);
        self.players.remove(&key);
    }

    /// Registers a new player for the client, replacing any player it had,
    /// and gives back a copy of it.
    pub fn register_new_player(&mut self, username: &str, id: u64, client_assinged_id: String) -> (p:
        Player)
        ensures
            old(self).wf() ==> final(self).wf(),
            p@ == new_player_view(username@, id, client_assinged_id@),
            final(self).players@ == old(self).players@.insert(player_key(id), p@),
    {
        let client_id = u64_to_decimal(id);
        let player = Player {
            loc: Vec3Bits::spawn_point(),
            class: Class::Engineer,
            id: client_id.clone(),
            name: String::from_str(username),
            health: 100,
            inv: Vec::new(),
            direction: Vec3Bits::spawn_point(),
            client_assinged_id: client_assinged_id,
            resource_amount: 0,
        };
        let copy = player.duplicate();
        self.players.insert(client_id, player);
        assert(copy@.inv =~= Seq::<Item>::empty());
        copy
    }

    /// How many players are known.
    pub fn known_players(&mut self) -> (n: usize)
        ensures
            old(self).wf() ==> final(self).wf(),
            n == old(self).players@.len(),
            final(self).players@ == old(self).players@,
    {
        self.players.len()
    }
}

/// Which client-given id belongs to each server client id.
pub struct CurrentConnections {
    /// Server client id to client-given id.
    pub id_maps: IdTable,
}

impl CurrentConnections {
    /// No connection is known.
    pub fn new() -> (r: CurrentConnections)
        ensures
            r.id_maps@ == Map::<u64, Seq<char>>::empty(),
    {
        CurrentConnections { id_maps: IdTable::new() }
    }
}

/// Two clients never share a key, so what is done to one client's player
/// leaves every other client's player as it was.
pub proof fn lemma_other_client_untouched(
    before: Map<Seq<char>, PlayerView>,
    a: u64,
    b: u64,
    p: PlayerView,
)
    requires
        a != b,
    ensures
        player_key(a) != player_key(b),
        before.insert(player_key(a), p).contains_key(player_key(b)) == before.contains_key(player_key(b)),
        before.insert(player_key(a), p)[player_key(b)] == before[player_key(b)],
        before.remove(player_key(a)).contains_key(player_key(b)) == before.contains_key(player_key(b)),
        before.remove(player_key(a))[player_key(b)] == before[player_key(b)],
{
    crate::decimal::lemma_decimal_injective(a as nat, b as nat);
}

/// Registering a player makes it known, and fetching it then gives back the
/// player that registration gave back; a removed player is no longer known.
pub proof fn lemma_register_then_fetch(
    before: Map<Seq<char>, PlayerView>,
    username: Seq<char>,
    id: u64,
    client_assinged_id: Seq<char>,
)
    requires
        before.dom().finite(),
    ensures
        ({
            let after = before.insert(player_key(id), new_player_view(username, id, client_assinged_id));
            &&& after.contains_key(player_key(id))
            &&& after[player_key(id)] == new_player_view(username, id, client_assinged_id)
            &&& !after.remove(player_key(id)).contains_key(player_key(id))
            &&& after.len() == before.len() + (if before.contains_key(
                player_key(id),
            ) {
                0int
            } else {
                1int
            })
        }),
{
    let p = new_player_view(username, id, client_assinged_id);
    assert(before.insert(player_key(id), p).dom() =~= before.dom().insert(player_key(id)));
}

} // verus!

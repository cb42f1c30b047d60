//! What client and server say to each other.
//!
//! The connect handshake:
//! Client      -> Server      -> Client   -> Server
//! ServerReady -> ClientReady -> DeSynced -> Sync
//!
//! In game data transfer:
//! Client         -> Server
//! MovementUpdate -> Ack
//!
//! A client that changes class:
//! Client      -> Server
//! ChangeClass -> Sync
//!
//! A client that changes class, the server declining:
//! Client      -> Server
//! ChangeClass -> Ack
use vstd::prelude::*;

use crate::defaults::{
    Class,
    CurrentActions,
    EntityType,
    LivingEntities,
    Player,
    RawEntity,
    Vec3Bits,
    WorldOject,
};

verus! {

/// A message from a client to the server.
pub enum ClientMessage {
    /// A simple ping to the server.
    Ping,
    /// Asks whether the server is ready; the first step of the handshake.
    ServerReady { username: String, id: String },
    /// Asks to change class; the server answers with a sync that holds the
    /// changed player, or with `Ack` when it declines.
    ChangeClass { class: Class },
    /// The client thinks it is out of step and asks for a full sync; also
    /// the last step of the handshake.
    DeSynced,
    /// Leaves the server.
    Disconnect { reason: Option<String> },
    /// Where the player now stands and looks, and what it does.
    MovementUpdate { pos: Vec3Bits, direction: Vec3Bits, actions: CurrentActions },
}

/// A message from the server to a client.
#[allow(inconsistent_fields)]
pub enum ServerMessage {
    /// The answer to a ping.
    Pong,
    /// The answer to `ServerReady`, with the id the server gave the client.
    ClientReady { server_ready: bool, server_client_id: u64 },
    /// The whole state the client should hold; the server is the authority.
    Sync { player_data: Player, living_entites: LivingEntities },
    /// Acknowledges a request, so that the client does not time out.
    Ack,
    /// Removes a player from the server.
    Kick { reason: String },
    /// Makes the client spawn an entity.
    EntitySpawn { entity_type: EntityType, data: RawEntity },
    /// Makes the client despawn an entity.
    EntityDespawn { entity_type: EntityType, data: RawEntity },
    /// A light-weight sync of one entity.
    EntityChange { data: RawEntity },
    /// A light-weight sync of one player's position.
    PlayerChange { id: u64, client_assigned_id: String, pos: Vec3Bits },
    /// Updates a world object; one whose lifetime is 0 is meant to die.
    WorldObjectUpdate { data: WorldOject },
}

} // verus!

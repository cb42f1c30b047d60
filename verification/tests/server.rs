use lost_lib::combat::{user_action, CombatEffect};
use lost_lib::defaults::{Action, AliveEnemy, Class, CurrentActions, Enemy, EntityType, LivingEntities, Vec3Bits};
use lost_lib::messages::{ClientMessage, ServerMessage};
use lost_lib::server::{ServerAction, ServerState};
use lost_lib::world::{cached_enemy_pos, record_spawned_enemy, spawner_credits, track_enemy, EntityList};

fn v(x: f32, y: f32, z: f32) -> Vec3Bits {
    Vec3Bits { x: x.to_bits(), y: y.to_bits(), z: z.to_bits() }
}

fn ready(state: &mut ServerState, client: u64, name: &str, id: &str) -> Vec<ServerAction> {
    state
        .handle_client_message(client, ClientMessage::ServerReady { username: name.to_string(), id: id.to_string() }, &Vec::new())
        .actions
}

#[test]
fn ping_gets_pong() {
    let mut s = ServerState::new();
    let r = s.handle_client_message(3, ClientMessage::Ping, &Vec::new());
    assert_eq!(r.actions.len(), 1);
    assert!(matches!(r.actions[0], ServerAction::Send { client_id: 3, message: ServerMessage::Pong }));
    assert!(!r.end_tick);
}

#[test]
fn handshake_ready_then_sync() {
    let mut s = ServerState::new();
    let acts = ready(&mut s, 7, "alice", "dev-dev-dev-dev-3");
    assert_eq!(acts.len(), 2);
    match &acts[0] {
        ServerAction::Broadcast { message: ServerMessage::EntitySpawn { entity_type: EntityType::Player, data } } => {
            assert_eq!(data.id, "dev-dev-dev-dev-3");
            assert_eq!(data.pos, v(0.0, 0.5, 0.0));
            assert_eq!(data.enemy_type, Enemy::Debug);
        }
        _ => panic!("expected a player spawn broadcast"),
    }
    assert!(matches!(acts[1], ServerAction::Send { client_id: 7, message: ServerMessage::ClientReady { server_ready: true, server_client_id: 7 } }));
    assert!(s.players.is_player_connected(7));
    assert_eq!(s.connections.id_maps.get(&7).unwrap(), "dev-dev-dev-dev-3");
    assert!(s.all_ents.players.contains_key(&"7".to_string()));

    assert!(s.can_resync(7));
    let r = s.handle_client_message(7, ClientMessage::DeSynced, &Vec::new());
    assert_eq!(r.actions.len(), 1);
    match &r.actions[0] {
        ServerAction::Send { client_id: 7, message: ServerMessage::Sync { player_data, living_entites } } => {
            assert_eq!(player_data.name, "alice");
            assert_eq!(player_data.id, "7");
            assert_eq!(living_entites.players.len(), 1);
            assert_eq!(living_entites.enemies.len(), 0);
        }
        _ => panic!("expected a sync"),
    }
}

#[test]
fn resync_needs_a_registered_player() {
    let s = ServerState::new();
    assert!(!s.can_resync(1));
}

#[test]
fn change_class_is_answered_with_a_sync() {
    let mut s = ServerState::new();
    ready(&mut s, 2, "b", "c");
    let r = s.handle_client_message(2, ClientMessage::ChangeClass { class: Class::Paladin }, &Vec::new());
    assert_eq!(r.actions.len(), 1);
    match &r.actions[0] {
        ServerAction::Send { client_id: 2, message: ServerMessage::Sync { player_data, living_entites } } => {
            assert_eq!(player_data.class, Class::Paladin);
            assert_eq!(player_data.name, "b");
            assert_eq!(living_entites.players.len(), 1);
        }
        _ => panic!("expected a sync"),
    }
    assert_eq!(s.players.fetch_player(2).class, Class::Paladin);
}

#[test]
fn change_class_of_an_unknown_client_is_declined_with_ack() {
    let mut s = ServerState::new();
    let r = s.handle_client_message(2, ClientMessage::ChangeClass { class: Class::Paladin }, &Vec::new());
    assert_eq!(r.actions.len(), 1);
    assert!(matches!(r.actions[0], ServerAction::Send { client_id: 2, message: ServerMessage::Ack }));
    assert!(!s.players.is_player_connected(2));
}

#[test]
fn movement_from_unknown_connection_drops_it_and_ends_the_tick() {
    let mut s = ServerState::new();
    let r = s.handle_client_message(
        4,
        ClientMessage::MovementUpdate { pos: v(1.0, 2.0, 3.0), direction: v(0.0, 0.0, 1.0), actions: CurrentActions { actions: vec![] } },
        &Vec::new(),
    );
    assert_eq!(r.actions.len(), 1);
    assert!(matches!(r.actions[0], ServerAction::Disconnect { client_id: 4 }));
    assert!(r.end_tick);
}

#[test]
fn movement_is_broadcast_forwarded_and_acked() {
    let mut s = ServerState::new();
    ready(&mut s, 5, "e", "cid5");
    let at = v(1.0, 2.0, 3.0);
    let r = s.handle_client_message(
        5,
        ClientMessage::MovementUpdate { pos: at, direction: v(0.0, 0.0, 1.0), actions: CurrentActions { actions: vec![Action::PrimaryFire] } },
        &Vec::new(),
    );
    assert_eq!(r.actions.len(), 3);
    match &r.actions[0] {
        ServerAction::Broadcast { message: ServerMessage::PlayerChange { id, client_assigned_id, pos } } => {
            assert_eq!(*id, 5);
            assert_eq!(client_assigned_id, "cid5");
            assert_eq!(*pos, at);
        }
        _ => panic!("expected a position broadcast"),
    }
    match &r.actions[1] {
        ServerAction::ForwardActions { player, actions } => {
            assert_eq!(player.loc, at);
            assert_eq!(actions.actions, vec![Action::PrimaryFire]);
        }
        _ => panic!("expected forwarded actions"),
    }
    assert!(matches!(r.actions[2], ServerAction::Send { client_id: 5, message: ServerMessage::Ack }));
    assert_eq!(s.players.fetch_player(5).loc, at);

    let r = s.handle_client_message(
        5,
        ClientMessage::MovementUpdate { pos: at, direction: at, actions: CurrentActions { actions: vec![] } },
        &Vec::new(),
    );
    assert_eq!(r.actions.len(), 2);
}

#[test]
fn disconnect_request_and_leaving() {
    let mut s = ServerState::new();
    ready(&mut s, 1, "a", "x");
    ready(&mut s, 2, "b", "y");
    let r = s.handle_client_message(1, ClientMessage::Disconnect { reason: None }, &Vec::new());
    assert!(matches!(r.actions[0], ServerAction::Disconnect { client_id: 1 }));
    assert_eq!(s.client_disconnected(1), 1);
    assert!(!s.players.is_player_connected(1));
    assert!(!s.all_ents.players.contains_key(&"1".to_string()));
    assert!(s.players.is_player_connected(2));
}

#[test]
fn resync_moves_enemies_to_their_bodies() {
    let mut s = ServerState::new();
    ready(&mut s, 1, "a", "x");
    let mut list = EntityList::default();
    record_spawned_enemy(&mut s.all_ents, &mut list, 12, v(1.0, 1.0, 1.0));
    record_spawned_enemy(&mut s.all_ents, &mut list, 13, v(2.0, 2.0, 2.0));
    let spawned = vec![(13u64, v(9.0, 9.0, 9.0)), (12, v(5.0, 5.0, 5.0)), (12, v(6.0, 6.0, 6.0))];
    assert!(s.can_resync(1));
    s.handle_client_message(1, ClientMessage::DeSynced, &spawned);
    assert_eq!(s.all_ents.enemies.get(&"enemy:12".to_string()).unwrap().pos, v(5.0, 5.0, 5.0));
    assert_eq!(s.all_ents.enemies.get(&"enemy:13".to_string()).unwrap().pos, v(9.0, 9.0, 9.0));
}

#[test]
fn resync_refuses_enemies_without_a_number() {
    let mut s = ServerState::new();
    ready(&mut s, 1, "a", "x");
    s.all_ents.enemies.insert("enemy:q".to_string(), Enemy::Debug.make_alive("q".to_string(), Vec3Bits::origin()));
    assert!(!s.can_resync(1));
}

#[test]
fn spawner_budget() {
    assert_eq!(spawner_credits(0, false), (50, true));
    assert_eq!(spawner_credits(50, false), (50, false));
    assert_eq!(spawner_credits(50, true), (50, true));
    assert_eq!(spawner_credits(100, false), (50, true));
    assert_eq!(spawner_credits(30, false), (30, false));
}

#[test]
fn spawner_run_from_no_credits() {
    let keys = [false, false, true, false, true, true, false];
    let mut credits: isize = 0;
    let mut spawned = 0;
    for (i, k) in keys.iter().enumerate() {
        let (c, s) = spawner_credits(credits, *k);
        credits = c;
        assert_eq!(credits, 50);
        assert_eq!(s, i == 0 || *k);
        if s {
            spawned += 1;
        }
    }
    assert_eq!(spawned, 4);
}

#[test]
fn spawning_records_and_announces() {
    let mut all = LivingEntities::default();
    let mut list = EntityList::default();
    let m = record_spawned_enemy(&mut all, &mut list, 4, v(3.0, 2.0, -1.0));
    match m {
        ServerMessage::EntitySpawn { entity_type: EntityType::Enemy, data } => {
            assert_eq!(data.id, "4");
            assert_eq!(data.pos, v(3.0, 2.0, -1.0));
            assert_eq!(data.enemy_type, Enemy::SkeletonArcher);
        }
        _ => panic!("expected an enemy spawn"),
    }
    let e = all.enemies.get(&"enemy:4".to_string()).unwrap();
    assert_eq!(e.id, "4");
    assert_eq!(e.direction, Vec3Bits::origin());
    assert_eq!(list.simple_entites.get(&"enemy:4".to_string()).unwrap().id, "4");
    assert_eq!(cached_enemy_pos(&all, 4), Some(v(3.0, 2.0, -1.0)));
    assert_eq!(cached_enemy_pos(&all, 5), None);
}

#[test]
fn tracking_reports_only_moves_of_known_enemies() {
    let mut all = LivingEntities::default();
    let mut list = EntityList::default();
    record_spawned_enemy(&mut all, &mut list, 4, v(3.0, 2.0, -1.0));
    assert!(track_enemy(&mut all, 4, v(3.2, 2.0, -1.0), false).is_none());
    assert!(track_enemy(&mut all, 8, v(3.2, 2.0, -1.0), true).is_none());
    match track_enemy(&mut all, 4, v(7.0, 2.0, -1.0), true) {
        Some(ServerMessage::EntityChange { data }) => {
            assert_eq!(data.id, "4");
            assert_eq!(data.pos, v(7.0, 2.0, -1.0));
            assert_eq!(data.enemy_type, Enemy::SkeletonArcher);
        }
        _ => panic!("expected a change"),
    }
    assert_eq!(cached_enemy_pos(&all, 4), Some(v(7.0, 2.0, -1.0)));
}

#[test]
fn a_shot_kills_a_known_enemy_once() {
    let mut all = LivingEntities::default();
    let mut list = EntityList::default();
    record_spawned_enemy(&mut all, &mut list, 6, v(1.0, 0.0, 0.0));
    let mut s = ServerState::new();
    let p = s.players.register_new_player("eng", 1, "e".to_string());
    let acts = CurrentActions { actions: vec![Action::PrimaryFire, Action::Ability3, Action::PrimaryFire] };
    let effects = user_action(&mut all, &p, &acts, Some(6));
    assert_eq!(effects.len(), 2);
    match &effects[0] {
        CombatEffect::DespawnHit { message: ServerMessage::EntityDespawn { entity_type: EntityType::Enemy, data } } => {
            assert_eq!(data.id, "6");
            assert_eq!(data.pos, v(0.0, 1.0, 0.0));
            assert_eq!(data.enemy_type, Enemy::Filler);
        }
        _ => panic!("expected a despawn"),
    }
    assert!(matches!(effects[1], CombatEffect::Fortify { at } if at == p.loc));
    assert!(!all.enemies.contains_key(&"enemy:6".to_string()));
}

#[test]
fn a_miss_or_unknown_target_does_nothing() {
    let mut all = LivingEntities::default();
    let mut s = ServerState::new();
    let p = s.players.register_new_player("eng", 1, "e".to_string());
    let acts = CurrentActions { actions: vec![Action::PrimaryFire] };
    assert!(user_action(&mut all, &p, &acts, None).is_empty());
    assert!(user_action(&mut all, &p, &acts, Some(3)).is_empty());
}

#[test]
fn alive_enemy_from_kind() {
    let e: AliveEnemy = Enemy::Vawnite.make_alive("9".to_string(), v(1.0, 2.0, 3.0));
    assert_eq!(e.id, "9");
    assert_eq!(e.kind, Enemy::Vawnite);
    assert_eq!(e.pos, v(1.0, 2.0, 3.0));
    assert_eq!(e.direction, v(0.0, 0.0, 0.0));
}

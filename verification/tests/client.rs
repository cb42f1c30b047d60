use lost_lib::camera::{cursor_grab_system, gravity_handle, keyboard_input, CameraState, CursorGrab, Gravity, LocalInstant};
use lost_lib::client::{
    client_start_connection, handshake_from, movement_update, resync_request, ActionInput, ClientAction, ClientState,
    GameReady, Me, PlayerSync, Players,
};
use lost_lib::defaults::{Action, Class, Enemy, EntityType, LivingEntities, Player, RawEntity, Vec3Bits};
use lost_lib::entities::{can_receive, entity_handle_receive, entity_handle_start, EntityCommand, HandleStart};
use lost_lib::menu::{button_system, change_mode, AllEntites, ButtonInteraction, GameStates, MainMenu};
use lost_lib::messages::{ClientMessage, ServerMessage};
use lost_lib::tables::EnemyTable;

fn v(x: f32, y: f32, z: f32) -> Vec3Bits {
    Vec3Bits { x: x.to_bits(), y: y.to_bits(), z: z.to_bits() }
}

fn me() -> Me {
    Me { username: String::new(), id: String::new(), server_id: 0 }
}

fn new_state(id: &str) -> ClientState {
    let mut m = me();
    m.id = id.to_string();
    let mut m2 = me();
    let (_, player) = handshake_from(&mut m2, 0);
    ClientState { me: m, player, all_ents: LivingEntities::default(), all_players: Players::new(), game_ready: GameReady { ready: false } }
}

fn someone(name: &str, cid: &str, at: Vec3Bits) -> Player {
    Player {
        name: name.to_string(),
        id: "1".to_string(),
        class: Class::Fighter,
        loc: at,
        health: 100,
        inv: vec![],
        direction: at,
        client_assinged_id: cid.to_string(),
        resource_amount: 0,
    }
}

#[test]
fn handshake_names_the_client() {
    let mut m = me();
    let (msg, player) = handshake_from(&mut m, 42);
    assert_eq!(m.id, "dev-dev-dev-dev-42");
    assert_eq!(m.username, "Dev");
    match msg {
        ClientMessage::ServerReady { username, id } => {
            assert_eq!(username, "Dev");
            assert_eq!(id, "dev-dev-dev-dev-42");
        }
        _ => panic!("expected ServerReady"),
    }
    assert_eq!(player.class, Class::Fighter);
    assert_eq!(player.health, 0);
    assert_eq!(player.client_assinged_id, "dev-dev-dev-dev-42");
    assert_eq!(player.loc, v(0.0, 0.0, 0.0));
}

#[test]
fn random_handshake_has_a_dev_id() {
    let mut m = me();
    let (msg, _) = client_start_connection(&mut m);
    assert!(m.id.starts_with("dev-dev-dev-dev-"));
    let n: u8 = m.id["dev-dev-dev-dev-".len()..].parse().unwrap();
    assert_eq!(m.id, format!("dev-dev-dev-dev-{n}"));
    assert!(matches!(msg, ClientMessage::ServerReady { .. }));
}

#[test]
fn client_ready_leads_to_desync_request() {
    let mut s = new_state("me");
    let r = s.handle_server_message(ServerMessage::ClientReady { server_ready: true, server_client_id: 77 });
    assert_eq!(s.me.server_id, 77);
    assert_eq!(r.actions.len(), 1);
    assert!(matches!(r.actions[0], ClientAction::SendToServer { message: ClientMessage::DeSynced }));
    let r = s.handle_server_message(ServerMessage::ClientReady { server_ready: false, server_client_id: 1 });
    assert!(matches!(r.actions[0], ClientAction::Disconnect));
    assert!(r.end_tick);
    assert_eq!(s.me.server_id, 77);
}

#[test]
fn sync_takes_the_servers_state() {
    let mut s = new_state("me");
    let mut living = LivingEntities::default();
    living.players.insert("1".to_string(), someone("other", "them", v(1.0, 0.0, 0.0)));
    living.players.insert("2".to_string(), someone("me", "me", v(2.0, 0.0, 0.0)));
    living.enemies.insert("enemy:3".to_string(), Enemy::SkeletonArcher.make_alive("3".to_string(), v(3.0, 0.0, 0.0)));
    let r = s.handle_server_message(ServerMessage::Sync { player_data: someone("me", "me", v(2.0, 0.0, 0.0)), living_entites: living });
    assert!(s.game_ready.ready);
    assert!(r.sync_players);
    assert_eq!(r.actions.len(), 1);
    match &r.actions[0] {
        ClientAction::EnemyUpdate { id, enemy } => {
            assert_eq!(id, "enemy:3");
            assert_eq!(enemy.pos, v(3.0, 0.0, 0.0));
        }
        _ => panic!("expected an enemy update"),
    }
    assert_eq!(s.player.loc, v(2.0, 0.0, 0.0));
    assert!(matches!(s.plan_player_sync(&"2".to_string()), PlayerSync::Skip));
    let key = "1".to_string();
    match s.plan_player_sync(&key) {
        PlayerSync::SpawnNew { id, name, pos } => {
            assert_eq!(id, "them");
            assert_eq!(name, "other");
            assert_eq!(pos, v(1.0, 0.0, 0.0));
        }
        _ => panic!("expected a new body"),
    }
    let body = bevy::ecs::entity::Entity::from_raw(5);
    s.record_player_body(&key, body);
    assert!(s.all_players.list.contains_key(&"them".to_string()));
    assert_eq!(*s.all_players.body.get(&"them".to_string()).unwrap(), body);
    match s.plan_player_sync(&key) {
        PlayerSync::Respawn { id, old_body, .. } => {
            assert_eq!(id, "them");
            assert_eq!(old_body, body);
        }
        _ => panic!("expected a replaced body"),
    }
}

#[test]
fn own_spawn_means_desynced() {
    let mut s = new_state("me");
    let r = s.handle_server_message(ServerMessage::EntitySpawn {
        entity_type: EntityType::Player,
        data: RawEntity { id: "me".to_string(), pos: v(0.0, 0.5, 0.0), enemy_type: Enemy::Debug },
    });
    assert!(r.end_tick);
    assert!(matches!(r.actions[0], ClientAction::SendToServer { message: ClientMessage::DeSynced }));
    let r = s.handle_server_message(ServerMessage::EntitySpawn {
        entity_type: EntityType::Player,
        data: RawEntity { id: "you".to_string(), pos: v(0.0, 0.5, 0.0), enemy_type: Enemy::Debug },
    });
    assert!(!r.end_tick);
    assert!(matches!(&r.actions[0], ClientAction::SpawnPlayerBody { id, pos } if id == "you" && *pos == v(0.0, 0.5, 0.0)));
}

#[test]
fn enemy_messages_go_to_the_entity_handler() {
    let mut s = new_state("me");
    let data = RawEntity { id: "8".to_string(), pos: v(0.0, 1.0, 0.0), enemy_type: Enemy::Filler };
    let r = s.handle_server_message(ServerMessage::EntityDespawn { entity_type: EntityType::Enemy, data });
    match &r.actions[0] {
        ClientAction::EnemyUpdate { id, enemy } => {
            assert_eq!(id, "8");
            assert_eq!(enemy.kind, Enemy::Filler);
        }
        _ => panic!("expected an enemy update"),
    }
    assert!(s.handles(&ServerMessage::Kick { reason: "x".to_string() }));
    assert!(!s.handles(&ServerMessage::EntityDespawn {
        entity_type: EntityType::Player,
        data: RawEntity { id: "1".to_string(), pos: v(0.0, 0.0, 0.0), enemy_type: Enemy::Debug },
    }));
    assert!(s.handles(&ServerMessage::Pong));
    let other = |id: &str| ServerMessage::EntitySpawn {
        entity_type: EntityType::Other,
        data: RawEntity { id: id.to_string(), pos: v(0.0, 0.0, 0.0), enemy_type: Enemy::Debug },
    };
    assert!(!s.handles(&other("you")));
    assert!(s.handles(&other("me")));
    let r = s.handle_server_message(other("me"));
    assert!(r.end_tick);
    assert_eq!(r.actions.len(), 1);
    assert!(matches!(r.actions[0], ClientAction::SendToServer { message: ClientMessage::DeSynced }));
}

#[test]
fn kick_leaves_the_server() {
    let mut s = new_state("me");
    let r = s.handle_server_message(ServerMessage::Kick { reason: "bye".to_string() });
    assert_eq!(r.actions.len(), 1);
    assert!(matches!(r.actions[0], ClientAction::Disconnect));
    assert!(r.end_tick);
    assert!(!s.game_ready.ready);
}

#[test]
fn movement_waits_for_the_first_sync() {
    let mut s = new_state("me");
    let input = ActionInput { ability1_released: false, ability2_released: false, ability3_released: false, crouch_released: false, right_held: false, left_held: true };
    assert!(!s.wants_position());
    assert!(s.movement_update_if_ready(v(1.0, 0.0, 0.0), v(0.0, 0.0, 1.0), &input).is_none());
    s.handle_server_message(ServerMessage::Pong);
    assert!(s.movement_update_if_ready(v(1.0, 0.0, 0.0), v(0.0, 0.0, 1.0), &input).is_none());
    s.handle_server_message(ServerMessage::Sync { player_data: someone("me", "me", v(0.0, 0.0, 0.0)), living_entites: LivingEntities::default() });
    assert!(s.wants_position());
    match s.movement_update_if_ready(v(1.0, 0.0, 0.0), v(0.0, 0.0, 1.0), &input) {
        Some(ClientMessage::MovementUpdate { pos, actions, .. }) => {
            assert_eq!(pos, v(1.0, 0.0, 0.0));
            assert_eq!(actions.actions, vec![Action::PrimaryFire]);
        }
        _ => panic!("expected a movement update"),
    }
}

#[test]
fn broadcasts_about_me_are_ignored() {
    let mut s = new_state("me");
    s.me.server_id = 3;
    let r = s.handle_server_message(ServerMessage::PlayerChange { id: 9, client_assigned_id: "me".to_string(), pos: v(1.0, 1.0, 1.0) });
    assert!(r.actions.is_empty());
    let r = s.handle_server_message(ServerMessage::PlayerChange { id: 3, client_assigned_id: "x".to_string(), pos: v(1.0, 1.0, 1.0) });
    assert!(r.actions.is_empty());
    let r = s.handle_server_message(ServerMessage::PlayerChange { id: 4, client_assigned_id: "x".to_string(), pos: v(1.0, 1.0, 1.0) });
    assert!(matches!(&r.actions[0], ClientAction::MovePlayer { id, pos } if id == "x" && *pos == v(1.0, 1.0, 1.0)));
}

#[test]
fn movement_update_lists_actions_in_order() {
    let input = ActionInput { ability1_released: true, ability2_released: false, ability3_released: true, crouch_released: true, right_held: true, left_held: true };
    match movement_update(v(1.0, 2.0, 3.0), v(0.0, 0.0, 1.0), &input) {
        ClientMessage::MovementUpdate { pos, direction, actions } => {
            assert_eq!(pos, v(1.0, 2.0, 3.0));
            assert_eq!(direction, v(0.0, 0.0, 1.0));
            assert_eq!(actions.actions, vec![Action::Ability1, Action::Ability3, Action::Crouch, Action::AltFire, Action::PrimaryFire]);
        }
        _ => panic!("expected a movement update"),
    }
    assert!(matches!(resync_request(true), Some(ClientMessage::DeSynced)));
    assert!(resync_request(false).is_none());
}

#[test]
fn entity_handler_spawns_moves_and_forgets() {
    let mut list = EnemyTable::new();
    assert!(matches!(entity_handle_start(&mut list, true, false), HandleStart::ForgetAll));
    assert!(matches!(entity_handle_start(&mut list, false, false), HandleStart::Receive));
    let e = Enemy::SkeletonArcher.make_alive("12".to_string(), v(1.0, 0.0, 0.0));
    assert!(can_receive(&list, &"enemy:12".to_string(), &e));
    let cmds = entity_handle_receive(&mut list, "enemy:12".to_string(), e, &vec![]);
    assert_eq!(cmds.len(), 1);
    match &cmds[0] {
        EntityCommand::SpawnLabelled { label, pos, number } => {
            assert_eq!(label, "Skeleton Archer | 12");
            assert_eq!(*pos, v(1.0, 0.0, 0.0));
            assert_eq!(*number, 12);
        }
        _ => panic!("expected a spawn"),
    }
    assert!(matches!(entity_handle_start(&mut list, true, false), HandleStart::Idle));
    let e = Enemy::SkeletonArcher.make_alive("12".to_string(), v(4.0, 0.0, 0.0));
    let cmds = entity_handle_receive(&mut list, "enemy:12".to_string(), e, &vec![3, 12, 12]);
    assert_eq!(cmds.len(), 2);
    assert!(matches!(cmds[0], EntityCommand::Move { index: 1, .. }));
    assert!(matches!(cmds[1], EntityCommand::Move { index: 2, .. }));
    let gone = Enemy::Filler.make_alive("12".to_string(), v(0.0, 1.0, 0.0));
    let cmds = entity_handle_receive(&mut list, "12".to_string(), gone, &vec![3, 12, 12]);
    assert_eq!(cmds.len(), 1);
    assert!(matches!(cmds[0], EntityCommand::Despawn { index: 1 }));
    assert_eq!(list.len(), 0);
    assert!(matches!(entity_handle_start(&mut list, false, true), HandleStart::ForgetAll));
    let bad = Enemy::Debug.make_alive("x".to_string(), v(0.0, 0.0, 0.0));
    assert!(!can_receive(&list, &"x".to_string(), &bad));
}

#[test]
fn cursor_and_jump_rules() {
    let mut cam = CameraState { moveable: false };
    let u = cursor_grab_system(true, false, true, &mut cam);
    assert_eq!(u.grab, Some(CursorGrab::Locked));
    assert!(!u.visible && cam.moveable);
    let u = cursor_grab_system(false, true, false, &mut cam);
    assert_eq!(u.grab, Some(CursorGrab::Free));
    assert!(u.visible && !cam.moveable);
    let mut g = Gravity::default();
    assert!(keyboard_input(true, &cam, v(0.0, 0.0, 1.0), &mut g).is_none());
    cam.moveable = true;
    assert_eq!(keyboard_input(true, &cam, v(0.0, 0.0, 1.0), &mut g), Some(v(0.0, 10.0, 0.0)));
    assert!(g.jumped);
    assert_eq!(g.camera_start_pos, Some(v(0.0, 0.0, 1.0)));
    assert!(keyboard_input(true, &cam, v(0.0, 0.0, 1.0), &mut g).is_none());
    let mut timer = LocalInstant::default();
    assert!(gravity_handle(&mut g, &mut timer, 1_000).is_none());
    assert_eq!(timer.time, Some(1_000));
    assert!(gravity_handle(&mut g, &mut timer, 500_000_000).is_none());
    assert_eq!(gravity_handle(&mut g, &mut timer, 900_001_000), Some(v(-0.0, -10.0, -0.0)));
    assert_eq!(timer.time, None);
    assert!(g.jumped);
    assert_eq!(g.units_left_to_fall, v(0.0, 0.0, 0.0));
    assert!(gravity_handle(&mut g, &mut timer, 900_002_000).is_none());
    assert!(!g.jumped && !g.falling);
    assert_eq!(timer.time, None);
    g.units_left_to_fall = v(0.0, -2.0, 0.0);
    g.jumped = true;
    gravity_handle(&mut g, &mut timer, 5);
    assert!(!g.jumped);
}

#[test]
fn menu_rules() {
    let mut state = GameStates::default();
    assert_eq!(state, GameStates::Starting);
    assert_eq!(button_system(ButtonInteraction::Hovered, &mut state), "Ready");
    assert_eq!(button_system(ButtonInteraction::Idle, &mut state), "Button");
    assert_eq!(state, GameStates::Starting);
    assert_eq!(button_system(ButtonInteraction::Clicked, &mut state), "Connecting");
    assert_eq!(state, GameStates::Loading);
    change_mode(&mut state);
    assert_eq!(state, GameStates::InGame);
    let a = bevy::ecs::entity::Entity::from_raw(1);
    let b = bevy::ecs::entity::Entity::from_raw(2);
    let mut all = AllEntites { ids: vec![a, b] };
    assert_eq!(MainMenu::remove_ui(&mut all), vec![a, b]);
    assert!(all.ids.is_empty());
    assert!(MainMenu::new().ids.is_empty());
}

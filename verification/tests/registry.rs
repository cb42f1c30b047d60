use lost_lib::decimal::{contains_str, last_segment_of, parse_u64, prefixed_decimal, u64_to_decimal};
use lost_lib::defaults::{Class, Enemy, Vec3Bits};
use lost_lib::players::Players;

#[test]
fn decimal_writes_numbers() {
    assert_eq!(u64_to_decimal(0), "0");
    assert_eq!(u64_to_decimal(7), "7");
    assert_eq!(u64_to_decimal(1234567890), "1234567890");
    assert_eq!(u64_to_decimal(u64::MAX), "18446744073709551615");
    assert_eq!(prefixed_decimal("enemy:", 42), "enemy:42");
}

#[test]
fn parse_matches_std() {
    for s in ["0", "42", "+42", "+", "", "-1", "007", "18446744073709551615", "18446744073709551616", "4a", " 4", "99999999999999999999"] {
        assert_eq!(parse_u64(s), s.parse::<u64>().ok(), "input {:?}", s);
    }
}

#[test]
fn parse_reads_back_decimal() {
    for n in [0u64, 1, 9, 10, 99, 100, 65535, u64::MAX] {
        assert_eq!(parse_u64(&u64_to_decimal(n)), Some(n));
    }
}

#[test]
fn last_segment_matches_split() {
    for s in ["enemy:12", "12", "a:b:c", "ends:", ":", ""] {
        assert_eq!(last_segment_of(s), s.split(':').last().unwrap());
    }
}

#[test]
fn contains_matches_std() {
    for (s, p) in [("enemy:3", "enemy"), ("3", "enemy"), ("myenemy", "enemy"), ("enem", "enemy"), ("", "")] {
        assert_eq!(contains_str(s, p), s.contains(p));
    }
}

#[test]
fn register_then_fetch() {
    let mut players = Players::default();
    assert!(!players.is_player_connected(5));
    let p = players.register_new_player("alice", 5, "dev-1".to_string());
    assert_eq!(p.name, "alice");
    assert_eq!(p.id, "5");
    assert_eq!(p.class, Class::Engineer);
    assert_eq!(p.health, 100);
    assert_eq!(p.loc, Vec3Bits { x: 0, y: 0.5f32.to_bits(), z: 0 });
    assert_eq!(p.direction, p.loc);
    assert_eq!(p.client_assinged_id, "dev-1");
    assert_eq!(p.resource_amount, 0);
    assert!(p.inv.is_empty());
    assert!(players.is_player_connected(5));
    assert_eq!(players.known_players(), 1);
    let f = players.fetch_player(5);
    assert_eq!(f.name, "alice");
    assert_eq!(f.client_assinged_id, "dev-1");
}

#[test]
fn class_change_and_move_keep_the_rest() {
    let mut players = Players::default();
    players.register_new_player("bob", 9, "c9".to_string());
    players.modify_player_class(9, Class::Mystic);
    let p = players.fetch_player(9);
    assert_eq!(p.class, Class::Mystic);
    assert_eq!(p.name, "bob");
    let at = Vec3Bits { x: 1.5f32.to_bits(), y: 2.0f32.to_bits(), z: (-3.0f32).to_bits() };
    let moved = players.modify_player_pos(9, at, Vec3Bits::up()).unwrap();
    assert_eq!(moved.loc, at);
    assert_eq!(moved.direction, Vec3Bits { x: 0, y: 1.0f32.to_bits(), z: 0 });
    assert_eq!(moved.class, Class::Mystic);
    assert_eq!(players.fetch_player(9).loc, at);
    assert!(players.modify_player_pos(10, at, at).is_none());
    players.modify_player_class(10, Class::Fighter);
    assert!(!players.is_player_connected(10));
}

#[test]
fn remove_forgets_only_that_player() {
    let mut players = Players::default();
    players.register_new_player("a", 1, "x".to_string());
    players.register_new_player("b", 2, "y".to_string());
    assert_eq!(players.known_players(), 2);
    players.remove_player(1);
    assert!(!players.is_player_connected(1));
    assert!(players.is_player_connected(2));
    assert_eq!(players.fetch_player(2).name, "b");
    assert_eq!(players.known_players(), 1);
}

#[test]
fn names_of_classes_and_enemies() {
    assert_eq!(Class::Fighter.to_text(), "Fighter");
    assert_eq!(Class::Chronowatcher.to_text(), "Chronowatcher");
    assert_eq!(Class::Mystic.to_text(), "Mystic");
    assert_eq!(Enemy::SkeletonArcher.to_text(), "Skeleton Archer");
    assert_eq!(Enemy::Vawnite.to_text(), "Vamnite DEBUG: lvl1");
    assert_eq!(Enemy::Filler.to_text(), "None");
}

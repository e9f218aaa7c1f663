use mpc_signer::sse::{extract_last_event_id, AppConfig, ConfigError, Db, Room};

#[test]
fn test_room_creation() {
    let mut room = Room::empty();
    assert_eq!(room.subscriber_count(), 0);
    assert_eq!(room.issue_unique_idx(), 0);
    assert_eq!(room.issue_unique_idx(), 1);
}

#[test]
fn test_db_room_creation() {
    let mut db = Db::empty();
    let room1 = db.get_room_or_create_for_index("test_room");
    let room2 = db.get_room_or_create_for_index("test_room");
    assert_eq!(room1, room2);
    let other = db.get_room_or_create_for_index("other_room");
    assert_ne!(room1, other);
}

#[test]
fn room_replay_after_reconnect() {
    let mut db = Db::empty();
    assert_eq!(db.broadcast("R", "m0".to_string()), 0);
    assert_eq!(db.broadcast("R", "m1".to_string()), 1);
    assert_eq!(db.broadcast("R", "m2".to_string()), 2);

    let mut a = db.subscribe("R", None);
    let mut seen_a = Vec::new();
    while let Some(event) = db.next_event("R", &mut a) {
        seen_a.push(event);
    }
    assert_eq!(
        seen_a,
        vec![(0, "m0".to_string()), (1, "m1".to_string()), (2, "m2".to_string())]
    );

    let mut b = db.subscribe("R", extract_last_event_id(Some("0")));
    let mut seen_b = Vec::new();
    while let Some(event) = db.next_event("R", &mut b) {
        seen_b.push(event);
    }
    assert_eq!(seen_b, vec![(1, "m1".to_string()), (2, "m2".to_string())]);
}

#[test]
fn subscribers_see_one_order() {
    let mut room = Room::empty();
    let mut a = room.subscribe(None);
    room.publish("x".to_string());
    let mut b = room.subscribe(None);
    room.publish("y".to_string());
    let first_a = a.next(&room);
    let first_b = b.next(&room);
    assert_eq!(first_a, first_b);
    assert_eq!(first_a, Some((0, "x".to_string())));
    assert_eq!(a.next(&room), b.next(&room));
    assert_eq!(a.next(&room), None);
    assert_eq!(room.subscriber_count(), 2);
    room.unsubscribe(a);
    assert_eq!(room.subscriber_count(), 1);
}

#[test]
fn reconnect_stalls_until_message_exists() {
    let mut room = Room::empty();
    room.publish("m0".to_string());
    let mut sub = room.subscribe(Some(4));
    assert_eq!(sub.next_event(), 5);
    assert_eq!(sub.next(&room), None);
    for i in 1..6 {
        room.publish(format!("m{}", i));
    }
    assert_eq!(sub.next(&room), Some((5, "m5".to_string())));
    assert_eq!(sub.next(&room), None);
}

#[test]
fn unique_indices_per_room() {
    let mut db = Db::empty();
    assert_eq!(db.issue_unique_idx("a"), 0);
    assert_eq!(db.issue_unique_idx("a"), 1);
    assert_eq!(db.issue_unique_idx("b"), 0);
    assert_eq!(db.issue_unique_idx("a"), 2);
}

#[test]
fn unique_index_wraps() {
    let mut room = Room::empty();
    for i in 0..=u16::MAX {
        assert_eq!(room.issue_unique_idx(), i);
    }
    assert_eq!(room.issue_unique_idx(), 0);
}

#[test]
fn rooms_are_separate() {
    let mut db = Db::empty();
    db.broadcast("a", "only-a".to_string());
    let mut sub = db.subscribe("b", None);
    assert_eq!(db.next_event("b", &mut sub), None);
    let mut missing = db.subscribe("c", Some(0));
    assert_eq!(db.next_event("zzz", &mut missing), None);
}

#[test]
fn last_event_id_header() {
    assert_eq!(extract_last_event_id(None), None);
    assert_eq!(extract_last_event_id(Some("0")), Some(0));
    assert_eq!(extract_last_event_id(Some("42")), Some(42));
    assert_eq!(extract_last_event_id(Some("+7")), Some(7));
    assert_eq!(extract_last_event_id(Some("65535")), Some(65535));
    assert_eq!(extract_last_event_id(Some("65536")), None);
    assert_eq!(extract_last_event_id(Some("")), None);
    assert_eq!(extract_last_event_id(Some("+")), None);
    assert_eq!(extract_last_event_id(Some("-1")), None);
    assert_eq!(extract_last_event_id(Some("1a")), None);
    assert_eq!(extract_last_event_id(Some(" 1")), None);
    assert_eq!(extract_last_event_id(Some("000123")), Some(123));
}

#[test]
fn sse_config_from_env_values() {
    let c = AppConfig::from_env_values(None, None).unwrap();
    assert_eq!(c.sse.host, "127.0.0.1");
    assert_eq!(c.sse.port, 8080);
    let c = AppConfig::from_env_values(Some("0.0.0.0".to_string()), Some("9000".to_string())).unwrap();
    assert_eq!(c.sse.host, "0.0.0.0");
    assert_eq!(c.sse.port, 9000);
    let e = AppConfig::from_env_values(None, Some("port".to_string())).unwrap_err();
    assert!(matches!(e, ConfigError::InvalidEnvVar(_)));
}

use showdown::bot::Bot;
use showdown::config::Config;
use showdown::helpers::sanitize;
use showdown::target::{CacheMap, Room, Target, User};

fn test_config() -> Config {
    Config {
        host: "sim.smogon.com".to_string(),
        port: "8000".to_string(),
        throttle_ms: 333,
        rooms: vec![],
        avatar: 0,
        plugin_prefixes: vec![".".to_string(), "#".to_string()],
        case_insensitive: false,
    }
}

#[test]
fn add_user_test() {
    let mut b = Bot::new(test_config());
    assert!(!b.room_map.contains("testroom"));
    assert!(!b.room_map.contains_user_in_room("testuser", "testroom"));
    b.room_map.insert_user_in_room("testuser", "testroom");
    assert!(b.room_map.contains("testroom"));
    assert!(b.room_map.contains_user_in_room("testuser", "testroom"));
}

#[test]
fn remove_user_test() {
    let mut b = Bot::new(test_config());
    b.room_map.insert_user_in_room("testuser", "testroom");
    assert!(b.room_map.contains_user_in_room("testuser", "testroom"));
    b.room_map.remove_user_from_room("testuser", "testroom");
    assert!(!b.room_map.contains_user_in_room("testuser", "testroom"));
}

#[test]
fn sanitize_strips_and_lowers() {
    assert_eq!(sanitize("Hello, World! 42"), "helloworld42");
    assert_eq!(sanitize(""), "");
    assert_eq!(sanitize("#Alice"), "alice");
    assert_eq!(sanitize("Zoë_Z"), "zoz");
}

#[test]
fn remove_on_absent_room_creates_it() {
    let mut rooms: CacheMap<Room> = CacheMap::new();
    assert!(!rooms.remove_user_from_room("nobody", "Empty Room"));
    assert!(rooms.contains("emptyroom"));
    assert!(!rooms.contains_user_in_room("nobody", "emptyroom"));
}

#[test]
fn add_then_remove_leaves_user_out() {
    let mut rooms: CacheMap<Room> = CacheMap::new();
    assert!(rooms.insert_user_in_room("Bob", "Lobby"));
    assert!(!rooms.insert_user_in_room("bob", "lobby"));
    assert!(rooms.remove_user_from_room("BOB", "LOBBY"));
    assert!(!rooms.contains_user_in_room("bob", "lobby"));
    assert!(rooms.contains("lobby"));
    assert_eq!(rooms.len(), 1);
}

#[test]
fn insert_twice_keeps_one_entry() {
    let mut rooms: CacheMap<Room> = CacheMap::new();
    rooms.insert("Lobby");
    rooms.insert("lobby");
    rooms.insert("LOBBY!");
    assert_eq!(rooms.len(), 1);
    let mut users: CacheMap<User> = CacheMap::new();
    users.insert("Alice");
    users.insert("alice");
    assert_eq!(users.len(), 1);
    users.insert("Bob");
    assert_eq!(users.len(), 2);
}

#[test]
fn remove_reports_missing_key() {
    let mut rooms: CacheMap<Room> = CacheMap::new();
    assert!(!rooms.remove("lobby"));
    rooms.insert("Lobby");
    assert!(rooms.remove("LOBBY"));
    assert!(!rooms.contains("lobby"));
}

#[test]
fn auth_is_added_only_once() {
    let mut users: CacheMap<User> = CacheMap::new();
    users.add_auth_to_user_in_room("@", "Alice", "Lobby");
    users.add_auth_to_user_in_room("+", "alice", "lobby");
    let u = users.map.get(&"alice".to_string()).unwrap();
    assert_eq!(u.name, "Alice");
    assert!(u.has_auth("@", "lobby"));
    assert!(u.has_auth("@", "LOBBY"));
    assert!(!u.has_auth("+", "lobby"));
    assert!(!u.has_auth("@", "other"));
}

#[test]
fn room_and_user_frames() {
    let r = Room::new("Lobby");
    assert_eq!(r.name, "lobby");
    assert_eq!(r.frame("hi"), "lobby|hi");
    let u = User::new("Alice B");
    assert_eq!(u.id, "aliceb");
    assert_eq!(u.frame("hi"), "|/w Alice B,hi");
}

#[test]
fn long_frames_are_cut_at_300_characters() {
    let r = Room::new("lobby");
    let text = "x".repeat(400);
    let f = r.frame(&text);
    assert_eq!(f.chars().count(), 300);
    assert!(f.starts_with("lobby|xxx"));
    let u = User::new("bob");
    let f = u.frame(&"é".repeat(400));
    assert_eq!(f.chars().count(), 300);
    assert!(f.starts_with("|/w bob,é"));
}

#[test]
fn send_queues_frames_in_order() {
    let mut b = Bot::new(test_config());
    let r = Room::new("lobby");
    r.send(&mut b, "one");
    let u = User::new("bob");
    u.send(&mut b, "two");
    let out = b.take_outgoing();
    assert_eq!(out, vec!["lobby|one".to_string(), "|/w bob,two".to_string()]);
    assert!(b.take_outgoing().is_empty());
}

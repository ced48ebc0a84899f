use croquette::schema::Room;
use croquette::session::Session;

fn chat(id: &str, name: &str) -> Room {
    Room::Chat { id: id.to_string(), name: name.to_string(), topic: None, last_seen: 10 }
}

fn private(id: &str, name: &str) -> Room {
    Room::Private {
        id: id.to_string(),
        name: name.to_string(),
        topic: Some("hush".to_string()),
        last_seen: 20,
    }
}

fn direct(id: &str) -> Room {
    Room::Direct { id: id.to_string(), last_seen: 30 }
}

#[test]
fn new_session_is_empty() {
    let s = Session::new();
    assert!(s.rooms().is_empty());
    assert_eq!(s.room_by_id("r1"), None);
    assert_eq!(s.room_by_name("general"), None);
}

#[test]
fn named_rooms_are_found_both_ways() {
    let s = Session::from_rooms(vec![chat("r1", "general"), private("r2", "staff"), direct("r3")]);
    assert_eq!(s.room_by_id("r1"), Some(&chat("r1", "general")));
    assert_eq!(s.room_by_name("general"), Some(&chat("r1", "general")));
    assert_eq!(s.room_by_id("r2"), Some(&private("r2", "staff")));
    assert_eq!(s.room_by_name("staff"), Some(&private("r2", "staff")));
    assert_eq!(s.room_by_id("r3"), Some(&direct("r3")));
    assert_eq!(s.room_by_name("r3"), None);
    assert_eq!(s.room_by_id("general"), None);
}

#[test]
fn insert_replaces_room_with_same_id() {
    let mut s = Session::from_rooms(vec![chat("r1", "general"), chat("r2", "random")]);
    s.insert(chat("r1", "renamed"));
    assert_eq!(s.rooms(), &vec![chat("r2", "random"), chat("r1", "renamed")]);
    assert_eq!(s.room_by_name("general"), None);
    assert_eq!(s.room_by_name("renamed"), Some(&chat("r1", "renamed")));
}

#[test]
fn insert_replaces_room_with_same_name() {
    let mut s = Session::from_rooms(vec![chat("r1", "general"), chat("r2", "random")]);
    s.insert(private("r9", "general"));
    assert_eq!(s.rooms(), &vec![chat("r2", "random"), private("r9", "general")]);
    assert_eq!(s.room_by_id("r1"), None);
    assert_eq!(s.room_by_name("general"), Some(&private("r9", "general")));
}

#[test]
fn from_rooms_keeps_the_later_of_two_that_clash() {
    let s = Session::from_rooms(vec![chat("r1", "a"), chat("r2", "b"), chat("r1", "c")]);
    assert_eq!(s.rooms(), &vec![chat("r2", "b"), chat("r1", "c")]);
}

#[test]
fn remove_takes_the_room_out() {
    let mut s = Session::from_rooms(vec![chat("r1", "general"), direct("r3")]);
    assert!(s.remove("r1"));
    assert!(!s.remove("r1"));
    assert_eq!(s.rooms(), &vec![direct("r3")]);
    assert_eq!(s.room_by_name("general"), None);
    assert!(!s.remove("nowhere"));
}

#[test]
fn room_accessors() {
    let r = private("r2", "staff");
    assert_eq!(r.id(), "r2");
    assert_eq!(r.name(), Some(&"staff".to_string()));
    assert_eq!(r.topic(), Some(&"hush".to_string()));
    assert_eq!(r.room_type(), 'p');
    assert_eq!(r.last_seen(), 20);
    assert_eq!(chat("r1", "g").room_type(), 'c');
    assert_eq!(chat("r1", "g").topic(), None);
    assert_eq!(direct("r3").room_type(), 'd');
    assert_eq!(direct("r3").name(), None);
    let other = Room::Other { id: "r4".to_string(), room_type: 'l', last_seen: 0 };
    assert_eq!(other.room_type(), 'l');
    assert_eq!(other.name(), None);
    assert_eq!(other.id(), "r4");
}

#[test]
fn freshness_is_strictly_newer() {
    let r = chat("r1", "general");
    assert!(r.is_timestamp_fresh(11));
    assert!(!r.is_timestamp_fresh(10));
    assert!(!r.is_timestamp_fresh(9));
}

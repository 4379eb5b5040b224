use masquerade_sdk::room::appservice_users;
use masquerade_sdk::room::RoomKind;
use masquerade_sdk::room::RoomStore;

fn strings(items: &[&str]) -> Vec<String> {
    items.iter().map(|s| s.to_string()).collect()
}

fn sorted(mut v: Vec<String>) -> Vec<String> {
    v.sort();
    v
}

#[test]
fn new_room_deduplicates_members() {
    let room = RoomKind::new_unencrypted(String::from("!r:h"), strings(&["@a:h", "@a:h", "@b:h"]));
    let members = sorted(room.joined_members());
    assert_eq!(members, strings(&["@a:h", "@b:h"]));
}

#[test]
fn direct_rooms_have_exactly_two_members() {
    let two = RoomKind::new_unencrypted(String::from("!r:h"), strings(&["@a:h", "@b:h"]));
    assert!(two.is_direct());
    let three = RoomKind::new_unencrypted(String::from("!r:h"), strings(&["@a:h", "@b:h", "@c:h"]));
    assert!(!three.is_direct());
}

#[test]
fn message_type_follows_the_tag() {
    let enc = RoomKind::new_encrypted(String::from("!r:h"), strings(&[]));
    let plain = RoomKind::new_unencrypted(String::from("!r:h"), strings(&[]));
    assert_eq!(enc.message_type(), "m.room.encrypted");
    assert_eq!(plain.message_type(), "m.room.message");
    assert!(enc.is_encrypted());
    assert!(!plain.is_encrypted());
}

#[test]
fn member_added_then_removed_is_gone() {
    let mut store = RoomStore::new();
    let room_id = String::from("!r:h");
    let fetched = RoomKind::new_unencrypted(room_id.clone(), strings(&[]));
    store.add_room_member(&room_id, String::from("@u:h"), Some(fetched)).unwrap();
    store.add_room_member(&room_id, String::from("@u:h"), None).unwrap();
    assert!(store.get(&room_id).unwrap().contains(&String::from("@u:h")));
    store.remove_room_member(&room_id, &String::from("@u:h"));
    assert!(!store.get(&room_id).unwrap().contains(&String::from("@u:h")));
}

#[test]
fn adding_a_member_twice_keeps_it_once() {
    let mut store = RoomStore::new();
    let room_id = String::from("!r:h");
    let fetched = RoomKind::new_unencrypted(room_id.clone(), strings(&["@a:h"]));
    store.add_room_member(&room_id, String::from("@a:h"), Some(fetched)).unwrap();
    store.add_room_member(&room_id, String::from("@a:h"), None).unwrap();
    let members = store.get(&room_id).unwrap().joined_members();
    assert_eq!(members, strings(&["@a:h"]));
}

#[test]
fn removing_from_an_unknown_room_is_a_no_op() {
    let mut store = RoomStore::new();
    assert!(!store.remove_room_member(&String::from("!nope:h"), &String::from("@u:h")));
    assert!(store.get(&String::from("!nope:h")).is_none());
}

#[test]
fn adding_to_an_unknown_room_without_a_fetch_fails() {
    let mut store = RoomStore::new();
    let r = store.add_room_member(&String::from("!r:h"), String::from("@u:h"), None);
    assert!(r.is_err());
}

#[test]
fn upgrade_is_monotone_and_idempotent() {
    let mut store = RoomStore::new();
    let room_id = String::from("!r:h");
    let fetched = RoomKind::new_unencrypted(room_id.clone(), strings(&["@a:h", "@b:h"]));
    store.add_room_member(&room_id, String::from("@a:h"), Some(fetched)).unwrap();
    assert!(!store.get(&room_id).unwrap().is_encrypted());

    assert!(store.upgrade_room_encryption(&room_id));
    assert!(store.get(&room_id).unwrap().is_encrypted());
    let members = sorted(store.get(&room_id).unwrap().joined_members());
    assert_eq!(members, strings(&["@a:h", "@b:h"]));

    assert!(!store.upgrade_room_encryption(&room_id));
    assert!(store.get(&room_id).unwrap().is_encrypted());

    store.remove_room_member(&room_id, &String::from("@b:h"));
    assert!(store.get(&room_id).unwrap().is_encrypted());
}

#[test]
fn upgrading_an_unknown_room_is_a_no_op() {
    let mut store = RoomStore::new();
    assert!(!store.upgrade_room_encryption(&String::from("!nope:h")));
}

#[test]
fn encrypted_members_are_the_tracked_closure() {
    let mut store = RoomStore::new();
    let enc = String::from("!enc:h");
    let plain = String::from("!plain:h");
    let other = String::from("!other:h");
    store
        .add_room_member(&enc, String::from("@a:h"), Some(RoomKind::new_encrypted(
            enc.clone(),
            strings(&["@a:h", "@b:h"]),
        )))
        .unwrap();
    store
        .add_room_member(&plain, String::from("@a:h"), Some(RoomKind::new_unencrypted(
            plain.clone(),
            strings(&["@a:h", "@c:h"]),
        )))
        .unwrap();
    store
        .add_room_member(&other, String::from("@d:h"), Some(RoomKind::new_encrypted(
            other.clone(),
            strings(&["@d:h", "@e:h"]),
        )))
        .unwrap();

    let closure = sorted(store.get_encrypted_members(&String::from("@a:h")));
    assert_eq!(closure, strings(&["@a:h", "@b:h"]));

    let lonely = sorted(store.get_encrypted_members(&String::from("@c:h")));
    assert_eq!(lonely, strings(&["@c:h"]));
}

#[test]
fn upgrade_extends_the_tracked_closure() {
    let mut store = RoomStore::new();
    let room_id = String::from("!r:h");
    store
        .add_room_member(&room_id, String::from("@a:h"), Some(RoomKind::new_unencrypted(
            room_id.clone(),
            strings(&["@a:h", "@b:h"]),
        )))
        .unwrap();
    let before = sorted(store.get_encrypted_members(&String::from("@a:h")));
    assert_eq!(before, strings(&["@a:h"]));

    store.upgrade_room_encryption(&room_id);
    let after = sorted(store.get_encrypted_members(&String::from("@a:h")));
    assert_eq!(after, strings(&["@a:h", "@b:h"]));
}

#[test]
fn populate_inserts_only_absent_rooms() {
    let mut store = RoomStore::new();
    let known = String::from("!known:h");
    store
        .add_room_member(&known, String::from("@a:h"), Some(RoomKind::new_encrypted(
            known.clone(),
            strings(&["@a:h"]),
        )))
        .unwrap();
    store.populate_known_rooms(vec![
        RoomKind::new_unencrypted(known.clone(), strings(&[])),
        RoomKind::new_unencrypted(String::from("!fresh:h"), strings(&["@b:h"])),
    ]);
    assert!(store.get(&known).unwrap().is_encrypted());
    assert!(store.get(&known).unwrap().contains(&String::from("@a:h")));
    let fresh = store.get(&String::from("!fresh:h")).unwrap();
    assert!(!fresh.is_encrypted());
    assert!(fresh.contains(&String::from("@b:h")));
}

#[test]
fn appservice_users_keep_store_order() {
    let room = RoomKind::new_encrypted(String::from("!r:h"), strings(&["@b:h", "@a:h", "@x:h"]));
    let owned = strings(&["@a:h", "@b:h", "@c:h"]);
    assert_eq!(appservice_users(&room, &owned), strings(&["@a:h", "@b:h"]));
}

#[test]
fn tracking_updates_cover_each_owned_member() {
    let mut store = RoomStore::new();
    let room_id = String::from("!r:h");
    store
        .add_room_member(&room_id, String::from("@a:h"), Some(RoomKind::new_encrypted(
            room_id.clone(),
            strings(&["@a:h", "@b:h", "@z:h"]),
        )))
        .unwrap();
    let updates = store.tracking_updates(&room_id, &strings(&["@a:h", "@b:h"]));
    assert_eq!(updates.len(), 2);
    assert_eq!(updates[0].user, "@a:h");
    assert_eq!(
        sorted(updates[0].tracked_users.clone()),
        strings(&["@a:h", "@b:h", "@z:h"])
    );
    assert_eq!(updates[1].user, "@b:h");

    let none = store.tracking_updates(&String::from("!nope:h"), &strings(&["@a:h"]));
    assert!(none.is_empty());
}

use masquerade_sdk::appservice::ApplicationServiceInner;
use masquerade_sdk::builder::ApplicationServiceBuilder;
use masquerade_sdk::encryption::encrypt_event_guard;
use masquerade_sdk::encryption::key_share_members;
use masquerade_sdk::encryption::normalize_fallback_keys;
use masquerade_sdk::encryption::send_message_plan;
use masquerade_sdk::encryption::tracked_update_needed;
use masquerade_sdk::error::Error;
use masquerade_sdk::room::RoomKind;
use masquerade_sdk::room::RoomStore;
use masquerade_sdk::types::Appservice;
use masquerade_sdk::types::Config;
use masquerade_sdk::types::Database;
use masquerade_sdk::types::Homeserver;
use masquerade_sdk::types::NoState;
use masquerade_sdk::types::State;

fn config(username: &str) -> Config {
    Config {
        homeserver: Homeserver {
            server_name: "h".to_string(),
            url: "https://h".to_string(),
        },
        appservice: Appservice {
            url: "https://as.h".to_string(),
            bind_ip: "0.0.0.0".to_string(),
            port: 8010,
            id: "bridge".to_string(),
            username: username.to_string(),
            displayname: "Bot".to_string(),
            as_token: "SECRET-REDACTED".to_string(),
            hs_token: "SECRET-REDACTED".to_string(),
        },
        database: Database { path: "/tmp/store".to_string(), passphrase: "p".to_string() },
    }
}

fn strings(items: &[&str]) -> Vec<String> {
    items.iter().map(|s| s.to_string()).collect()
}

#[test]
fn wiring_requires_a_well_formed_bot_id() {
    assert!(ApplicationServiceInner::new(config("bot")).is_ok());
    let broken = ApplicationServiceInner::new(config(""));
    assert!(matches!(broken, Err(Error::IdParse(_))));
}

#[test]
fn the_root_authorizes_against_its_hs_token() {
    let inner = ApplicationServiceInner::new(config("bot")).unwrap();
    assert!(inner.is_autorized(&"SECRET-REDACTED".to_string()));
    assert!(!inner.is_autorized(&"wrong".to_string()));
    let (status, body) = inner.create_error_response(401);
    assert_eq!(status, 401);
    assert_eq!(body, "{\"errcode\":\"NL.SPACEBASED.BRIDGE_UNAUTHORIZED\"}");
}

#[test]
fn the_bot_exists_after_init() {
    let mut inner = ApplicationServiceInner::new(config("bot")).unwrap();
    assert!(matches!(inner.get_bot(), Err(Error::UserNotFound(_))));
    inner.init_bot().unwrap();
    assert_eq!(inner.get_bot().unwrap().mxid, "@bot:h");
}

#[test]
fn malformed_user_ids_name_nobody() {
    let mut inner = ApplicationServiceInner::new(config("bot")).unwrap();
    assert!(matches!(
        inner.create_user(&"not-an-id".to_string()).unwrap_err(),
        Error::IdParse(_)
    ));
    inner.create_user(&"@p1:h".to_string()).unwrap();
    assert!(inner.get_user(&"@p1:h".to_string()).is_some());
    assert!(inner.get_user(&"not-an-id".to_string()).is_none());
    assert!(inner.get_user(&"@p2:h".to_string()).is_none());
}

#[test]
fn identical_transaction_ids_share_one_response() {
    let mut inner = ApplicationServiceInner::new(config("bot")).unwrap();
    let txn = "t2".to_string();
    assert!(inner.begin_transaction(&txn).is_none());

    let first = inner.finish_transaction(txn.clone(), false);
    assert_eq!(first, (200, "{}".to_string()));

    let replayed = inner.begin_transaction(&txn).unwrap();
    assert_eq!(replayed, (200, "{}".to_string()));

    let concurrent = inner.finish_transaction(txn.clone(), true);
    assert_eq!(concurrent, (200, "{}".to_string()));
}

#[test]
fn failed_transactions_are_not_cached_as_success() {
    let mut inner = ApplicationServiceInner::new(config("bot")).unwrap();
    let failed = inner.finish_transaction("bad".to_string(), true);
    assert_eq!(failed.0, 500);
    assert_eq!(failed.1, "{\"errcode\":\"NL.SPACEBASED.BRIDGE_INTERNAL_SERVER_ERROR\"}");
    let replay = inner.begin_transaction(&"bad".to_string()).unwrap();
    assert_eq!(replay.0, 500);
}

#[test]
fn encrypting_needs_a_known_encrypted_room() {
    let mut store = RoomStore::new();
    assert!(matches!(
        encrypt_event_guard(&store, &"!r:h".to_string()).unwrap_err(),
        Error::RoomNotFound(_)
    ));
    store
        .add_room_member(&"!r:h".to_string(), "@a:h".to_string(), Some(
            RoomKind::new_unencrypted("!r:h".to_string(), strings(&["@a:h"])),
        ))
        .unwrap();
    assert!(matches!(
        encrypt_event_guard(&store, &"!r:h".to_string()).unwrap_err(),
        Error::RoomNotEncrypted(_)
    ));
    store.upgrade_room_encryption(&"!r:h".to_string());
    assert!(encrypt_event_guard(&store, &"!r:h".to_string()).is_ok());
}

#[test]
fn room_keys_go_to_the_joined_members() {
    let mut store = RoomStore::new();
    store
        .add_room_member(&"!r:h".to_string(), "@a:h".to_string(), Some(
            RoomKind::new_encrypted("!r:h".to_string(), strings(&["@a:h", "@b:h"])),
        ))
        .unwrap();
    let mut members = key_share_members(&store, &"!r:h".to_string()).unwrap();
    members.sort();
    assert_eq!(members, strings(&["@a:h", "@b:h"]));
    assert!(key_share_members(&store, &"!x:h".to_string()).is_err());
}

#[test]
fn tracking_grows_only_for_untracked_members() {
    let members = strings(&["@a:h", "@b:h"]);
    assert!(tracked_update_needed(&members, &strings(&["@a:h"])));
    assert!(!tracked_update_needed(&members, &strings(&["@b:h", "@a:h", "@c:h"])));
    assert!(!tracked_update_needed(&strings(&[]), &strings(&[])));
}

#[test]
fn empty_fallback_keys_are_absent() {
    assert!(normalize_fallback_keys(&Vec::new()).is_none());
    let keys = strings(&["signed_curve25519"]);
    assert_eq!(normalize_fallback_keys(&keys).unwrap(), &keys);
}

#[test]
fn messages_to_encrypted_rooms_need_the_olm_machine() {
    let mut store = RoomStore::new();
    store
        .add_room_member(&"!r:h".to_string(), "@a:h".to_string(), Some(
            RoomKind::new_encrypted("!r:h".to_string(), strings(&["@a:h"])),
        ))
        .unwrap();
    let plan = send_message_plan(&store, &"!r:h".to_string(), &"t1".to_string()).unwrap();
    assert!(plan.needs_encryption);
    assert_eq!(plan.message_type, "m.room.encrypted");
    assert_eq!(
        plan.path,
        "/_matrix/client/v3/rooms/%21r%3Ah/send/m.room.encrypted/t1"
    );
    assert!(send_message_plan(&store, &"!x:h".to_string(), &"t1".to_string()).is_err());
}

#[test]
fn error_messages_carry_their_payload() {
    let e = Error::RoomNotFound("!r:h".to_string());
    assert_eq!(e.message(), "No such room: !r:h");
    let m = Error::MultipleSync("D1".to_string());
    assert!(m.message().starts_with("Attempting to run multiple sync loops"));
}

#[test]
fn the_builder_settles_path_and_state() {
    let builder = ApplicationServiceBuilder::new();
    let with_path = builder.configuration_file("config.yaml".to_string());
    assert_eq!(with_path.config_path, "config.yaml");
    let _: NoState = with_path.state;

    let stateful = ApplicationServiceBuilder::new()
        .with_state(7u32)
        .configuration_file("c.yaml".to_string());
    let State(inner_state) = stateful.state;
    assert_eq!(inner_state, 7);
}

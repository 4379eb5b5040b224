use masquerade_sdk::registry::decrypt_outcome;
use masquerade_sdk::registry::decryption_candidates;
use masquerade_sdk::registry::membership_action;
use masquerade_sdk::registry::EventHandlerStore;
use masquerade_sdk::registry::MemberAction;
use masquerade_sdk::registry::TypedEventHandler;
use masquerade_sdk::transaction::TimelineEvent;
use masquerade_sdk::user::User;

fn handler(event_type: &str, id: u64) -> TypedEventHandler {
    TypedEventHandler { event_type: Some(event_type.to_string()), handler_id: id }
}

fn plaintext(event_type: &str) -> TimelineEvent {
    TimelineEvent {
        event_type: event_type.to_string(),
        room_id: "!r:h".to_string(),
        sender: "@p1:h".to_string(),
        payload: "{}".to_string(),
    }
}

#[test]
fn get_type_requires_a_static_type() {
    assert_eq!(handler("m.room.member", 1).get_type().unwrap(), "m.room.member");
    let untyped = TypedEventHandler { event_type: None, handler_id: 2 };
    assert!(matches!(
        untyped.get_type().unwrap_err(),
        masquerade_sdk::error::Error::EventType(_)
    ));
}

#[test]
fn handlers_dispatch_in_registration_order() {
    let mut store = EventHandlerStore::new();
    store.insert(handler("m.room.member", 1)).unwrap();
    store.insert(handler("m.room.encryption", 2)).unwrap();
    store.insert(handler("m.room.member", 3)).unwrap();

    assert_eq!(store.get(&"m.room.member".to_string()).unwrap(), vec![1, 3]);
    assert_eq!(store.get(&"m.room.encryption".to_string()).unwrap(), vec![2]);
    assert!(store.get(&"m.room.message".to_string()).is_none());
}

#[test]
fn untyped_handlers_are_refused() {
    let mut store = EventHandlerStore::new();
    let r = store.insert(TypedEventHandler { event_type: None, handler_id: 9 });
    assert!(r.is_err());
    assert!(store.get(&"m.room.member".to_string()).is_none());
}

#[test]
fn membership_states_map_to_cache_actions() {
    assert!(matches!(membership_action(&"join".to_string()), MemberAction::Add));
    assert!(matches!(membership_action(&"leave".to_string()), MemberAction::Remove));
    assert!(matches!(membership_action(&"ban".to_string()), MemberAction::Ignore));
    assert!(matches!(membership_action(&"invite".to_string()), MemberAction::Ignore));
}

#[test]
fn only_joined_users_with_devices_may_decrypt() {
    let mut with_device = User::new("@p1:h".to_string());
    with_device.create_device(Some(&"D1".to_string()));
    let without_device = User::new("@p2:h".to_string());
    let mut outsider = User::new("@p3:h".to_string());
    outsider.create_device(Some(&"D3".to_string()));

    let users = vec![with_device, without_device, outsider];
    let members = vec!["@p1:h".to_string(), "@p2:h".to_string()];
    assert_eq!(decryption_candidates(&users, &members), vec!["@p1:h".to_string()]);
}

#[test]
fn first_successful_decryption_wins() {
    let attempts = vec![None, Some(plaintext("m.room.message")), Some(plaintext("m.other"))];
    let event = decrypt_outcome(attempts, &"!r:h".to_string()).unwrap();
    assert_eq!(event.event_type, "m.room.message");
}

#[test]
fn failed_fanout_errs_with_decrypt_event() {
    let attempts: Vec<Option<TimelineEvent>> = vec![None, None];
    let r = decrypt_outcome(attempts, &"!r:h".to_string());
    assert!(matches!(r, Err(masquerade_sdk::error::Error::DecryptEvent(_))));
    let none: Vec<Option<TimelineEvent>> = Vec::new();
    assert!(decrypt_outcome(none, &"!r:h".to_string()).is_err());
}

#[test]
fn decrypted_events_reach_their_registered_handler() {
    let mut store = EventHandlerStore::new();
    store.insert(handler("m.room.message", 7)).unwrap();

    let attempts = vec![Some(plaintext("m.room.message"))];
    let event = decrypt_outcome(attempts, &"!r:h".to_string()).unwrap();
    let handlers = store.get(&event.event_type).unwrap();
    assert_eq!(handlers, vec![7]);
}

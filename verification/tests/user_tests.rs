use masquerade_sdk::user::EnsureDeviceAction;
use masquerade_sdk::user::User;
use masquerade_sdk::user::UserStore;

#[test]
fn insert_then_get_returns_the_user() {
    let mut store = UserStore::new();
    store.insert(User::new("@a:h".to_string()));
    let user = store.get(&"@a:h".to_string()).unwrap();
    assert_eq!(user.mxid, "@a:h");
    assert!(user.device.is_none());
    assert!(store.get(&"@b:h".to_string()).is_none());
}

#[test]
fn insert_replaces_the_previous_slot() {
    let mut store = UserStore::new();
    store.insert(User::new("@a:h".to_string()));
    store.create_device(&"@a:h".to_string(), Some(&"D1".to_string())).unwrap();
    store.insert(User::new("@a:h".to_string()));
    assert!(store.get(&"@a:h".to_string()).unwrap().device.is_none());
}

#[test]
fn keys_list_every_user_once() {
    let mut store = UserStore::new();
    store.insert(User::new("@a:h".to_string()));
    store.insert(User::new("@b:h".to_string()));
    store.insert(User::new("@a:h".to_string()));
    let keys = store.keys();
    assert_eq!(keys.len(), 2);
    assert!(keys.contains(&"@a:h".to_string()));
    assert!(keys.contains(&"@b:h".to_string()));
}

#[test]
fn default_device_id_is_the_name_uuid() {
    let mut user = User::new("@bot:example.org".to_string());
    let id = user.create_device(None);
    assert_eq!(id, "0770ec14-c6c3-52ed-9b30-98e385694676");
    assert_eq!(id.len(), 36);
    let again = user.create_device(None);
    assert_eq!(again, id);
}

#[test]
fn explicit_device_id_wins_over_the_default() {
    let mut user = User::new("@bot:example.org".to_string());
    let id = user.create_device(Some(&"KEYBOARD".to_string()));
    assert_eq!(id, "KEYBOARD");
    let device = user.get_device().unwrap();
    assert_eq!(device.device_id, "KEYBOARD");
    assert!(!device.is_running());
}

#[test]
fn ensure_device_distinguishes_the_three_cases() {
    let mut store = UserStore::new();
    let mxid = "@p1:h".to_string();
    let device_id = "D1".to_string();

    let first = store.ensure_device(&mxid, &device_id);
    assert!(matches!(first, EnsureDeviceAction::CreatedUserAndDevice));
    assert_eq!(
        store.get(&mxid).unwrap().device.as_ref().unwrap().device_id,
        "D1"
    );

    let second = store.ensure_device(&mxid, &"D2".to_string());
    assert!(matches!(second, EnsureDeviceAction::Existing));
    assert_eq!(
        store.get(&mxid).unwrap().device.as_ref().unwrap().device_id,
        "D1"
    );

    store.insert(User::new("@p2:h".to_string()));
    let third = store.ensure_device(&"@p2:h".to_string(), &"D3".to_string());
    assert!(matches!(third, EnsureDeviceAction::CreatedDevice));
    assert_eq!(
        store.get(&"@p2:h".to_string()).unwrap().device.as_ref().unwrap().device_id,
        "D3"
    );
}

#[test]
fn create_device_on_an_unknown_user_fails() {
    let mut store = UserStore::new();
    let r = store.create_device(&"@nobody:h".to_string(), None);
    assert!(matches!(
        r.unwrap_err(),
        masquerade_sdk::error::Error::UserNotFound(_)
    ));
}

use masquerade_sdk::device::bot_startup_actions;
use masquerade_sdk::device::loop_step;
use masquerade_sdk::device::next_loop_event;
use masquerade_sdk::device::Device;
use masquerade_sdk::device::LoopAction;
use masquerade_sdk::device::LoopEvent;
use masquerade_sdk::device::StartupAction;
use masquerade_sdk::device::SYNC_QUEUE_CAPACITY;
use masquerade_sdk::transaction::OwnedEncryptionSyncChanges;
use masquerade_sdk::types::DeviceList;
use masquerade_sdk::types::Profile;

fn batch(token: &str) -> OwnedEncryptionSyncChanges {
    OwnedEncryptionSyncChanges {
        to_device_events: Vec::new(),
        changed_devices: DeviceList { changed: Vec::new(), left: Vec::new() },
        one_time_keys_counts: Vec::new(),
        unused_fallback_keys: Vec::new(),
        next_batch_token: Some(token.to_string()),
    }
}

#[test]
fn queue_capacity_is_fifty() {
    assert_eq!(SYNC_QUEUE_CAPACITY, 50);
}

#[test]
fn second_sync_loop_start_fails() {
    let mut device = Device::new("D1".to_string());
    assert!(device.take_receiver().is_ok());
    let second = device.take_receiver();
    assert!(second.is_err());
    assert!(matches!(
        second.unwrap_err(),
        masquerade_sdk::error::Error::MultipleSync(_)
    ));
}

#[test]
fn a_returned_receiver_can_be_taken_again() {
    let mut device = Device::new("D1".to_string());
    device.take_receiver().unwrap();
    device.return_receiver();
    assert!(device.take_receiver().is_ok());
}

#[test]
fn stop_is_idempotent() {
    let mut device = Device::new("D1".to_string());
    device.record_signal();
    assert!(device.is_running());
    device.stop();
    assert!(!device.is_running());
    device.stop();
    assert!(!device.is_running());
}

#[test]
fn wakeups_follow_the_biased_priority() {
    assert!(matches!(
        next_loop_event(true, Some(batch("t")), true, true),
        Some(LoopEvent::Cancelled)
    ));
    match next_loop_event(false, Some(batch("t")), true, true) {
        Some(LoopEvent::SyncBatch(changes)) => {
            assert_eq!(changes.next_batch_token.as_deref(), Some("t"));
        }
        _ => panic!("expected the batch to win over the tickers"),
    }
    assert!(matches!(
        next_loop_event(false, None, true, true),
        Some(LoopEvent::FlushTick)
    ));
    assert!(matches!(
        next_loop_event(false, None, false, true),
        Some(LoopEvent::PresenceTick)
    ));
    assert!(next_loop_event(false, None, false, false).is_none());
}

#[test]
fn each_wakeup_maps_to_its_action() {
    assert!(matches!(
        loop_step(LoopEvent::Cancelled),
        LoopAction::ReturnReceiverAndStop
    ));
    match loop_step(LoopEvent::SyncBatch(batch("n"))) {
        LoopAction::FeedSync(changes) => {
            assert_eq!(changes.next_batch_token.as_deref(), Some("n"));
        }
        _ => panic!("expected the batch to be fed to the adapter"),
    }
    assert!(matches!(loop_step(LoopEvent::FlushTick), LoopAction::FlushOutgoing));
    assert!(matches!(
        loop_step(LoopEvent::PresenceTick),
        LoopAction::SetPresenceOnline
    ));
}

#[test]
fn fresh_bot_is_registered_fully() {
    let actions = bot_startup_actions(None, &"Bot".to_string());
    assert_eq!(actions.len(), 3);
    assert!(matches!(actions[0], StartupAction::RegisterUser));
    assert!(matches!(actions[1], StartupAction::SetDisplayname));
    assert!(matches!(actions[2], StartupAction::RegisterDevice));
}

#[test]
fn drifted_displayname_is_reset() {
    let profile = Profile { avatar_url: None, displayname: Some("Old".to_string()) };
    let actions = bot_startup_actions(Some(profile), &"New".to_string());
    assert_eq!(actions.len(), 1);
    assert!(matches!(actions[0], StartupAction::SetDisplayname));
}

#[test]
fn matching_profile_needs_nothing() {
    let same = Profile { avatar_url: None, displayname: Some("Bot".to_string()) };
    assert!(bot_startup_actions(Some(same), &"Bot".to_string()).is_empty());
    let unnamed = Profile { avatar_url: None, displayname: None };
    assert!(bot_startup_actions(Some(unnamed), &"Bot".to_string()).is_empty());
}

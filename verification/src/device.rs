//! The per-device sync-loop state and its cooperative step function.
//!
//! A device carries its id, whether its loop is running (a cancellation
//! signal is recorded) and whether the inbound queue's consumer end still
//! sits in its slot. The loop itself is a biased select: cancellation
//! wins over a pending sync batch, which wins over the flush ticker,
//! which wins over the presence ticker. Starting a loop takes the
//! consumer end; a second concurrent start finds the slot empty and
//! fails, which keeps the loop unique per device.

use vstd::prelude::*;

use crate::error::Error;
use crate::text::str_eq;
use crate::transaction::OwnedEncryptionSyncChanges;
use crate::types::Profile;

verus! {

/// How many sync-change batches a device's inbound queue can hold before
/// the producer blocks.
pub const SYNC_QUEUE_CAPACITY: usize = 50;

/// One puppet device with its loop bookkeeping.
pub struct Device {
    pub device_id: String,
    pub running: bool,
    pub receiver_held: bool,
}

/// Taking the queue consumer empties the slot exactly once: it succeeds
/// on a device whose slot is full and fails on one whose slot is empty.
pub open spec fn spec_take_receiver(d: Device) -> (Device, bool) {
    if d.receiver_held {
        (Device { device_id: d.device_id, running: d.running, receiver_held: false }, true)
    } else {
        (d, false)
    }
}

/// Only one sync loop per device: of two starts, serialized in either
/// order, exactly the first takes the consumer and the second fails.
pub proof fn lemma_single_sync_loop(d: Device)
    requires
        d.receiver_held,
    ensures
        spec_take_receiver(d).1,
        !spec_take_receiver(spec_take_receiver(d).0).1,
{
}

impl Device {
    /// A fresh device: not running, consumer end in its slot.
    pub fn new(device_id: String) -> (r: Device)
        ensures
            r.device_id@ == device_id@,
            !r.running,
            r.receiver_held,
    {
        Device { device_id, running: false, receiver_held: true }
    }

    /// The device's id.
    pub fn id(&self) -> (r: &String)
        ensures
            r@ == self.device_id@,
    {
        &self.device_id
    }

    /// Whether a cancellation signal is recorded, i.e. the loop runs.
    pub fn is_running(&self) -> (r: bool)
        ensures
            r == self.running,
    {
        self.running
    }

    /// Takes the queue consumer to start the loop and records the
    /// cancellation signal. Fails on a device whose loop already took it.
    pub fn take_receiver(&mut self) -> (r: Result<(), Error>)
        ensures
            *final(self) == spec_take_receiver(*old(self)).0,
            r is Ok <==> spec_take_receiver(*old(self)).1,
            r matches Err(e) ==> e is MultipleSync,
    {
        if self.receiver_held {
            self.receiver_held = false;
            Ok(())
        } else {
            Err(
                Error::MultipleSync(
                    String::from_str("Running multiple sync loops for device ").concat(
                        self.device_id.as_str(),
                    ).concat(". This is not allowed"),
                ),
            )
        }
    }

    /// Puts the queue consumer back so a later start can resume.
    pub fn return_receiver(&mut self)
        ensures
            final(self).device_id@ == old(self).device_id@,
            final(self).running == old(self).running,
            final(self).receiver_held,
    {
        self.receiver_held = true;
    }

    /// Records the fresh cancellation signal of a starting loop.
    pub fn record_signal(&mut self)
        ensures
            final(self).device_id@ == old(self).device_id@,
            final(self).receiver_held == old(self).receiver_held,
            final(self).running,
    {
        self.running = true;
    }

    /// Cancels the signal and clears it; a no-op when not running.
    pub fn stop(&mut self)
        ensures
            final(self).device_id@ == old(self).device_id@,
            final(self).receiver_held == old(self).receiver_held,
            !final(self).running,
    {
        self.running = false;
    }
}

/// One wakeup of the device loop.
pub enum LoopEvent {
    /// The cancellation signal was triggered.
    Cancelled,
    /// A sync-change batch arrived on the inbound queue.
    SyncBatch(OwnedEncryptionSyncChanges),
    /// The two-second flush ticker fired.
    FlushTick,
    /// The thirty-second presence ticker fired.
    PresenceTick,
}

/// What the loop does in response to one wakeup.
pub enum LoopAction {
    /// Put the queue consumer back and terminate the loop.
    ReturnReceiverAndStop,
    /// Feed the batch to the crypto adapter; an error is logged and the
    /// loop continues.
    FeedSync(OwnedEncryptionSyncChanges),
    /// Flush the adapter's outgoing requests; an error is logged and the
    /// loop continues.
    FlushOutgoing,
    /// Set this puppet's presence to online; an error is logged and the
    /// loop continues.
    SetPresenceOnline,
}

/// Picks the next wakeup with the loop's biased priority: cancellation
/// first, then a pending batch, then the flush ticker, then the presence
/// ticker.
pub fn next_loop_event(
    cancelled: bool,
    batch: Option<OwnedEncryptionSyncChanges>,
    flush_due: bool,
    presence_due: bool,
) -> (r: Option<LoopEvent>)
    ensures
        cancelled ==> (r matches Some(e) && e is Cancelled),
        !cancelled && batch is Some ==> (r matches Some(e) && e matches LoopEvent::SyncBatch(c)
            && c == batch.unwrap()),
        !cancelled && batch is None && flush_due ==> (r matches Some(e) && e is FlushTick),
        !cancelled && batch is None && !flush_due && presence_due ==> (r matches Some(e)
            && e is PresenceTick),
        !cancelled && batch is None && !flush_due && !presence_due ==> r is None,
{
    if cancelled {
        Some(LoopEvent::Cancelled)
    } else {
        match batch {
            Some(changes) => Some(LoopEvent::SyncBatch(changes)),
            None => {
                if flush_due {
                    Some(LoopEvent::FlushTick)
                } else if presence_due {
                    Some(LoopEvent::PresenceTick)
                } else {
                    None
                }
            },
        }
    }
}

/// Maps one wakeup to the loop's action.
pub fn loop_step(event: LoopEvent) -> (r: LoopAction)
    ensures
        event is Cancelled ==> r is ReturnReceiverAndStop,
        forall|c: OwnedEncryptionSyncChanges|
            event == LoopEvent::SyncBatch(c) ==> (r matches LoopAction::FeedSync(c2) && c2 == c),
        event is FlushTick ==> r is FlushOutgoing,
        event is PresenceTick ==> r is SetPresenceOnline,
{
    match event {
        LoopEvent::Cancelled => LoopAction::ReturnReceiverAndStop,
        LoopEvent::SyncBatch(changes) => LoopAction::FeedSync(changes),
        LoopEvent::FlushTick => LoopAction::FlushOutgoing,
        LoopEvent::PresenceTick => LoopAction::SetPresenceOnline,
    }
}

/// One step the supervisor owes the bot at startup.
pub enum StartupAction {
    /// Register the bot user with the application-service login type.
    RegisterUser,
    /// Set the bot's display name to the configured one.
    SetDisplayname,
    /// Register the bot's device.
    RegisterDevice,
}

/// What the supervisor does after fetching the bot's profile: a fresh bot
/// is registered fully; a known bot only has a drifted display name set.
pub fn bot_startup_actions(profile: Option<Profile>, displayname: &String) -> (r: Vec<
    StartupAction,
>)
    ensures
        profile matches Some(p) ==> {
            if p.displayname matches Some(d) && d@ != displayname@ {
                r@ =~= seq![StartupAction::SetDisplayname]
            } else {
                r@ =~= Seq::<StartupAction>::empty()
            }
        },
        profile is None ==> r@ =~= seq![
            StartupAction::RegisterUser,
            StartupAction::SetDisplayname,
            StartupAction::RegisterDevice,
        ],
{
    let mut r: Vec<StartupAction> = Vec::new();
    match profile {
        Some(p) => {
            match p.displayname {
                Some(current) => {
                    if !str_eq(&current, displayname) {
                        r.push(StartupAction::SetDisplayname);
                    }
                },
                None => {},
            }
        },
        None => {
            r.push(StartupAction::RegisterUser);
            r.push(StartupAction::SetDisplayname);
            r.push(StartupAction::RegisterDevice);
        },
    }
    r
}

} // verus!

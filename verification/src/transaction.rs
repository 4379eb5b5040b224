//! Homeserver-pushed transactions: demultiplexing and the exactly-once log.
//!
//! A transaction carries timeline events for the handler registry and
//! crypto metadata for the per-device sync loops. `extract_sync_tasks`
//! builds, for every `(user, device)` one-time-key entry, the batch of
//! sync changes owed to that device: exactly the to-device events
//! addressed to it, in their arrival order, the matching unused
//! fallback-key algorithms, and the global device-list delta. The
//! transaction log keeps the first response computed for a transaction id
//! and serves it to every later request with the same id.

use vstd::prelude::*;

use crate::server::create_error_response;
use crate::server::spec_error_body;
use crate::text::clone_strings;
use crate::text::str_eq;
use crate::types::DeviceList;

verus! {

/// An event addressed to one device of one user; the payload is carried
/// opaquely.
pub struct ToDeviceEvent {
    pub to_user_id: Option<String>,
    pub to_device_id: Option<String>,
    pub payload: String,
}

/// A timeline event as the dispatcher reads it; the payload is carried
/// opaquely.
pub struct TimelineEvent {
    pub event_type: String,
    pub room_id: String,
    pub sender: String,
    pub payload: String,
}

/// How many one-time keys of one algorithm a device still has.
pub struct KeyCount {
    pub algorithm: String,
    pub count: u64,
}

/// The one-time-key counts pushed for one device.
pub struct DeviceOtkCount {
    pub user_id: String,
    pub device_id: String,
    pub counts: Vec<KeyCount>,
}

/// The unused fallback-key algorithms pushed for one device.
pub struct DeviceFallbackKeys {
    pub user_id: String,
    pub device_id: String,
    pub algorithms: Vec<String>,
}

/// A homeserver-to-appservice batch, already parsed into plain values.
pub struct Transaction {
    pub events: Vec<TimelineEvent>,
    pub ephemeral: Vec<String>,
    pub to_device: Vec<ToDeviceEvent>,
    pub device_lists: Option<DeviceList>,
    pub device_one_time_keys_count: Vec<DeviceOtkCount>,
    pub device_unused_fallback_key_types: Vec<DeviceFallbackKeys>,
}

/// One snapshot handed to a device's sync loop.
pub struct OwnedEncryptionSyncChanges {
    pub to_device_events: Vec<ToDeviceEvent>,
    pub changed_devices: DeviceList,
    pub one_time_keys_counts: Vec<KeyCount>,
    pub unused_fallback_keys: Vec<String>,
    pub next_batch_token: Option<String>,
}

/// A batch of sync changes owed to one device.
pub struct SyncTask {
    pub user_id: String,
    pub device_id: String,
    pub changes: OwnedEncryptionSyncChanges,
}

/// Whether a to-device event is addressed to this user and device.
pub open spec fn addressed_to(e: ToDeviceEvent, u: Seq<char>, d: Seq<char>) -> bool {
    &&& e.to_user_id matches Some(x) && x@ == u
    &&& e.to_device_id matches Some(y) && y@ == d
}

/// The device-list delta of a transaction, empty when none was pushed.
pub open spec fn spec_changed_devices(t: &Transaction) -> (Seq<String>, Seq<String>) {
    match t.device_lists {
        Some(dl) => (dl.changed@, dl.left@),
        None => (Seq::<String>::empty(), Seq::<String>::empty()),
    }
}

/// The fallback-key algorithms of the first entry for this user and
/// device, empty when there is none.
pub open spec fn spec_fallback_for(
    s: Seq<DeviceFallbackKeys>,
    u: Seq<char>,
    d: Seq<char>,
) -> Seq<String>
    decreases s.len(),
{
    if s.len() == 0 {
        Seq::<String>::empty()
    } else if s[0].user_id@ == u && s[0].device_id@ == d {
        s[0].algorithms@
    } else {
        spec_fallback_for(s.drop_first(), u, d)
    }
}

/// A copy of a to-device event.
fn clone_to_device(e: &ToDeviceEvent) -> (r: ToDeviceEvent)
    ensures
        r == *e,
{
    let r = ToDeviceEvent {
        to_user_id: e.to_user_id.clone(),
        to_device_id: e.to_device_id.clone(),
        payload: e.payload.clone(),
    };
    proof {
        if e.to_user_id is Some {
            assert(cloned::<String>(e.to_user_id.unwrap(), r.to_user_id.unwrap()));
            assert(r.to_user_id == e.to_user_id);
        }
        if e.to_device_id is Some {
            assert(cloned::<String>(e.to_device_id.unwrap(), r.to_device_id.unwrap()));
            assert(r.to_device_id == e.to_device_id);
        }
    }
    r
}

/// A copy of a key-count list.
fn clone_key_counts(v: &Vec<KeyCount>) -> (r: Vec<KeyCount>)
    ensures
        r@ == v@,
{
    let mut r: Vec<KeyCount> = Vec::new();
    let mut i: usize = 0;
    while i < v.len()
        invariant
            0 <= i <= v@.len(),
            r@ == v@.take(i as int),
        decreases v@.len() - i,
    {
        r.push(KeyCount { algorithm: v[i].algorithm.clone(), count: v[i].count });
        proof {
            assert(r@ =~= v@.take(i as int + 1));
        }
        i += 1;
    }
    proof {
        assert(v@.take(v@.len() as int) == v@);
    }
    r
}

/// The to-device events addressed to this user and device, in order.
fn select_to_device(events: &Vec<ToDeviceEvent>, user_id: &String, device_id: &String) -> (r: Vec<
    ToDeviceEvent,
>)
    ensures
        r@ == events@.filter(|e: ToDeviceEvent| addressed_to(e, user_id@, device_id@)),
{
    let ghost pred = |e: ToDeviceEvent| addressed_to(e, user_id@, device_id@);
    let mut r: Vec<ToDeviceEvent> = Vec::new();
    let mut i: usize = 0;
    proof {
        reveal(Seq::filter);
        assert(events@.take(0).filter(pred) =~= Seq::<ToDeviceEvent>::empty());
    }
    while i < events.len()
        invariant
            0 <= i <= events@.len(),
            pred == (|e: ToDeviceEvent| addressed_to(e, user_id@, device_id@)),
            r@ == events@.take(i as int).filter(pred),
        decreases events@.len() - i,
    {
        let e = &events[i];
        let matches_user = match &e.to_user_id {
            Some(u) => str_eq(u, user_id),
            None => false,
        };
        let matches_device = match &e.to_device_id {
            Some(d) => str_eq(d, device_id),
            None => false,
        };
        if matches_user && matches_device {
            let copy = clone_to_device(e);
            r.push(copy);
        }
        proof {
            reveal(Seq::filter);
            assert(events@.take(i as int + 1).drop_last() == events@.take(i as int));
            assert(events@.take(i as int + 1).last() == events@[i as int]);
        }
        i += 1;
    }
    proof {
        assert(events@.take(events@.len() as int) == events@);
    }
    r
}

/// The fallback-key algorithms for this user and device, empty if none
/// were pushed.
fn select_fallback(entries: &Vec<DeviceFallbackKeys>, user_id: &String, device_id: &String) -> (r:
    Vec<String>)
    ensures
        r@ == spec_fallback_for(entries@, user_id@, device_id@),
{
    let mut i: usize = 0;
    proof {
        assert(entries@.skip(0) =~= entries@);
    }
    while i < entries.len()
        invariant
            0 <= i <= entries@.len(),
            spec_fallback_for(entries@, user_id@, device_id@) == spec_fallback_for(
                entries@.skip(i as int),
                user_id@,
                device_id@,
            ),
        decreases entries@.len() - i,
    {
        let entry = &entries[i];
        if str_eq(&entry.user_id, user_id) && str_eq(&entry.device_id, device_id) {
            proof {
                assert(entries@.skip(i as int)[0] == entries@[i as int]);
            }
            return clone_strings(&entry.algorithms);
        }
        proof {
            assert(entries@.skip(i as int)[0] == entries@[i as int]);
            assert(entries@.skip(i as int).drop_first() =~= entries@.skip(i as int + 1));
        }
        i += 1;
    }
    proof {
        assert(entries@.skip(entries@.len() as int).len() == 0);
    }
    Vec::new()
}

/// Builds one sync-change batch per one-time-key entry: the to-device
/// events addressed to that device in arrival order, the matching
/// fallback-key algorithms, the global device-list delta, and the pushed
/// key counts; no next-batch token is ever set.
pub fn extract_sync_tasks(txn: &Transaction) -> (r: Vec<SyncTask>)
    ensures
        r@.len() == txn.device_one_time_keys_count@.len(),
        forall|k: int|
            0 <= k < r@.len() ==> {
                let entry = txn.device_one_time_keys_count@[k];
                let task = #[trigger] r@[k];
                &&& task.user_id@ == entry.user_id@
                &&& task.device_id@ == entry.device_id@
                &&& task.changes.one_time_keys_counts@ == entry.counts@
                &&& task.changes.to_device_events@ == txn.to_device@.filter(
                    |e: ToDeviceEvent| addressed_to(e, entry.user_id@, entry.device_id@),
                )
                &&& task.changes.unused_fallback_keys@ == spec_fallback_for(
                    txn.device_unused_fallback_key_types@,
                    entry.user_id@,
                    entry.device_id@,
                )
                &&& task.changes.changed_devices.changed@ == spec_changed_devices(txn).0
                &&& task.changes.changed_devices.left@ == spec_changed_devices(txn).1
                &&& task.changes.next_batch_token is None
            },
{
    let mut r: Vec<SyncTask> = Vec::new();
    let mut k: usize = 0;
    while k < txn.device_one_time_keys_count.len()
        invariant
            0 <= k <= txn.device_one_time_keys_count@.len(),
            r@.len() == k,
            forall|j: int|
                0 <= j < k ==> {
                    let entry = txn.device_one_time_keys_count@[j];
                    let task = #[trigger] r@[j];
                    &&& task.user_id@ == entry.user_id@
                    &&& task.device_id@ == entry.device_id@
                    &&& task.changes.one_time_keys_counts@ == entry.counts@
                    &&& task.changes.to_device_events@ == txn.to_device@.filter(
                        |e: ToDeviceEvent| addressed_to(e, entry.user_id@, entry.device_id@),
                    )
                    &&& task.changes.unused_fallback_keys@ == spec_fallback_for(
                        txn.device_unused_fallback_key_types@,
                        entry.user_id@,
                        entry.device_id@,
                    )
                    &&& task.changes.changed_devices.changed@ == spec_changed_devices(txn).0
                    &&& task.changes.changed_devices.left@ == spec_changed_devices(txn).1
                    &&& task.changes.next_batch_token is None
                },
        decreases txn.device_one_time_keys_count@.len() - k,
    {
        let entry = &txn.device_one_time_keys_count[k];
        let picked_events = select_to_device(&txn.to_device, &entry.user_id, &entry.device_id);
        let picked_fallback = select_fallback(
            &txn.device_unused_fallback_key_types,
            &entry.user_id,
            &entry.device_id,
        );
        let changed_devices = match &txn.device_lists {
            Some(dl) => DeviceList {
                changed: clone_strings(&dl.changed),
                left: clone_strings(&dl.left),
            },
            None => DeviceList { changed: Vec::new(), left: Vec::new() },
        };
        let task = SyncTask {
            user_id: entry.user_id.clone(),
            device_id: entry.device_id.clone(),
            changes: OwnedEncryptionSyncChanges {
                to_device_events: picked_events,
                changed_devices,
                one_time_keys_counts: clone_key_counts(&entry.counts),
                unused_fallback_keys: picked_fallback,
                next_batch_token: None,
            },
        };
        r.push(task);
        k += 1;
    }
    r
}

/// A response remembered for a transaction id.
pub struct CachedResponse {
    pub status: u16,
    pub body: String,
}

/// One remembered transaction.
pub struct LogEntry {
    pub txn_id: String,
    pub response: CachedResponse,
}

/// The per-transaction-id response log.
pub struct TransactionLog {
    pub entries: Vec<LogEntry>,
}

/// Recording keeps an existing response and only fills a free slot.
pub open spec fn spec_record(
    m: Map<Seq<char>, CachedResponse>,
    t: Seq<char>,
    resp: CachedResponse,
) -> Map<Seq<char>, CachedResponse> {
    if m.dom().contains(t) {
        m
    } else {
        m.insert(t, resp)
    }
}

/// Exactly once per transaction id: the first recorded response is kept,
/// recording any later response for the same id changes nothing, and the
/// log always answers that id with the first response.
pub proof fn lemma_exactly_once(
    m: Map<Seq<char>, CachedResponse>,
    t: Seq<char>,
    first: CachedResponse,
    later: CachedResponse,
)
    requires
        !m.dom().contains(t),
    ensures
        spec_record(m, t, first).dom().contains(t),
        spec_record(m, t, first)[t] == first,
        spec_record(spec_record(m, t, first), t, later) == spec_record(m, t, first),
{
}

impl View for TransactionLog {
    type V = Map<Seq<char>, CachedResponse>;

    open spec fn view(&self) -> Map<Seq<char>, CachedResponse> {
        Map::new(
            |t: Seq<char>|
                exists|i: int| 0 <= i < self.entries@.len() && self.entries@[i].txn_id@ == t,
            |t: Seq<char>|
                self.entries@[choose|i: int|
                    0 <= i < self.entries@.len() && self.entries@[i].txn_id@ == t].response,
        )
    }
}

impl TransactionLog {
    /// Transaction ids are unique.
    pub open spec fn wf(&self) -> bool {
        forall|i: int, j: int|
            0 <= i < j < self.entries@.len() ==> self.entries@[i].txn_id@
                != self.entries@[j].txn_id@
    }

    /// An empty log.
    pub fn new() -> (r: TransactionLog)
        ensures
            r.wf(),
            r@ == Map::<Seq<char>, CachedResponse>::empty(),
    {
        let r = TransactionLog { entries: Vec::new() };
        proof {
            assert(r@ =~= Map::<Seq<char>, CachedResponse>::empty());
        }
        r
    }

    /// The index of a transaction id, if it is remembered.
    fn find(&self, txn_id: &String) -> (r: Option<usize>)
        ensures
            match r {
                Some(i) => i < self.entries@.len() && self.entries@[i as int].txn_id@ == txn_id@,
                None => forall|i: int|
                    0 <= i < self.entries@.len() ==> self.entries@[i].txn_id@ != txn_id@,
            },
    {
        let mut i: usize = 0;
        while i < self.entries.len()
            invariant
                0 <= i <= self.entries@.len(),
                forall|k: int| 0 <= k < i ==> self.entries@[k].txn_id@ != txn_id@,
            decreases self.entries@.len() - i,
        {
            if str_eq(&self.entries[i].txn_id, txn_id) {
                return Some(i);
            }
            i += 1;
        }
        None
    }

    /// Each stored entry is reachable in the view under its own id.
    proof fn lemma_view(&self)
        requires
            self.wf(),
        ensures
            forall|i: int|
                0 <= i < self.entries@.len() ==> #[trigger] self@.dom().contains(
                    self.entries@[i].txn_id@,
                ) && self@[self.entries@[i].txn_id@] == self.entries@[i].response,
    {
        assert forall|i: int| 0 <= i < self.entries@.len() implies #[trigger] self@.dom().contains(
            self.entries@[i].txn_id@,
        ) && self@[self.entries@[i].txn_id@] == self.entries@[i].response by {
            let t = self.entries@[i].txn_id@;
            assert(self@.dom().contains(t));
            let j = choose|j: int| 0 <= j < self.entries@.len() && self.entries@[j].txn_id@ == t;
            if i < j {
                assert(self.entries@[i].txn_id@ != self.entries@[j].txn_id@);
            } else if j < i {
                assert(self.entries@[j].txn_id@ != self.entries@[i].txn_id@);
            }
        }
    }

    /// The remembered response for this transaction id, if any.
    pub fn lookup(&self, txn_id: &String) -> (r: Option<&CachedResponse>)
        requires
            self.wf(),
        ensures
            match r {
                Some(resp) => self@.dom().contains(txn_id@) && *resp == self@[txn_id@],
                None => !self@.dom().contains(txn_id@),
            },
    {
        proof {
            self.lemma_view();
        }
        match self.find(txn_id) {
            Some(i) => Some(&self.entries[i].response),
            None => None,
        }
    }

    /// Remembers `response` for `txn_id` unless a response is already
    /// remembered, and returns the one that is now authoritative: the
    /// remembered response wins over the offered one.
    pub fn record(&mut self, txn_id: String, response: CachedResponse) -> (r: (u16, String))
        requires
            old(self).wf(),
        ensures
            final(self).wf(),
            final(self)@ == spec_record(old(self)@, txn_id@, response),
            final(self)@.dom().contains(txn_id@),
            r.0 == final(self)@[txn_id@].status,
            r.1@ == final(self)@[txn_id@].body@,
    {
        proof {
            self.lemma_view();
        }
        match self.find(&txn_id) {
            Some(i) => {
                proof {
                    assert(final(self)@ =~= spec_record(old(self)@, txn_id@, response));
                }
                let status = self.entries[i].response.status;
                let body = self.entries[i].response.body.clone();
                (status, body)
            },
            None => {
                let status = response.status;
                let body = response.body.clone();
                let ghost pre = self@;
                self.entries.push(LogEntry { txn_id, response });
                proof {
                    let n = self.entries@.len() - 1;
                    let t = self.entries@[n].txn_id@;
                    assert forall|k: Seq<char>| #[trigger] self@.dom().contains(k) implies pre.insert(
                        t,
                        self.entries@[n].response,
                    ).dom().contains(k) by {
                        let j = choose|j: int|
                            0 <= j < self.entries@.len() && self.entries@[j].txn_id@ == k;
                        if j < n {
                            assert(old(self).entries@[j].txn_id@ == k);
                        }
                    }
                    assert forall|k: Seq<char>|
                        #[trigger] pre.insert(t, self.entries@[n].response).dom().contains(
                            k,
                        ) implies self@.dom().contains(k) && self@[k] == pre.insert(
                        t,
                        self.entries@[n].response,
                    )[k] by {
                        self.lemma_view();
                        if k == t {
                            assert(self@[t] == self.entries@[n].response);
                        } else {
                            let j = choose|j: int|
                                0 <= j < old(self).entries@.len() && old(self).entries@[j].txn_id@
                                    == k;
                            assert(self.entries@[j].txn_id@ == k);
                            assert(self@[k] == self.entries@[j].response);
                        }
                    }
                    assert(self@ =~= pre.insert(t, self.entries@[n].response));
                }
                (status, body)
            },
        }
    }
}

/// The response of one transaction: success is the empty object, any
/// failure while extracting or dispatching maps to the canonical 500.
pub fn transaction_outcome(appservice_id: &String, failed: bool) -> (r: (u16, String))
    ensures
        failed ==> r.0 == 500 && r.1@ == spec_error_body(appservice_id@, 500),
        !failed ==> r.0 == 200 && r.1@ == "{}"@,
{
    if failed {
        create_error_response(appservice_id, 500)
    } else {
        (200, String::from_str("{}"))
    }
}

} // verus!

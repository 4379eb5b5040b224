//! The typed event-handler registry and the built-in handler decisions.
//!
//! Handlers are registered under a Matrix event-type string and stand for
//! user callbacks held outside the library; the registry keeps their ids
//! per type, in registration order, and dispatch hands back exactly the
//! ids registered under the incoming event's type. The built-in handlers'
//! decisions live here too: what a membership change does to the room
//! cache, and how the encrypted-event fan-out picks its outcome.

use vstd::prelude::*;

use crate::error::Error;
use crate::text::str_eq;
use crate::transaction::TimelineEvent;
use crate::user::User;

verus! {

broadcast use vstd::string::group_string_axioms;

/// What an event handler is invoked with, besides the event itself.
pub struct EventContext {
    pub room_id: String,
    pub sender: String,
}

/// A typed handler: the event type it listens on (absent for event
/// shapes without a static type) and the id of the callback it wraps.
pub struct TypedEventHandler {
    pub event_type: Option<String>,
    pub handler_id: u64,
}

impl TypedEventHandler {
    /// The event type this handler listens on; registering a handler for
    /// an event shape without a static type is an error.
    pub fn get_type(&self) -> (r: Result<String, Error>)
        ensures
            self.event_type matches Some(t) ==> (r matches Ok(s) && s@ == t@),
            self.event_type is None ==> (r matches Err(e) && e is EventType),
    {
        match &self.event_type {
            Some(t) => Ok(t.clone()),
            None => Err(
                Error::EventType(
                    String::from_str("Error adding event handler, invalid event type"),
                ),
            ),
        }
    }
}

/// The handlers registered under one event type, in registration order.
pub struct HandlerEntry {
    pub event_type: String,
    pub handler_ids: Vec<u64>,
}

/// The registry of event handlers, keyed by event type.
pub struct EventHandlerStore {
    pub entries: Vec<HandlerEntry>,
}

impl View for EventHandlerStore {
    type V = Map<Seq<char>, Seq<u64>>;

    open spec fn view(&self) -> Map<Seq<char>, Seq<u64>> {
        Map::new(
            |t: Seq<char>|
                exists|i: int| 0 <= i < self.entries@.len() && self.entries@[i].event_type@ == t,
            |t: Seq<char>|
                self.entries@[choose|i: int|
                    0 <= i < self.entries@.len() && self.entries@[i].event_type@
                        == t].handler_ids@,
        )
    }
}

impl EventHandlerStore {
    /// Event types are unique.
    pub open spec fn wf(&self) -> bool {
        forall|i: int, j: int|
            0 <= i < j < self.entries@.len() ==> self.entries@[i].event_type@
                != self.entries@[j].event_type@
    }

    /// An empty registry.
    pub fn new() -> (r: EventHandlerStore)
        ensures
            r.wf(),
            r@ == Map::<Seq<char>, Seq<u64>>::empty(),
    {
        let r = EventHandlerStore { entries: Vec::new() };
        proof {
            assert(r@ =~= Map::<Seq<char>, Seq<u64>>::empty());
        }
        r
    }

    /// The index of an event type, if registered.
    fn find(&self, event_type: &String) -> (r: Option<usize>)
        ensures
            match r {
                Some(i) => i < self.entries@.len() && self.entries@[i as int].event_type@
                    == event_type@,
                None => forall|i: int|
                    0 <= i < self.entries@.len() ==> self.entries@[i].event_type@ != event_type@,
            },
    {
        let mut i: usize = 0;
        while i < self.entries.len()
            invariant
                0 <= i <= self.entries@.len(),
                forall|k: int| 0 <= k < i ==> self.entries@[k].event_type@ != event_type@,
            decreases self.entries@.len() - i,
        {
            if str_eq(&self.entries[i].event_type, event_type) {
                return Some(i);
            }
            i += 1;
        }
        None
    }

    /// Each stored entry is reachable in the view under its own type.
    proof fn lemma_view(&self)
        requires
            self.wf(),
        ensures
            forall|i: int|
                0 <= i < self.entries@.len() ==> #[trigger] self@.dom().contains(
                    self.entries@[i].event_type@,
                ) && self@[self.entries@[i].event_type@] == self.entries@[i].handler_ids@,
    {
        assert forall|i: int|
            0 <= i < self.entries@.len() implies #[trigger] self@.dom().contains(
            self.entries@[i].event_type@,
        ) && self@[self.entries@[i].event_type@] == self.entries@[i].handler_ids@ by {
            let t = self.entries@[i].event_type@;
            assert(self@.dom().contains(t));
            let j = choose|j: int|
                0 <= j < self.entries@.len() && self.entries@[j].event_type@ == t;
            if i < j {
                assert(self.entries@[i].event_type@ != self.entries@[j].event_type@);
            } else if j < i {
                assert(self.entries@[j].event_type@ != self.entries@[i].event_type@);
            }
        }
    }

    /// Registers a handler under its event type, after the handlers
    /// already listening on it; a handler without a type is refused.
    pub fn insert(&mut self, handler: TypedEventHandler) -> (r: Result<(), Error>)
        requires
            old(self).wf(),
        ensures
            final(self).wf(),
            handler.event_type matches Some(t) ==> {
                &&& r is Ok
                &&& final(self)@ == old(self)@.insert(
                    t@,
                    if old(self)@.dom().contains(t@) {
                        old(self)@[t@].push(handler.handler_id)
                    } else {
                        seq![handler.handler_id]
                    },
                )
            },
            handler.event_type is None ==> final(self)@ == old(self)@ && (r matches Err(e)
                && e is EventType),
    {
        proof {
            self.lemma_view();
        }
        let event_type = match handler.get_type() {
            Ok(t) => t,
            Err(e) => {
                proof {
                    assert(final(self)@ =~= old(self)@);
                }
                return Err(e);
            },
        };
        let ghost t = event_type@;
        let found = self.find(&event_type);
        match found {
            Some(i) => {
                let mut entry = self.entries.remove(i);
                entry.handler_ids.push(handler.handler_id);
                self.entries.push(entry);
                proof {
                    let pre = old(self).entries@;
                    let post = self.entries@;
                    assert(post.take(post.len() - 1) =~= pre.remove(i as int));
                    assert forall|p: int, q: int|
                        0 <= p < q < post.len() implies post[p].event_type@
                        != post[q].event_type@ by {
                        if q < post.len() - 1 {
                            assert(pre.remove(i as int)[p] == post[p]);
                            assert(pre.remove(i as int)[q] == post[q]);
                        }
                    }
                    assert forall|k: Seq<char>| #[trigger] self@.dom().contains(k) implies old(
                        self,
                    )@.insert(t, old(self)@[t].push(handler.handler_id)).dom().contains(k) by {
                        let j = choose|j: int|
                            0 <= j < post.len() && post[j].event_type@ == k;
                        if j < post.len() - 1 {
                            if j < i {
                                assert(pre[j].event_type@ == k);
                            } else {
                                assert(pre[j + 1].event_type@ == k);
                            }
                        }
                    }
                    self.lemma_view();
                    assert forall|k: Seq<char>|
                        #[trigger] old(self)@.insert(
                            t,
                            old(self)@[t].push(handler.handler_id),
                        ).dom().contains(k) implies self@.dom().contains(k) && self@[k] == old(
                        self,
                    )@.insert(t, old(self)@[t].push(handler.handler_id))[k] by {
                        if k == t {
                            assert(self.entries@[self.entries@.len() - 1].event_type@ == t);
                            assert(self@.dom().contains(t));
                            assert(self.entries@.last().event_type@ == t);
                            assert(self@[t] == self.entries@.last().handler_ids@);
                        } else {
                            let j = choose|j: int|
                                0 <= j < pre.len() && pre[j].event_type@ == k;
                            let jj: int = if j < i {
                                j
                            } else {
                                j - 1
                            };
                            assert(pre.remove(i as int)[jj] == pre[j]);
                            assert(post[jj] == pre[j]);
                            assert(self@.dom().contains(k));
                            assert(self@[k] == post[jj].handler_ids@);
                            old(self).lemma_view();
                        }
                    }
                    assert(self@ =~= old(self)@.insert(t, old(self)@[t].push(handler.handler_id)));
                }
                Ok(())
            },
            None => {
                let mut ids: Vec<u64> = Vec::new();
                ids.push(handler.handler_id);
                self.entries.push(HandlerEntry { event_type, handler_ids: ids });
                proof {
                    let pre = old(self).entries@;
                    let post = self.entries@;
                    assert(post.take(post.len() - 1) =~= pre);
                    assert forall|k: Seq<char>| #[trigger] self@.dom().contains(k) implies old(
                        self,
                    )@.insert(t, seq![handler.handler_id]).dom().contains(k) by {
                        let j = choose|j: int|
                            0 <= j < post.len() && post[j].event_type@ == k;
                        if j < post.len() - 1 {
                            assert(pre[j].event_type@ == k);
                        }
                    }
                    self.lemma_view();
                    old(self).lemma_view();
                    assert forall|k: Seq<char>|
                        #[trigger] old(self)@.insert(t, seq![handler.handler_id]).dom().contains(
                            k,
                        ) implies self@.dom().contains(k) && self@[k] == old(self)@.insert(
                        t,
                        seq![handler.handler_id],
                    )[k] by {
                        if k == t {
                            assert(self.entries@.last().event_type@ == t);
                            assert(self@[t] == self.entries@.last().handler_ids@);
                            assert(self.entries@.last().handler_ids@ =~= seq![handler.handler_id]);
                        } else {
                            let j = choose|j: int|
                                0 <= j < pre.len() && pre[j].event_type@ == k;
                            assert(post[j] == pre[j]);
                            assert(self@.dom().contains(k));
                            assert(self@[k] == post[j].handler_ids@);
                        }
                    }
                    assert(self@ =~= old(self)@.insert(t, seq![handler.handler_id]));
                }
                Ok(())
            },
        }
    }

    /// The handler ids registered under this event type, in registration
    /// order; absent types dispatch to nobody.
    pub fn get(&self, event_type: &String) -> (r: Option<Vec<u64>>)
        requires
            self.wf(),
        ensures
            match r {
                Some(ids) => self@.dom().contains(event_type@) && ids@ == self@[event_type@],
                None => !self@.dom().contains(event_type@),
            },
    {
        proof {
            self.lemma_view();
        }
        match self.find(event_type) {
            Some(i) => {
                let mut ids: Vec<u64> = Vec::new();
                let entry = &self.entries[i];
                let mut k: usize = 0;
                while k < entry.handler_ids.len()
                    invariant
                        0 <= k <= entry.handler_ids@.len(),
                        ids@ == entry.handler_ids@.take(k as int),
                    decreases entry.handler_ids@.len() - k,
                {
                    ids.push(entry.handler_ids[k]);
                    proof {
                        assert(ids@ =~= entry.handler_ids@.take(k as int + 1));
                    }
                    k += 1;
                }
                proof {
                    assert(entry.handler_ids@.take(entry.handler_ids@.len() as int)
                        == entry.handler_ids@);
                }
                Some(ids)
            },
            None => None,
        }
    }
}

/// What a membership change means for the room cache.
pub enum MemberAction {
    /// The member joined: add it to the room.
    Add,
    /// The member left: remove it from the room.
    Remove,
    /// Any other membership state changes nothing.
    Ignore,
}

/// The room-cache action for a stripped membership event's state.
pub fn membership_action(membership: &String) -> (r: MemberAction)
    ensures
        membership@ == "join"@ ==> r is Add,
        membership@ == "leave"@ ==> r is Remove,
        membership@ != "join"@ && membership@ != "leave"@ ==> r is Ignore,
{
    proof {
        reveal_strlit("join");
        reveal_strlit("leave");
        assert("join"@.len() == 4 && "leave"@.len() == 5);
    }
    let join = String::from_str("join");
    let leave = String::from_str("leave");
    if str_eq(membership, &join) {
        MemberAction::Add
    } else if str_eq(membership, &leave) {
        MemberAction::Remove
    } else {
        MemberAction::Ignore
    }
}

/// The appservice-owned room members that can attempt a decryption: the
/// cached users, in cache order, that are joined and hold a device.
pub fn decryption_candidates(users: &Vec<User>, members: &Vec<String>) -> (r: Vec<String>)
    ensures
        r@ == users@.filter(
            |u: User| crate::text::view_set(members@).contains(u.mxid@) && u.device is Some,
        ).map_values(|u: User| u.mxid),
{
    let ghost pred = |u: User|
        crate::text::view_set(members@).contains(u.mxid@) && u.device is Some;
    let ghost f = |u: User| u.mxid;
    let mut r: Vec<String> = Vec::new();
    let mut i: usize = 0;
    proof {
        reveal(Seq::filter);
        assert(users@.take(0).filter(pred) =~= Seq::<User>::empty());
        assert(r@ =~= users@.take(0).filter(pred).map_values(f));
    }
    while i < users.len()
        invariant
            0 <= i <= users@.len(),
            pred == (|u: User|
                crate::text::view_set(members@).contains(u.mxid@) && u.device is Some),
            f == (|u: User| u.mxid),
            r@ == users@.take(i as int).filter(pred).map_values(f),
        decreases users@.len() - i,
    {
        let joined = crate::text::holds_string(members, &users[i].mxid);
        if joined && users[i].device.is_some() {
            let id = users[i].mxid.clone();
            r.push(id);
        }
        proof {
            reveal(Seq::filter);
            assert(users@.take(i as int + 1).drop_last() == users@.take(i as int));
            assert(users@.take(i as int + 1).last() == users@[i as int]);
            let fpre = users@.take(i as int).filter(pred);
            let fpost = users@.take(i as int + 1).filter(pred);
            if pred(users@[i as int]) {
                assert(fpost == fpre.push(users@[i as int]));
                assert(fpost.map_values(f) =~= fpre.map_values(f).push(users@[i as int].mxid));
            } else {
                assert(fpost == fpre);
            }
        }
        i += 1;
    }
    proof {
        assert(users@.take(users@.len() as int) == users@);
    }
    r
}

/// The first successful decryption attempt, in candidate order.
pub open spec fn spec_first_success(s: Seq<Option<TimelineEvent>>) -> Option<TimelineEvent>
    decreases s.len(),
{
    if s.len() == 0 {
        None
    } else if s[0] is Some {
        s[0]
    } else {
        spec_first_success(s.drop_first())
    }
}

/// Below the first success everything failed.
proof fn lemma_first_success_at(s: Seq<Option<TimelineEvent>>, i: int)
    requires
        0 <= i < s.len(),
        forall|k: int| 0 <= k < i ==> s[k] is None,
        s[i] is Some,
    ensures
        spec_first_success(s) == s[i],
    decreases i,
{
    if i > 0 {
        assert forall|k: int| 0 <= k < i - 1 implies s.drop_first()[k] is None by {
            assert(s.drop_first()[k] == s[k + 1]);
        }
        assert(s.drop_first()[i - 1] == s[i]);
        lemma_first_success_at(s.drop_first(), i - 1);
    }
}

/// With no successful attempt there is no first success.
proof fn lemma_first_success_none(s: Seq<Option<TimelineEvent>>)
    requires
        forall|k: int| 0 <= k < s.len() ==> s[k] is None,
    ensures
        spec_first_success(s) is None,
    decreases s.len(),
{
    if s.len() > 0 {
        assert forall|k: int| 0 <= k < s.len() - 1 implies s.drop_first()[k] is None by {
            assert(s.drop_first()[k] == s[k + 1]);
        }
        lemma_first_success_none(s.drop_first());
    }
}

/// The outcome of the encrypted-event fan-out: the first successful
/// decryption is re-dispatched; when every candidate fails, the event
/// cannot be decrypted and the handler errs.
pub fn decrypt_outcome(attempts: Vec<Option<TimelineEvent>>, room_id: &String) -> (r: Result<
    TimelineEvent,
    Error,
>)
    ensures
        spec_first_success(attempts@) matches Some(e) ==> (r matches Ok(e2) && e2 == e),
        spec_first_success(attempts@) is None ==> (r matches Err(err) && err is DecryptEvent),
{
    let mut attempts = attempts;
    let mut i: usize = 0;
    let mut hit: bool = false;
    while i < attempts.len() && !hit
        invariant
            0 <= i <= attempts@.len(),
            forall|k: int| 0 <= k < i ==> attempts@[k] is None,
            hit ==> i < attempts@.len() && attempts@[i as int] is Some,
        decreases attempts@.len() - i, (if hit { 0int } else { 1int }),
    {
        if attempts[i].is_some() {
            hit = true;
        } else {
            i += 1;
        }
    }
    if hit {
        proof {
            lemma_first_success_at(attempts@, i as int);
        }
        let found = attempts.remove(i);
        match found {
            Some(event) => Ok(event),
            None => {
                proof {
                    assert(false);
                }
                Err(Error::DecryptEvent(String::new()))
            },
        }
    } else {
        proof {
            lemma_first_success_none(attempts@);
        }
        Err(
            Error::DecryptEvent(
                String::from_str("Unable to decrypt event in room ").concat(room_id.as_str()),
            ),
        )
    }
}

} // verus!

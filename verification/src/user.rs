//! Puppet users and the in-memory user cache.
//!
//! A user carries its Matrix id and at most one device in its slot;
//! creating a device replaces the slot. A device id defaults to the
//! name-based UUID of the user id, so the same user always gets the same
//! device id and one crypto store. The cache maps user ids to users.

use vstd::prelude::*;

use crate::device::Device;
use crate::error::Error;
use crate::text::distinct_views;
use crate::text::str_eq;
use crate::text::view_set;

verus! {

/// The name-based UUID, in its 36-character hyphenated form, that the
/// DNS namespace assigns to a name.
pub uninterp spec fn uuid_v5_dns_of(name: Seq<char>) -> Seq<char>;

/// Relies on uuid's Uuid::new_v5 with the DNS namespace: the result is a
/// function of the name alone, and its hyphenated form is 36 characters.
#[verifier::external_body]
fn uuid_v5_device_id(user_id: &String) -> (r: String)
    ensures
        r@ == uuid_v5_dns_of(user_id@),
        r@.len() == 36,
{
    uuid::Uuid::new_v5(&uuid::Uuid::NAMESPACE_DNS, user_id.as_bytes()).to_string()
}

/// The device id a user gets when none is supplied.
pub open spec fn spec_default_device_id(device_id: Option<&String>, mxid: Seq<char>) -> Seq<char> {
    match device_id {
        Some(d) => d@,
        None => uuid_v5_dns_of(mxid),
    }
}

/// One puppet user with its device slot.
pub struct User {
    pub mxid: String,
    pub device: Option<Device>,
}

impl User {
    /// A fresh user with an empty device slot.
    pub fn new(mxid: String) -> (r: User)
        ensures
            r.mxid@ == mxid@,
            r.device is None,
    {
        User { mxid, device: None }
    }

    /// The user's Matrix id.
    pub fn id(&self) -> (r: &String)
        ensures
            r@ == self.mxid@,
    {
        &self.mxid
    }

    /// The device in the slot, if any.
    pub fn get_device(&self) -> (r: Option<&Device>)
        ensures
            match r {
                Some(d) => self.device matches Some(d2) && d2 == *d,
                None => self.device is None,
            },
    {
        match &self.device {
            Some(d) => Some(d),
            None => None,
        }
    }

    /// Puts a fresh device into the slot, replacing any previous one; the
    /// id defaults to the user's name-based UUID. Returns the device id.
    pub fn create_device(&mut self, device_id: Option<&String>) -> (r: String)
        ensures
            final(self).mxid@ == old(self).mxid@,
            r@ == spec_default_device_id(device_id, old(self).mxid@),
            final(self).device matches Some(d) && d.device_id@ == r@ && !d.running
                && d.receiver_held,
    {
        let id = match device_id {
            Some(d) => d.clone(),
            None => uuid_v5_device_id(&self.mxid),
        };
        let id_copy = id.clone();
        self.device = Some(Device::new(id));
        id_copy
    }
}

/// The map that a vector of users denotes: each Matrix id to its user.
pub open spec fn users_map(users: Seq<User>) -> Map<Seq<char>, User> {
    Map::new(
        |id: Seq<char>| exists|i: int| 0 <= i < users.len() && users[i].mxid@ == id,
        |id: Seq<char>| users[choose|i: int| 0 <= i < users.len() && users[i].mxid@ == id],
    )
}

/// User ids are unique.
pub open spec fn users_wf(users: Seq<User>) -> bool {
    forall|i: int, j: int| 0 <= i < j < users.len() ==> users[i].mxid@ != users[j].mxid@
}

/// Each stored user is reachable in the map under its own id, and every
/// map entry comes from a stored user.
pub proof fn lemma_users_map(users: Seq<User>)
    requires
        users_wf(users),
    ensures
        forall|i: int|
            0 <= i < users.len() ==> #[trigger] users_map(users).dom().contains(users[i].mxid@)
                && users_map(users)[users[i].mxid@] == users[i],
        forall|id: Seq<char>|
            #[trigger] users_map(users).dom().contains(id) ==> exists|i: int|
                0 <= i < users.len() && users[i].mxid@ == id && users[i] == users_map(users)[id],
{
    assert forall|i: int| 0 <= i < users.len() implies #[trigger] users_map(users).dom().contains(
        users[i].mxid@,
    ) && users_map(users)[users[i].mxid@] == users[i] by {
        let id = users[i].mxid@;
        assert(users_map(users).dom().contains(id));
        let j = choose|j: int| 0 <= j < users.len() && users[j].mxid@ == id;
        if i < j {
            assert(users[i].mxid@ != users[j].mxid@);
        } else if j < i {
            assert(users[j].mxid@ != users[i].mxid@);
        }
    }
}

/// After replacing the user at `i` by one with the same id (moved to the
/// end), the map is the old map with that id remapped.
proof fn lemma_users_after_replace(pre: Seq<User>, post: Seq<User>, i: int, id: Seq<char>)
    requires
        users_wf(pre),
        users_wf(post),
        0 <= i < pre.len(),
        pre[i].mxid@ == id,
        post.len() == pre.len(),
        post.last().mxid@ == id,
        post.take(post.len() - 1) == pre.remove(i),
    ensures
        users_map(post) == users_map(pre).insert(id, post.last()),
{
    lemma_users_map(pre);
    lemma_users_map(post);
    assert forall|k: Seq<char>| #[trigger] users_map(post).dom().contains(k) implies users_map(
        pre,
    ).insert(id, post.last()).dom().contains(k) by {
        if k != id {
            let j = choose|j: int|
                0 <= j < post.len() && post[j].mxid@ == k && post[j] == users_map(post)[k];
            assert(j < post.len() - 1);
            assert(post.take(post.len() - 1)[j] == post[j]);
            if j < i {
                assert(pre.remove(i)[j] == pre[j]);
            } else {
                assert(pre.remove(i)[j] == pre[j + 1]);
            }
        }
    }
    assert forall|k: Seq<char>|
        #[trigger] users_map(pre).insert(id, post.last()).dom().contains(k) implies users_map(
        post,
    ).dom().contains(k) && users_map(post)[k] == users_map(pre).insert(id, post.last())[k] by {
        if k == id {
            assert(users_map(post).dom().contains(id));
            assert(users_map(post)[id] == post.last());
        } else {
            let j = choose|j: int|
                0 <= j < pre.len() && pre[j].mxid@ == k && pre[j] == users_map(pre)[k];
            let jj: int = if j < i {
                j
            } else {
                j - 1
            };
            assert(pre.remove(i)[jj] == pre[j]);
            assert(post.take(post.len() - 1)[jj] == pre[j]);
            assert(post[jj].mxid@ == k && post[jj] == users_map(pre)[k]);
        }
    }
    assert(users_map(post) =~= users_map(pre).insert(id, post.last()));
}

/// After pushing a user with a fresh id, the map gains exactly that
/// entry.
proof fn lemma_users_after_push(pre: Seq<User>, post: Seq<User>, id: Seq<char>)
    requires
        users_wf(pre),
        users_wf(post),
        !users_map(pre).dom().contains(id),
        post.len() == pre.len() + 1,
        post.last().mxid@ == id,
        post.take(post.len() - 1) == pre,
    ensures
        users_map(post) == users_map(pre).insert(id, post.last()),
{
    lemma_users_map(pre);
    lemma_users_map(post);
    assert forall|k: Seq<char>| #[trigger] users_map(post).dom().contains(k) implies users_map(
        pre,
    ).insert(id, post.last()).dom().contains(k) by {
        if k != id {
            let j = choose|j: int|
                0 <= j < post.len() && post[j].mxid@ == k && post[j] == users_map(post)[k];
            assert(j < pre.len());
            assert(post.take(post.len() - 1)[j] == post[j]);
            assert(pre[j].mxid@ == k);
        }
    }
    assert forall|k: Seq<char>|
        #[trigger] users_map(pre).insert(id, post.last()).dom().contains(k) implies users_map(
        post,
    ).dom().contains(k) && users_map(post)[k] == users_map(pre).insert(id, post.last())[k] by {
        if k == id {
            assert(users_map(post).dom().contains(id));
            assert(users_map(post)[id] == post.last());
        } else {
            let j = choose|j: int|
                0 <= j < pre.len() && pre[j].mxid@ == k && pre[j] == users_map(pre)[k];
            assert(post.take(post.len() - 1)[j] == pre[j]);
            assert(post[j].mxid@ == k && post[j] == users_map(pre)[k]);
        }
    }
    assert(users_map(post) =~= users_map(pre).insert(id, post.last()));
}

/// The in-memory cache of users, keyed by Matrix id.
pub struct UserStore {
    pub users: Vec<User>,
}

impl View for UserStore {
    type V = Map<Seq<char>, User>;

    open spec fn view(&self) -> Map<Seq<char>, User> {
        users_map(self.users@)
    }
}

/// What `ensure_device` had to do to give the target device a home.
pub enum EnsureDeviceAction {
    /// User and device were already there; nothing changed.
    Existing,
    /// The user was there but its slot was empty; a device was created.
    CreatedDevice,
    /// User and device were both created; the caller must also spawn the
    /// new device's sync loop.
    CreatedUserAndDevice,
}

impl UserStore {
    /// User ids are unique.
    pub open spec fn wf(&self) -> bool {
        users_wf(self.users@)
    }

    /// An empty cache.
    pub fn new() -> (r: UserStore)
        ensures
            r.wf(),
            r@ == Map::<Seq<char>, User>::empty(),
    {
        let r = UserStore { users: Vec::new() };
        proof {
            assert(r@ =~= Map::<Seq<char>, User>::empty());
        }
        r
    }

    /// The index at which `mxid` is stored, if any.
    fn find(&self, mxid: &String) -> (r: Option<usize>)
        ensures
            match r {
                Some(i) => i < self.users@.len() && self.users@[i as int].mxid@ == mxid@,
                None => forall|i: int|
                    0 <= i < self.users@.len() ==> self.users@[i].mxid@ != mxid@,
            },
    {
        let mut i: usize = 0;
        while i < self.users.len()
            invariant
                0 <= i <= self.users@.len(),
                forall|k: int| 0 <= k < i ==> self.users@[k].mxid@ != mxid@,
            decreases self.users@.len() - i,
        {
            if str_eq(&self.users[i].mxid, mxid) {
                return Some(i);
            }
            i += 1;
        }
        None
    }

    /// The cached user under `mxid`, if any.
    pub fn get(&self, mxid: &String) -> (r: Option<&User>)
        requires
            self.wf(),
        ensures
            match r {
                Some(user) => self@.dom().contains(mxid@) && *user == self@[mxid@],
                None => !self@.dom().contains(mxid@),
            },
    {
        proof {
            lemma_users_map(self.users@);
        }
        match self.find(mxid) {
            Some(i) => Some(&self.users[i]),
            None => None,
        }
    }

    /// Caches `user` under its id, replacing any user already there.
    pub fn insert(&mut self, user: User)
        requires
            old(self).wf(),
        ensures
            final(self).wf(),
            final(self)@ == old(self)@.insert(user.mxid@, user),
    {
        proof {
            lemma_users_map(self.users@);
        }
        let ghost id = user.mxid@;
        let found = self.find(&user.mxid);
        match found {
            Some(i) => {
                self.users.remove(i);
                self.users.push(user);
                proof {
                    assert(self.users@.take(self.users@.len() - 1) =~= old(self).users@.remove(
                        i as int,
                    ));
                    assert forall|p: int, q: int|
                        0 <= p < q < self.users@.len() implies self.users@[p].mxid@
                        != self.users@[q].mxid@ by {
                        if q < self.users@.len() - 1 {
                            assert(old(self).users@.remove(i as int)[p] == self.users@[p]);
                            assert(old(self).users@.remove(i as int)[q] == self.users@[q]);
                        }
                    }
                    lemma_users_after_replace(old(self).users@, self.users@, i as int, id);
                }
            },
            None => {
                self.users.push(user);
                proof {
                    assert(self.users@.take(self.users@.len() - 1) =~= old(self).users@);
                    lemma_users_after_push(old(self).users@, self.users@, id);
                }
            },
        }
    }

    /// The ids of all cached users, in cache order.
    pub fn keys(&self) -> (r: Vec<String>)
        requires
            self.wf(),
        ensures
            distinct_views(r@),
            view_set(r@) == self@.dom(),
            r@.len() == self.users@.len(),
            forall|i: int| 0 <= i < r@.len() ==> r@[i]@ == self.users@[i].mxid@,
    {
        let mut r: Vec<String> = Vec::new();
        let mut i: usize = 0;
        while i < self.users.len()
            invariant
                0 <= i <= self.users@.len(),
                self.wf(),
                r@.len() == i,
                forall|k: int| 0 <= k < i ==> r@[k]@ == self.users@[k].mxid@,
            decreases self.users@.len() - i,
        {
            let id = self.users[i].mxid.clone();
            r.push(id);
            i += 1;
        }
        proof {
            lemma_users_map(self.users@);
            assert forall|e: Seq<char>| #[trigger] view_set(r@).contains(e) implies self@.dom().contains(
                e,
            ) by {
                let k = choose|k: int| 0 <= k < r@.len() && r@[k]@ == e;
                assert(self.users@[k].mxid@ == e);
            }
            assert forall|e: Seq<char>| #[trigger] self@.dom().contains(e) implies view_set(
                r@,
            ).contains(e) by {
                let k = choose|k: int| 0 <= k < self.users@.len() && self.users@[k].mxid@ == e;
                assert(r@[k]@ == e);
            }
            assert(view_set(r@) =~= self@.dom());
        }
        r
    }

    /// Makes sure `mxid` has a device: an existing device is kept, an
    /// empty slot is filled with a device under `device_id`, and an
    /// unknown user is created together with that device. The caller
    /// spawns the sync loop exactly when user and device are new.
    pub fn ensure_device(&mut self, mxid: &String, device_id: &String) -> (r: EnsureDeviceAction)
        requires
            old(self).wf(),
        ensures
            final(self).wf(),
            final(self)@.dom() == old(self)@.dom().insert(mxid@),
            forall|k: Seq<char>|
                #[trigger] old(self)@.dom().contains(k) && k != mxid@ ==> final(self)@[k] == old(
                    self,
                )@[k],
            final(self)@.dom().contains(mxid@) && final(self)@[mxid@].mxid@ == mxid@,
            final(self)@[mxid@].device matches Some(d) && d.device_id@ == {
                if old(self)@.dom().contains(mxid@) && old(self)@[mxid@].device is Some {
                    old(self)@[mxid@].device.unwrap().device_id@
                } else {
                    device_id@
                }
            },
            old(self)@.dom().contains(mxid@) && old(self)@[mxid@].device is Some
                ==> final(self)@[mxid@] == old(self)@[mxid@],
            !(old(self)@.dom().contains(mxid@) && old(self)@[mxid@].device is Some)
                ==> (final(self)@[mxid@].device matches Some(d) && !d.running && d.receiver_held),
            r is Existing <==> old(self)@.dom().contains(mxid@) && old(
                self,
            )@[mxid@].device is Some,
            r is CreatedDevice <==> old(self)@.dom().contains(mxid@) && old(
                self,
            )@[mxid@].device is None,
            r is CreatedUserAndDevice <==> !old(self)@.dom().contains(mxid@),
    {
        proof {
            lemma_users_map(self.users@);
        }
        let found = self.find(mxid);
        match found {
            Some(i) => {
                if self.users[i].device.is_some() {
                    proof {
                        assert(final(self)@ =~= old(self)@);
                        assert(final(self)@.dom() =~= old(self)@.dom().insert(mxid@));
                    }
                    EnsureDeviceAction::Existing
                } else {
                    let mut user = self.users.remove(i);
                    user.create_device(Some(device_id));
                    self.users.push(user);
                    proof {
                        assert(self.users@.take(self.users@.len() - 1) =~= old(
                            self,
                        ).users@.remove(i as int));
                        assert forall|p: int, q: int|
                            0 <= p < q < self.users@.len() implies self.users@[p].mxid@
                            != self.users@[q].mxid@ by {
                            if q < self.users@.len() - 1 {
                                assert(old(self).users@.remove(i as int)[p] == self.users@[p]);
                                assert(old(self).users@.remove(i as int)[q] == self.users@[q]);
                            }
                        }
                        lemma_users_after_replace(old(self).users@, self.users@, i as int, mxid@);
                        assert(final(self)@.dom() =~= old(self)@.dom().insert(mxid@));
                    }
                    EnsureDeviceAction::CreatedDevice
                }
            },
            None => {
                let mut user = User::new(mxid.clone());
                user.create_device(Some(device_id));
                self.users.push(user);
                proof {
                    assert(self.users@.take(self.users@.len() - 1) =~= old(self).users@);
                    lemma_users_after_push(old(self).users@, self.users@, mxid@);
                    assert(final(self)@.dom() =~= old(self)@.dom().insert(mxid@));
                }
                EnsureDeviceAction::CreatedUserAndDevice
            },
        }
    }

    /// Creates (or re-creates, with an empty slot) the user under `mxid`
    /// and caches it.
    pub fn create_user(&mut self, mxid: String)
        requires
            old(self).wf(),
        ensures
            final(self).wf(),
            final(self)@.dom() == old(self)@.dom().insert(mxid@),
            forall|k: Seq<char>|
                #[trigger] old(self)@.dom().contains(k) && k != mxid@ ==> final(self)@[k] == old(
                    self,
                )@[k],
            final(self)@[mxid@].mxid@ == mxid@ && final(self)@[mxid@].device is None,
    {
        let user = User::new(mxid);
        let ghost id = user.mxid@;
        self.insert(user);
        proof {
            assert(final(self)@.dom() =~= old(self)@.dom().insert(id));
        }
    }

    /// Puts a fresh device into the slot of the user under `mxid`; the id
    /// defaults to the user's name-based UUID. Fails on an unknown user.
    pub fn create_device(&mut self, mxid: &String, device_id: Option<&String>) -> (r: Result<
        String,
        Error,
    >)
        requires
            old(self).wf(),
        ensures
            final(self).wf(),
            old(self)@.dom().contains(mxid@) ==> {
                &&& final(self)@.dom() == old(self)@.dom()
                &&& forall|k: Seq<char>|
                    #[trigger] old(self)@.dom().contains(k) && k != mxid@ ==> final(self)@[k]
                        == old(self)@[k]
                &&& final(self)@[mxid@].mxid@ == mxid@
                &&& (r matches Ok(did) && did@ == spec_default_device_id(device_id, mxid@))
                &&& final(self)@[mxid@].device matches Some(d) && d.device_id@
                    == spec_default_device_id(device_id, mxid@) && !d.running && d.receiver_held
            },
            !old(self)@.dom().contains(mxid@) ==> final(self)@ == old(self)@ && (r matches Err(
                e,
            ) && e is UserNotFound),
    {
        proof {
            lemma_users_map(self.users@);
        }
        let found = self.find(mxid);
        match found {
            Some(i) => {
                let mut user = self.users.remove(i);
                let did = user.create_device(device_id);
                self.users.push(user);
                proof {
                    assert(self.users@.take(self.users@.len() - 1) =~= old(self).users@.remove(
                        i as int,
                    ));
                    assert forall|p: int, q: int|
                        0 <= p < q < self.users@.len() implies self.users@[p].mxid@
                        != self.users@[q].mxid@ by {
                        if q < self.users@.len() - 1 {
                            assert(old(self).users@.remove(i as int)[p] == self.users@[p]);
                            assert(old(self).users@.remove(i as int)[q] == self.users@[q]);
                        }
                    }
                    lemma_users_after_replace(old(self).users@, self.users@, i as int, mxid@);
                    assert(final(self)@.dom() =~= old(self)@.dom());
                }
                Ok(did)
            },
            None => {
                proof {
                    assert(final(self)@ =~= old(self)@);
                }
                Err(Error::UserNotFound(mxid.clone()))
            },
        }
    }
}

} // verus!

//! Rooms the appservice cares about, and the in-memory room cache.
//!
//! A room carries its id, an encryption tag and the set of joined members.
//! The tag is the two-variant wrapper around a common `RoomInfo`, so that
//! "encrypted" is decidable from the variant alone; upgrading a room
//! re-wraps the same info. The cache maps room ids to rooms; its view is a
//! map from the room id's character sequence to the room's view.

use vstd::prelude::*;

use crate::error::Error;
use crate::text::clone_strings;
use crate::text::distinct_views;
use crate::text::holds_string;
use crate::text::lemma_view_set_len;
use crate::text::lemma_view_set_push;
use crate::text::push_if_absent;
use crate::text::remove_string;
use crate::text::str_eq;
use crate::text::union_strings;
use crate::text::view_set;

verus! {

/// Direction in which a room's timeline is paged.
pub enum Direction {
    Forward,
    Backward,
}

impl Direction {
    /// The query-parameter value for this direction.
    pub fn as_str(&self) -> (r: &'static str)
        ensures
            *self is Forward ==> r@ == "f"@,
            *self is Backward ==> r@ == "b"@,
    {
        match self {
            Direction::Forward => "f",
            Direction::Backward => "b",
        }
    }
}

/// The mathematical reading of one room.
pub ghost struct RoomV {
    pub room_id: Seq<char>,
    pub encrypted: bool,
    pub members: Set<Seq<char>>,
}

/// A room's id together with its joined members.
pub struct RoomInfo {
    pub room_id: String,
    pub joined_members: Vec<String>,
}

impl RoomInfo {
    /// The member list holds no duplicates.
    pub open spec fn wf(&self) -> bool {
        distinct_views(self.joined_members@)
    }

    /// The room id as a character sequence.
    pub open spec fn spec_id(&self) -> Seq<char> {
        self.room_id@
    }

    /// The member set as character sequences.
    pub open spec fn spec_members(&self) -> Set<Seq<char>> {
        view_set(self.joined_members@)
    }

    /// Builds an info from an id and a member list of any shape.
    pub fn new(room_id: String, joined_members: Vec<String>) -> (r: RoomInfo)
        ensures
            r.wf(),
            r.spec_id() == room_id@,
            r.spec_members() == view_set(joined_members@),
    {
        let mut distinct: Vec<String> = Vec::new();
        let mut i: usize = 0;
        while i < joined_members.len()
            invariant
                0 <= i <= joined_members@.len(),
                distinct_views(distinct@),
                view_set(distinct@) == view_set(joined_members@.take(i as int)),
            decreases joined_members@.len() - i,
        {
            let m = joined_members[i].clone();
            push_if_absent(&mut distinct, m);
            proof {
                assert(joined_members@.take(i as int + 1) == joined_members@.take(
                    i as int,
                ).push(joined_members@[i as int]));
                lemma_view_set_push(joined_members@.take(i as int), joined_members@[i as int]);
            }
            i += 1;
        }
        proof {
            assert(joined_members@.take(joined_members@.len() as int) == joined_members@);
        }
        RoomInfo { room_id, joined_members: distinct }
    }

    /// The room's id.
    pub fn id(&self) -> (r: &String)
        ensures
            r@ == self.spec_id(),
    {
        &self.room_id
    }

    /// Whether `mxid` is a joined member.
    pub fn contains(&self, mxid: &String) -> (r: bool)
        ensures
            r == self.spec_members().contains(mxid@),
    {
        holds_string(&self.joined_members, mxid)
    }

    /// A copy of the joined-member list.
    pub fn joined_members(&self) -> (r: Vec<String>)
        ensures
            r@ == self.joined_members@,
            view_set(r@) == self.spec_members(),
            distinct_views(r@) <== self.wf(),
    {
        clone_strings(&self.joined_members)
    }

    /// A room with exactly two joined members is direct.
    pub fn is_direct(&self) -> (r: bool)
        requires
            self.wf(),
        ensures
            r == (self.spec_members().len() == 2),
    {
        proof {
            lemma_view_set_len(self.joined_members@);
        }
        self.joined_members.len() == 2
    }

    /// Adds a member; reports whether it was new.
    pub fn add_member(&mut self, joined_member: String) -> (r: bool)
        requires
            old(self).wf(),
        ensures
            final(self).wf(),
            final(self).spec_id() == old(self).spec_id(),
            final(self).spec_members() == old(self).spec_members().insert(joined_member@),
            r == !old(self).spec_members().contains(joined_member@),
    {
        let fresh = !holds_string(&self.joined_members, &joined_member);
        push_if_absent(&mut self.joined_members, joined_member);
        fresh
    }

    /// Removes a member; reports whether it was present.
    pub fn remove_member(&mut self, left_member: &String) -> (r: bool)
        requires
            old(self).wf(),
        ensures
            final(self).wf(),
            final(self).spec_id() == old(self).spec_id(),
            final(self).spec_members() == old(self).spec_members().remove(left_member@),
            r == old(self).spec_members().contains(left_member@),
    {
        let present = holds_string(&self.joined_members, left_member);
        remove_string(&mut self.joined_members, left_member);
        present
    }
}

/// A room tagged by whether events in it are end-to-end encrypted.
pub enum RoomKind {
    Encrypted(RoomInfo),
    Unencrypted(RoomInfo),
}

impl View for RoomKind {
    type V = RoomV;

    open spec fn view(&self) -> RoomV {
        match self {
            RoomKind::Encrypted(info) => RoomV {
                room_id: info.spec_id(),
                encrypted: true,
                members: info.spec_members(),
            },
            RoomKind::Unencrypted(info) => RoomV {
                room_id: info.spec_id(),
                encrypted: false,
                members: info.spec_members(),
            },
        }
    }
}

impl RoomKind {
    /// The member list holds no duplicates.
    pub open spec fn wf(&self) -> bool {
        match self {
            RoomKind::Encrypted(info) => info.wf(),
            RoomKind::Unencrypted(info) => info.wf(),
        }
    }

    /// An encrypted room with the given members.
    pub fn new_encrypted(room_id: String, joined_members: Vec<String>) -> (r: RoomKind)
        ensures
            r.wf(),
            r@ == (RoomV { room_id: room_id@, encrypted: true, members: view_set(joined_members@) }),
    {
        RoomKind::Encrypted(RoomInfo::new(room_id, joined_members))
    }

    /// An unencrypted room with the given members.
    pub fn new_unencrypted(room_id: String, joined_members: Vec<String>) -> (r: RoomKind)
        ensures
            r.wf(),
            r@ == (RoomV {
                room_id: room_id@,
                encrypted: false,
                members: view_set(joined_members@),
            }),
    {
        RoomKind::Unencrypted(RoomInfo::new(room_id, joined_members))
    }

    /// Whether the room is tagged encrypted.
    pub fn is_encrypted(&self) -> (r: bool)
        ensures
            r == self@.encrypted,
    {
        match self {
            RoomKind::Encrypted(_) => true,
            RoomKind::Unencrypted(_) => false,
        }
    }

    /// A room with exactly two joined members is direct.
    pub fn is_direct(&self) -> (r: bool)
        requires
            self.wf(),
        ensures
            r == (self@.members.len() == 2),
    {
        match self {
            RoomKind::Encrypted(info) => info.is_direct(),
            RoomKind::Unencrypted(info) => info.is_direct(),
        }
    }

    /// A copy of the joined-member list.
    pub fn joined_members(&self) -> (r: Vec<String>)
        ensures
            view_set(r@) == self@.members,
            self.wf() ==> distinct_views(r@),
    {
        match self {
            RoomKind::Encrypted(info) => info.joined_members(),
            RoomKind::Unencrypted(info) => info.joined_members(),
        }
    }

    /// Whether `mxid` is a joined member.
    pub fn contains(&self, mxid: &String) -> (r: bool)
        ensures
            r == self@.members.contains(mxid@),
    {
        match self {
            RoomKind::Encrypted(info) => info.contains(mxid),
            RoomKind::Unencrypted(info) => info.contains(mxid),
        }
    }

    /// Adds a member, keeping the tag; reports whether it was new.
    pub fn add_member(&mut self, joined_member: String) -> (r: bool)
        requires
            old(self).wf(),
        ensures
            final(self).wf(),
            final(self)@ == (RoomV {
                room_id: old(self)@.room_id,
                encrypted: old(self)@.encrypted,
                members: old(self)@.members.insert(joined_member@),
            }),
            r == !old(self)@.members.contains(joined_member@),
    {
        match self {
            RoomKind::Encrypted(info) => info.add_member(joined_member),
            RoomKind::Unencrypted(info) => info.add_member(joined_member),
        }
    }

    /// Removes a member, keeping the tag; reports whether it was present.
    pub fn remove_member(&mut self, left_member: &String) -> (r: bool)
        requires
            old(self).wf(),
        ensures
            final(self).wf(),
            final(self)@ == (RoomV {
                room_id: old(self)@.room_id,
                encrypted: old(self)@.encrypted,
                members: old(self)@.members.remove(left_member@),
            }),
            r == old(self)@.members.contains(left_member@),
    {
        match self {
            RoomKind::Encrypted(info) => info.remove_member(left_member),
            RoomKind::Unencrypted(info) => info.remove_member(left_member),
        }
    }

    /// The event type that messages sent to this room must carry.
    pub fn message_type(&self) -> (r: &'static str)
        ensures
            self@.encrypted ==> r@ == "m.room.encrypted"@,
            !self@.encrypted ==> r@ == "m.room.message"@,
    {
        match self {
            RoomKind::Encrypted(_) => "m.room.encrypted",
            RoomKind::Unencrypted(_) => "m.room.message",
        }
    }

    /// The room's id.
    pub fn id(&self) -> (r: &String)
        ensures
            r@ == self@.room_id,
    {
        match self {
            RoomKind::Encrypted(info) => info.id(),
            RoomKind::Unencrypted(info) => info.id(),
        }
    }
}

/// The map that a vector of rooms denotes: each id to its room's view.
pub open spec fn rooms_map(rooms: Seq<RoomKind>) -> Map<Seq<char>, RoomV> {
    Map::new(
        |id: Seq<char>| exists|i: int| 0 <= i < rooms.len() && rooms[i]@.room_id == id,
        |id: Seq<char>| rooms[choose|i: int| 0 <= i < rooms.len() && rooms[i]@.room_id == id]@,
    )
}

/// Room ids are unique and every room is well formed.
pub open spec fn rooms_wf(rooms: Seq<RoomKind>) -> bool {
    &&& forall|i: int, j: int|
        0 <= i < j < rooms.len() ==> rooms[i]@.room_id != rooms[j]@.room_id
    &&& forall|i: int| 0 <= i < rooms.len() ==> (#[trigger] rooms[i]).wf()
}

/// Each stored room is reachable in the map under its own id, and every
/// map entry comes from a stored room.
pub proof fn lemma_rooms_map(rooms: Seq<RoomKind>)
    requires
        rooms_wf(rooms),
    ensures
        forall|i: int|
            0 <= i < rooms.len() ==> #[trigger] rooms_map(rooms).dom().contains(rooms[i]@.room_id)
                && rooms_map(rooms)[rooms[i]@.room_id] == rooms[i]@,
        forall|id: Seq<char>|
            #[trigger] rooms_map(rooms).dom().contains(id) ==> exists|i: int|
                0 <= i < rooms.len() && rooms[i]@.room_id == id && rooms[i]@ == rooms_map(rooms)[id],
{
    assert forall|i: int| 0 <= i < rooms.len() implies #[trigger] rooms_map(rooms).dom().contains(
        rooms[i]@.room_id,
    ) && rooms_map(rooms)[rooms[i]@.room_id] == rooms[i]@ by {
        let id = rooms[i]@.room_id;
        assert(rooms_map(rooms).dom().contains(id));
        let j = choose|j: int| 0 <= j < rooms.len() && rooms[j]@.room_id == id;
        if i < j {
            assert(rooms[i]@.room_id != rooms[j]@.room_id);
        } else if j < i {
            assert(rooms[j]@.room_id != rooms[i]@.room_id);
        }
    }
}

/// After replacing the room at `i` by one with the same id (moved to the
/// end), the map is the old map with that id remapped.
proof fn lemma_map_after_replace(pre: Seq<RoomKind>, post: Seq<RoomKind>, i: int, id: Seq<char>)
    requires
        rooms_wf(pre),
        rooms_wf(post),
        0 <= i < pre.len(),
        pre[i]@.room_id == id,
        post.len() == pre.len(),
        post.last()@.room_id == id,
        post.take(post.len() - 1) == pre.remove(i),
    ensures
        rooms_map(post) == rooms_map(pre).insert(id, post.last()@),
{
    lemma_rooms_map(pre);
    lemma_rooms_map(post);
    assert forall|k: Seq<char>| #[trigger] rooms_map(post).dom().contains(k) implies rooms_map(
        pre,
    ).insert(id, post.last()@).dom().contains(k) by {
        if k != id {
            let j = choose|j: int|
                0 <= j < post.len() && post[j]@.room_id == k && post[j]@ == rooms_map(post)[k];
            assert(j < post.len() - 1);
            assert(post.take(post.len() - 1)[j] == post[j]);
            lemma_remove_indexes(pre, i);
            if j < i {
                assert(pre[j]@.room_id == k);
            } else {
                assert(pre[j + 1]@.room_id == k);
            }
        }
    }
    assert forall|k: Seq<char>|
        #[trigger] rooms_map(pre).insert(id, post.last()@).dom().contains(k) implies rooms_map(
        post,
    ).dom().contains(k) && rooms_map(post)[k] == rooms_map(pre).insert(id, post.last()@)[k] by {
        if k == id {
            assert(rooms_map(post).dom().contains(id));
            assert(rooms_map(post)[id] == post.last()@);
        } else {
            let j = choose|j: int|
                0 <= j < pre.len() && pre[j]@.room_id == k && pre[j]@ == rooms_map(pre)[k];
            let jj: int = if j < i { j } else { j - 1 };
            lemma_remove_indexes(pre, i);
            assert(pre.remove(i)[jj] == pre[j]);
            assert(post.take(post.len() - 1)[jj] == pre[j]);
            assert(post[jj]@.room_id == k && post[jj]@ == rooms_map(pre)[k]);
        }
    }
    assert(rooms_map(post) =~= rooms_map(pre).insert(id, post.last()@));
}

/// After pushing a room with a fresh id, the map gains exactly that entry.
proof fn lemma_map_after_push(pre: Seq<RoomKind>, post: Seq<RoomKind>, id: Seq<char>)
    requires
        rooms_wf(pre),
        rooms_wf(post),
        !rooms_map(pre).dom().contains(id),
        post.len() == pre.len() + 1,
        post.last()@.room_id == id,
        post.take(post.len() - 1) == pre,
    ensures
        rooms_map(post) == rooms_map(pre).insert(id, post.last()@),
{
    lemma_rooms_map(pre);
    lemma_rooms_map(post);
    assert forall|k: Seq<char>| #[trigger] rooms_map(post).dom().contains(k) implies rooms_map(
        pre,
    ).insert(id, post.last()@).dom().contains(k) by {
        if k != id {
            let j = choose|j: int|
                0 <= j < post.len() && post[j]@.room_id == k && post[j]@ == rooms_map(post)[k];
            assert(j < pre.len());
            assert(post.take(post.len() - 1)[j] == post[j]);
            assert(pre[j]@.room_id == k);
        }
    }
    assert forall|k: Seq<char>|
        #[trigger] rooms_map(pre).insert(id, post.last()@).dom().contains(k) implies rooms_map(
        post,
    ).dom().contains(k) && rooms_map(post)[k] == rooms_map(pre).insert(id, post.last()@)[k] by {
        if k == id {
            assert(rooms_map(post).dom().contains(id));
            assert(rooms_map(post)[id] == post.last()@);
        } else {
            let j = choose|j: int|
                0 <= j < pre.len() && pre[j]@.room_id == k && pre[j]@ == rooms_map(pre)[k];
            assert(post.take(post.len() - 1)[j] == pre[j]);
            assert(post[j]@.room_id == k && post[j]@ == rooms_map(pre)[k]);
        }
    }
    assert(rooms_map(post) =~= rooms_map(pre).insert(id, post.last()@));
}

/// Every element of `s.remove(i)` is an element of `s`, at its old or the
/// next index.
proof fn lemma_remove_indexes(s: Seq<RoomKind>, i: int)
    requires
        0 <= i < s.len(),
    ensures
        forall|j: int| 0 <= j < i ==> #[trigger] s.remove(i)[j] == s[j],
        forall|j: int| i <= j < s.len() - 1 ==> #[trigger] s.remove(i)[j] == s[j + 1],
{
}

/// The in-memory cache of rooms, keyed by room id.
pub struct RoomStore {
    pub rooms: Vec<RoomKind>,
}

impl View for RoomStore {
    type V = Map<Seq<char>, RoomV>;

    open spec fn view(&self) -> Map<Seq<char>, RoomV> {
        rooms_map(self.rooms@)
    }
}

impl RoomStore {
    /// Room ids are unique and every room is well formed.
    pub open spec fn wf(&self) -> bool {
        rooms_wf(self.rooms@)
    }

    /// Whether `id` is cached and tagged encrypted.
    pub open spec fn spec_encrypted(&self, id: Seq<char>) -> bool {
        self@.dom().contains(id) && self@[id].encrypted
    }

    /// An empty cache.
    pub fn new() -> (r: RoomStore)
        ensures
            r.wf(),
            r@ == Map::<Seq<char>, RoomV>::empty(),
    {
        let r = RoomStore { rooms: Vec::new() };
        proof {
            assert(r@ =~= Map::<Seq<char>, RoomV>::empty());
        }
        r
    }

    /// The index at which `room_id` is stored, if any.
    fn find(&self, room_id: &String) -> (r: Option<usize>)
        ensures
            match r {
                Some(i) => i < self.rooms@.len() && self.rooms@[i as int]@.room_id == room_id@,
                None => forall|i: int|
                    0 <= i < self.rooms@.len() ==> self.rooms@[i]@.room_id != room_id@,
            },
    {
        let mut i: usize = 0;
        while i < self.rooms.len()
            invariant
                0 <= i <= self.rooms@.len(),
                forall|k: int| 0 <= k < i ==> self.rooms@[k]@.room_id != room_id@,
            decreases self.rooms@.len() - i,
        {
            if str_eq(self.rooms[i].id(), room_id) {
                return Some(i);
            }
            i += 1;
        }
        None
    }

    /// The cached room under `room_id`, if any.
    pub fn get(&self, room_id: &String) -> (r: Option<&RoomKind>)
        requires
            self.wf(),
        ensures
            match r {
                Some(room) => self@.dom().contains(room_id@) && room@ == self@[room_id@]
                    && room.wf(),
                None => !self@.dom().contains(room_id@),
            },
    {
        proof {
            lemma_rooms_map(self.rooms@);
        }
        match self.find(room_id) {
            Some(i) => Some(&self.rooms[i]),
            None => None,
        }
    }

    /// Adds a member to a cached room, or caches the freshly fetched room.
    ///
    /// When the room is already cached, `fetched` is ignored and the member
    /// is inserted. When it is not, the caller passes the room state it
    /// fetched from the homeserver, whose member list is authoritative and
    /// already includes the new member. The result reports whether the
    /// affected room is encrypted, so the caller knows to recompute tracked
    /// users; a missing room with no fetched state is an error.
    pub fn add_room_member(
        &mut self,
        room_id: &String,
        mxid: String,
        fetched: Option<RoomKind>,
    ) -> (r: Result<bool, Error>)
        requires
            old(self).wf(),
            fetched matches Some(room) ==> room.wf() && room@.room_id == room_id@,
        ensures
            final(self).wf(),
            old(self)@.dom().contains(room_id@) ==> {
                &&& final(self)@ == old(self)@.insert(
                    room_id@,
                    RoomV {
                        room_id: room_id@,
                        encrypted: old(self)@[room_id@].encrypted,
                        members: old(self)@[room_id@].members.insert(mxid@),
                    },
                )
                &&& r == Result::<bool, Error>::Ok(old(self)@[room_id@].encrypted)
            },
            !old(self)@.dom().contains(room_id@) && fetched is Some ==> {
                &&& final(self)@ == old(self)@.insert(room_id@, fetched.unwrap()@)
                &&& r == Result::<bool, Error>::Ok(fetched.unwrap()@.encrypted)
            },
            !old(self)@.dom().contains(room_id@) && fetched is None ==> {
                &&& final(self)@ == old(self)@
                &&& r matches Result::Err(Error::RoomNotFound(s)) && s@ == room_id@
            },
            forall|id: Seq<char>|
                old(self).spec_encrypted(id) ==> #[trigger] final(self).spec_encrypted(id),
    {
        proof {
            lemma_rooms_map(self.rooms@);
        }
        let found = self.find(room_id);
        match found {
            Some(i) => {
                let mut room = self.rooms.remove(i);
                let encrypted = room.is_encrypted();
                room.add_member(mxid);
                self.rooms.push(room);
                proof {
                    assert(self.rooms@.take(self.rooms@.len() - 1) =~= old(self).rooms@.remove(
                        i as int,
                    ));
                    assert forall|p: int, q: int|
                        0 <= p < q < self.rooms@.len() implies self.rooms@[p]@.room_id
                        != self.rooms@[q]@.room_id by {
                        lemma_remove_indexes(old(self).rooms@, i as int);
                    }
                    assert forall|p: int| 0 <= p < self.rooms@.len() implies (
                    #[trigger] self.rooms@[p]).wf() by {
                        lemma_remove_indexes(old(self).rooms@, i as int);
                    }
                    lemma_map_after_replace(old(self).rooms@, self.rooms@, i as int, room_id@);
                }
                Ok(encrypted)
            },
            None => match fetched {
                Some(room) => {
                    let encrypted = room.is_encrypted();
                    self.rooms.push(room);
                    proof {
                        assert(self.rooms@.take(self.rooms@.len() - 1) =~= old(self).rooms@);
                        assert forall|p: int, q: int|
                            0 <= p < q < self.rooms@.len() implies self.rooms@[p]@.room_id
                            != self.rooms@[q]@.room_id by {}
                        lemma_map_after_push(old(self).rooms@, self.rooms@, room_id@);
                    }
                    Ok(encrypted)
                },
                None => {
                    proof {
                        assert(final(self)@ =~= old(self)@);
                    }
                    Err(Error::RoomNotFound(room_id.clone()))
                },
            },
        }
    }

    /// Promotes the room's tag from unencrypted to encrypted, keeping its
    /// member set. A no-op on an unknown or already-encrypted room; the
    /// result says whether the tag changed. The promotion is monotone: no
    /// operation of the store ever clears the tag again.
    pub fn upgrade_room_encryption(&mut self, room_id: &String) -> (r: bool)
        requires
            old(self).wf(),
        ensures
            final(self).wf(),
            old(self)@.dom().contains(room_id@) && !old(self)@[room_id@].encrypted ==> {
                &&& final(self)@ == old(self)@.insert(
                    room_id@,
                    RoomV {
                        room_id: room_id@,
                        encrypted: true,
                        members: old(self)@[room_id@].members,
                    },
                )
                &&& r == true
            },
            !(old(self)@.dom().contains(room_id@) && !old(self)@[room_id@].encrypted) ==> {
                &&& final(self)@ == old(self)@
                &&& r == false
            },
            forall|id: Seq<char>|
                old(self).spec_encrypted(id) ==> #[trigger] final(self).spec_encrypted(id),
    {
        proof {
            lemma_rooms_map(self.rooms@);
        }
        let found = self.find(room_id);
        match found {
            Some(i) => {
                if self.rooms[i].is_encrypted() {
                    proof {
                        assert(final(self)@ =~= old(self)@);
                    }
                    false
                } else {
                    let room = self.rooms.remove(i);
                    match room {
                        RoomKind::Unencrypted(info) => {
                            self.rooms.push(RoomKind::Encrypted(info));
                        },
                        RoomKind::Encrypted(info) => {
                            self.rooms.push(RoomKind::Encrypted(info));
                        },
                    }
                    proof {
                        assert(self.rooms@.take(self.rooms@.len() - 1) =~= old(self).rooms@.remove(
                            i as int,
                        ));
                        assert forall|p: int, q: int|
                            0 <= p < q < self.rooms@.len() implies self.rooms@[p]@.room_id
                            != self.rooms@[q]@.room_id by {
                            lemma_remove_indexes(old(self).rooms@, i as int);
                        }
                        assert forall|p: int| 0 <= p < self.rooms@.len() implies (
                        #[trigger] self.rooms@[p]).wf() by {
                            lemma_remove_indexes(old(self).rooms@, i as int);
                        }
                        lemma_map_after_replace(old(self).rooms@, self.rooms@, i as int, room_id@);
                    }
                    true
                }
            },
            None => {
                proof {
                    assert(final(self)@ =~= old(self)@);
                }
                false
            },
        }
    }

    /// Removes a member from a cached room; a no-op on an unknown room.
    /// The result says whether an encrypted room changed, so the caller
    /// knows to recompute tracked users.
    pub fn remove_room_member(&mut self, room_id: &String, mxid: &String) -> (r: bool)
        requires
            old(self).wf(),
        ensures
            final(self).wf(),
            old(self)@.dom().contains(room_id@) ==> {
                &&& final(self)@ == old(self)@.insert(
                    room_id@,
                    RoomV {
                        room_id: room_id@,
                        encrypted: old(self)@[room_id@].encrypted,
                        members: old(self)@[room_id@].members.remove(mxid@),
                    },
                )
                &&& r == old(self)@[room_id@].encrypted
            },
            !old(self)@.dom().contains(room_id@) ==> final(self)@ == old(self)@ && r == false,
            forall|id: Seq<char>|
                old(self).spec_encrypted(id) ==> #[trigger] final(self).spec_encrypted(id),
    {
        proof {
            lemma_rooms_map(self.rooms@);
        }
        let found = self.find(room_id);
        match found {
            Some(i) => {
                let mut room = self.rooms.remove(i);
                let encrypted = room.is_encrypted();
                room.remove_member(mxid);
                self.rooms.push(room);
                proof {
                    assert(self.rooms@.take(self.rooms@.len() - 1) =~= old(self).rooms@.remove(
                        i as int,
                    ));
                    assert forall|p: int, q: int|
                        0 <= p < q < self.rooms@.len() implies self.rooms@[p]@.room_id
                        != self.rooms@[q]@.room_id by {
                        lemma_remove_indexes(old(self).rooms@, i as int);
                    }
                    assert forall|p: int| 0 <= p < self.rooms@.len() implies (
                    #[trigger] self.rooms@[p]).wf() by {
                        lemma_remove_indexes(old(self).rooms@, i as int);
                    }
                    lemma_map_after_replace(old(self).rooms@, self.rooms@, i as int, room_id@);
                }
                encrypted
            },
            None => {
                proof {
                    assert(final(self)@ =~= old(self)@);
                }
                false
            },
        }
    }
}

/// The tracked-user closure of `u`: `u` itself together with every joined
/// member of every encrypted room that `u` is joined to.
pub open spec fn spec_encrypted_members(m: Map<Seq<char>, RoomV>, u: Seq<char>) -> Set<Seq<char>> {
    Set::new(
        |e: Seq<char>|
            e == u || exists|id: Seq<char>|
                #[trigger] m.dom().contains(id) && m[id].encrypted && m[id].members.contains(u)
                    && m[id].members.contains(e),
    )
}

/// The same closure read off the first `k` rooms of the backing vector.
pub open spec fn prefix_encrypted_members(rooms: Seq<RoomKind>, k: int, u: Seq<char>) -> Set<
    Seq<char>,
> {
    Set::new(
        |e: Seq<char>|
            e == u || exists|i: int|
                0 <= i < k && rooms[i]@.encrypted && rooms[i]@.members.contains(u)
                    && #[trigger] rooms[i]@.members.contains(e),
    )
}

/// The members of `users` that `members` contains, in their given order.
pub open spec fn spec_member_filter(members: Set<Seq<char>>, users: Seq<String>) -> Seq<String> {
    users.filter(|u: String| members.contains(u@))
}

/// A recomputed tracked-user set for one appservice-owned user.
pub struct TrackingUpdate {
    pub user: String,
    pub tracked_users: Vec<String>,
}

/// The users of `as_users` that are joined members of `room`.
pub fn appservice_users(room: &RoomKind, as_users: &Vec<String>) -> (r: Vec<String>)
    ensures
        r@ == spec_member_filter(room@.members, as_users@),
{
    let ghost pred = |u: String| room@.members.contains(u@);
    let mut r: Vec<String> = Vec::new();
    let mut i: usize = 0;
    proof {
        reveal(Seq::filter);
        assert(as_users@.take(0).filter(pred) =~= Seq::<String>::empty());
    }
    while i < as_users.len()
        invariant
            0 <= i <= as_users@.len(),
            pred == (|u: String| room@.members.contains(u@)),
            r@ == as_users@.take(i as int).filter(pred),
        decreases as_users@.len() - i,
    {
        if room.contains(&as_users[i]) {
            let u = as_users[i].clone();
            r.push(u);
        }
        proof {
            reveal(Seq::filter);
            assert(as_users@.take(i as int + 1).drop_last() == as_users@.take(i as int));
            assert(as_users@.take(i as int + 1).last() == as_users@[i as int]);
        }
        i += 1;
    }
    proof {
        assert(as_users@.take(as_users@.len() as int) == as_users@);
    }
    r
}

/// Monotone encryption: an encrypted room stays encrypted under every
/// remapping the cache performs, because no operation maps the room id
/// of an encrypted room to an unencrypted view.
pub proof fn lemma_encryption_monotone(
    m: Map<Seq<char>, RoomV>,
    id: Seq<char>,
    target: Seq<char>,
    v: RoomV,
)
    requires
        m.dom().contains(target) && m[target].encrypted,
        id == target ==> v.encrypted,
    ensures
        m.insert(id, v).dom().contains(target) && m.insert(id, v)[target].encrypted,
{
}

/// After adding a member and then removing it again, the member is not
/// joined; adding twice is the same as adding once; removing an absent
/// member changes nothing.
pub proof fn lemma_member_set_invariant(members: Set<Seq<char>>, u: Seq<char>)
    ensures
        !members.insert(u).remove(u).contains(u),
        members.insert(u).insert(u) == members.insert(u),
        !members.contains(u) ==> members.remove(u) == members,
{
    assert(members.insert(u).insert(u) =~= members.insert(u));
    if !members.contains(u) {
        assert(members.remove(u) =~= members);
    }
}

impl RoomStore {
    /// Caches every fetched room whose id is not cached yet; rooms already
    /// cached are left exactly as they are.
    pub fn populate_known_rooms(&mut self, fetched: Vec<RoomKind>)
        requires
            old(self).wf(),
            forall|k: int| 0 <= k < fetched@.len() ==> (#[trigger] fetched@[k]).wf(),
        ensures
            final(self).wf(),
            forall|id: Seq<char>|
                #[trigger] old(self)@.dom().contains(id) ==> final(self)@.dom().contains(id)
                    && final(self)@[id] == old(self)@[id],
            forall|id: Seq<char>|
                #[trigger] final(self)@.dom().contains(id) <==> old(self)@.dom().contains(id)
                    || exists|k: int| 0 <= k < fetched@.len() && fetched@[k]@.room_id == id,
            forall|id: Seq<char>|
                #[trigger] final(self)@.dom().contains(id) && !old(self)@.dom().contains(id)
                    ==> exists|k: int|
                    0 <= k < fetched@.len() && fetched@[k]@.room_id == id && final(self)@[id]
                        == fetched@[k]@,
            forall|id: Seq<char>|
                old(self).spec_encrypted(id) ==> #[trigger] final(self).spec_encrypted(id),
    {
        let mut queue = fetched;
        let ghost all = queue@;
        let ghost mut done: int = 0;
        while queue.len() > 0
            invariant
                self.wf(),
                0 <= done <= all.len(),
                queue@ == all.skip(done),
                forall|k: int| 0 <= k < all.len() ==> (#[trigger] all[k]).wf(),
                forall|id: Seq<char>|
                    #[trigger] old(self)@.dom().contains(id) ==> self@.dom().contains(id)
                        && self@[id] == old(self)@[id],
                forall|id: Seq<char>|
                    #[trigger] self@.dom().contains(id) <==> old(self)@.dom().contains(id)
                        || exists|k: int| 0 <= k < done && all[k]@.room_id == id,
                forall|id: Seq<char>|
                    #[trigger] self@.dom().contains(id) && !old(self)@.dom().contains(id)
                        ==> exists|k: int|
                        0 <= k < done && all[k]@.room_id == id && self@[id] == all[k]@,
            decreases queue@.len(),
        {
            let ghost pre = self@;
            let ghost prerooms = self.rooms@;
            let room = queue.remove(0);
            proof {
                assert(all.skip(done)[0] == all[done]);
                assert(room == all[done]);
                assert(queue@ =~= all.skip(done + 1));
            }
            let found = self.find(room.id());
            let ghost id = room@.room_id;
            if found.is_none() {
                proof {
                    if rooms_map(prerooms).dom().contains(id) {
                        lemma_rooms_map(prerooms);
                        assert(false);
                    }
                }
                self.rooms.push(room);
                proof {
                    assert(self.rooms@.take(self.rooms@.len() - 1) =~= prerooms);
                    lemma_map_after_push(prerooms, self.rooms@, id);
                    assert(self@ == pre.insert(id, all[done]@));
                }
            }
            proof {
                assert forall|id2: Seq<char>| #[trigger] self@.dom().contains(id2) implies old(
                    self,
                )@.dom().contains(id2) || exists|k: int|
                    0 <= k < done + 1 && all[k]@.room_id == id2 by {
                    if !old(self)@.dom().contains(id2) {
                        if pre.dom().contains(id2) {
                            let k = choose|k: int| 0 <= k < done && all[k]@.room_id == id2;
                            assert(0 <= k < done + 1 && all[k]@.room_id == id2);
                        } else {
                            assert(all[done]@.room_id == id2);
                        }
                    }
                }
                assert forall|id2: Seq<char>|
                    old(self)@.dom().contains(id2) || exists|k: int|
                        0 <= k < done + 1 && all[k]@.room_id == id2 implies #[trigger] self@.dom().contains(
                    id2,
                ) by {
                    if !old(self)@.dom().contains(id2) {
                        let k = choose|k: int| 0 <= k < done + 1 && all[k]@.room_id == id2;
                        if k < done {
                            assert(pre.dom().contains(id2));
                        }
                    }
                }
                done = done + 1;
            }
        }
        proof {
            assert(all.skip(done).len() == 0);
            assert(done == all.len());
        }
    }

    /// The tracked-user set for `user`: `user` itself and every joined
    /// member of every encrypted cached room that `user` is joined to.
    pub fn get_encrypted_members(&self, user: &String) -> (r: Vec<String>)
        requires
            self.wf(),
        ensures
            distinct_views(r@),
            view_set(r@) == spec_encrypted_members(self@, user@),
            view_set(r@).contains(user@),
    {
        let mut acc: Vec<String> = Vec::new();
        acc.push(user.clone());
        proof {
            assert(acc@[0]@ == user@);
            assert forall|e: Seq<char>| #[trigger] view_set(acc@).contains(e) implies e
                == user@ by {
                let k = choose|k: int| 0 <= k < acc@.len() && acc@[k]@ == e;
                assert(k == 0);
            }
            assert(view_set(acc@).contains(user@));
            assert(view_set(acc@) =~= prefix_encrypted_members(self.rooms@, 0, user@));
        }
        let mut i: usize = 0;
        while i < self.rooms.len()
            invariant
                0 <= i <= self.rooms@.len(),
                self.wf(),
                distinct_views(acc@),
                view_set(acc@) == prefix_encrypted_members(self.rooms@, i as int, user@),
            decreases self.rooms@.len() - i,
        {
            let ghost preacc = acc@;
            let room = &self.rooms[i];
            if room.is_encrypted() && room.contains(user) {
                let members = room.joined_members();
                union_strings(&mut acc, &members);
                proof {
                    assert forall|e: Seq<char>| #[trigger] view_set(acc@).contains(e)
                        implies prefix_encrypted_members(self.rooms@, i as int + 1, user@).contains(
                        e,
                    ) by {
                        if !view_set(preacc).contains(e) {
                            assert(self.rooms@[i as int]@.members.contains(e));
                        }
                    }
                    assert forall|e: Seq<char>|
                        prefix_encrypted_members(self.rooms@, i as int + 1, user@).contains(
                            e,
                        ) implies #[trigger] view_set(acc@).contains(e) by {
                        if e != user@ {
                            let j = choose|j: int|
                                0 <= j < i + 1 && self.rooms@[j]@.encrypted
                                    && self.rooms@[j]@.members.contains(user@)
                                    && self.rooms@[j]@.members.contains(e);
                            if j < i {
                                assert(prefix_encrypted_members(
                                    self.rooms@,
                                    i as int,
                                    user@,
                                ).contains(e));
                            } else {
                                assert(self.rooms@[i as int]@.members.contains(e));
                            }
                        }
                    }
                    assert(view_set(acc@) =~= prefix_encrypted_members(
                        self.rooms@,
                        i as int + 1,
                        user@,
                    ));
                }
            } else {
                proof {
                    assert forall|e: Seq<char>|
                        prefix_encrypted_members(self.rooms@, i as int + 1, user@).contains(
                            e,
                        ) implies #[trigger] view_set(acc@).contains(e) by {
                        if e != user@ {
                            let j = choose|j: int|
                                0 <= j < i + 1 && self.rooms@[j]@.encrypted
                                    && self.rooms@[j]@.members.contains(user@)
                                    && self.rooms@[j]@.members.contains(e);
                            assert(j < i);
                            assert(prefix_encrypted_members(self.rooms@, i as int, user@).contains(
                                e,
                            ));
                        }
                    }
                    assert(view_set(acc@) =~= prefix_encrypted_members(
                        self.rooms@,
                        i as int + 1,
                        user@,
                    ));
                }
            }
            i += 1;
        }
        proof {
            lemma_rooms_map(self.rooms@);
            let n = self.rooms@.len() as int;
            assert forall|e: Seq<char>|
                prefix_encrypted_members(self.rooms@, n, user@).contains(e)
                    implies #[trigger] spec_encrypted_members(self@, user@).contains(e) by {
                if e != user@ {
                    let j = choose|j: int|
                        0 <= j < n && self.rooms@[j]@.encrypted && self.rooms@[j]@.members.contains(
                            user@,
                        ) && self.rooms@[j]@.members.contains(e);
                    let id = self.rooms@[j]@.room_id;
                    assert(self@.dom().contains(id) && self@[id] == self.rooms@[j]@);
                }
            }
            assert forall|e: Seq<char>|
                spec_encrypted_members(self@, user@).contains(e)
                    implies #[trigger] prefix_encrypted_members(self.rooms@, n, user@).contains(
                e,
            ) by {
                if e != user@ {
                    let id = choose|id: Seq<char>|
                        #[trigger] self@.dom().contains(id) && self@[id].encrypted
                            && self@[id].members.contains(user@) && self@[id].members.contains(e);
                    let j = choose|j: int|
                        0 <= j < self.rooms@.len() && self.rooms@[j]@.room_id == id
                            && self.rooms@[j]@ == self@[id];
                    assert(self.rooms@[j]@.members.contains(e));
                }
            }
            assert(view_set(acc@) =~= spec_encrypted_members(self@, user@));
        }
        acc
    }

    /// The recomputed tracked-user sets owed after a change to the room
    /// under `room_id`: one update per appservice-owned joined member.
    pub fn tracking_updates(&self, room_id: &String, as_users: &Vec<String>) -> (r: Vec<
        TrackingUpdate,
    >)
        requires
            self.wf(),
        ensures
            !self@.dom().contains(room_id@) ==> r@.len() == 0,
            self@.dom().contains(room_id@) ==> {
                &&& r@.len() == spec_member_filter(self@[room_id@].members, as_users@).len()
                &&& forall|j: int|
                    0 <= j < r@.len() ==> {
                        &&& (#[trigger] r@[j]).user@ == spec_member_filter(
                            self@[room_id@].members,
                            as_users@,
                        )[j]@
                        &&& distinct_views(r@[j].tracked_users@)
                        &&& view_set(r@[j].tracked_users@) == spec_encrypted_members(self@, r@[j].user@)
                    }
            },
    {
        match self.get(room_id) {
            None => Vec::new(),
            Some(room) => {
                let users = appservice_users(room, as_users);
                let mut r: Vec<TrackingUpdate> = Vec::new();
                let mut i: usize = 0;
                while i < users.len()
                    invariant
                        0 <= i <= users@.len(),
                        self.wf(),
                        r@.len() == i,
                        forall|j: int|
                            0 <= j < i ==> {
                                &&& (#[trigger] r@[j]).user@ == users@[j]@
                                &&& distinct_views(r@[j].tracked_users@)
                                &&& view_set(r@[j].tracked_users@) == spec_encrypted_members(
                                    self@,
                                    r@[j].user@,
                                )
                            },
                    decreases users@.len() - i,
                {
                    let u = users[i].clone();
                    let tracked_users = self.get_encrypted_members(&u);
                    r.push(TrackingUpdate { user: u, tracked_users });
                    i += 1;
                }
                r
            },
        }
    }
}

} // verus!

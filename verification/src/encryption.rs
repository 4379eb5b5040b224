//! Decisions of the encryption layer around the external Olm machine.
//!
//! The Olm machine itself lives outside the library; what is decided here
//! is everything around it: whether a room may be encrypted to at all,
//! who receives the room key, and when the tracked-user set must grow
//! before missing sessions are claimed.

use vstd::prelude::*;

use crate::error::Error;
use crate::paths::send_message_path;
use crate::paths::spec_urlencode;
use crate::room::RoomStore;
use crate::text::distinct_views;
use crate::text::holds_string;
use crate::text::view_set;

verus! {

/// The guard in front of `encrypt_room_event`: encrypting is allowed
/// exactly in a cached room tagged encrypted; an unknown room and an
/// unencrypted room each fail with their own kind.
pub fn encrypt_event_guard(store: &RoomStore, room_id: &String) -> (r: Result<(), Error>)
    requires
        store.wf(),
    ensures
        r is Ok <==> store@.dom().contains(room_id@) && store@[room_id@].encrypted,
        !store@.dom().contains(room_id@) ==> (r matches Err(e) && e matches Error::RoomNotFound(s)
            && s@ == room_id@),
        store@.dom().contains(room_id@) && !store@[room_id@].encrypted ==> (r matches Err(e)
            && e matches Error::RoomNotEncrypted(s) && s@ == room_id@),
{
    match store.get(room_id) {
        None => Err(Error::RoomNotFound(room_id.clone())),
        Some(room) => {
            if room.is_encrypted() {
                Ok(())
            } else {
                Err(Error::RoomNotEncrypted(room_id.clone()))
            }
        },
    }
}

/// The joined members a room key must be shared with; an unknown room
/// cannot be keyed.
pub fn key_share_members(store: &RoomStore, room_id: &String) -> (r: Result<Vec<String>, Error>)
    requires
        store.wf(),
    ensures
        store@.dom().contains(room_id@) ==> (r matches Ok(members)
            && view_set(members@) == store@[room_id@].members && distinct_views(members@)),
        !store@.dom().contains(room_id@) ==> (r matches Err(e) && e matches Error::RoomNotFound(s)
            && s@ == room_id@),
{
    match store.get(room_id) {
        None => Err(Error::RoomNotFound(room_id.clone())),
        Some(room) => Ok(room.joined_members()),
    }
}

/// Whether the tracked-user set must be extended before claiming
/// sessions: true exactly when some room member is not tracked yet.
pub fn tracked_update_needed(members: &Vec<String>, tracked_users: &Vec<String>) -> (r: bool)
    ensures
        r == !view_set(members@).subset_of(view_set(tracked_users@)),
{
    let mut i: usize = 0;
    while i < members.len()
        invariant
            0 <= i <= members@.len(),
            forall|k: int|
                0 <= k < i ==> view_set(tracked_users@).contains(#[trigger] members@[k]@),
        decreases members@.len() - i,
    {
        if !holds_string(tracked_users, &members[i]) {
            proof {
                assert(view_set(members@).contains(members@[i as int]@));
            }
            return true;
        }
        i += 1;
    }
    proof {
        assert forall|e: Seq<char>| #[trigger] view_set(members@).contains(e) implies view_set(
            tracked_users@,
        ).contains(e) by {
            let k = choose|k: int| 0 <= k < members@.len() && members@[k]@ == e;
        }
    }
    false
}

/// The fallback-key list as the Olm machine wants it: an empty list was
/// never pushed and is handed over as absent.
pub fn normalize_fallback_keys(unused_fallback_keys: &Vec<String>) -> (r: Option<&Vec<String>>)
    ensures
        unused_fallback_keys@.len() == 0 <==> r is None,
        r matches Some(v) ==> v@ == unused_fallback_keys@,
{
    if unused_fallback_keys.len() == 0 {
        None
    } else {
        Some(unused_fallback_keys)
    }
}

/// One room message ready to go out: where it goes and whether its
/// content must first pass through the Olm machine.
pub struct SendMessagePlan {
    pub needs_encryption: bool,
    pub message_type: String,
    pub path: String,
}

/// How a message to `room_id` is sent: in an encrypted room the content
/// is encrypted first and goes out as `m.room.encrypted`, in an
/// unencrypted room it goes out in the clear as `m.room.message`; the
/// endpoint carries the urlencoded room id. An unknown room cannot be
/// sent to.
pub fn send_message_plan(store: &RoomStore, room_id: &String, txn_id: &String) -> (r: Result<
    SendMessagePlan,
    Error,
>)
    requires
        store.wf(),
    ensures
        r is Ok <==> store@.dom().contains(room_id@),
        r matches Ok(plan) ==> {
            &&& plan.needs_encryption == store@[room_id@].encrypted
            &&& store@[room_id@].encrypted ==> plan.message_type@ == "m.room.encrypted"@
            &&& !store@[room_id@].encrypted ==> plan.message_type@ == "m.room.message"@
            &&& plan.path@ == "/_matrix/client/v3/rooms/"@ + spec_urlencode(
                vstd::utf8::encode_utf8(room_id@),
            ) + "/send/"@ + plan.message_type@ + "/"@ + txn_id@
        },
        r matches Err(e) ==> e matches Error::RoomNotFound(s) && s@ == room_id@,
{
    match store.get(room_id) {
        None => Err(Error::RoomNotFound(room_id.clone())),
        Some(room) => {
            let needs_encryption = room.is_encrypted();
            let message_type = String::from_str(room.message_type());
            let path = send_message_path(room_id, &message_type, txn_id);
            Ok(SendMessagePlan { needs_encryption, message_type, path })
        },
    }
}

} // verus!

//! Homeserver endpoint paths and masquerading query parameters.
//!
//! Every request the appservice makes is built here from plain values, so
//! each path is pinned down character by character. All paths are
//! well-formed: they start with a slash and splice their arguments in
//! unchanged, except the room id of a send, which is form-urlencoded.

use vstd::prelude::*;

verus! {

/// A byte the form-urlencoding keeps as it stands.
pub open spec fn urlencode_unchanged(b: u8) -> bool {
    (48 <= b && b <= 57) || (65 <= b && b <= 90) || (97 <= b && b <= 122) || b == 42 || b == 45
        || b == 46 || b == 95
}

/// The uppercase hex digit for a value below sixteen.
pub open spec fn spec_hex_upper(x: u8) -> char {
    if x < 10 {
        ((48 + x) as char)
    } else {
        ((55 + x) as char)
    }
}

/// How one byte is form-urlencoded: alphanumerics and `*-._` stand,
/// a space becomes `+`, everything else `%XX` with uppercase hex.
pub open spec fn spec_urlencode_byte(b: u8) -> Seq<char> {
    if urlencode_unchanged(b) {
        seq![b as char]
    } else if b == 32 {
        seq!['+']
    } else {
        seq!['%', spec_hex_upper(b / 16), spec_hex_upper(b % 16)]
    }
}

/// The form-urlencoding of a byte sequence.
pub open spec fn spec_urlencode(bytes: Seq<u8>) -> Seq<char>
    decreases bytes.len(),
{
    if bytes.len() == 0 {
        Seq::<char>::empty()
    } else {
        spec_urlencode_byte(bytes[0]) + spec_urlencode(bytes.drop_first())
    }
}

/// Relies on url's form_urlencoded::byte_serialize: bytes in
/// `[0-9A-Za-z*-._]` pass unchanged, a space becomes `+`, and every other
/// byte becomes `%XX` with uppercase hex digits.
#[verifier::external_body]
pub(crate) fn urlencode(s: &String) -> (r: String)
    ensures
        r@ == spec_urlencode(vstd::utf8::encode_utf8(s@)),
{
    url::form_urlencoded::byte_serialize(s.as_bytes()).collect()
}

/// `base + "/" + name + ".db"`: the crypto store of one device.
pub fn crypto_store_path(base: &String, device_id: &String) -> (r: String)
    ensures
        r@ == base@ + "/"@ + device_id@ + ".db"@,
{
    let r = base.clone().concat("/").concat(device_id.as_str()).concat(".db");
    proof {
        assert(r@ =~= base@ + "/"@ + device_id@ + ".db"@);
    }
    r
}

/// The appservice ping endpoint for this appservice id.
pub fn ping_path(appservice_id: &String) -> (r: String)
    ensures
        r@ == "/_matrix/client/v1/appservice/"@ + appservice_id@ + "/ping"@,
{
    let r = String::from_str("/_matrix/client/v1/appservice/").concat(
        appservice_id.as_str(),
    ).concat("/ping");
    proof {
        assert(r@ =~= "/_matrix/client/v1/appservice/"@ + appservice_id@ + "/ping"@);
    }
    r
}

/// The device-management endpoint for one device.
pub fn device_path(device_id: &String) -> (r: String)
    ensures
        r@ == "/_matrix/client/v3/devices/"@ + device_id@,
{
    String::from_str("/_matrix/client/v3/devices/").concat(device_id.as_str())
}

/// The read-receipt endpoint of one event in one room.
pub fn receipt_path(room_id: &String, event_id: &String) -> (r: String)
    ensures
        r@ == "/_matrix/client/v3/rooms/"@ + room_id@ + "/receipt/m.read/"@ + event_id@,
{
    let r = String::from_str("/_matrix/client/v3/rooms/").concat(room_id.as_str()).concat(
        "/receipt/m.read/",
    ).concat(event_id.as_str());
    proof {
        assert(r@ =~= "/_matrix/client/v3/rooms/"@ + room_id@ + "/receipt/m.read/"@ + event_id@);
    }
    r
}

/// The typing-notification endpoint of one user in one room.
pub fn typing_path(room_id: &String, user_id: &String) -> (r: String)
    ensures
        r@ == "/_matrix/client/v3/rooms/"@ + room_id@ + "/typing/"@ + user_id@,
{
    let r = String::from_str("/_matrix/client/v3/rooms/").concat(room_id.as_str()).concat(
        "/typing/",
    ).concat(user_id.as_str());
    proof {
        assert(r@ =~= "/_matrix/client/v3/rooms/"@ + room_id@ + "/typing/"@ + user_id@);
    }
    r
}

/// The send endpoint of one room: the room id is form-urlencoded, the
/// path starts with a slash and holds no spaces beyond its arguments.
pub fn send_message_path(room_id: &String, message_type: &String, txn_id: &String) -> (r: String)
    ensures
        r@ == "/_matrix/client/v3/rooms/"@ + spec_urlencode(vstd::utf8::encode_utf8(room_id@))
            + "/send/"@ + message_type@ + "/"@ + txn_id@,
{
    let encoded = urlencode(room_id);
    let r = String::from_str("/_matrix/client/v3/rooms/").concat(encoded.as_str()).concat(
        "/send/",
    ).concat(message_type.as_str()).concat("/").concat(txn_id.as_str());
    proof {
        assert(r@ =~= "/_matrix/client/v3/rooms/"@ + spec_urlencode(vstd::utf8::encode_utf8(room_id@))
            + "/send/"@ + message_type@ + "/"@ + txn_id@);
    }
    r
}

/// The to-device send endpoint for one event type and transaction id.
pub fn send_to_device_path(event_type: &String, txn_id: &String) -> (r: String)
    ensures
        r@ == "/_matrix/client/v3/sendToDevice/"@ + event_type@ + "/"@ + txn_id@,
{
    let r = String::from_str("/_matrix/client/v3/sendToDevice/").concat(
        event_type.as_str(),
    ).concat("/").concat(txn_id.as_str());
    proof {
        assert(r@ =~= "/_matrix/client/v3/sendToDevice/"@ + event_type@ + "/"@ + txn_id@);
    }
    r
}

/// The profile endpoint of one user.
pub fn profile_path(user_id: &String) -> (r: String)
    ensures
        r@ == "/_matrix/client/v3/profile/"@ + user_id@,
{
    String::from_str("/_matrix/client/v3/profile/").concat(user_id.as_str())
}

/// The display-name endpoint of one user.
pub fn displayname_path(user_id: &String) -> (r: String)
    ensures
        r@ == "/_matrix/client/v3/profile/"@ + user_id@ + "/displayname"@,
{
    let r = String::from_str("/_matrix/client/v3/profile/").concat(user_id.as_str()).concat(
        "/displayname",
    );
    proof {
        assert(r@ =~= "/_matrix/client/v3/profile/"@ + user_id@ + "/displayname"@);
    }
    r
}

/// The presence endpoint of one user.
pub fn presence_path(user_id: &String) -> (r: String)
    ensures
        r@ == "/_matrix/client/v3/presence/"@ + user_id@ + "/status"@,
{
    let r = String::from_str("/_matrix/client/v3/presence/").concat(user_id.as_str()).concat(
        "/status",
    );
    proof {
        assert(r@ =~= "/_matrix/client/v3/presence/"@ + user_id@ + "/status"@);
    }
    r
}

/// The join endpoint of one room.
pub fn join_path(room_id: &String) -> (r: String)
    ensures
        r@ == "/_matrix/client/v3/rooms/"@ + room_id@ + "/join"@,
{
    let r = String::from_str("/_matrix/client/v3/rooms/").concat(room_id.as_str()).concat("/join");
    proof {
        assert(r@ =~= "/_matrix/client/v3/rooms/"@ + room_id@ + "/join"@);
    }
    r
}

/// The encryption-state endpoint of one room.
pub fn room_encryption_state_path(room_id: &String) -> (r: String)
    ensures
        r@ == "/_matrix/client/v3/rooms/"@ + room_id@ + "/state/m.room.encryption"@,
{
    let r = String::from_str("/_matrix/client/v3/rooms/").concat(room_id.as_str()).concat(
        "/state/m.room.encryption",
    );
    proof {
        assert(r@ =~= "/_matrix/client/v3/rooms/"@ + room_id@ + "/state/m.room.encryption"@);
    }
    r
}

/// The joined-members endpoint of one room.
pub fn joined_members_path(room_id: &String) -> (r: String)
    ensures
        r@ == "/_matrix/client/v3/rooms/"@ + room_id@ + "/joined_members"@,
{
    let r = String::from_str("/_matrix/client/v3/rooms/").concat(room_id.as_str()).concat(
        "/joined_members",
    );
    proof {
        assert(r@ =~= "/_matrix/client/v3/rooms/"@ + room_id@ + "/joined_members"@);
    }
    r
}

/// The event-fetch endpoint of one event in one room.
pub fn room_event_path(room_id: &String, event_id: &String) -> (r: String)
    ensures
        r@ == "/_matrix/client/v3/rooms/"@ + room_id@ + "/event/"@ + event_id@,
{
    let r = String::from_str("/_matrix/client/v3/rooms/").concat(room_id.as_str()).concat(
        "/event/",
    ).concat(event_id.as_str());
    proof {
        assert(r@ =~= "/_matrix/client/v3/rooms/"@ + room_id@ + "/event/"@ + event_id@);
    }
    r
}

/// The message-pagination endpoint of one room.
pub fn room_messages_path(room_id: &String) -> (r: String)
    ensures
        r@ == "/_matrix/client/v3/rooms/"@ + room_id@ + "/messages"@,
{
    let r = String::from_str("/_matrix/client/v3/rooms/").concat(room_id.as_str()).concat(
        "/messages",
    );
    proof {
        assert(r@ =~= "/_matrix/client/v3/rooms/"@ + room_id@ + "/messages"@);
    }
    r
}

/// One query parameter.
pub struct QueryParam {
    pub name: String,
    pub value: String,
}

/// The MSC3202 masquerading parameters of a puppet device: the
/// MSC-prefixed device id first, then the plain user id.
pub fn masquerade_params(user_id: &String, device_id: &String) -> (r: Vec<QueryParam>)
    ensures
        r@.len() == 2,
        r@[0].name@ == "org.matrix.msc3202.device_id"@ && r@[0].value@ == device_id@,
        r@[1].name@ == "user_id"@ && r@[1].value@ == user_id@,
{
    let mut r: Vec<QueryParam> = Vec::new();
    r.push(
        QueryParam {
            name: String::from_str("org.matrix.msc3202.device_id"),
            value: device_id.clone(),
        },
    );
    r.push(QueryParam { name: String::from_str("user_id"), value: user_id.clone() });
    r
}

/// The single `user_id` parameter of an unmasqueraded puppet call.
pub fn user_id_param(user_id: &String) -> (r: Vec<QueryParam>)
    ensures
        r@.len() == 1,
        r@[0].name@ == "user_id"@ && r@[0].value@ == user_id@,
{
    let mut r: Vec<QueryParam> = Vec::new();
    r.push(QueryParam { name: String::from_str("user_id"), value: user_id.clone() });
    r
}

} // verus!

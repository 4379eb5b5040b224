//! The outgoing crypto-request pump.
//!
//! The crypto adapter produces six kinds of outgoing requests. Each kind
//! maps to one homeserver endpoint; every call carries the MSC3202
//! masquerading parameters of the puppet device, and after the homeserver
//! answers, the adapter is told the request was sent. The pump plan turns
//! a whole queue of outgoing requests into exactly one step per request,
//! so a single flush leaves no request behind.

use vstd::prelude::*;

use crate::paths::QueryParam;
use crate::paths::masquerade_params;
use crate::paths::send_message_path;
use crate::paths::send_to_device_path;
use crate::paths::spec_urlencode;

verus! {

/// One outgoing request kind of the crypto adapter.
pub enum OutgoingRequestKind {
    /// Query device keys of tracked users.
    KeysQuery,
    /// Upload this device's keys.
    KeysUpload,
    /// Claim one-time keys to open Olm sessions.
    KeysClaim,
    /// Send encrypted to-device messages.
    ToDevice { event_type: String, txn_id: String },
    /// Upload cross-signing signatures.
    SignatureUpload,
    /// Send a room message on the adapter's behalf.
    RoomMessage { room_id: String, message_type: String, txn_id: String },
}

/// One outgoing request with the adapter-assigned id that `mark_sent`
/// must echo.
pub struct OutgoingRequest {
    pub request_id: String,
    pub kind: OutgoingRequestKind,
}

/// The verb of a pump step.
pub enum HttpMethod {
    Post,
    Put,
}

/// One homeserver call the pump owes, and the duty to mark it sent.
pub struct PumpStep {
    pub request_id: String,
    pub method: HttpMethod,
    pub path: String,
    pub params: Vec<QueryParam>,
    pub mark_sent: bool,
}

/// The endpoint path of an outgoing request kind.
pub open spec fn spec_outgoing_path(k: OutgoingRequestKind) -> Seq<char> {
    match k {
        OutgoingRequestKind::KeysQuery => "/_matrix/client/v3/keys/query"@,
        OutgoingRequestKind::KeysUpload => "/_matrix/client/v3/keys/upload"@,
        OutgoingRequestKind::KeysClaim => "/_matrix/client/v3/keys/claim"@,
        OutgoingRequestKind::ToDevice { event_type, txn_id } => "/_matrix/client/v3/sendToDevice/"@
            + event_type@ + "/"@ + txn_id@,
        OutgoingRequestKind::SignatureUpload => "/_matrix/client/v3/keys/signatures/upload"@,
        OutgoingRequestKind::RoomMessage { room_id, message_type, txn_id } => {
            "/_matrix/client/v3/rooms/"@ + spec_urlencode(vstd::utf8::encode_utf8(room_id@))
                + "/send/"@ + message_type@ + "/"@ + txn_id@
        },
    }
}

/// The verb of an outgoing request kind: sends are PUT, key operations
/// are POST.
pub open spec fn spec_outgoing_method(k: OutgoingRequestKind) -> HttpMethod {
    match k {
        OutgoingRequestKind::ToDevice { .. } => HttpMethod::Put,
        OutgoingRequestKind::RoomMessage { .. } => HttpMethod::Put,
        _ => HttpMethod::Post,
    }
}

/// A step discharges its request: same id, the kind's endpoint and verb,
/// the device's masquerading parameters, and the duty to mark it sent.
pub open spec fn step_discharges(
    step: PumpStep,
    req: OutgoingRequest,
    user_id: Seq<char>,
    device_id: Seq<char>,
) -> bool {
    &&& step.request_id@ == req.request_id@
    &&& step.method == spec_outgoing_method(req.kind)
    &&& step.path@ == spec_outgoing_path(req.kind)
    &&& step.params@.len() == 2
    &&& step.params@[0].name@ == "org.matrix.msc3202.device_id"@
    &&& step.params@[0].value@ == device_id
    &&& step.params@[1].name@ == "user_id"@
    &&& step.params@[1].value@ == user_id
    &&& step.mark_sent
}

/// Translates one outgoing request into its homeserver call.
pub fn process_outgoing_request(
    request: &OutgoingRequest,
    user_id: &String,
    device_id: &String,
) -> (r: PumpStep)
    ensures
        step_discharges(r, *request, user_id@, device_id@),
{
    let path = match &request.kind {
        OutgoingRequestKind::KeysQuery => String::from_str("/_matrix/client/v3/keys/query"),
        OutgoingRequestKind::KeysUpload => String::from_str("/_matrix/client/v3/keys/upload"),
        OutgoingRequestKind::KeysClaim => String::from_str("/_matrix/client/v3/keys/claim"),
        OutgoingRequestKind::ToDevice { event_type, txn_id } => send_to_device_path(
            event_type,
            txn_id,
        ),
        OutgoingRequestKind::SignatureUpload => String::from_str(
            "/_matrix/client/v3/keys/signatures/upload",
        ),
        OutgoingRequestKind::RoomMessage { room_id, message_type, txn_id } => send_message_path(
            room_id,
            message_type,
            txn_id,
        ),
    };
    let method = match &request.kind {
        OutgoingRequestKind::ToDevice { .. } => HttpMethod::Put,
        OutgoingRequestKind::RoomMessage { .. } => HttpMethod::Put,
        _ => HttpMethod::Post,
    };
    PumpStep {
        request_id: request.request_id.clone(),
        method,
        path,
        params: masquerade_params(user_id, device_id),
        mark_sent: true,
    }
}

/// One flush drains the whole queue: every outgoing request gets exactly
/// one step, in order, and every step ends by marking its request sent.
pub fn pump_plan(requests: &Vec<OutgoingRequest>, user_id: &String, device_id: &String) -> (r: Vec<
    PumpStep,
>)
    ensures
        r@.len() == requests@.len(),
        forall|k: int|
            0 <= k < r@.len() ==> step_discharges(#[trigger] r@[k], requests@[k], user_id@, device_id@),
{
    let mut r: Vec<PumpStep> = Vec::new();
    let mut i: usize = 0;
    while i < requests.len()
        invariant
            0 <= i <= requests@.len(),
            r@.len() == i,
            forall|k: int|
                0 <= k < i ==> step_discharges(#[trigger] r@[k], requests@[k], user_id@, device_id@),
        decreases requests@.len() - i,
    {
        let step = process_outgoing_request(&requests[i], user_id, device_id);
        r.push(step);
        i += 1;
    }
    r
}

} // verus!

//! The HTTP surface: authentication, routing and canonical responses.
//!
//! Every response body the appservice emits is either the empty JSON
//! object or the canonical error shape
//! `{"errcode":"NL.SPACEBASED.<ID>_<REASON>"}`, where `<ID>` is the
//! uppercased appservice id and `<REASON>` the uppercased, underscored
//! reason of the status code. The bearer-token guard sits in front of every
//! route and decides before any handler runs.

use vstd::prelude::*;

use crate::text::ascii_upper;
use crate::text::spec_ascii_upper;
use crate::text::str_eq;

verus! {

/// The uppercased, underscored reason phrase of a status code the
/// appservice emits; other codes fall back to a fixed marker.
pub open spec fn spec_reason_upper(status: u16) -> Seq<char> {
    if status == 200 {
        "OK"@
    } else if status == 400 {
        "BAD_REQUEST"@
    } else if status == 401 {
        "UNAUTHORIZED"@
    } else if status == 403 {
        "FORBIDDEN"@
    } else if status == 404 {
        "NOT_FOUND"@
    } else if status == 500 {
        "INTERNAL_SERVER_ERROR"@
    } else if status == 501 {
        "NOT_IMPLEMENTED"@
    } else {
        "UNKNOWN_ERROR_CODE"@
    }
}

/// The reason phrase for `status`, uppercased with underscores.
pub fn reason_upper(status: u16) -> (r: &'static str)
    ensures
        r@ == spec_reason_upper(status),
{
    if status == 200 {
        "OK"
    } else if status == 400 {
        "BAD_REQUEST"
    } else if status == 401 {
        "UNAUTHORIZED"
    } else if status == 403 {
        "FORBIDDEN"
    } else if status == 404 {
        "NOT_FOUND"
    } else if status == 500 {
        "INTERNAL_SERVER_ERROR"
    } else if status == 501 {
        "NOT_IMPLEMENTED"
    } else {
        "UNKNOWN_ERROR_CODE"
    }
}

/// The canonical error code for this appservice and status.
pub open spec fn spec_errcode(id: Seq<char>, status: u16) -> Seq<char> {
    "NL.SPACEBASED."@ + spec_ascii_upper(id) + "_"@ + spec_reason_upper(status)
}

/// The canonical error code, `NL.SPACEBASED.<ID>_<REASON>`.
pub fn errcode(appservice_id: &String, status: u16) -> (r: String)
    ensures
        r@ == spec_errcode(appservice_id@, status),
{
    let upper_id = ascii_upper(appservice_id);
    let r = String::from_str("NL.SPACEBASED.").concat(upper_id.as_str()).concat("_").concat(
        reason_upper(status),
    );
    proof {
        assert(r@ =~= spec_errcode(appservice_id@, status));
    }
    r
}

/// The canonical error body for this appservice and status.
pub open spec fn spec_error_body(id: Seq<char>, status: u16) -> Seq<char> {
    "{\"errcode\":\""@ + spec_errcode(id, status) + "\"}"@
}

/// The error response, status plus canonical JSON body.
pub fn create_error_response(appservice_id: &String, status: u16) -> (r: (u16, String))
    ensures
        r.0 == status,
        r.1@ == spec_error_body(appservice_id@, status),
{
    let code = errcode(appservice_id, status);
    let body = String::from_str("{\"errcode\":\"").concat(code.as_str()).concat("\"}");
    proof {
        assert(body@ =~= spec_error_body(appservice_id@, status));
    }
    (status, body)
}

/// Whether the bearer token the homeserver presented is the configured
/// `hs_token`.
pub fn is_autorized(token: &String, hs_token: &String) -> (r: bool)
    ensures
        r == (token@ == hs_token@),
{
    str_eq(token, hs_token)
}

/// The authentication guard in front of every route: a request without the
/// exact `hs_token` as bearer credential is answered with 401 and the
/// canonical error body, and reaches no handler.
pub fn authorize(bearer: Option<&String>, hs_token: &String, appservice_id: &String) -> (r: Option<
    (u16, String),
>)
    ensures
        match bearer {
            Some(t) => t@ == hs_token@ <==> r is None,
            None => r is Some,
        },
        r matches Some(resp) ==> resp.0 == 401 && resp.1@ == spec_error_body(appservice_id@, 401),
{
    match bearer {
        Some(token) => {
            if is_autorized(token, hs_token) {
                None
            } else {
                Some(create_error_response(appservice_id, 401))
            }
        },
        None => Some(create_error_response(appservice_id, 401)),
    }
}

/// The response to a ping: success with an empty object.
pub fn handle_ping() -> (r: (u16, String))
    ensures
        r.0 == 200,
        r.1@ == "{}"@,
{
    (200, String::from_str("{}"))
}

/// Where a request lands once it is authenticated.
pub enum RouteKind {
    /// `PUT /_matrix/app/v1/transactions/{txn_id}`.
    Transactions(String),
    /// `POST /_matrix/app/v1/ping`.
    Ping,
    /// A known route that is deliberately not implemented.
    NotImplemented,
    /// Anything else.
    Fallback,
}

/// Whether a string equals a literal.
fn eq_lit(a: &String, lit: &str) -> (r: bool)
    ensures
        r == (a@ == lit@),
{
    let l = String::from_str(lit);
    str_eq(a, &l)
}

/// Routes a request from its method and its slash-separated path
/// segments, as the HTTP listener hands them over.
pub fn route_for(method: &String, segments: &Vec<String>) -> (r: RouteKind)
    ensures
        segments@.len() == 5 && method@ == "PUT"@ && segments@[0]@ == "_matrix"@ && segments@[1]@
            == "app"@ && segments@[2]@ == "v1"@ && segments@[3]@ == "transactions"@ ==> (r matches
            RouteKind::Transactions(t) && t@ == segments@[4]@),
        segments@.len() == 4 && method@ == "POST"@ && segments@[0]@ == "_matrix"@ && segments@[1]@
            == "app"@ && segments@[2]@ == "v1"@ && segments@[3]@ == "ping"@ ==> r is Ping,
        segments@.len() == 5 && method@ == "GET"@ && segments@[0]@ == "_matrix"@ && segments@[1]@
            == "app"@ && segments@[2]@ == "v1"@ && (segments@[3]@ == "users"@ || segments@[3]@
            == "rooms"@) ==> r is NotImplemented,
        5 <= segments@.len() <= 6 && method@ == "GET"@ && segments@[0]@ == "_matrix"@
            && segments@[1]@ == "app"@ && segments@[2]@ == "v1"@ && segments@[3]@ == "thirdparty"@
            && (segments@[4]@ == "location"@ || segments@[4]@ == "protocol"@ || segments@[4]@
            == "user"@) ==> r is NotImplemented,
        segments@.len() < 3 ==> r is Fallback,
        segments@.len() >= 3 && !(segments@[0]@ == "_matrix"@ && segments@[1]@ == "app"@
            && segments@[2]@ == "v1"@) ==> r is Fallback,
    {
    proof {
        reveal_strlit("GET");
        reveal_strlit("PUT");
        reveal_strlit("POST");
        reveal_strlit("transactions");
        reveal_strlit("ping");
        assert("GET"@[0] == 'G' && "PUT"@[0] == 'P');
        assert("POST"@.len() == 4 && "GET"@.len() == 3 && "PUT"@.len() == 3);
        assert("transactions"@.len() == 12 && "ping"@.len() == 4);
    }
    if segments.len() >= 3 && eq_lit(&segments[0], "_matrix") && eq_lit(&segments[1], "app")
        && eq_lit(&segments[2], "v1") {
        if segments.len() == 5 && eq_lit(method, "PUT") && eq_lit(&segments[3], "transactions") {
            return RouteKind::Transactions(segments[4].clone());
        }
        if segments.len() == 4 && eq_lit(method, "POST") && eq_lit(&segments[3], "ping") {
            return RouteKind::Ping;
        }
        if eq_lit(method, "GET") {
            if segments.len() == 5 && (eq_lit(&segments[3], "users") || eq_lit(
                &segments[3],
                "rooms",
            )) {
                return RouteKind::NotImplemented;
            }
            if segments.len() >= 5 && segments.len() <= 6 && eq_lit(&segments[3], "thirdparty") {
                if eq_lit(&segments[4], "location") || eq_lit(&segments[4], "protocol") || eq_lit(
                    &segments[4],
                    "user",
                ) {
                    return RouteKind::NotImplemented;
                }
            }
        }
    }
    RouteKind::Fallback
}

} // verus!

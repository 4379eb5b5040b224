use masquerade_sdk::server::authorize;
use masquerade_sdk::server::create_error_response;
use masquerade_sdk::server::errcode;
use masquerade_sdk::server::handle_ping;
use masquerade_sdk::server::is_autorized;
use masquerade_sdk::server::reason_upper;
use masquerade_sdk::server::route_for;
use masquerade_sdk::server::RouteKind;
use masquerade_sdk::text::ascii_upper;

fn segments(path: &str) -> Vec<String> {
    path.trim_start_matches('/').split('/').map(|s| s.to_string()).collect()
}

#[test]
fn reason_phrases_are_upper_snake() {
    assert_eq!(reason_upper(200), "OK");
    assert_eq!(reason_upper(400), "BAD_REQUEST");
    assert_eq!(reason_upper(401), "UNAUTHORIZED");
    assert_eq!(reason_upper(403), "FORBIDDEN");
    assert_eq!(reason_upper(404), "NOT_FOUND");
    assert_eq!(reason_upper(500), "INTERNAL_SERVER_ERROR");
    assert_eq!(reason_upper(501), "NOT_IMPLEMENTED");
    assert_eq!(reason_upper(418), "UNKNOWN_ERROR_CODE");
}

#[test]
fn errcode_uppercases_the_appservice_id() {
    let id = String::from("spacebridge");
    assert_eq!(errcode(&id, 401), "NL.SPACEBASED.SPACEBRIDGE_UNAUTHORIZED");
    assert_eq!(errcode(&id, 501), "NL.SPACEBASED.SPACEBRIDGE_NOT_IMPLEMENTED");
}

#[test]
fn error_response_has_canonical_body() {
    let id = String::from("bridge");
    let (status, body) = create_error_response(&id, 401);
    assert_eq!(status, 401);
    assert_eq!(body, "{\"errcode\":\"NL.SPACEBASED.BRIDGE_UNAUTHORIZED\"}");
    let (status, body) = create_error_response(&id, 501);
    assert_eq!(status, 501);
    assert_eq!(body, "{\"errcode\":\"NL.SPACEBASED.BRIDGE_NOT_IMPLEMENTED\"}");
}

#[test]
fn ascii_upper_keeps_non_letters() {
    assert_eq!(ascii_upper(&String::from("bridge-2.app_x")), "BRIDGE-2.APP_X");
    assert_eq!(ascii_upper(&String::from("ALREADY")), "ALREADY");
}

#[test]
fn non_ascii_id_is_left_unchanged() {
    assert_eq!(ascii_upper(&String::from("brücke")), "brücke");
}

#[test]
fn auth_guard_accepts_only_the_hs_token() {
    let hs = String::from("secret");
    let id = String::from("bridge");
    let right = String::from("secret");
    let wrong = String::from("wrong");
    assert!(is_autorized(&right, &hs));
    assert!(!is_autorized(&wrong, &hs));
    assert!(authorize(Some(&right), &hs, &id).is_none());
    let rejected = authorize(Some(&wrong), &hs, &id).unwrap();
    assert_eq!(rejected.0, 401);
    assert_eq!(rejected.1, "{\"errcode\":\"NL.SPACEBASED.BRIDGE_UNAUTHORIZED\"}");
    let missing = authorize(None, &hs, &id).unwrap();
    assert_eq!(missing.0, 401);
}

#[test]
fn ping_answers_empty_object() {
    let (status, body) = handle_ping();
    assert_eq!(status, 200);
    assert_eq!(body, "{}");
}

#[test]
fn transactions_route_extracts_the_txn_id() {
    let method = String::from("PUT");
    let segs = segments("/_matrix/app/v1/transactions/t1");
    match route_for(&method, &segs) {
        RouteKind::Transactions(txn) => assert_eq!(txn, "t1"),
        _ => panic!("expected the transactions route"),
    }
}

#[test]
fn ping_route_is_post_only() {
    let segs = segments("/_matrix/app/v1/ping");
    assert!(matches!(route_for(&String::from("POST"), &segs), RouteKind::Ping));
    assert!(matches!(route_for(&String::from("GET"), &segs), RouteKind::Fallback));
}

#[test]
fn thirdparty_routes_are_not_implemented() {
    let get = String::from("GET");
    assert!(matches!(
        route_for(&get, &segments("/_matrix/app/v1/thirdparty/user")),
        RouteKind::NotImplemented
    ));
    assert!(matches!(
        route_for(&get, &segments("/_matrix/app/v1/thirdparty/location/irc")),
        RouteKind::NotImplemented
    ));
    assert!(matches!(
        route_for(&get, &segments("/_matrix/app/v1/users/@u:h")),
        RouteKind::NotImplemented
    ));
    assert!(matches!(
        route_for(&get, &segments("/_matrix/app/v1/rooms/alias")),
        RouteKind::NotImplemented
    ));
}

#[test]
fn unknown_routes_fall_back() {
    assert!(matches!(
        route_for(&String::from("GET"), &segments("/_matrix/app/v1/unknown")),
        RouteKind::Fallback
    ));
    assert!(matches!(
        route_for(&String::from("GET"), &segments("/health")),
        RouteKind::Fallback
    ));
}

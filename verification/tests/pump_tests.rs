use masquerade_sdk::paths::crypto_store_path;
use masquerade_sdk::paths::masquerade_params;
use masquerade_sdk::paths::receipt_path;
use masquerade_sdk::paths::send_message_path;
use masquerade_sdk::pump::pump_plan;
use masquerade_sdk::pump::process_outgoing_request;
use masquerade_sdk::pump::HttpMethod;
use masquerade_sdk::pump::OutgoingRequest;
use masquerade_sdk::pump::OutgoingRequestKind;

#[test]
fn send_path_urlencodes_the_room_id() {
    let path = send_message_path(
        &"!r:h".to_string(),
        &"m.room.message".to_string(),
        &"txn1".to_string(),
    );
    assert_eq!(path, "/_matrix/client/v3/rooms/%21r%3Ah/send/m.room.message/txn1");
    assert!(path.starts_with('/'));

    let spaced = send_message_path(
        &"a b*x.y".to_string(),
        &"m.room.message".to_string(),
        &"t".to_string(),
    );
    assert_eq!(spaced, "/_matrix/client/v3/rooms/a+b*x.y/send/m.room.message/t");
}

#[test]
fn receipt_path_holds_room_and_event() {
    assert_eq!(
        receipt_path(&"!r:h".to_string(), &"$e1".to_string()),
        "/_matrix/client/v3/rooms/!r:h/receipt/m.read/$e1"
    );
}

#[test]
fn crypto_store_is_one_file_per_device() {
    assert_eq!(
        crypto_store_path(&"/var/lib/bridge".to_string(), &"D1".to_string()),
        "/var/lib/bridge/D1.db"
    );
}

#[test]
fn masquerade_parameters_name_the_puppet_device() {
    let params = masquerade_params(&"@p1:h".to_string(), &"D1".to_string());
    assert_eq!(params.len(), 2);
    assert_eq!(params[0].name, "org.matrix.msc3202.device_id");
    assert_eq!(params[0].value, "D1");
    assert_eq!(params[1].name, "user_id");
    assert_eq!(params[1].value, "@p1:h");
}

#[test]
fn each_request_kind_routes_to_its_endpoint() {
    let user = "@p1:h".to_string();
    let device = "D1".to_string();
    let cases: Vec<(OutgoingRequestKind, &str, bool)> = vec![
        (OutgoingRequestKind::KeysQuery, "/_matrix/client/v3/keys/query", false),
        (OutgoingRequestKind::KeysUpload, "/_matrix/client/v3/keys/upload", false),
        (OutgoingRequestKind::KeysClaim, "/_matrix/client/v3/keys/claim", false),
        (
            OutgoingRequestKind::SignatureUpload,
            "/_matrix/client/v3/keys/signatures/upload",
            false,
        ),
        (
            OutgoingRequestKind::ToDevice {
                event_type: "m.room.encrypted".to_string(),
                txn_id: "t1".to_string(),
            },
            "/_matrix/client/v3/sendToDevice/m.room.encrypted/t1",
            true,
        ),
        (
            OutgoingRequestKind::RoomMessage {
                room_id: "!r:h".to_string(),
                message_type: "m.room.message".to_string(),
                txn_id: "t2".to_string(),
            },
            "/_matrix/client/v3/rooms/%21r%3Ah/send/m.room.message/t2",
            true,
        ),
    ];
    for (kind, path, is_put) in cases {
        let request = OutgoingRequest { request_id: "r1".to_string(), kind };
        let step = process_outgoing_request(&request, &user, &device);
        assert_eq!(step.path, path);
        assert_eq!(step.request_id, "r1");
        assert!(step.mark_sent);
        match step.method {
            HttpMethod::Put => assert!(is_put),
            HttpMethod::Post => assert!(!is_put),
        }
        assert_eq!(step.params[0].value, "D1");
        assert_eq!(step.params[1].value, "@p1:h");
    }
}

#[test]
fn the_pump_drains_the_whole_queue_in_order() {
    let user = "@p1:h".to_string();
    let device = "D1".to_string();
    let requests = vec![
        OutgoingRequest { request_id: "a".to_string(), kind: OutgoingRequestKind::KeysUpload },
        OutgoingRequest { request_id: "b".to_string(), kind: OutgoingRequestKind::KeysQuery },
        OutgoingRequest { request_id: "c".to_string(), kind: OutgoingRequestKind::KeysClaim },
    ];
    let plan = pump_plan(&requests, &user, &device);
    assert_eq!(plan.len(), 3);
    let ids: Vec<&str> = plan.iter().map(|s| s.request_id.as_str()).collect();
    assert_eq!(ids, vec!["a", "b", "c"]);
    assert!(plan.iter().all(|s| s.mark_sent));
}

#[test]
fn an_empty_queue_needs_no_step() {
    let plan = pump_plan(&Vec::new(), &"@p1:h".to_string(), &"D1".to_string());
    assert!(plan.is_empty());
}

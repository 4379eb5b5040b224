use masquerade_sdk::registration::build_registration;
use masquerade_sdk::registration::is_valid_mxid;
use masquerade_sdk::registration::make_mxid;
use masquerade_sdk::types::Appservice;
use masquerade_sdk::types::Config;
use masquerade_sdk::types::Database;
use masquerade_sdk::types::Homeserver;

fn config(url: &str) -> Config {
    Config {
        homeserver: Homeserver {
            server_name: "example.org".to_string(),
            url: "https://matrix.example.org".to_string(),
        },
        appservice: Appservice {
            url: url.to_string(),
            bind_ip: "127.0.0.1".to_string(),
            port: 8010,
            id: "bridge".to_string(),
            username: "bot".to_string(),
            displayname: "Bridge Bot".to_string(),
            as_token: "SECRET-REDACTED".to_string(),
            hs_token: "SECRET-REDACTED".to_string(),
        },
        database: Database { path: "/var/lib/bridge".to_string(), passphrase: "p".to_string() },
    }
}

#[test]
fn mxid_is_assembled_from_localpart_and_server() {
    assert_eq!(
        make_mxid(&"bot".to_string(), &"example.org".to_string()),
        "@bot:example.org"
    );
}

#[test]
fn mxid_shape_is_checked() {
    assert!(is_valid_mxid(&"@bot:example.org".to_string()));
    assert!(is_valid_mxid(&"@a:b".to_string()));
    assert!(!is_valid_mxid(&"bot:example.org".to_string()));
    assert!(!is_valid_mxid(&"@:example.org".to_string()));
    assert!(!is_valid_mxid(&"@bot:".to_string()));
    assert!(!is_valid_mxid(&"@bot".to_string()));
    assert!(!is_valid_mxid(&"".to_string()));
}

#[test]
fn registration_pins_every_field() {
    let reg = build_registration(&config("https://bridge.example.org")).unwrap();
    assert_eq!(reg.id, "bridge");
    assert_eq!(reg.url, "https://bridge.example.org:8010/");
    assert_eq!(reg.as_token, "SECRET-REDACTED");
    assert_eq!(reg.hs_token, "SECRET-REDACTED");
    assert_eq!(reg.sender_localpart, "bot");
    assert_eq!(reg.rate_limited, Some(false));
    assert!(reg.protocols.is_none());
    assert_eq!(reg.receive_ephemeral, Some(true));
    assert_eq!(reg.device_masquerading, Some(true));
    assert_eq!(reg.device_management, Some(true));
    assert!(reg.namespaces.aliases.is_empty());
    assert!(reg.namespaces.rooms.is_empty());
    assert_eq!(reg.namespaces.users.len(), 1);
    assert!(reg.namespaces.users[0].exclusive);
}

#[test]
fn namespace_regex_is_escaped_and_anchored() {
    let reg = build_registration(&config("https://bridge.example.org")).unwrap();
    assert_eq!(reg.namespaces.users[0].regex, "^@bot:example\\.org$");
}

#[test]
fn url_that_cannot_carry_a_port_is_rejected() {
    let r = build_registration(&config("data:text/plain,x"));
    assert!(matches!(r, Err(masquerade_sdk::error::Error::Other(_))));
    let unparsable = build_registration(&config("not a url"));
    assert!(unparsable.is_err());
}

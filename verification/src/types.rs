//! Plain data carried between the appservice core and its surroundings.
//!
//! Everything here is ordinary data: configuration read at startup, bodies
//! of homeserver requests and responses, and the registration document.
//! Values cross the library boundary as strings, integers and vectors; the
//! process around the library does the actual parsing and serialising.

use vstd::prelude::*;

verus! {

/// Marker for an application service that carries no user state.
pub struct NoState;

/// User-supplied shared state carried alongside the application service.
pub struct State<S>(pub S);

/// Marker for a builder that has no configuration source yet.
pub struct NoConfig;

/// An empty JSON object in a response body.
pub struct Empty {}

/// The homeserver the appservice talks to.
pub struct Homeserver {
    pub server_name: String,
    pub url: String,
}

/// The appservice's own identity and listen configuration.
pub struct Appservice {
    pub url: String,
    pub bind_ip: String,
    pub port: u16,
    pub id: String,
    pub username: String,
    pub displayname: String,
    pub as_token: String,
    pub hs_token: String,
}

/// Where the per-device crypto stores live and how they are encrypted.
pub struct Database {
    pub path: String,
    pub passphrase: String,
}

/// The full configuration, immutable after load.
pub struct Config {
    pub homeserver: Homeserver,
    pub appservice: Appservice,
    pub database: Database,
}

/// One namespace pattern of the registration document.
pub struct NamespaceEntry {
    pub exclusive: bool,
    pub regex: String,
}

/// The namespaces the appservice claims.
pub struct Namespaces {
    pub users: Vec<NamespaceEntry>,
    pub aliases: Vec<NamespaceEntry>,
    pub rooms: Vec<NamespaceEntry>,
}

/// The registration document handed to the homeserver.
pub struct Registration {
    pub id: String,
    pub url: String,
    pub as_token: String,
    pub hs_token: String,
    pub sender_localpart: String,
    pub namespaces: Namespaces,
    pub rate_limited: Option<bool>,
    pub protocols: Option<Vec<String>>,
    pub receive_ephemeral: Option<bool>,
    pub device_masquerading: Option<bool>,
    pub device_management: Option<bool>,
}

/// Device-list deltas pushed by the homeserver.
pub struct DeviceList {
    pub changed: Vec<String>,
    pub left: Vec<String>,
}

/// The body of an appservice ping.
pub struct Ping {
    pub transaction_id: String,
}

/// The homeserver's answer to a ping.
pub struct PingResponse {
    pub duration_ms: u32,
}

/// The body that creates or renames a device.
pub struct CreateDeviceRequest {
    pub display_name: Option<String>,
}

/// A presence update for one user.
pub struct Presence {
    pub presence: String,
    pub status_msg: Option<String>,
}

/// A user's profile as the homeserver reports it.
pub struct Profile {
    pub avatar_url: Option<String>,
    pub displayname: Option<String>,
}

/// The answer to a room-send request.
pub struct SendResponse {
    pub event_id: String,
}

/// The rooms a user is joined to.
pub struct JoinedRoomResponse {
    pub joined_rooms: Vec<String>,
}

} // verus!

//! Core of a Matrix application-service SDK with MSC3202 device masquerading.
//!
//! The crate models the stateful heart of an appservice: the room and user
//! caches, the per-transaction dedup log, the typed event-handler registry,
//! the per-device sync-loop state machine and the outgoing crypto-request
//! pump. Every operation carries a contract over a mathematical view of the
//! state; the surrounding HTTP server, the homeserver client and the Olm
//! machine live outside the crate and exchange plain values with it.

pub mod appservice;
pub mod builder;
pub mod device;
pub mod encryption;
pub mod error;
pub mod paths;
pub mod pump;
pub mod registration;
pub mod registry;
pub mod room;
pub mod server;
pub mod text;
pub mod transaction;
pub mod types;
pub mod user;

//! The error surface of the library.
//!
//! Errors are an enumerated kind with a plain-text payload. The surrounding
//! process maps transport and store failures into the matching kind before
//! handing values to the library, and reads `message` for its logs.

use vstd::prelude::*;

verus! {

/// One kind per failure class the appservice core distinguishes.
#[derive(Debug)]
pub enum Error {
    /// Reading or writing a local file failed.
    Io(String),
    /// A configuration document did not parse.
    Config(String),
    /// An HTTP request failed at the transport level.
    Http(String),
    /// The homeserver answered with a non-success status.
    HomeserverStatus(u16, String),
    /// A Matrix identifier did not parse.
    IdParse(String),
    /// The persistent crypto store failed.
    CryptoStore(String),
    /// The Olm machine failed.
    Olm(String),
    /// Decrypting a Megolm event failed.
    Megolm(String),
    /// A child entity outlived its parent application service.
    UpgradeError(String),
    /// The room is not in the cache.
    RoomNotFound(String),
    /// The room is known but not tagged encrypted.
    RoomNotEncrypted(String),
    /// The user is not in the cache.
    UserNotFound(String),
    /// The user has no device in its slot.
    NoDevice(String),
    /// A handler was registered for an event without a type.
    EventType(String),
    /// No device could decrypt an incoming event.
    DecryptEvent(String),
    /// A second sync loop was started on a running device.
    MultipleSync(String),
    /// A channel send failed because the receiver is gone.
    Send(String),
    /// A background task failed to join.
    Async(String),
    /// Any other failure.
    Other(String),
}

/// The log line that `message` produces for `e`.
pub open spec fn spec_message(e: Error) -> Seq<char> {
    match e {
        Error::Io(s) => "IO error: "@ + s@,
        Error::Config(s) => "Error while parsing configuration: "@ + s@,
        Error::Http(s) => "HTTP error: "@ + s@,
        Error::HomeserverStatus(_, s) => "Unexpected response: "@ + s@,
        Error::IdParse(s) => "Id parse error: "@ + s@,
        Error::CryptoStore(s) => "Error occurred with the crypto store: "@ + s@,
        Error::Olm(s) => "Error occurred within the olm machine: "@ + s@,
        Error::Megolm(s) => "Error occurred while decrypting event: "@ + s@,
        Error::UpgradeError(s) => "Parent container not found: "@ + s@,
        Error::RoomNotFound(s) => "No such room: "@ + s@,
        Error::RoomNotEncrypted(s) => "Cannot encrypt event. Room is not encrypted: "@ + s@,
        Error::UserNotFound(s) => "No such user: "@ + s@,
        Error::NoDevice(s) => "No device for user: "@ + s@,
        Error::EventType(s) => "Error adding event handler, unknown type: "@ + s@,
        Error::DecryptEvent(s) => "Unable to decrypt incoming event: "@ + s@,
        Error::MultipleSync(s) => "Attempting to run multiple sync loops. This is not allowed: "@
            + s@,
        Error::Send(s) => "Error sending synchronization task: "@ + s@,
        Error::Async(s) => "Error running sync loop: "@ + s@,
        Error::Other(s) => "Unexpected error: "@ + s@,
    }
}

impl Error {
    /// A human-readable description, prefix plus payload.
    pub fn message(&self) -> (r: String)
        ensures
            r@ == spec_message(*self),
    {
        match self {
            Error::Io(s) => String::from_str("IO error: ").concat(s.as_str()),
            Error::Config(s) => String::from_str("Error while parsing configuration: ").concat(
                s.as_str(),
            ),
            Error::Http(s) => String::from_str("HTTP error: ").concat(s.as_str()),
            Error::HomeserverStatus(_, s) => String::from_str("Unexpected response: ").concat(
                s.as_str(),
            ),
            Error::IdParse(s) => String::from_str("Id parse error: ").concat(s.as_str()),
            Error::CryptoStore(s) => String::from_str(
                "Error occurred with the crypto store: ",
            ).concat(s.as_str()),
            Error::Olm(s) => String::from_str("Error occurred within the olm machine: ").concat(
                s.as_str(),
            ),
            Error::Megolm(s) => String::from_str(
                "Error occurred while decrypting event: ",
            ).concat(s.as_str()),
            Error::UpgradeError(s) => String::from_str("Parent container not found: ").concat(
                s.as_str(),
            ),
            Error::RoomNotFound(s) => String::from_str("No such room: ").concat(s.as_str()),
            Error::RoomNotEncrypted(s) => String::from_str(
                "Cannot encrypt event. Room is not encrypted: ",
            ).concat(s.as_str()),
            Error::UserNotFound(s) => String::from_str("No such user: ").concat(s.as_str()),
            Error::NoDevice(s) => String::from_str("No device for user: ").concat(s.as_str()),
            Error::EventType(s) => String::from_str(
                "Error adding event handler, unknown type: ",
            ).concat(s.as_str()),
            Error::DecryptEvent(s) => String::from_str(
                "Unable to decrypt incoming event: ",
            ).concat(s.as_str()),
            Error::MultipleSync(s) => String::from_str(
                "Attempting to run multiple sync loops. This is not allowed: ",
            ).concat(s.as_str()),
            Error::Send(s) => String::from_str("Error sending synchronization task: ").concat(
                s.as_str(),
            ),
            Error::Async(s) => String::from_str("Error running sync loop: ").concat(s.as_str()),
            Error::Other(s) => String::from_str("Unexpected error: ").concat(s.as_str()),
        }
    }
}

} // verus!

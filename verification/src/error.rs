//! Errors of the handshake.

use core::num::ParseIntError;
use vstd::prelude::*;

verus! {

/// What can be wrong with an attempt to open a WebSocket.
#[derive(Debug)]
pub enum WebsocketError {
    /// The request is not one to open a WebSocket.
    InvalidWebsocketRequest,
    /// The request names no revision of the protocol.
    MissingRevisionNumber,
    /// The revision is not the supported one.
    InvalidRevision(u16),
    /// The revision is not a number.
    RevisionParsingError(ParseIntError),
    /// The request has no `Upgrade` field.
    MissingUpgradeField,
    /// The `Upgrade` field asks for something else.
    InvalidUpgradeField(String),
    /// The request has no `Connection` field.
    MissingConnectionField,
    /// The `Connection` field asks for something else.
    InvalidConnectionField(String),
    /// The request has no key.
    MissingKeyField,
    /// The request names no subprotocol.
    MissingProtocolField,
    /// The client's data is not masked.
    DataIsNotMasked,
}

impl From<ParseIntError> for WebsocketError {
    fn from(error: ParseIntError) -> (result: WebsocketError) {
        WebsocketError::RevisionParsingError(error)
    }
}

impl vstd::std_specs::convert::FromSpecImpl<ParseIntError> for WebsocketError {
    open spec fn obeys_from_spec() -> bool {
        true
    }

    open spec fn from_spec(error: ParseIntError) -> WebsocketError {
        WebsocketError::RevisionParsingError(error)
    }
}

} // verus!

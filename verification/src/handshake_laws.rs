//! Which requests open a WebSocket, and what they are answered, stated on the
//! values of their headers.

use crate::digest::{base64_text, sha1_digest};
use crate::error::WebsocketError;
use crate::handshake::{
    connection_upgrade, is_accept_form, is_digestible, key_text, law_answer_found,
    opening_response, optional_text, revision_text, upgrade_headers, websocket_request,
    websocket_upgrade,
};
use crate::http::{field_value, HeaderView};
use crate::number::{u16_error, u16_value};
use crate::text_laws::law_occurrence;
use vstd::prelude::*;
use vstd::utf8::*;

verus! {

/// A request whose first `Connection` header has `Upgrade` anywhere in it, whose
/// first `Upgrade` header has `websocket` anywhere in it, and whose first version
/// header spells 13, is one to open a WebSocket.
pub proof fn law_opening_request_accepted(
    request: Seq<HeaderView>,
    a: Seq<char>,
    b: Seq<char>,
    c: Seq<char>,
    d: Seq<char>,
    version: Seq<char>,
    result: Result<bool, WebsocketError>,
)
    requires
        field_value(request, "Connection"@) == Some(a + "Upgrade"@ + b),
        field_value(request, "Upgrade"@) == Some(c + "websocket"@ + d),
        field_value(request, "Sec-Websocket-Version"@) == Some(version),
        u16_value(version, 10) == Some(13u16),
    ensures
        websocket_request(request, result) <==> result == Ok::<bool, WebsocketError>(true),
{
    law_occurrence("Upgrade"@, a + "Upgrade"@ + b);
    law_occurrence("websocket"@, c + "websocket"@ + d);
}

/// Only such a request is one to open a WebSocket.
pub proof fn law_accepted_request_opens(request: Seq<HeaderView>) -> (parts: (
    Seq<char>,
    Seq<char>,
    Seq<char>,
    Seq<char>,
    Seq<char>,
))
    requires
        websocket_request(request, Ok(true)),
    ensures
        field_value(request, "Connection"@) == Some(parts.0 + "Upgrade"@ + parts.1),
        field_value(request, "Upgrade"@) == Some(parts.2 + "websocket"@ + parts.3),
        field_value(request, "Sec-Websocket-Version"@) == Some(parts.4),
        u16_value(parts.4, 10) == Some(13u16),
{
    let connection = field_value(request, "Connection"@)->0;
    let upgrade = field_value(request, "Upgrade"@)->0;
    law_occurrence("Upgrade"@, connection);
    law_occurrence("websocket"@, upgrade);
    let (a, b) = choose|a: Seq<char>, b: Seq<char>| connection == #[trigger] (a + "Upgrade"@ + b);
    let (c, d) = choose|c: Seq<char>, d: Seq<char>| upgrade == #[trigger] (c + "websocket"@ + d);
    (a, b, c, d, field_value(request, "Sec-Websocket-Version"@)->0)
}

/// Every request has exactly one answer. The headers are looked at in turn: the
/// first that is missing gives its error, the first that asks for something else
/// gives `false`, and the version decides where the other two agree.
pub proof fn law_request_decided(request: Seq<HeaderView>, result: Result<bool, WebsocketError>)
    ensures
        websocket_request(request, result) <==> result == (match field_value(
            request,
            "Connection"@,
        ) {
            None => Err::<bool, WebsocketError>(WebsocketError::MissingConnectionField),
            Some(connection) => if !(exists|a: Seq<char>, b: Seq<char>|
                connection == #[trigger] (a + "Upgrade"@ + b)) {
                Ok::<bool, WebsocketError>(false)
            } else {
                match field_value(request, "Upgrade"@) {
                    None => Err::<bool, WebsocketError>(WebsocketError::MissingUpgradeField),
                    Some(upgrade) => if !(exists|c: Seq<char>, d: Seq<char>|
                        upgrade == #[trigger] (c + "websocket"@ + d)) {
                        Ok::<bool, WebsocketError>(false)
                    } else {
                        match field_value(request, "Sec-Websocket-Version"@) {
                            None => Err::<bool, WebsocketError>(
                                WebsocketError::MissingRevisionNumber,
                            ),
                            Some(version) => match u16_value(version, 10) {
                                None => Err::<bool, WebsocketError>(
                                    WebsocketError::RevisionParsingError(u16_error(version, 10)),
                                ),
                                Some(revision) => Ok::<bool, WebsocketError>(revision == 13),
                            },
                        }
                    },
                }
            },
        }),
{
    if let Some(connection) = field_value(request, "Connection"@) {
        law_occurrence("Upgrade"@, connection);
    }
    if let Some(upgrade) = field_value(request, "Upgrade"@) {
        law_occurrence("websocket"@, upgrade);
    }
}

/// A key is answered with the Base64 text of the SHA-1 digest of the key's bytes
/// followed by the 36 bytes of the protocol's identifier, whatever the key is. The
/// answer is found under `Sec-Websocket-Accept` in a response with status 101, and
/// the subprotocol under its own name.
pub proof fn law_key_answered(
    request: Seq<HeaderView>,
    key: Seq<char>,
    protocol: Option<Seq<char>>,
)
    requires
        field_value(request, "Sec-Websocket-Key"@) == Some(key),
    ensures
        opening_response(request, protocol) matches Some(response) && {
            &&& response.status.0 == 101
            &&& field_value(response.headers, "Sec-Websocket-Accept"@) == Some(
                base64_text(
                    sha1_digest(
                        encode_utf8(key) + encode_utf8("258EAFA5-E914-47DA-95CA-C5AB0DC85B11"@),
                    ),
                ),
            )
            &&& field_value(response.headers, "Sec-Websocket-Protocol"@) == protocol
        },
        encode_utf8("258EAFA5-E914-47DA-95CA-C5AB0DC85B11"@).len() == 36,
{
    reveal_strlit("258EAFA5-E914-47DA-95CA-C5AB0DC85B11");
    is_ascii_chars_encode_utf8("258EAFA5-E914-47DA-95CA-C5AB0DC85B11"@);
    let accept = base64_text(
        sha1_digest(encode_utf8(key) + encode_utf8("258EAFA5-E914-47DA-95CA-C5AB0DC85B11"@)),
    );
    law_answer_found(protocol, accept);
}

/// A request without a key gets no response.
pub proof fn law_missing_key_unanswered(request: Seq<HeaderView>, protocol: Option<Seq<char>>)
    requires
        field_value(request, "Sec-Websocket-Key"@) is None,
    ensures
        opening_response(request, protocol) is None,
{
}

/// The headers of a response, in their order: the subprotocol where there is one,
/// and the answer to the key.
pub proof fn law_response_headers(protocol: Option<Seq<char>>, accept: Seq<char>)
    ensures
        protocol is None ==> upgrade_headers(protocol, accept) == seq![
            HeaderView { field: "Sec-Websocket-Accept"@, value: accept },
        ],
        protocol matches Some(name) ==> upgrade_headers(protocol, accept) == seq![
            HeaderView { field: "Sec-Websocket-Protocol"@, value: name },
            HeaderView { field: "Sec-Websocket-Accept"@, value: accept },
        ],
{
}

/// Under which names the headers of a request are looked up.
pub proof fn law_headers_named(request: Seq<HeaderView>)
    ensures
        connection_upgrade(request) is None <==> field_value(request, "Connection"@) is None,
        websocket_upgrade(request) is None <==> field_value(request, "Upgrade"@) is None,
        connection_upgrade(request) == Some(true) <==> exists|a: Seq<char>, b: Seq<char>|
            field_value(request, "Connection"@) == Some(#[trigger] (a + "Upgrade"@ + b)),
        websocket_upgrade(request) == Some(true) <==> exists|a: Seq<char>, b: Seq<char>|
            field_value(request, "Upgrade"@) == Some(#[trigger] (a + "websocket"@ + b)),
        revision_text(request) == field_value(request, "Sec-Websocket-Version"@),
        key_text(request) == field_value(request, "Sec-Websocket-Key"@),
{
    if let Some(connection) = field_value(request, "Connection"@) {
        law_occurrence("Upgrade"@, connection);
    }
    if let Some(upgrade) = field_value(request, "Upgrade"@) {
        law_occurrence("websocket"@, upgrade);
    }
}

/// An optional text has the characters of the text, or none.
pub proof fn law_optional_text(text: Option<&str>)
    ensures
        text is None ==> optional_text(text) is None,
        text matches Some(t) ==> optional_text(text) == Some(t@),
{
}

/// Every key can be answered whose length in bits, with that of the identifier,
/// fits in 64 bits.
pub proof fn law_keys_digestible(key: Seq<char>)
    ensures
        is_digestible(key) <==> 8 * (encode_utf8(key).len() + 36) <= 0xffff_ffff_ffff_ffff,
{
}

/// What it means for an answer to a key to be well formed.
pub proof fn law_accept_form(accept: Seq<char>)
    requires
        is_accept_form(accept),
    ensures
        accept.len() == 28,
        accept[27] == '=',
        forall|i: int|
            0 <= i < 27 ==> {
                ||| 'A' <= #[trigger] accept[i] <= 'Z'
                ||| 'a' <= accept[i] <= 'z'
                ||| '0' <= accept[i] <= '9'
                ||| accept[i] == '+'
                ||| accept[i] == '/'
            },
{
}

} // verus!

//! The opening handshake: what makes a request one for a WebSocket, and how it is
//! answered.

use crate::digest::{
    base64_encode, base64_text, is_base64_char, law_base64_form, sha1_bytes, sha1_digest,
};
use crate::error::WebsocketError;
use crate::http::{
    field_value, law_field_case_ignored, law_other_fields_ignored, same_but_for_case,
    without_field, Header, HeaderField, HeaderView, Request, Response, ResponseView, StatusCode,
};
use crate::number::{u16_error, u16_value};
use crate::text::{
    ascii_lower, contains, each_chars, occurs_in, same_ignoring_case, split, split_at_each,
};
use vstd::prelude::*;
use vstd::slice::slice_to_vec;
use vstd::string::*;
use vstd::utf8::*;

verus! {

/// The revision of the protocol that is spoken.
pub const SUPPORTED_REVISION: u16 = 13;

/// What is appended to a client's key before it is digested.
pub const KEY_SUFFIX: &'static str = "258EAFA5-E914-47DA-95CA-C5AB0DC85B11";

/// Whether the request asks for an upgraded connection.
pub open spec fn connection_upgrade(request: Seq<HeaderView>) -> Option<bool> {
    match field_value(request, "Connection"@) {
        Some(value) => Some(occurs_in("Upgrade"@, value)),
        None => None,
    }
}

/// Whether the upgrade that the request asks for is one to a WebSocket.
pub open spec fn websocket_upgrade(request: Seq<HeaderView>) -> Option<bool> {
    match field_value(request, "Upgrade"@) {
        Some(value) => Some(occurs_in("websocket"@, value)),
        None => None,
    }
}

/// The text of the protocol revision that the request asks for.
pub open spec fn revision_text(request: Seq<HeaderView>) -> Option<Seq<char>> {
    field_value(request, "Sec-Websocket-Version"@)
}

/// The client's key.
pub open spec fn key_text(request: Seq<HeaderView>) -> Option<Seq<char>> {
    field_value(request, "Sec-Websocket-Key"@)
}

/// Whether the request asks for an upgraded connection.
pub fn is_connection_upgrade(request: &Request) -> (result: Result<bool, WebsocketError>)
    ensures
        match connection_upgrade(request@) {
            Some(upgrade) => result == Ok::<bool, WebsocketError>(upgrade),
            None => result == Err::<bool, WebsocketError>(WebsocketError::MissingConnectionField),
        },
        match field_value(request@, "Connection"@) {
            Some(value) => result == Ok::<bool, WebsocketError>(occurs_in("Upgrade"@, value)),
            None => result == Err::<bool, WebsocketError>(WebsocketError::MissingConnectionField),
        },
        result == Ok::<bool, WebsocketError>(true) <==> exists|a: Seq<char>, b: Seq<char>|
            field_value(request@, "Connection"@) == Some(#[trigger] (a + "Upgrade"@ + b)),
{
    match request.value("Connection") {
        Some(connection) => Ok(contains(connection, "Upgrade")),
        None => Err(WebsocketError::MissingConnectionField),
    }
}

/// Whether the upgrade that the request asks for is one to a WebSocket.
pub fn is_websocket_upgrade(request: &Request) -> (result: Result<bool, WebsocketError>)
    ensures
        match websocket_upgrade(request@) {
            Some(upgrade) => result == Ok::<bool, WebsocketError>(upgrade),
            None => result == Err::<bool, WebsocketError>(WebsocketError::MissingUpgradeField),
        },
        match field_value(request@, "Upgrade"@) {
            Some(value) => result == Ok::<bool, WebsocketError>(occurs_in("websocket"@, value)),
            None => result == Err::<bool, WebsocketError>(WebsocketError::MissingUpgradeField),
        },
        result == Ok::<bool, WebsocketError>(true) <==> exists|a: Seq<char>, b: Seq<char>|
            field_value(request@, "Upgrade"@) == Some(#[trigger] (a + "websocket"@ + b)),
{
    match request.value("Upgrade") {
        Some(upgrade) => Ok(contains(upgrade, "websocket")),
        None => Err(WebsocketError::MissingUpgradeField),
    }
}

/// The protocol revision that the request asks for.
pub fn websocket_version(request: &Request) -> (result: Result<u16, WebsocketError>)
    ensures
        match revision_text(request@) {
            Some(text) => match u16_value(text, 10) {
                Some(revision) => result == Ok::<u16, WebsocketError>(revision),
                None => result == Err::<u16, WebsocketError>(
                    WebsocketError::RevisionParsingError(u16_error(text, 10)),
                ),
            },
            None => result == Err::<u16, WebsocketError>(WebsocketError::MissingRevisionNumber),
        },
        match field_value(request@, "Sec-Websocket-Version"@) {
            Some(text) => match u16_value(text, 10) {
                Some(revision) => result == Ok::<u16, WebsocketError>(revision),
                None => result == Err::<u16, WebsocketError>(
                    WebsocketError::RevisionParsingError(u16_error(text, 10)),
                ),
            },
            None => result == Err::<u16, WebsocketError>(WebsocketError::MissingRevisionNumber),
        },
{
    match request.value("Sec-Websocket-Version") {
        Some(version) => match u16::from_str_radix(version, 10) {
            Ok(revision) => Ok(revision),
            Err(error) => Err(WebsocketError::from(error)),
        },
        None => Err(WebsocketError::MissingRevisionNumber),
    }
}

/// Whether the protocol revision that the request asks for is the supported one.
pub fn websocket_version_supported(request: &Request) -> (result: Result<bool, WebsocketError>)
    ensures
        match revision_text(request@) {
            Some(text) => match u16_value(text, 10) {
                Some(revision) => result == Ok::<bool, WebsocketError>(
                    revision == SUPPORTED_REVISION,
                ),
                None => result == Err::<bool, WebsocketError>(
                    WebsocketError::RevisionParsingError(u16_error(text, 10)),
                ),
            },
            None => result == Err::<bool, WebsocketError>(WebsocketError::MissingRevisionNumber),
        },
        match field_value(request@, "Sec-Websocket-Version"@) {
            Some(text) => match u16_value(text, 10) {
                Some(revision) => result == Ok::<bool, WebsocketError>(revision == 13),
                None => result == Err::<bool, WebsocketError>(
                    WebsocketError::RevisionParsingError(u16_error(text, 10)),
                ),
            },
            None => result == Err::<bool, WebsocketError>(WebsocketError::MissingRevisionNumber),
        },
{
    match websocket_version(request) {
        Ok(revision) => Ok(revision == SUPPORTED_REVISION),
        Err(error) => Err(error),
    }
}

/// The client's key.
pub fn request_key(request: &Request) -> (result: Result<String, WebsocketError>)
    ensures
        match key_text(request@) {
            Some(key) => result matches Ok(k) && k@ == key,
            None => result == Err::<String, WebsocketError>(WebsocketError::MissingKeyField),
        },
        match field_value(request@, "Sec-Websocket-Key"@) {
            Some(key) => result matches Ok(k) && k@ == key,
            None => result == Err::<String, WebsocketError>(WebsocketError::MissingKeyField),
        },
{
    match request.value("Sec-Websocket-Key") {
        Some(key) => Ok(key.to_string()),
        None => Err(WebsocketError::MissingKeyField),
    }
}

/// The answer that [`is_websocket_request`] owes.
pub open spec fn websocket_request(
    request: Seq<HeaderView>,
    result: Result<bool, WebsocketError>,
) -> bool {
    match connection_upgrade(request) {
        None => result == Err::<bool, WebsocketError>(WebsocketError::MissingConnectionField),
        Some(false) => result == Ok::<bool, WebsocketError>(false),
        Some(true) => match websocket_upgrade(request) {
            None => result == Err::<bool, WebsocketError>(WebsocketError::MissingUpgradeField),
            Some(false) => result == Ok::<bool, WebsocketError>(false),
            Some(true) => match revision_text(request) {
                None => result == Err::<bool, WebsocketError>(
                    WebsocketError::MissingRevisionNumber,
                ),
                Some(text) => match u16_value(text, 10) {
                    None => result == Err::<bool, WebsocketError>(
                        WebsocketError::RevisionParsingError(u16_error(text, 10)),
                    ),
                    Some(revision) => result == Ok::<bool, WebsocketError>(
                        revision == SUPPORTED_REVISION,
                    ),
                },
            },
        },
    }
}

/// Whether the request is one to open a WebSocket. The headers are looked at in
/// turn, and one that settles the answer keeps the later ones from being missed.
pub fn is_websocket_request(request: &Request) -> (result: Result<bool, WebsocketError>)
    ensures
        websocket_request(request@, result),
        match field_value(request@, "Connection"@) {
            None => result == Err::<bool, WebsocketError>(WebsocketError::MissingConnectionField),
            Some(connection) => if !occurs_in("Upgrade"@, connection) {
                result == Ok::<bool, WebsocketError>(false)
            } else {
                match field_value(request@, "Upgrade"@) {
                    None => result == Err::<bool, WebsocketError>(
                        WebsocketError::MissingUpgradeField,
                    ),
                    Some(upgrade) => if !occurs_in("websocket"@, upgrade) {
                        result == Ok::<bool, WebsocketError>(false)
                    } else {
                        match field_value(request@, "Sec-Websocket-Version"@) {
                            None => result == Err::<bool, WebsocketError>(
                                WebsocketError::MissingRevisionNumber,
                            ),
                            Some(text) => match u16_value(text, 10) {
                                None => result == Err::<bool, WebsocketError>(
                                    WebsocketError::RevisionParsingError(u16_error(text, 10)),
                                ),
                                Some(revision) => result == Ok::<bool, WebsocketError>(
                                    revision == 13,
                                ),
                            },
                        }
                    },
                }
            },
        },
{
    match is_connection_upgrade(request) {
        Err(error) => Err(error),
        Ok(false) => Ok(false),
        Ok(true) => match is_websocket_upgrade(request) {
            Err(error) => Err(error),
            Ok(false) => Ok(false),
            Ok(true) => websocket_version_supported(request),
        },
    }
}

/// The subprotocols that the request lists, as they stand between the commas.
pub fn request_protocols(request: &Request) -> (protocols: Option<Vec<String>>)
    ensures
        match field_value(request@, "Sec-Websocket-Protocol"@) {
            Some(value) => protocols matches Some(p) && each_chars(p@) == split_at_each(value, ',')
                && p@.map_values(|s: String| s@) == split_at_each(value, ','),
            None => protocols is None,
        },
{
    match request.value("Sec-Websocket-Protocol") {
        Some(value) => Some(split(value, ',')),
        None => None,
    }
}

/// What a client's key is answered with.
pub open spec fn accept_text(key: Seq<char>) -> Seq<char> {
    base64_text(sha1_digest(encode_utf8(key) + encode_utf8(KEY_SUFFIX@)))
}

/// Whether a key is short enough to be digested.
pub open spec fn is_digestible(key: Seq<char>) -> bool {
    (encode_utf8(key).len() + 36) * 8 <= u64::MAX
}

/// The suffix is 36 ASCII characters long.
proof fn lemma_key_suffix()
    ensures
        encode_utf8(KEY_SUFFIX@).len() == 36,
{
    reveal_strlit("258EAFA5-E914-47DA-95CA-C5AB0DC85B11");
    is_ascii_chars_encode_utf8(KEY_SUFFIX@);
}

/// The form of every answer to a key: 27 characters of the Base64 alphabet, and
/// `=` behind them.
pub open spec fn is_accept_form(accept: Seq<char>) -> bool {
    &&& accept.len() == 28
    &&& accept.last() == '='
    &&& forall|i: int| 0 <= i < 27 ==> is_base64_char(#[trigger] accept[i])
}

/// The text form of the digest of a client's key.
pub fn encode_digest(digest: &[u8; 20]) -> (accept: String)
    ensures
        accept@ == base64_text(digest@),
        is_ascii_chars(accept@),
        is_accept_form(accept@),
{
    proof {
        law_base64_form(digest@);
    }
    base64_encode(digest.as_slice())
}

/// Turns a client's key into what it is answered with.
pub fn convert_key(input: &str) -> (accept: String)
    requires
        is_digestible(input@),
    ensures
        accept@ == accept_text(input@),
        accept@ == base64_text(
            sha1_digest(
                encode_utf8(input@) + encode_utf8("258EAFA5-E914-47DA-95CA-C5AB0DC85B11"@),
            ),
        ),
        sha1_digest(encode_utf8(input@) + encode_utf8(KEY_SUFFIX@)).len() == 20,
        is_ascii_chars(accept@),
        is_accept_form(accept@),
{
    let mut message: Vec<u8> = slice_to_vec(input.as_bytes());
    let mut suffix: Vec<u8> = slice_to_vec(KEY_SUFFIX.as_bytes());
    message.append(&mut suffix);
    proof {
        lemma_key_suffix();
    }
    encode_digest(&sha1_bytes(message.as_slice()))
}

/// Calls `ascii::AsciiString::from_ascii` and turns the result into a `String`. It
/// is taken on trust that it accepts exactly the texts that are ASCII throughout,
/// and keeps them as they are.
#[verifier::external_body]
fn ascii_text(text: &str) -> (ascii: Option<String>)
    ensures
        ascii is Some <==> is_ascii_chars(text@),
        ascii matches Some(a) ==> a@ == text@,
{
    ascii::AsciiString::from_ascii(text).ok().map(String::from)
}

/// The headers with which an upgrade is answered: the subprotocol where one is
/// declared, and the answer to the client's key.
pub open spec fn upgrade_headers(protocol: Option<Seq<char>>, accept: Seq<char>) -> Seq<
    HeaderView,
> {
    let answer = HeaderView { field: "Sec-Websocket-Accept"@, value: accept };
    match protocol {
        Some(name) => seq![
            HeaderView { field: "Sec-Websocket-Protocol"@, value: name },
            answer,
        ],
        None => seq![answer],
    }
}

/// The response that a request to open a WebSocket is owed, or `None` where it
/// has no key. `protocol` is the subprotocol to declare.
pub open spec fn opening_response(
    request: Seq<HeaderView>,
    protocol: Option<Seq<char>>,
) -> Option<ResponseView> {
    match key_text(request) {
        Some(key) => Some(
            ResponseView {
                status: StatusCode(101),
                headers: upgrade_headers(protocol, accept_text(key)),
            },
        ),
        None => None,
    }
}

/// The characters of an optional text.
pub open spec fn optional_text(text: Option<&str>) -> Option<Seq<char>> {
    match text {
        Some(t) => Some(t@),
        None => None,
    }
}

/// A header whose value is given as ASCII text.
fn ascii_header(field: &str, value: &str) -> (header: Header)
    requires
        is_ascii_chars(value@),
    ensures
        header@ == (HeaderView { field: field@, value: value@ }),
{
    Header { field: HeaderField(field.to_string()), value: ascii_text(value).unwrap() }
}

/// The response that switches the connection over to the WebSocket protocol.
pub fn upgrade_response(protocol: Option<&str>, accept: &str) -> (response: Response)
    requires
        protocol matches Some(name) ==> is_ascii_chars(name@),
        is_ascii_chars(accept@),
    ensures
        response@.status == StatusCode(101),
        response@.headers == upgrade_headers(optional_text(protocol), accept@),
        response.status.0 == 101,
        response.headers@.len() == (if protocol is Some {
            2int
        } else {
            1int
        }),
        response.headers@.last().field.0@ == "Sec-Websocket-Accept"@,
        response.headers@.last().value@ == accept@,
        protocol matches Some(name) ==> response.headers@[0].field.0@ == "Sec-Websocket-Protocol"@
            && response.headers@[0].value@ == name@,
{
    let mut upgrade = Response::empty(StatusCode(101));
    if let Some(name) = protocol {
        upgrade.push_header(ascii_header("Sec-Websocket-Protocol", name));
    }
    upgrade.push_header(ascii_header("Sec-Websocket-Accept", accept));
    assert(upgrade@.headers =~= upgrade_headers(optional_text(protocol), accept@));
    assert(upgrade@.headers[0] == upgrade.headers@[0]@);
    assert(upgrade@.headers.last() == upgrade.headers@.last()@);
    upgrade
}

/// The response that a request to open a WebSocket is owed, or the error where
/// the request has no key.
pub fn accept_request(request: &Request, protocol: Option<&str>) -> (result: Result<
    Response,
    WebsocketError,
>)
    requires
        protocol matches Some(name) ==> is_ascii_chars(name@),
        key_text(request@) matches Some(key) ==> is_digestible(key),
    ensures
        match opening_response(request@, optional_text(protocol)) {
            Some(owed) => result matches Ok(response) && response@ == owed,
            None => result == Err::<Response, WebsocketError>(WebsocketError::MissingKeyField),
        },
        field_value(request@, "Sec-Websocket-Key"@) is None ==> result == Err::<
            Response,
            WebsocketError,
        >(WebsocketError::MissingKeyField),
        field_value(request@, "Sec-Websocket-Key"@) matches Some(key) ==> {
            &&& result matches Ok(response)
            &&& response.status.0 == 101
            &&& response.headers@.len() == (if protocol is Some {
                2int
            } else {
                1int
            })
            &&& response.headers@.last().field.0@ == "Sec-Websocket-Accept"@
            &&& response.headers@.last().value@ == base64_text(
                sha1_digest(
                    encode_utf8(key) + encode_utf8("258EAFA5-E914-47DA-95CA-C5AB0DC85B11"@),
                ),
            )
            &&& protocol matches Some(name) ==> response.headers@[0].field.0@
                == "Sec-Websocket-Protocol"@ && response.headers@[0].value@ == name@
        },
{
    match request_key(request) {
        Ok(key) => {
            let accept = convert_key(key.as_str());
            Ok(upgrade_response(protocol, accept.as_str()))
        },
        Err(error) => Err(error),
    }
}

/// Whether a request asks for an upgraded connection, for an upgrade to a
/// WebSocket, and for the supported revision.
pub open spec fn asks_for_websocket(request: Seq<HeaderView>) -> bool {
    &&& connection_upgrade(request) == Some(true)
    &&& websocket_upgrade(request) == Some(true)
    &&& revision_text(request) matches Some(text)
    &&& u16_value(text, 10) == Some(SUPPORTED_REVISION)
}

/// A request is one to open a WebSocket exactly if all three headers say so.
pub proof fn law_request_needs_all(request: Seq<HeaderView>)
    ensures
        websocket_request(request, Ok(true)) <==> asks_for_websocket(request),
{
}

/// The two headers of a response have different names.
proof fn lemma_names_differ()
    ensures
        !same_ignoring_case("Sec-Websocket-Accept"@, "Sec-Websocket-Protocol"@),
        !same_ignoring_case("Sec-Websocket-Protocol"@, "Sec-Websocket-Accept"@),
{
    reveal_strlit("Sec-Websocket-Accept");
    reveal_strlit("Sec-Websocket-Protocol");
    let a = "Sec-Websocket-Accept"@.map_values(|c: char| ascii_lower(c));
    let p = "Sec-Websocket-Protocol"@.map_values(|c: char| ascii_lower(c));
    assert(a.len() != p.len());
}

/// A client finds the answer to its key, and the subprotocol if one is declared,
/// under their names in the response.
pub proof fn law_answer_found(protocol: Option<Seq<char>>, accept: Seq<char>)
    ensures
        field_value(upgrade_headers(protocol, accept), "Sec-Websocket-Accept"@) == Some(accept),
        field_value(upgrade_headers(protocol, accept), "Sec-Websocket-Protocol"@) == protocol,
{
    reveal_with_fuel(field_value, 3);
    lemma_names_differ();
}

/// A response to an upgrade is ASCII throughout.
pub proof fn law_answer_ascii(protocol: Option<Seq<char>>, accept: Seq<char>)
    requires
        protocol matches Some(name) ==> is_ascii_chars(name),
        is_ascii_chars(accept),
    ensures
        forall|i: int|
            0 <= i < upgrade_headers(protocol, accept).len() ==> (#[trigger] upgrade_headers(
                protocol,
                accept,
            )[i]).is_ascii(),
{
    reveal_strlit("Sec-Websocket-Accept");
    reveal_strlit("Sec-Websocket-Protocol");
}

/// The case in which the headers of a request are named has no say in whether it
/// is one to open a WebSocket, nor in the key that is answered.
pub proof fn law_request_case_ignored(a: Seq<HeaderView>, b: Seq<HeaderView>)
    requires
        same_but_for_case(a, b),
    ensures
        forall|result: Result<bool, WebsocketError>| #[trigger]
            websocket_request(a, result) == websocket_request(b, result),
        key_text(a) == key_text(b),
{
    law_field_case_ignored(a, b, "Connection"@);
    law_field_case_ignored(a, b, "Upgrade"@);
    law_field_case_ignored(a, b, "Sec-Websocket-Version"@);
    law_field_case_ignored(a, b, "Sec-Websocket-Key"@);
}

/// Which of the headers are called `name`.
pub open spec fn is_named(headers: Seq<HeaderView>, i: int, name: Seq<char>) -> bool {
    0 <= i < headers.len() && same_ignoring_case(headers[i].field, name)
}

/// A request to open a WebSocket that brings a key is answered with status 101.
/// The response has one header with the answer to the key, and one with the
/// subprotocol exactly if one is declared.
pub proof fn law_opening_answered(
    request: Seq<HeaderView>,
    key: Seq<char>,
    protocol: Option<Seq<char>>,
)
    requires
        asks_for_websocket(request),
        key_text(request) == Some(key),
    ensures
        opening_response(request, protocol) matches Some(response) && {
            let headers = response.headers;
            &&& response.status == StatusCode(101)
            &&& field_value(headers, "Sec-Websocket-Accept"@) == Some(accept_text(key))
            &&& field_value(headers, "Sec-Websocket-Protocol"@) == protocol
            &&& forall|i: int, j: int|
                is_named(headers, i, "Sec-Websocket-Accept"@) && is_named(
                    headers,
                    j,
                    "Sec-Websocket-Accept"@,
                ) ==> i == j
            &&& forall|i: int, j: int|
                is_named(headers, i, "Sec-Websocket-Protocol"@) && is_named(
                    headers,
                    j,
                    "Sec-Websocket-Protocol"@,
                ) ==> i == j
            &&& protocol is None ==> forall|i: int|
                !is_named(headers, i, "Sec-Websocket-Protocol"@)
        },
{
    lemma_names_differ();
    law_answer_found(protocol, accept_text(key));
}

/// The subprotocols that a request lists have no say in the response: two requests
/// that differ in them alone are owed the same.
pub proof fn law_listed_protocols_ignored(
    a: Seq<HeaderView>,
    b: Seq<HeaderView>,
    protocol: Option<Seq<char>>,
)
    requires
        without_field(a, "Sec-Websocket-Protocol"@) == without_field(
            b,
            "Sec-Websocket-Protocol"@,
        ),
    ensures
        opening_response(a, protocol) == opening_response(b, protocol),
{
    let name = "Sec-Websocket-Key"@;
    let other = "Sec-Websocket-Protocol"@;
    reveal_strlit("Sec-Websocket-Key");
    reveal_strlit("Sec-Websocket-Protocol");
    assert(name.map_values(|c: char| ascii_lower(c)).len() != other.map_values(
        |c: char| ascii_lower(c),
    ).len());
    law_other_fields_ignored(a, other, name);
    law_other_fields_ignored(b, other, name);
}

} // verus!

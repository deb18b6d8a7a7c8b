use std::num::IntErrorKind;
use websocket::handshake::{
    accept_request, convert_key, encode_digest, is_connection_upgrade, is_websocket_upgrade,
    request_key, request_protocols, upgrade_response, websocket_version,
    websocket_version_supported,
};
use websocket::{
    is_websocket_request, Header, HeaderField, Request, Response, StatusCode, Websocket,
    WebsocketError,
};

fn request(headers: &[(&str, &str)]) -> Request {
    let mut list = Vec::new();
    for (field, value) in headers {
        list.push(Header {
            field: HeaderField(field.to_string()),
            value: value.to_string(),
        });
    }
    Request::new(list)
}

fn opening() -> Vec<(&'static str, &'static str)> {
    vec![
        ("Host", "localhost:1234"),
        ("Connection", "keep-alive, Upgrade"),
        ("Upgrade", "websocket"),
        ("Sec-WebSocket-Version", "13"),
        ("Sec-WebSocket-Key", "Dvwrg+aaihtHnMG8pa91pA=="),
    ]
}

fn without(name: &str) -> Request {
    let mut headers = opening();
    headers.retain(|h| h.0 != name);
    request(&headers)
}

fn with(name: &str, value: &'static str) -> Request {
    let mut headers = opening();
    for h in headers.iter_mut() {
        if h.0 == name {
            h.1 = value;
        }
    }
    request(&headers)
}

fn pairs(response: &Response) -> Vec<(String, String)> {
    let mut list = Vec::new();
    for h in &response.headers {
        list.push((h.field.0.clone(), h.value.clone()));
    }
    list
}

#[test]
fn test_key_conversion() {
    let key = "Dvwrg+aaihtHnMG8pa91pA==";
    assert_eq!(convert_key(key), String::from("mUlf8nxD+24lYCUApqX/NZBVoLo="));
    let key = "zQFTj8nsUOjDz4AhLA0PrQ==";
    assert_eq!(convert_key(key), String::from("gSTv2Nz9882Y5T3omVJSjLbPwBA="));
}

#[test]
fn key_of_the_protocol_text() {
    assert_eq!(convert_key("dGhlIHNhbXBsZSBub25jZQ=="), "s3pPLMBiTxaQ9kYGzzhZRbK+xOo=");
}

#[test]
fn answers_have_one_length() {
    for key in ["", "k", "a key that is a good deal longer than a digest is", "\u{e9}\u{2603}"] {
        let accept = convert_key(key);
        assert_eq!(accept.len(), 28);
        assert!(accept.is_ascii());
        assert!(accept.ends_with('='));
        assert!(!accept[..27].contains('='));
    }
}

#[test]
fn digest_in_text_form() {
    assert_eq!(encode_digest(&[0; 20]), "AAAAAAAAAAAAAAAAAAAAAAAAAAA=");
    assert_eq!(encode_digest(&[0xff; 20]), "//////////////////////////8=");
    let mut digest = [0u8; 20];
    for i in 0..20 {
        digest[i] = (i * 13) as u8;
    }
    assert_eq!(encode_digest(&digest), "AA0aJzRBTltodYKPnKm2w9Dd6vc=");
}

#[test]
fn opening_request_is_one() {
    assert!(matches!(is_websocket_request(&request(&opening())), Ok(true)));
}

#[test]
fn names_of_headers_in_any_case() {
    let r = request(&[
        ("CONNECTION", "Upgrade"),
        ("upgrade", "websocket"),
        ("sEC-wEBSOCKET-vERSION", "13"),
    ]);
    assert!(matches!(is_websocket_request(&r), Ok(true)));
    assert!(HeaderField(String::from("Sec-WebSocket-Key")).equiv("Sec-Websocket-Key"));
    assert!(!HeaderField(String::from("Sec-WebSocket-Ke")).equiv("Sec-Websocket-Key"));
    assert!(!HeaderField(String::from("[")).equiv("{"));
    assert!(!HeaderField(String::from("\u{c9}")).equiv("\u{e9}"));
}

#[test]
fn values_in_the_right_case_only() {
    assert!(matches!(is_websocket_request(&with("Connection", "upgrade")), Ok(false)));
    assert!(matches!(is_websocket_request(&with("Upgrade", "WebSocket")), Ok(false)));
}

#[test]
fn first_header_of_a_name_counts() {
    let r = request(&[("Connection", "close"), ("Connection", "Upgrade")]);
    assert!(matches!(is_connection_upgrade(&r), Ok(false)));
    assert_eq!(r.value("connection"), Some("close"));
    assert_eq!(r.value("Host"), None);
    assert_eq!(r.headers().len(), 2);
}

#[test]
fn parts_of_an_opening_request() {
    let r = request(&opening());
    assert!(matches!(is_connection_upgrade(&r), Ok(true)));
    assert!(matches!(is_websocket_upgrade(&r), Ok(true)));
    assert!(matches!(websocket_version(&r), Ok(13)));
    assert!(matches!(websocket_version_supported(&r), Ok(true)));
    assert_eq!(request_key(&r).unwrap(), "Dvwrg+aaihtHnMG8pa91pA==");
    assert!(request_protocols(&r).is_none());
}

#[test]
fn missing_headers() {
    assert!(matches!(
        is_websocket_request(&without("Connection")),
        Err(WebsocketError::MissingConnectionField)
    ));
    assert!(matches!(
        is_websocket_request(&without("Upgrade")),
        Err(WebsocketError::MissingUpgradeField)
    ));
    assert!(matches!(
        is_websocket_request(&without("Sec-WebSocket-Version")),
        Err(WebsocketError::MissingRevisionNumber)
    ));
    assert!(matches!(
        websocket_version_supported(&without("Sec-WebSocket-Version")),
        Err(WebsocketError::MissingRevisionNumber)
    ));
    assert!(matches!(
        request_key(&without("Sec-WebSocket-Key")),
        Err(WebsocketError::MissingKeyField)
    ));
}

#[test]
fn settled_answers_keep_later_headers_from_being_missed() {
    let r = request(&[("Connection", "close")]);
    assert!(matches!(is_websocket_request(&r), Ok(false)));
    let r = request(&[("Connection", "Upgrade"), ("Upgrade", "h2c")]);
    assert!(matches!(is_websocket_request(&r), Ok(false)));
}

#[test]
fn revisions() {
    assert!(matches!(is_websocket_request(&with("Sec-WebSocket-Version", "12")), Ok(false)));
    assert!(matches!(is_websocket_request(&with("Sec-WebSocket-Version", "+13")), Ok(true)));
    assert!(matches!(is_websocket_request(&with("Sec-WebSocket-Version", "00013")), Ok(true)));
    assert!(matches!(websocket_version(&with("Sec-WebSocket-Version", "65535")), Ok(65535)));
}

#[test]
fn revisions_that_are_no_numbers() {
    let cases = [
        ("", IntErrorKind::Empty),
        ("13 ", IntErrorKind::InvalidDigit),
        ("-13", IntErrorKind::InvalidDigit),
        ("+", IntErrorKind::InvalidDigit),
        ("d", IntErrorKind::InvalidDigit),
        ("65536", IntErrorKind::PosOverflow),
    ];
    for (text, kind) in cases {
        match websocket_version(&with("Sec-WebSocket-Version", text)) {
            Err(WebsocketError::RevisionParsingError(e)) => assert_eq!(*e.kind(), kind),
            other => panic!("{:?}", other),
        }
        assert!(matches!(
            is_websocket_request(&with("Sec-WebSocket-Version", text)),
            Err(WebsocketError::RevisionParsingError(_))
        ));
    }
}

#[test]
fn protocols_between_commas() {
    let r = request(&[("Sec-WebSocket-Protocol", "chat, superchat,,x")]);
    assert_eq!(request_protocols(&r).unwrap(), vec!["chat", " superchat", "", "x"]);
    let r = request(&[("Sec-WebSocket-Protocol", "")]);
    assert_eq!(request_protocols(&r).unwrap(), vec![""]);
    let r = request(&[("Sec-WebSocket-Protocol", ",")]);
    assert_eq!(request_protocols(&r).unwrap(), vec!["", ""]);
}

#[test]
fn response_to_a_key() {
    let response = upgrade_response(Some("example"), "s3pPLMBiTxaQ9kYGzzhZRbK+xOo=");
    assert_eq!(response.status, StatusCode(101));
    assert_eq!(
        pairs(&response),
        vec![
            (String::from("Sec-Websocket-Protocol"), String::from("example")),
            (String::from("Sec-Websocket-Accept"), String::from("s3pPLMBiTxaQ9kYGzzhZRbK+xOo=")),
        ]
    );
    let response = upgrade_response(None, "abc");
    assert_eq!(
        pairs(&response),
        vec![(String::from("Sec-Websocket-Accept"), String::from("abc"))]
    );
}

#[test]
fn request_without_a_key_is_not_accepted() {
    assert!(matches!(
        accept_request(&without("Sec-WebSocket-Key"), Some("example")),
        Err(WebsocketError::MissingKeyField)
    ));
    assert!(matches!(
        Websocket::new(&without("Sec-WebSocket-Key"), None),
        Err(WebsocketError::MissingKeyField)
    ));
}

#[test]
fn opened_websocket() {
    let mut headers = opening();
    headers.push(("Sec-WebSocket-Protocol", "other"));
    let (mut ws, response) = Websocket::new(&request(&headers), Some("example")).unwrap();
    assert_eq!(response.status, StatusCode(101));
    assert_eq!(
        pairs(&response),
        vec![
            (String::from("Sec-Websocket-Protocol"), String::from("example")),
            (String::from("Sec-Websocket-Accept"), String::from("mUlf8nxD+24lYCUApqX/NZBVoLo=")),
        ]
    );
    assert_eq!(ws.wanted(), 2);
    assert!(ws.take_outgoing().is_empty());
}

#[test]
fn listed_protocols_have_no_say() {
    let (_, plain) = Websocket::new(&request(&opening()), Some("example")).unwrap();
    for listed in ["example", "other", "other, example", ""] {
        let mut headers = opening();
        headers.insert(0, ("Sec-WebSocket-Protocol", listed));
        let (_, response) = Websocket::new(&request(&headers), Some("example")).unwrap();
        assert_eq!(pairs(&response), pairs(&plain));
        let (_, response) = Websocket::new(&request(&headers), None).unwrap();
        assert_eq!(response.headers.len(), 1);
    }
}

#[test]
fn parsing_error_becomes_a_websocket_error() {
    let e = "x".parse::<u16>().unwrap_err();
    assert!(matches!(WebsocketError::from(e), WebsocketError::RevisionParsingError(_)));
}

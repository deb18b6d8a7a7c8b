use websocket::bigendian::{read_bigendian_u16, read_bigendian_u32, read_bigendian_u64};
use websocket::mask::unmask;
use websocket::receiver::Receiver;
use websocket::sender::encode_message;
use websocket::text::{contains, decode_text, eq_ignoring_case, split};
use websocket::{
    Breach, Frame, Header, HeaderField, Message, ReadOutcome, RecvError, RecvErrorKind, Request,
    Websocket,
};

const KEY: [u8; 4] = [0x37, 0xfa, 0x21, 0x3d];

fn open() -> Websocket {
    let key = Header {
        field: HeaderField(String::from("Sec-WebSocket-Key")),
        value: String::from("Dvwrg+aaihtHnMG8pa91pA=="),
    };
    Websocket::new(&Request::new(vec![key]), None).unwrap().0
}

fn masked(data: &[u8], key: [u8; 4]) -> Vec<u8> {
    let mut out = Vec::new();
    for i in 0..data.len() {
        out.push(data[i] ^ key[i % 4]);
    }
    out
}

fn client_frame(b0: u8, payload: &[u8]) -> Vec<u8> {
    let mut out = vec![b0, 0x80 + payload.len() as u8];
    out.extend(KEY);
    out.extend(masked(payload, KEY));
    out
}

/// Reads from the front of `stream` until the frame has ended.
fn receive(ws: &mut Websocket, stream: &mut Vec<u8>) -> Result<Result<Message, RecvError>, Breach> {
    loop {
        let count = std::cmp::min(ws.wanted(), stream.len() as u64) as usize;
        let bytes: Vec<u8> = stream.drain(..count).collect();
        let read = ReadOutcome { bytes, failed: false };
        if let Some(breach) = ws.breach(&read) {
            return Err(breach);
        }
        if let Some(reply) = ws.recv(read) {
            return Ok(reply);
        }
    }
}

fn receive_one(bytes: Vec<u8>) -> Result<Result<Message, RecvError>, Breach> {
    let mut stream = bytes;
    receive(&mut open(), &mut stream)
}

fn message(bytes: Vec<u8>) -> Message {
    receive_one(bytes).unwrap().unwrap()
}

fn failed(bytes: Vec<u8>) -> ReadOutcome {
    ReadOutcome { bytes, failed: true }
}

fn read(bytes: Vec<u8>) -> ReadOutcome {
    ReadOutcome { bytes, failed: false }
}

#[test]
fn big_endian_numbers() {
    let bytes: [u8; 9] = [1, 2, 3, 4, 5, 6, 7, 8, 9];
    let mut it = bytes.iter();
    assert_eq!(read_bigendian_u16(&mut it), 0x0102);
    assert_eq!(it.next(), Some(&3));
    assert_eq!(read_bigendian_u32(&mut bytes.iter().skip(2)), 0x03040506);
    assert_eq!(read_bigendian_u64(&mut bytes.iter()), 0x0102030405060708);
    assert_eq!(read_bigendian_u64(&mut [0xffu8; 8].iter()), u64::MAX);
    assert_eq!(read_bigendian_u32(&mut [0xffu8; 4].iter()), u32::MAX);
    assert_eq!(read_bigendian_u16(&mut [0xffu8; 2].iter()), u16::MAX);
}

#[test]
fn masking_twice_gives_the_data_back() {
    let data = b"Contrary to popular belief";
    let once = unmask(data, 0x37fa213d);
    assert_eq!(once, masked(data, KEY));
    assert_eq!(unmask(&once, 0x37fa213d), data.to_vec());
    assert_eq!(unmask(data, 0), data.to_vec());
}

#[test]
fn masked_hello() {
    let m = message(vec![0x81, 0x85, 0x37, 0xfa, 0x21, 0x3d, 0x7f, 0x9f, 0x4d, 0x51, 0x58]);
    assert!(m.fin);
    assert!(matches!(m.frame, Frame::Text(t) if t == "Hello"));
}

#[test]
fn text_is_received_as_sent() {
    for text in ["", "a", "\u{2603} and more", &"x".repeat(125)] {
        let m = message(client_frame(0x01, text.as_bytes()));
        assert!(!m.fin);
        assert!(matches!(m.frame, Frame::Text(t) if t == text));
    }
}

#[test]
fn binary_data_is_received_as_sent() {
    for data in [vec![], vec![0xff], vec![7u8; 125]] {
        let m = message(client_frame(0x82, &data));
        assert!(m.fin);
        assert!(matches!(m.frame, Frame::Binary(d) if d == data));
    }
}

#[test]
fn closes_are_received_as_sent() {
    let m = message(client_frame(0x88, &[]));
    assert!(matches!(m.frame, Frame::Close(None, None)));
    let m = message(client_frame(0x88, &[0x03, 0xe8]));
    assert!(matches!(m.frame, Frame::Close(Some(1000), None)));
    let m = message(client_frame(0x88, b"\x0b\xb8because I want so"));
    assert!(matches!(m.frame, Frame::Close(Some(3000), Some(r)) if r == "because I want so"));
    let m = message(client_frame(0x88, b"\x0b\xb8\xff"));
    assert!(matches!(m.frame, Frame::Close(Some(3000), None)));
}

#[test]
fn close_of_one_byte_is_read_whole() {
    let mut stream = client_frame(0x88, b"!");
    let m = receive(&mut open(), &mut stream).unwrap().unwrap();
    assert!(matches!(m.frame, Frame::Close(None, None)));
    assert!(stream.is_empty());
}

#[test]
fn pongs_are_received_as_sent() {
    let m = message(client_frame(0x8a, &[]));
    assert!(matches!(m.frame, Frame::Pong(None)));
    let m = message(client_frame(0x8a, b"are you there"));
    assert!(matches!(m.frame, Frame::Pong(Some(t)) if t == "are you there"));
    let m = message(client_frame(0x8a, b"\xff\xff"));
    assert!(matches!(m.frame, Frame::Pong(None)));
}

#[test]
fn pong_of_one_byte_is_received_as_sent() {
    let mut stream = vec![0x8a, 0x81, 0x01, 0x02, 0x03, 0x04, 0x60];
    let m = receive(&mut open(), &mut stream).unwrap().unwrap();
    assert!(m.fin);
    assert!(matches!(m.frame, Frame::Pong(Some(t)) if t == "a"));
    assert!(stream.is_empty());
}

#[test]
fn lengths_in_two_bytes() {
    for length in [0usize, 5, 126, 127, 128, 300, 65535] {
        let data: Vec<u8> = (0..length).map(|i| (i * 7) as u8).collect();
        let mut stream = vec![0x82, 0xfe, (length / 256) as u8, (length % 256) as u8];
        stream.extend(KEY);
        stream.extend(masked(&data, KEY));
        stream.push(0x55);
        let m = receive(&mut open(), &mut stream).unwrap().unwrap();
        assert!(m.fin);
        assert!(matches!(m.frame, Frame::Binary(d) if d == data));
        assert_eq!(stream, vec![0x55]);
    }
}

#[test]
fn lengths_in_eight_bytes() {
    for length in [0usize, 5, 126, 65535, 65536, 70000] {
        let data: Vec<u8> = (0..length).map(|i| (i * 11) as u8).collect();
        let mut stream = vec![0x82, 0xff];
        stream.extend((length as u64).to_be_bytes());
        stream.extend(KEY);
        stream.extend(masked(&data, KEY));
        stream.push(0x55);
        let m = receive(&mut open(), &mut stream).unwrap().unwrap();
        assert!(matches!(m.frame, Frame::Binary(d) if d == data));
        assert_eq!(stream, vec![0x55]);
    }
}

#[test]
fn paragraph_is_received_as_sent() {
    let text = "Contrary to popular belief, Lorem Ipsum is not simply random text. It has \
                roots in a piece of classical Latin literature from 45 BC, making it over \
                2000 years old.";
    assert!(text.len() > 125 && text.len() < 256);
    let mut stream = vec![0x81, 0xfe, 0, text.len() as u8];
    stream.extend(KEY);
    stream.extend(masked(text.as_bytes(), KEY));
    let m = receive(&mut open(), &mut stream).unwrap().unwrap();
    assert!(matches!(m.frame, Frame::Text(t) if t == text));
}

#[test]
fn announced_length_is_wanted() {
    let mut r = Receiver::new();
    assert!(r.recv(read(vec![0x02, 0xff])).is_none());
    assert!(r.recv(read(vec![0xff; 8])).is_none());
    assert!(r.recv(read(vec![1, 2, 3, 4])).is_none());
    assert_eq!(r.wanted(), u64::MAX);
}

#[test]
fn frames_follow_one_another() {
    let mut ws = open();
    let mut stream = client_frame(0x81, b"one");
    stream.extend(client_frame(0x82, b"two"));
    stream.extend(client_frame(0x88, &[]));
    let m = receive(&mut ws, &mut stream).unwrap().unwrap();
    assert!(matches!(m.frame, Frame::Text(t) if t == "one"));
    let m = receive(&mut ws, &mut stream).unwrap().unwrap();
    assert!(matches!(m.frame, Frame::Binary(d) if d == b"two"));
    let m = receive(&mut ws, &mut stream).unwrap().unwrap();
    assert!(matches!(m.frame, Frame::Close(None, None)));
    assert!(stream.is_empty());
}

#[test]
fn reserved_bits_are_refused() {
    for b0 in [0x91, 0xa1, 0xc1, 0x71] {
        let e = receive_one(vec![b0, 0x80]).unwrap().unwrap_err();
        assert_eq!(e, RecvError::ReservedBits);
        assert_eq!(e.kind(), RecvErrorKind::Other);
        assert_eq!(e.message(), "reserved bits (in opcode) must be zero");
    }
}

#[test]
fn unmasked_frames_are_refused() {
    let mut stream = vec![0x81, 0x02, b'h', b'i'];
    let e = receive(&mut open(), &mut stream).unwrap().unwrap_err();
    assert_eq!(e, RecvError::NotMasked);
    assert_eq!(e.kind(), RecvErrorKind::Other);
    assert_eq!(e.message(), "Client to server messages must be masked");
    assert_eq!(stream, b"hi");
}

#[test]
fn failed_reads_are_reported() {
    let mut ws = open();
    let e = ws.recv(failed(vec![0x81])).unwrap().unwrap_err();
    assert_eq!(e, RecvError::Header);
    assert_eq!(e.message(), "read first two bytes failed");
    assert_eq!(e.kind(), RecvErrorKind::UnexpectedEof);
    assert_eq!(ws.wanted(), 2);

    assert!(ws.recv(read(vec![0x81, 0x80])).is_none());
    assert_eq!(ws.wanted(), 4);
    let e = ws.recv(failed(vec![])).unwrap().unwrap_err();
    assert_eq!(e, RecvError::MaskingKey);
    assert_eq!(e.message(), "failed to read mask bits");
    assert_eq!(e.kind(), RecvErrorKind::UnexpectedEof);

    assert!(ws.recv(read(vec![0x81, 0xfe])).is_none());
    assert_eq!(ws.wanted(), 2);
    let e = ws.recv(failed(vec![0])).unwrap().unwrap_err();
    assert_eq!(e, RecvError::ShortLength);
    assert_eq!(e.message(), "read 2 bytes failed");
    assert_eq!(e.kind(), RecvErrorKind::UnexpectedEof);

    assert!(ws.recv(read(vec![0x81, 0xff])).is_none());
    assert_eq!(ws.wanted(), 8);
    let e = ws.recv(failed(vec![0, 0])).unwrap().unwrap_err();
    assert_eq!(e, RecvError::LongLength);
    assert_eq!(e.message(), "read 8 bytes failed");
    assert_eq!(e.kind(), RecvErrorKind::UnexpectedEof);
    assert_eq!(ws.wanted(), 2);
}

#[test]
fn streams_that_end_early_are_reported() {
    let cases = [
        (vec![], RecvError::Header),
        (vec![0x81], RecvError::Header),
        (vec![0xff], RecvError::Header),
        (vec![0x81, 0xfe], RecvError::ShortLength),
        (vec![0x81, 0xfe, 1], RecvError::ShortLength),
        (vec![0x81, 0xff, 0, 0, 0, 0, 0, 0, 0], RecvError::LongLength),
        (vec![0x81, 0x85, 1, 2, 3], RecvError::MaskingKey),
        (vec![0x80, 0x85, 1, 2, 3], RecvError::MaskingKey),
        (vec![0x81, 0xfe, 0, 200, 1], RecvError::MaskingKey),
    ];
    for (bytes, error) in cases {
        let e = receive_one(bytes).unwrap().unwrap_err();
        assert_eq!(e, error);
        assert_eq!(e.kind(), RecvErrorKind::UnexpectedEof);
    }
}

#[test]
fn failure_behind_a_whole_payload_counts_for_nothing() {
    let mut ws = open();
    assert!(ws.recv(read(vec![0x82, 0x82])).is_none());
    assert!(ws.recv(read(vec![0, 0, 0, 0])).is_none());
    let outcome = failed(vec![5, 6]);
    assert_eq!(ws.breach(&outcome), None);
    let m = ws.recv(outcome).unwrap().unwrap();
    assert!(matches!(m.frame, Frame::Binary(d) if d == [5, 6]));
}

#[test]
fn breaches() {
    let broken = |bytes: Vec<u8>| receive_one(bytes).unwrap_err();
    assert_eq!(broken(vec![0x81, 0x82, 1, 2, 3, 4, 5]), Breach::TruncatedPayload);
    assert_eq!(broken(client_frame(0x80, b"ab")), Breach::Continuation);
    assert_eq!(broken(client_frame(0x89, b"ab")), Breach::Ping);
    for opcode in [3u8, 4, 5, 6, 7, 0xb, 0xc, 0xd, 0xe, 0xf] {
        assert_eq!(broken(client_frame(0x80 + opcode, b"")), Breach::UnknownOpcode);
    }
    assert_eq!(broken(client_frame(0x81, b"\xff")), Breach::TextDecoding);
}

#[test]
fn breaches_in_words() {
    assert_eq!(
        Breach::Continuation.message(),
        "unable to handle continuation opcodes @ the moment"
    );
    assert_eq!(
        Breach::Ping.message(),
        "Unexpected ping opcode: client must not initiate a ping request"
    );
    assert_eq!(Breach::UnknownOpcode.message(), "received non supported opcode");
    assert_eq!(Breach::TextDecoding.message(), "text decoding failure");
    assert_eq!(Breach::TruncatedPayload.message(), "stream ended inside the payload");
}

#[test]
fn sent_frames() {
    let sent = |fin: bool, frame: Frame| encode_message(Message { fin, frame });
    assert_eq!(sent(true, Frame::Text(String::from("hi"))), vec![0x81, 2, b'h', b'i']);
    assert_eq!(sent(false, Frame::Text(String::new())), vec![0x01, 0]);
    assert_eq!(sent(true, Frame::Text(String::from("\u{e9}"))), vec![0x81, 2, 0xc3, 0xa9]);
    assert_eq!(sent(true, Frame::Binary(vec![9, 8])), vec![0x82, 2, 9, 8]);
    assert_eq!(sent(true, Frame::Binary(vec![1, 2, 3])), vec![0x82, 0x03, 1, 2, 3]);
    assert_eq!(sent(false, Frame::Binary(vec![])), vec![0x02, 0]);
    assert_eq!(sent(true, Frame::Close(None, None)), vec![0x88, 0]);
    assert_eq!(sent(false, Frame::Close(Some(1000), Some(String::from("x")))), vec![0x08, 0]);
    assert_eq!(sent(true, Frame::Ping(None)), vec![0x89, 0]);
    assert_eq!(sent(true, Frame::Ping(Some(String::from("p")))), vec![0x89, 1, b'p']);
}

#[test]
fn length_byte_of_long_frames() {
    for (length, low) in [(125, 125), (126, 126), (128, 128), (255, 255), (256, 0), (300, 44)] {
        let bytes = encode_message(Message { fin: true, frame: Frame::Binary(vec![3; length]) });
        assert_eq!(bytes.len(), length + 2);
        assert_eq!(bytes[1], low);
        assert_eq!(bytes[2..], vec![3; length]);
    }
}

#[test]
fn sent_frames_wait_in_order() {
    let mut ws = open();
    ws.send_text("a");
    ws.ping("b");
    ws.send_message(Message { fin: true, frame: Frame::Close(None, None) });
    assert_eq!(ws.take_outgoing(), vec![0x81, 1, b'a', 0x89, 1, b'b', 0x88, 0]);
    assert!(ws.take_outgoing().is_empty());
}

#[test]
fn sending_does_not_disturb_reception() {
    let mut ws = open();
    assert!(ws.recv(read(vec![0x81, 0x81])).is_none());
    ws.send_text("meanwhile");
    assert_eq!(ws.wanted(), 4);
    assert!(ws.recv(read(vec![0, 0, 0, 0])).is_none());
    let m = ws.recv(read(vec![b'x'])).unwrap().unwrap();
    assert!(matches!(m.frame, Frame::Text(t) if t == "x"));
    assert_eq!(ws.take_outgoing().len(), 11);
}

#[test]
fn sent_frames_are_refused_on_reception() {
    for frame in [Frame::Text(String::from("t")), Frame::Ping(None), Frame::Close(None, None)] {
        let bytes = encode_message(Message { fin: true, frame });
        assert_eq!(receive_one(bytes).unwrap().unwrap_err(), RecvError::NotMasked);
    }
}

#[test]
fn default_frame_is_a_bare_ping() {
    assert!(matches!(Frame::default(), Frame::Ping(None)));
}

#[test]
fn text_operations() {
    assert!(contains("keep-alive, Upgrade", "Upgrade"));
    assert!(contains("Upgrade", "Upgrade"));
    assert!(contains("", ""));
    assert!(contains("abc", ""));
    assert!(!contains("Upgrad", "Upgrade"));
    assert!(contains("aab", "ab"));
    assert!(eq_ignoring_case("ABCxyz-1", "abcXYZ-1"));
    assert!(!eq_ignoring_case("a", "ab"));
    assert_eq!(split("\u{e9},b", ','), vec!["\u{e9}", "b"]);
    assert_eq!(split("a,b,", ',').join(","), "a,b,");
    assert_eq!(decode_text(b"\xc3\xa9"), Some(String::from("\u{e9}")));
    assert_eq!(decode_text(b"\xc3"), None);
}

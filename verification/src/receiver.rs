//! Reception of a client's frame, one read at a time.
//!
//! The receiver never reads. It says how many bytes it wants next, is handed what
//! came, and answers with the message, an error, or nothing yet.

use crate::bigendian::{
    big_endian, front, read_bigendian_u16, read_bigendian_u32, read_bigendian_u64,
};
use crate::frame::{
    Frame, FrameView, Message, MessageView, BINARY_OPCODE, CLOSE_OPCODE, CONTINUATION_OPCODE,
    PING_OPCODE, PONG_OPCODE, TEXT_OPCODE,
};
use crate::mask::{unmask, unmasked};
use crate::text::{decode_text, text_of};
use vstd::prelude::*;
use vstd::slice::slice_subrange;
use vstd::std_specs::iter::IteratorSpec;
use vstd::utf8::*;

verus! {

/// What came of one read.
#[derive(Debug)]
pub struct ReadOutcome {
    /// The bytes that were read, at most as many as were wanted.
    pub bytes: Vec<u8>,
    /// Whether the read ended in an error. A read that meets the end of the
    /// stream does not.
    pub failed: bool,
}

/// What a [`ReadOutcome`] holds, as mathematical values.
#[verifier::ext_equal]
pub struct ReadView {
    pub bytes: Seq<u8>,
    pub failed: bool,
}

impl View for ReadOutcome {
    type V = ReadView;

    open spec fn view(&self) -> ReadView {
        ReadView { bytes: self.bytes@, failed: self.failed }
    }
}

/// Kinds of [`RecvError`].
#[derive(Debug, Clone, Copy, PartialEq, Eq, Structural)]
pub enum RecvErrorKind {
    UnexpectedEof,
    Other,
}

/// Why a frame could not be received.
#[derive(Debug, Clone, Copy, PartialEq, Eq, Structural)]
pub enum RecvError {
    /// The first two bytes could not be read.
    Header,
    /// A reserved bit of the first byte is set.
    ReservedBits,
    /// The frame is not masked.
    NotMasked,
    /// A two-byte length could not be read.
    ShortLength,
    /// An eight-byte length could not be read.
    LongLength,
    /// The masking key could not be read.
    MaskingKey,
}

/// What a client can send that no frame is made of and no error answers.
#[derive(Debug, Clone, Copy, PartialEq, Eq, Structural)]
pub enum Breach {
    /// A continuation frame.
    Continuation,
    /// A ping, which is the server's to send.
    Ping,
    /// An opcode that is not known.
    UnknownOpcode,
    /// The stream ended inside the payload.
    TruncatedPayload,
    /// A text frame that is not UTF-8.
    TextDecoding,
}

impl RecvError {
    pub open spec fn spec_kind(self) -> RecvErrorKind {
        match self {
            RecvError::ReservedBits => RecvErrorKind::Other,
            RecvError::NotMasked => RecvErrorKind::Other,
            _ => RecvErrorKind::UnexpectedEof,
        }
    }

    pub open spec fn spec_message(self) -> Seq<char> {
        match self {
            RecvError::Header => "read first two bytes failed"@,
            RecvError::ReservedBits => "reserved bits (in opcode) must be zero"@,
            RecvError::NotMasked => "Client to server messages must be masked"@,
            RecvError::ShortLength => "read 2 bytes failed"@,
            RecvError::LongLength => "read 8 bytes failed"@,
            RecvError::MaskingKey => "failed to read mask bits"@,
        }
    }

    /// The kind of the error.
    pub fn kind(&self) -> (kind: RecvErrorKind)
        ensures
            kind == self.spec_kind(),
            kind == (if *self is ReservedBits || *self is NotMasked {
                RecvErrorKind::Other
            } else {
                RecvErrorKind::UnexpectedEof
            }),
    {
        match self {
            RecvError::ReservedBits => RecvErrorKind::Other,
            RecvError::NotMasked => RecvErrorKind::Other,
            _ => RecvErrorKind::UnexpectedEof,
        }
    }

    /// The error in words.
    pub fn message(&self) -> (message: &'static str)
        ensures
            message@ == self.spec_message(),
            *self is Header ==> message@ == "read first two bytes failed"@,
            *self is ReservedBits ==> message@ == "reserved bits (in opcode) must be zero"@,
            *self is NotMasked ==> message@ == "Client to server messages must be masked"@,
            *self is ShortLength ==> message@ == "read 2 bytes failed"@,
            *self is LongLength ==> message@ == "read 8 bytes failed"@,
            *self is MaskingKey ==> message@ == "failed to read mask bits"@,
    {
        match self {
            RecvError::Header => "read first two bytes failed",
            RecvError::ReservedBits => "reserved bits (in opcode) must be zero",
            RecvError::NotMasked => "Client to server messages must be masked",
            RecvError::ShortLength => "read 2 bytes failed",
            RecvError::LongLength => "read 8 bytes failed",
            RecvError::MaskingKey => "failed to read mask bits",
        }
    }
}

impl Breach {
    pub open spec fn spec_message(self) -> Seq<char> {
        match self {
            Breach::TruncatedPayload => "stream ended inside the payload"@,
            Breach::Continuation => "unable to handle continuation opcodes @ the moment"@,
            Breach::Ping =>
                "Unexpected ping opcode: client must not initiate a ping request"@,
            Breach::UnknownOpcode => "received non supported opcode"@,
            Breach::TextDecoding => "text decoding failure"@,
        }
    }

    /// The breach in words.
    pub fn message(&self) -> (message: &'static str)
        ensures
            message@ == self.spec_message(),
            *self is Continuation ==> message@
                == "unable to handle continuation opcodes @ the moment"@,
            *self is Ping ==> message@
                == "Unexpected ping opcode: client must not initiate a ping request"@,
            *self is UnknownOpcode ==> message@ == "received non supported opcode"@,
            *self is TruncatedPayload ==> message@ == "stream ended inside the payload"@,
            *self is TextDecoding ==> message@ == "text decoding failure"@,
    {
        match self {
            Breach::TruncatedPayload => "stream ended inside the payload",
            Breach::Continuation => "unable to handle continuation opcodes @ the moment",
            Breach::Ping => "Unexpected ping opcode: client must not initiate a ping request",
            Breach::UnknownOpcode => "received non supported opcode",
            Breach::TextDecoding => "text decoding failure",
        }
    }
}

/// Whether the first byte of a frame has its final bit set.
pub open spec fn is_final(b0: u8) -> bool {
    b0 >= 0x80
}

/// Whether one of the three reserved bits of the first byte is set.
pub open spec fn has_reserved_bits(b0: u8) -> bool {
    (b0 / 16) % 8 != 0
}

/// The opcode in the first byte of a frame.
pub open spec fn opcode_of(b0: u8) -> u8 {
    b0 % 16
}

/// Whether the second byte of a frame announces a masked payload.
pub open spec fn is_masked(b1: u8) -> bool {
    b1 >= 0x80
}

/// The seven length bits in the second byte of a frame.
pub open spec fn length_bits(b1: u8) -> u8 {
    b1 % 128
}

/// How far the reception of a frame has come.
#[verifier::ext_equal]
pub enum ReceiverView {
    /// Nothing of the frame has been read.
    Idle,
    /// The first two bytes are there, and a two-byte length follows.
    ShortLength { fin: bool, opcode: u8 },
    /// The first two bytes are there, and an eight-byte length follows.
    LongLength { fin: bool, opcode: u8 },
    /// All but the masking key and the payload is there.
    MaskingKey { fin: bool, opcode: u8, length: u64 },
    /// Only the payload is missing.
    Payload { fin: bool, opcode: u8, length: u64, mask: u32 },
}

/// Opcodes of the frames that a client may send.
pub open spec fn is_client_opcode(opcode: u8) -> bool {
    ||| opcode == TEXT_OPCODE
    ||| opcode == BINARY_OPCODE
    ||| opcode == CLOSE_OPCODE
    ||| opcode == PONG_OPCODE
}

/// The state has been reached by reading.
pub open spec fn well_formed(state: ReceiverView) -> bool {
    state matches ReceiverView::Payload { fin, opcode, length, mask } ==> is_client_opcode(opcode)
}

/// How many bytes are to be read next.
pub open spec fn bytes_wanted(state: ReceiverView) -> u64 {
    match state {
        ReceiverView::Idle => 2,
        ReceiverView::ShortLength { fin, opcode } => 2,
        ReceiverView::LongLength { fin, opcode } => 8,
        ReceiverView::MaskingKey { fin, opcode, length } => 4,
        ReceiverView::Payload { fin, opcode, length, mask } => length,
    }
}

/// Whether a read failed to bring all the bytes that were wanted.
pub open spec fn falls_short(state: ReceiverView, read: ReadView) -> bool {
    read.failed || read.bytes.len() < bytes_wanted(state)
}

/// The close frame that a payload stands for: the code in its first two bytes,
/// and behind it the reason, which is left out where it is empty or not UTF-8. A
/// payload too short for a code stands for a close without one.
pub open spec fn close_frame(data: Seq<u8>) -> FrameView {
    if data.len() < 2 {
        FrameView::Close(None, None)
    } else if data.len() == 2 {
        FrameView::Close(Some(big_endian(data) as u16), None)
    } else {
        FrameView::Close(Some(big_endian(data.take(2)) as u16), text_of(data.skip(2)))
    }
}

/// The pong that a payload stands for: its text, which is left out where it is
/// empty or not UTF-8.
pub open spec fn pong_frame(data: Seq<u8>) -> FrameView {
    FrameView::Pong(
        if data.len() == 0 {
            None
        } else {
            text_of(data)
        },
    )
}

/// The frame that an unmasked payload stands for.
pub open spec fn payload_frame(opcode: u8, data: Seq<u8>) -> FrameView {
    if opcode == BINARY_OPCODE {
        FrameView::Binary(data)
    } else if opcode == TEXT_OPCODE {
        FrameView::Text(decode_utf8(data))
    } else if opcode == CLOSE_OPCODE {
        close_frame(data)
    } else {
        pong_frame(data)
    }
}

/// What the client did wrong, if what came makes it impossible to go on.
pub open spec fn breach_of(state: ReceiverView, read: ReadView) -> Option<Breach> {
    match state {
        ReceiverView::MaskingKey { fin, opcode, length } => if falls_short(state, read) {
            None
        } else if opcode == CONTINUATION_OPCODE {
            Some(Breach::Continuation)
        } else if opcode == PING_OPCODE {
            Some(Breach::Ping)
        } else if !is_client_opcode(opcode) {
            Some(Breach::UnknownOpcode)
        } else {
            None
        },
        ReceiverView::Payload { fin, opcode, length, mask } => if read.bytes.len() < length {
            Some(Breach::TruncatedPayload)
        } else if opcode == TEXT_OPCODE && !valid_utf8(unmasked(read.bytes, mask)) {
            Some(Breach::TextDecoding)
        } else {
            None
        },
        _ => None,
    }
}

/// What one read leads to: the state after it, and the message or the error that
/// ends the frame, if it ends here.
pub open spec fn step(state: ReceiverView, read: ReadView) -> (
    ReceiverView,
    Option<Result<MessageView, RecvError>>,
) {
    let idle = ReceiverView::Idle;
    match state {
        ReceiverView::Idle => if falls_short(state, read) {
            (idle, Some(Err(RecvError::Header)))
        } else if has_reserved_bits(read.bytes[0]) {
            (idle, Some(Err(RecvError::ReservedBits)))
        } else if !is_masked(read.bytes[1]) {
            (idle, Some(Err(RecvError::NotMasked)))
        } else {
            let fin = is_final(read.bytes[0]);
            let opcode = opcode_of(read.bytes[0]);
            let bits = length_bits(read.bytes[1]);
            if bits == 126 {
                (ReceiverView::ShortLength { fin, opcode }, None)
            } else if bits == 127 {
                (ReceiverView::LongLength { fin, opcode }, None)
            } else {
                (ReceiverView::MaskingKey { fin, opcode, length: bits as u64 }, None)
            }
        },
        ReceiverView::ShortLength { fin, opcode } => if falls_short(state, read) {
            (idle, Some(Err(RecvError::ShortLength)))
        } else {
            let length = big_endian(read.bytes) as u64;
            (ReceiverView::MaskingKey { fin, opcode, length }, None)
        },
        ReceiverView::LongLength { fin, opcode } => if falls_short(state, read) {
            (idle, Some(Err(RecvError::LongLength)))
        } else {
            let length = big_endian(read.bytes) as u64;
            (ReceiverView::MaskingKey { fin, opcode, length }, None)
        },
        ReceiverView::MaskingKey { fin, opcode, length } => if falls_short(state, read) {
            (idle, Some(Err(RecvError::MaskingKey)))
        } else {
            let mask = big_endian(read.bytes) as u32;
            (ReceiverView::Payload { fin, opcode, length, mask }, None)
        },
        ReceiverView::Payload { fin, opcode, length, mask } => {
            let frame = payload_frame(opcode, unmasked(read.bytes, mask));
            (idle, Some(Ok(MessageView { fin, frame })))
        },
    }
}

/// What an answer of the receiver holds, as mathematical values.
pub open spec fn answer(reply: Option<Result<Message, RecvError>>) -> Option<
    Result<MessageView, RecvError>,
> {
    match reply {
        None => None,
        Some(Err(e)) => Some(Err(e)),
        Some(Ok(message)) => Some(Ok(message@)),
    }
}

/// How far the reception of a frame has come.
#[derive(Debug)]
pub enum Receiver {
    /// Nothing of the frame has been read.
    Idle,
    /// The first two bytes are there, and a two-byte length follows.
    ShortLength { fin: bool, opcode: u8 },
    /// The first two bytes are there, and an eight-byte length follows.
    LongLength { fin: bool, opcode: u8 },
    /// All but the masking key and the payload is there.
    MaskingKey { fin: bool, opcode: u8, length: u64 },
    /// Only the payload is missing.
    Payload { fin: bool, opcode: u8, length: u64, mask: u32 },
}

impl View for Receiver {
    type V = ReceiverView;

    open spec fn view(&self) -> ReceiverView {
        match *self {
            Receiver::Idle => ReceiverView::Idle,
            Receiver::ShortLength { fin, opcode } => ReceiverView::ShortLength { fin, opcode },
            Receiver::LongLength { fin, opcode } => ReceiverView::LongLength { fin, opcode },
            Receiver::MaskingKey { fin, opcode, length } => ReceiverView::MaskingKey {
                fin,
                opcode,
                length,
            },
            Receiver::Payload { fin, opcode, length, mask } => ReceiverView::Payload {
                fin,
                opcode,
                length,
                mask,
            },
        }
    }
}

/// The bit tests on the first byte, as arithmetic.
proof fn lemma_first_byte(b: u8)
    ensures
        (b & 0x70 != 0) == has_reserved_bits(b),
        (b & 0x80 != 0) == is_final(b),
        b & 0x0f == opcode_of(b),
{
    assert((b & 0x70 != 0) == ((b / 16) % 8 != 0)) by (bit_vector);
    assert((b & 0x80 != 0) == (b >= 0x80)) by (bit_vector);
    assert(b & 0x0f == b % 16) by (bit_vector);
}

/// The bit tests on the second byte, as arithmetic.
proof fn lemma_second_byte(b: u8)
    ensures
        (b & 0x80 == 0) == !is_masked(b),
        b & 0x7f == length_bits(b),
{
    assert((b & 0x80 == 0) == (b < 0x80)) by (bit_vector);
    assert(b & 0x7f == b % 128) by (bit_vector);
}

/// What the first two bytes of a frame lead to.
fn receive_header(read: ReadOutcome) -> (result: (Receiver, Option<Result<Message, RecvError>>))
    requires
        read@.bytes.len() <= 2,
    ensures
        (result.0@, answer(result.1)) == step(ReceiverView::Idle, read@),
{
    let buf = read.bytes;
    if read.failed || buf.len() < 2 {
        return (Receiver::Idle, Some(Err(RecvError::Header)));
    }
    let b0: u8 = buf[0];
    let b1: u8 = buf[1];
    proof {
        lemma_first_byte(b0);
        lemma_second_byte(b1);
    }
    if b0 & 0x70 != 0 {
        return (Receiver::Idle, Some(Err(RecvError::ReservedBits)));
    }
    let fin: bool = b0 & 0x80 != 0;
    let opcode: u8 = b0 & 0x0f;
    if b1 & 0x80 == 0 {
        return (Receiver::Idle, Some(Err(RecvError::NotMasked)));
    }
    let payload_len: u8 = b1 & 0x7f;
    match payload_len {
        126 => (Receiver::ShortLength { fin, opcode }, None),
        127 => (Receiver::LongLength { fin, opcode }, None),
        _ => (Receiver::MaskingKey { fin, opcode, length: payload_len as u64 }, None),
    }
}

/// What a two-byte length leads to.
fn receive_short_length(fin: bool, opcode: u8, read: ReadOutcome) -> (result: (
    Receiver,
    Option<Result<Message, RecvError>>,
))
    requires
        read@.bytes.len() <= 2,
    ensures
        (result.0@, answer(result.1)) == step(ReceiverView::ShortLength { fin, opcode }, read@),
{
    let buf = read.bytes;
    if read.failed || buf.len() < 2 {
        return (Receiver::Idle, Some(Err(RecvError::ShortLength)));
    }
    let mut items = buf.iter();
    assert(front(items.remaining(), 2) =~= buf@);
    let length: u64 = read_bigendian_u16(&mut items) as u64;
    (Receiver::MaskingKey { fin, opcode, length }, None)
}

/// What an eight-byte length leads to.
fn receive_long_length(fin: bool, opcode: u8, read: ReadOutcome) -> (result: (
    Receiver,
    Option<Result<Message, RecvError>>,
))
    requires
        read@.bytes.len() <= 8,
    ensures
        (result.0@, answer(result.1)) == step(ReceiverView::LongLength { fin, opcode }, read@),
{
    let buf = read.bytes;
    if read.failed || buf.len() < 8 {
        return (Receiver::Idle, Some(Err(RecvError::LongLength)));
    }
    let mut items = buf.iter();
    assert(front(items.remaining(), 8) =~= buf@);
    let length: u64 = read_bigendian_u64(&mut items);
    (Receiver::MaskingKey { fin, opcode, length }, None)
}

/// What the masking key leads to.
fn receive_masking_key(fin: bool, opcode: u8, length: u64, read: ReadOutcome) -> (result: (
    Receiver,
    Option<Result<Message, RecvError>>,
))
    requires
        read@.bytes.len() <= 4,
    ensures
        (result.0@, answer(result.1)) == step(
            ReceiverView::MaskingKey { fin, opcode, length },
            read@,
        ),
{
    let buf = read.bytes;
    if read.failed || buf.len() < 4 {
        return (Receiver::Idle, Some(Err(RecvError::MaskingKey)));
    }
    let mut items = buf.iter();
    assert(front(items.remaining(), 4) =~= buf@);
    let mask: u32 = read_bigendian_u32(&mut items);
    (Receiver::Payload { fin, opcode, length, mask }, None)
}

/// The close frame that an unmasked payload stands for.
fn parse_close(data: &[u8]) -> (frame: Frame)
    ensures
        frame@ == close_frame(data@),
{
    if data.len() < 2 {
        return Frame::Close(None, None);
    }
    let mut items = data.iter();
    assert(front(items.remaining(), 2) =~= data@.take(2));
    let code: u16 = read_bigendian_u16(&mut items);
    if data.len() == 2 {
        assert(data@.take(2) =~= data@);
        Frame::Close(Some(code), None)
    } else {
        let rest = slice_subrange(data, 2, data.len());
        assert(rest@ =~= data@.skip(2));
        Frame::Close(Some(code), decode_text(rest))
    }
}

/// The pong that an unmasked payload stands for.
fn parse_pong(data: &[u8]) -> (frame: Frame)
    ensures
        frame@ == pong_frame(data@),
{
    if data.len() == 0 {
        Frame::Pong(None)
    } else {
        Frame::Pong(decode_text(data))
    }
}

/// What the payload leads to.
fn receive_payload(fin: bool, opcode: u8, length: u64, mask: u32, read: ReadOutcome) -> (result: (
    Receiver,
    Option<Result<Message, RecvError>>,
))
    requires
        well_formed(ReceiverView::Payload { fin, opcode, length, mask }),
        read@.bytes.len() <= length,
        breach_of(ReceiverView::Payload { fin, opcode, length, mask }, read@) is None,
    ensures
        (result.0@, answer(result.1)) == step(
            ReceiverView::Payload { fin, opcode, length, mask },
            read@,
        ),
{
    let data = unmask(read.bytes.as_slice(), mask);
    let frame = match opcode {
        BINARY_OPCODE => Frame::Binary(data),
        TEXT_OPCODE => {
            let content = decode_text(data.as_slice());
            Frame::Text(content.unwrap())
        },
        CLOSE_OPCODE => parse_close(data.as_slice()),
        _ => parse_pong(data.as_slice()),
    };
    (Receiver::Idle, Some(Ok(Message { fin, frame })))
}

impl Receiver {
    /// A receiver that waits for the start of a frame.
    pub fn new() -> (receiver: Receiver)
        ensures
            receiver@ == ReceiverView::Idle,
            well_formed(receiver@),
    {
        Receiver::Idle
    }

    /// How many bytes are to be read next.
    pub fn wanted(&self) -> (count: u64)
        ensures
            count == bytes_wanted(self@),
    {
        match self {
            Receiver::Idle => 2,
            Receiver::ShortLength { .. } => 2,
            Receiver::LongLength { .. } => 8,
            Receiver::MaskingKey { .. } => 4,
            Receiver::Payload { length, .. } => *length,
        }
    }

    /// What the client did wrong, if what came makes it impossible to go on.
    pub fn breach(&self, read: &ReadOutcome) -> (breach: Option<Breach>)
        ensures
            breach == breach_of(self@, read@),
    {
        match self {
            Receiver::MaskingKey { opcode, .. } => {
                if read.failed || read.bytes.len() < 4 {
                    return None;
                }
                match *opcode {
                    CONTINUATION_OPCODE => Some(Breach::Continuation),
                    PING_OPCODE => Some(Breach::Ping),
                    TEXT_OPCODE => None,
                    BINARY_OPCODE => None,
                    CLOSE_OPCODE => None,
                    PONG_OPCODE => None,
                    _ => Some(Breach::UnknownOpcode),
                }
            },
            Receiver::Payload { opcode, length, mask, .. } => {
                if (read.bytes.len() as u64) < *length {
                    Some(Breach::TruncatedPayload)
                } else if *opcode == TEXT_OPCODE {
                    let data = unmask(read.bytes.as_slice(), *mask);
                    match decode_text(data.as_slice()) {
                        Some(_) => None,
                        None => Some(Breach::TextDecoding),
                    }
                } else {
                    None
                }
            },
            _ => None,
        }
    }

    /// Takes in what came of a read. The answer is `None` as long as the frame is
    /// not complete.
    pub fn recv(&mut self, read: ReadOutcome) -> (reply: Option<Result<Message, RecvError>>)
        requires
            well_formed(old(self)@),
            read@.bytes.len() <= bytes_wanted(old(self)@),
            breach_of(old(self)@, read@) is None,
        ensures
            (final(self)@, answer(reply)) == step(old(self)@, read@),
            well_formed(final(self)@),
            reply is Some ==> final(self)@ == ReceiverView::Idle,
    {
        let mut state = Receiver::Idle;
        core::mem::swap(&mut state, self);
        let (next, reply) = match state {
            Receiver::Idle => receive_header(read),
            Receiver::ShortLength { fin, opcode } => receive_short_length(fin, opcode, read),
            Receiver::LongLength { fin, opcode } => receive_long_length(fin, opcode, read),
            Receiver::MaskingKey { fin, opcode, length } => receive_masking_key(
                fin,
                opcode,
                length,
                read,
            ),
            Receiver::Payload { fin, opcode, length, mask } => receive_payload(
                fin,
                opcode,
                length,
                mask,
                read,
            ),
        };
        *self = next;
        reply
    }
}

} // verus!

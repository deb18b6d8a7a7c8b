//! The bytes of a frame that the server sends.

use crate::frame::{
    Frame, FrameView, Message, MessageView, BINARY_OPCODE, CLOSE_OPCODE, PING_OPCODE, TEXT_OPCODE,
};
use crate::receiver::{has_reserved_bits, is_final, is_masked, length_bits, opcode_of};
use vstd::prelude::*;
use vstd::string::*;
use vstd::utf8::*;

verus! {

/// Whether the server may send the frame: a pong is the client's to send.
pub open spec fn is_sendable(frame: FrameView) -> bool {
    !(frame is Pong)
}

/// The opcode under which the server sends a frame.
pub open spec fn sent_opcode(frame: FrameView) -> u8 {
    match frame {
        FrameView::Text(_) => TEXT_OPCODE,
        FrameView::Binary(_) => BINARY_OPCODE,
        FrameView::Close(_, _) => CLOSE_OPCODE,
        FrameView::Ping(_) => PING_OPCODE,
        FrameView::Pong(_) => arbitrary(),
    }
}

/// The payload that the server sends with a frame. A close goes out bare.
pub open spec fn sent_payload(frame: FrameView) -> Seq<u8> {
    match frame {
        FrameView::Text(text) => encode_utf8(text),
        FrameView::Binary(data) => data,
        FrameView::Close(_, _) => Seq::empty(),
        FrameView::Ping(Some(text)) => encode_utf8(text),
        FrameView::Ping(None) => Seq::empty(),
        FrameView::Pong(_) => arbitrary(),
    }
}

/// The bytes that the server sends for a message: the final bit and the opcode,
/// the low eight bits of the payload's length, and the payload as it is.
pub open spec fn sent_bytes(message: MessageView) -> Seq<u8> {
    let payload = sent_payload(message.frame);
    let b0 = if message.fin {
        0x80 + sent_opcode(message.frame)
    } else {
        0 + sent_opcode(message.frame)
    };
    seq![b0 as u8, (payload.len() % 256) as u8] + payload
}

/// Appends the bytes of `data` to `buf`.
fn append_bytes(buf: &mut Vec<u8>, data: &[u8])
    ensures
        final(buf)@ == old(buf)@ + data@,
{
    let mut i: usize = 0;
    while i < data.len()
        invariant
            i <= data@.len(),
            buf@ == old(buf)@ + data@.take(i as int),
        decreases data@.len() - i,
    {
        buf.push(data[i]);
        i = i + 1;
        assert(data@.take(i as int) =~= data@.take(i - 1).push(data@[i - 1]));
    }
    assert(data@.take(data@.len() as int) =~= data@);
}

/// The low eight bits of a length.
fn low_byte(length: usize) -> (b: u8)
    ensures
        b == length % 256,
{
    let b: u8 = #[verifier::truncate] (length as u8);
    assert(b == length % 256) by (bit_vector)
        requires
            b == length as u8,
    ;
    b
}

/// The bytes that the server sends for a message.
pub fn encode_message(msg: Message) -> (buf: Vec<u8>)
    requires
        is_sendable(msg@.frame),
    ensures
        buf@ == sent_bytes(msg@),
        msg.frame matches Frame::Text(text) ==> buf@ == seq![
            if msg.fin {
                0x81u8
            } else {
                0x01u8
            },
            (encode_utf8(text@).len() % 256) as u8,
        ] + encode_utf8(text@),
        msg.frame matches Frame::Binary(data) ==> buf@ == seq![
            if msg.fin {
                0x82u8
            } else {
                0x02u8
            },
            (data@.len() % 256) as u8,
        ] + data@,
        msg.frame matches Frame::Close(_, _) ==> buf@ == seq![
            if msg.fin {
                0x88u8
            } else {
                0x08u8
            },
            0u8,
        ],
        msg.frame matches Frame::Ping(Some(text)) ==> buf@ == seq![
            if msg.fin {
                0x89u8
            } else {
                0x09u8
            },
            (encode_utf8(text@).len() % 256) as u8,
        ] + encode_utf8(text@),
        msg.frame matches Frame::Ping(None) ==> buf@ == seq![
            if msg.fin {
                0x89u8
            } else {
                0x09u8
            },
            0u8,
        ],
{
    let mut buf: Vec<u8> = Vec::with_capacity(256);
    let mut b0: u8 = 0x00;
    let mut b1: u8 = 0x00;
    if msg.fin {
        b0 = 0x80;
    }
    assert(forall|opcode: u8| opcode < 16 ==> #[trigger] (0x80u8 | opcode) == 0x80 + opcode)
        by (bit_vector);
    assert(forall|opcode: u8| #[trigger] (0u8 | opcode) == opcode) by (bit_vector);
    match msg.frame {
        Frame::Text(data) => {
            b0 = b0 | TEXT_OPCODE;
            let bytes = data.as_str().as_bytes();
            b1 = low_byte(bytes.len());
            append_bytes(&mut buf, bytes);
        },
        Frame::Binary(data) => {
            b0 = b0 | BINARY_OPCODE;
            b1 = low_byte(data.len());
            append_bytes(&mut buf, data.as_slice());
        },
        Frame::Close(_, _) => {
            b0 = b0 | CLOSE_OPCODE;
        },
        Frame::Ping(data) => {
            b0 = b0 | PING_OPCODE;
            if let Some(data) = data {
                let bytes = data.as_str().as_bytes();
                b1 = low_byte(bytes.len());
                append_bytes(&mut buf, bytes);
            }
        },
        Frame::Pong(_) => {},
    }
    buf.insert(0, b1);
    buf.insert(0, b0);
    assert(buf@ =~= sent_bytes(msg@));
    buf
}

/// A sent frame is two bytes longer than its payload, which ends it.
pub proof fn law_sent_payload(message: MessageView)
    ensures
        sent_bytes(message).len() == 2 + sent_payload(message.frame).len(),
        sent_bytes(message).skip(2) == sent_payload(message.frame),
{
    assert(sent_bytes(message).skip(2) =~= sent_payload(message.frame));
}

/// The head of a sent frame tells the final bit, the opcode and, up to 127 bytes,
/// the length of the payload; it has no reserved bit set and announces no mask.
pub proof fn law_sent_head(message: MessageView)
    requires
        is_sendable(message.frame),
        sent_payload(message.frame).len() < 128,
    ensures
        is_final(sent_bytes(message)[0]) == message.fin,
        !has_reserved_bits(sent_bytes(message)[0]),
        opcode_of(sent_bytes(message)[0]) == sent_opcode(message.frame),
        !is_masked(sent_bytes(message)[1]),
        length_bits(sent_bytes(message)[1]) == sent_payload(message.frame).len(),
{
}

/// Two messages that are sent as the same bytes agree in the final bit, the
/// opcode and the payload. If they are text or binary data, they are the same.
pub proof fn law_sent_injective(a: MessageView, b: MessageView)
    requires
        is_sendable(a.frame),
        is_sendable(b.frame),
        sent_bytes(a) == sent_bytes(b),
    ensures
        a.fin == b.fin,
        sent_opcode(a.frame) == sent_opcode(b.frame),
        sent_payload(a.frame) == sent_payload(b.frame),
        a.frame is Text || a.frame is Binary ==> a == b,
{
    law_sent_payload(a);
    law_sent_payload(b);
    let first = |m: MessageView| if m.fin {
        0x80 + sent_opcode(m.frame)
    } else {
        0 + sent_opcode(m.frame)
    };
    assert(sent_bytes(a)[0] == first(a));
    assert(sent_bytes(b)[0] == first(b));
    if let (FrameView::Text(s), FrameView::Text(t)) = (a.frame, b.frame) {
        encode_utf8_decode_utf8(s);
        encode_utf8_decode_utf8(t);
    }
}

/// A close is sent as two bytes, whatever its code and its reason are.
pub proof fn law_close_sent_bare(fin: bool, code: Option<u16>, reason: Option<Seq<char>>)
    ensures
        sent_bytes(MessageView { fin, frame: FrameView::Close(code, reason) }) == seq![
            if fin {
                0x88u8
            } else {
                0x08u8
            },
            0u8,
        ],
{
    assert(sent_bytes(MessageView { fin, frame: FrameView::Close(code, reason) }) =~= seq![
        if fin {
            0x88u8
        } else {
            0x08u8
        },
        0u8,
    ]);
}

} // verus!

//! What each read of a client's frame leads to, byte by byte.

use crate::bigendian::{
    big_endian, big_endian_bytes, front, lemma_big_endian_2, lemma_big_endian_4,
    lemma_big_endian_8,
};
use crate::connection::Websocket;
use crate::frame::{FrameView, Message, MessageView};
use crate::mask::unmasked;
use crate::receiver::{
    answer, breach_of, bytes_wanted, step, well_formed, Breach, ReadOutcome, ReadView, Receiver,
    ReceiverView, RecvError, RecvErrorKind,
};
use crate::reception::{
    client_frame, law_client_frame_received, read_from, receive, LengthForm, Reception,
};
use vstd::prelude::*;
use vstd::utf8::*;

verus! {

/// A read is viewed as the bytes it brought and whether it failed.
pub proof fn law_read_viewed(read: ReadOutcome)
    ensures
        read@.bytes == read.bytes@,
        read@.failed == read.failed,
{
}

/// A receiver is viewed as what it holds.
pub proof fn law_receiver_viewed(receiver: Receiver)
    ensures
        receiver is Idle ==> receiver@ == ReceiverView::Idle,
        receiver matches Receiver::ShortLength { fin, opcode } ==> receiver@
            == (ReceiverView::ShortLength { fin, opcode }),
        receiver matches Receiver::LongLength { fin, opcode } ==> receiver@
            == (ReceiverView::LongLength { fin, opcode }),
        receiver matches Receiver::MaskingKey { fin, opcode, length } ==> receiver@
            == (ReceiverView::MaskingKey { fin, opcode, length }),
        receiver matches Receiver::Payload { fin, opcode, length, mask } ==> receiver@
            == (ReceiverView::Payload { fin, opcode, length, mask }),
{
}

/// An answer is viewed as the message or the error it brings, if any.
pub proof fn law_answer_viewed(reply: Option<Result<Message, RecvError>>)
    ensures
        reply is None ==> answer(reply) is None,
        reply matches Some(Err(e)) ==> answer(reply) == Some(Err::<MessageView, RecvError>(e)),
        reply matches Some(Ok(message)) ==> answer(reply) == Some(
            Ok::<MessageView, RecvError>(message@),
        ),
{
}

/// Two bytes are wanted for the head, two or eight for a length of its own, four
/// for the masking key, and for the payload as many as its length says.
pub proof fn law_bytes_wanted(fin: bool, opcode: u8, length: u64, mask: u32)
    ensures
        bytes_wanted(ReceiverView::Idle) == 2,
        bytes_wanted(ReceiverView::ShortLength { fin, opcode }) == 2,
        bytes_wanted(ReceiverView::LongLength { fin, opcode }) == 8,
        bytes_wanted(ReceiverView::MaskingKey { fin, opcode, length }) == 4,
        bytes_wanted(ReceiverView::Payload { fin, opcode, length, mask }) == length,
{
}

/// Every state is well formed, but for a payload that is awaited under an opcode
/// that no client may send.
pub proof fn law_well_formed(state: ReceiverView)
    ensures
        well_formed(state) <==> (state matches ReceiverView::Payload {
            fin,
            opcode,
            length,
            mask,
        } ==> opcode == 1 || opcode == 2 || opcode == 8 || opcode == 10),
{
}

/// A WebSocket is fit to receive whatever waits to be written: only a payload that
/// is awaited under an opcode that no client may send would hinder it.
pub proof fn law_fit_to_receive(websocket: Websocket)
    ensures
        websocket.wf() <==> (websocket@.receiver matches ReceiverView::Payload {
            fin,
            opcode,
            length,
            mask,
        } ==> opcode == 1 || opcode == 2 || opcode == 8 || opcode == 10),
{
}

/// What the first two bytes of a frame lead to, by their bits.
pub proof fn law_head_read(b0: u8, b1: u8)
    ensures
        breach_of(ReceiverView::Idle, ReadView { bytes: seq![b0, b1], failed: false }) is None,
        step(ReceiverView::Idle, ReadView { bytes: seq![b0, b1], failed: false }) == (if b0 & 0x70
            != 0 {
            (ReceiverView::Idle, Some(Err::<MessageView, RecvError>(RecvError::ReservedBits)))
        } else if b1 & 0x80 == 0 {
            (ReceiverView::Idle, Some(Err::<MessageView, RecvError>(RecvError::NotMasked)))
        } else if b1 & 0x7f == 126 {
            (ReceiverView::ShortLength { fin: b0 & 0x80 != 0, opcode: b0 & 0x0f }, None)
        } else if b1 & 0x7f == 127 {
            (ReceiverView::LongLength { fin: b0 & 0x80 != 0, opcode: b0 & 0x0f }, None)
        } else {
            (
                ReceiverView::MaskingKey {
                    fin: b0 & 0x80 != 0,
                    opcode: b0 & 0x0f,
                    length: (b1 & 0x7f) as u64,
                },
                None,
            )
        }),
{
    assert((b0 & 0x70 != 0) == ((b0 / 16) % 8 != 0)) by (bit_vector);
    assert((b0 & 0x80 != 0) == (b0 >= 0x80)) by (bit_vector);
    assert(b0 & 0x0f == b0 % 16) by (bit_vector);
    assert((b1 & 0x80 == 0) == (b1 < 0x80)) by (bit_vector);
    assert(b1 & 0x7f == b1 % 128) by (bit_vector);
}

/// A length in two bytes of its own is the number that they spell.
pub proof fn law_short_length_read(fin: bool, opcode: u8, bytes: Seq<u8>)
    requires
        bytes.len() == 2,
    ensures
        breach_of(
            ReceiverView::ShortLength { fin, opcode },
            ReadView { bytes, failed: false },
        ) is None,
        step(ReceiverView::ShortLength { fin, opcode }, ReadView { bytes, failed: false }) == (
            ReceiverView::MaskingKey {
                fin,
                opcode,
                length: (bytes[0] * 0x100 + bytes[1]) as u64,
            },
            None::<Result<MessageView, RecvError>>,
        ),
{
    lemma_big_endian_2(bytes);
}

/// A length in eight bytes of its own is the number that they spell.
pub proof fn law_long_length_read(fin: bool, opcode: u8, bytes: Seq<u8>)
    requires
        bytes.len() == 8,
    ensures
        breach_of(
            ReceiverView::LongLength { fin, opcode },
            ReadView { bytes, failed: false },
        ) is None,
        step(ReceiverView::LongLength { fin, opcode }, ReadView { bytes, failed: false }) == (
            ReceiverView::MaskingKey {
                fin,
                opcode,
                length: (bytes[0] * 0x100_0000_0000_0000 + bytes[1] * 0x1_0000_0000_0000 + bytes[2]
                    * 0x100_0000_0000 + bytes[3] * 0x1_0000_0000 + bytes[4] * 0x100_0000 + bytes[5]
                    * 0x1_0000 + bytes[6] * 0x100 + bytes[7]) as u64,
            },
            None::<Result<MessageView, RecvError>>,
        ),
{
    lemma_big_endian_8(bytes);
}

/// The masking key is the number that its four bytes spell. With it there, a
/// frame breaks the protocol exactly if its opcode is none of text, binary data,
/// close and pong.
pub proof fn law_masking_key_read(fin: bool, opcode: u8, length: u64, bytes: Seq<u8>)
    requires
        bytes.len() == 4,
    ensures
        breach_of(
            ReceiverView::MaskingKey { fin, opcode, length },
            ReadView { bytes, failed: false },
        ) == (if opcode == 0 {
            Some(Breach::Continuation)
        } else if opcode == 9 {
            Some(Breach::Ping)
        } else if opcode == 1 || opcode == 2 || opcode == 8 || opcode == 10 {
            None
        } else {
            Some(Breach::UnknownOpcode)
        }),
        step(ReceiverView::MaskingKey { fin, opcode, length }, ReadView { bytes, failed: false })
            == (
            ReceiverView::Payload {
                fin,
                opcode,
                length,
                mask: (bytes[0] * 0x100_0000 + bytes[1] * 0x1_0000 + bytes[2] * 0x100
                    + bytes[3]) as u32,
            },
            None::<Result<MessageView, RecvError>>,
        ),
{
    lemma_big_endian_4(bytes);
}

/// A read that fails, or brings fewer bytes than are wanted, before the payload is
/// reached is reported under the part that was to be read. It breaks nothing, and
/// the receiver waits for the next frame.
pub proof fn law_short_reads(fin: bool, opcode: u8, length: u64, read: ReadView)
    ensures
        read.failed || read.bytes.len() < 2 ==> {
            &&& breach_of(ReceiverView::Idle, read) is None
            &&& step(ReceiverView::Idle, read) == (
                ReceiverView::Idle,
                Some(Err::<MessageView, RecvError>(RecvError::Header)),
            )
            &&& breach_of(ReceiverView::ShortLength { fin, opcode }, read) is None
            &&& step(ReceiverView::ShortLength { fin, opcode }, read) == (
                ReceiverView::Idle,
                Some(Err::<MessageView, RecvError>(RecvError::ShortLength)),
            )
        },
        read.failed || read.bytes.len() < 8 ==> {
            &&& breach_of(ReceiverView::LongLength { fin, opcode }, read) is None
            &&& step(ReceiverView::LongLength { fin, opcode }, read) == (
                ReceiverView::Idle,
                Some(Err::<MessageView, RecvError>(RecvError::LongLength)),
            )
        },
        read.failed || read.bytes.len() < 4 ==> {
            &&& breach_of(ReceiverView::MaskingKey { fin, opcode, length }, read) is None
            &&& step(ReceiverView::MaskingKey { fin, opcode, length }, read) == (
                ReceiverView::Idle,
                Some(Err::<MessageView, RecvError>(RecvError::MaskingKey)),
            )
        },
{
}

/// Unmasking combines each byte by exclusive or with one byte of the masking key,
/// the most significant one first and the first again behind the fourth.
pub proof fn law_unmasked_bytes(data: Seq<u8>, mask: u32)
    ensures
        unmasked(data, mask) == Seq::new(
            data.len(),
            |i: int| data[i] ^ ((mask >> (24 - 8 * (i % 4)) as u32) & 0xff) as u8,
        ),
{
    assert(unmasked(data, mask) =~= Seq::new(
        data.len(),
        |i: int| data[i] ^ ((mask >> (24 - 8 * (i % 4)) as u32) & 0xff) as u8,
    ));
}

/// A payload of which bytes are missing breaks the protocol, whether the read
/// failed or not. One that is all there breaks it exactly if it is text that is
/// not UTF-8 once it is unmasked.
pub proof fn law_payload_breaches(
    fin: bool,
    opcode: u8,
    length: u64,
    mask: u32,
    bytes: Seq<u8>,
    failed: bool,
)
    ensures
        breach_of(
            ReceiverView::Payload { fin, opcode, length, mask },
            ReadView { bytes, failed },
        ) == (if bytes.len() < length {
            Some(Breach::TruncatedPayload)
        } else if opcode == 1 && !valid_utf8(
            Seq::new(
                bytes.len(),
                |i: int| bytes[i] ^ ((mask >> (24 - 8 * (i % 4)) as u32) & 0xff) as u8,
            ),
        ) {
            Some(Breach::TextDecoding)
        } else {
            None
        }),
{
    law_unmasked_bytes(bytes, mask);
}

/// The payload of a text frame gives the text that its unmasked bytes encode.
pub proof fn law_text_read(
    fin: bool,
    length: u64,
    mask: u32,
    bytes: Seq<u8>,
    failed: bool,
    text: Seq<char>,
)
    requires
        Seq::new(
            bytes.len(),
            |i: int| bytes[i] ^ ((mask >> (24 - 8 * (i % 4)) as u32) & 0xff) as u8,
        ) == encode_utf8(text),
    ensures
        step(
            ReceiverView::Payload { fin, opcode: 1, length, mask },
            ReadView { bytes, failed },
        ) == (
            ReceiverView::Idle,
            Some(Ok::<MessageView, RecvError>(MessageView { fin, frame: FrameView::Text(text) })),
        ),
{
    law_unmasked_bytes(bytes, mask);
    encode_utf8_decode_utf8(text);
}

/// The payload of a binary frame gives its unmasked bytes.
pub proof fn law_binary_read(fin: bool, length: u64, mask: u32, bytes: Seq<u8>, failed: bool)
    ensures
        step(
            ReceiverView::Payload { fin, opcode: 2, length, mask },
            ReadView { bytes, failed },
        ) == (
            ReceiverView::Idle,
            Some(
                Ok::<MessageView, RecvError>(
                    MessageView {
                        fin,
                        frame: FrameView::Binary(
                            Seq::new(
                                bytes.len(),
                                |i: int|
                                    bytes[i] ^ ((mask >> (24 - 8 * (i % 4)) as u32) & 0xff) as u8,
                            ),
                        ),
                    },
                ),
            ),
        ),
{
    law_unmasked_bytes(bytes, mask);
}

/// The unmasked payload of a close gives the code that its first two bytes spell,
/// and the text that the others encode, if there are any and they are UTF-8. With
/// fewer than two bytes there is neither.
pub proof fn law_close_read(
    fin: bool,
    length: u64,
    mask: u32,
    bytes: Seq<u8>,
    failed: bool,
    plain: Seq<u8>,
)
    requires
        plain == Seq::new(
            bytes.len(),
            |i: int| bytes[i] ^ ((mask >> (24 - 8 * (i % 4)) as u32) & 0xff) as u8,
        ),
    ensures
        step(
            ReceiverView::Payload { fin, opcode: 8, length, mask },
            ReadView { bytes, failed },
        ) == (
            ReceiverView::Idle,
            Some(
                Ok::<MessageView, RecvError>(
                    MessageView {
                        fin,
                        frame: if plain.len() < 2 {
                            FrameView::Close(None, None)
                        } else {
                            FrameView::Close(
                                Some((plain[0] * 0x100 + plain[1]) as u16),
                                if plain.len() > 2 && valid_utf8(plain.skip(2)) {
                                    Some(decode_utf8(plain.skip(2)))
                                } else {
                                    None
                                },
                            )
                        },
                    },
                ),
            ),
        ),
{
    law_unmasked_bytes(bytes, mask);
    if plain.len() >= 2 {
        lemma_big_endian_2(plain.take(2));
        if plain.len() == 2 {
            assert(plain.take(2) =~= plain);
        }
    }
}

/// The unmasked payload of a pong gives the text that it encodes, if it is not
/// empty and is UTF-8.
pub proof fn law_pong_read(
    fin: bool,
    length: u64,
    mask: u32,
    bytes: Seq<u8>,
    failed: bool,
    plain: Seq<u8>,
)
    requires
        plain == Seq::new(
            bytes.len(),
            |i: int| bytes[i] ^ ((mask >> (24 - 8 * (i % 4)) as u32) & 0xff) as u8,
        ),
    ensures
        step(
            ReceiverView::Payload { fin, opcode: 10, length, mask },
            ReadView { bytes, failed },
        ) == (
            ReceiverView::Idle,
            Some(
                Ok::<MessageView, RecvError>(
                    MessageView {
                        fin,
                        frame: FrameView::Pong(
                            if plain.len() > 0 && valid_utf8(plain) {
                                Some(decode_utf8(plain))
                            } else {
                                None
                            },
                        ),
                    },
                ),
            ),
        ),
{
    law_unmasked_bytes(bytes, mask);
}

/// The errors on a reserved bit and on a missing mask are of their own kind, and
/// all others are of the end-of-file kind.
pub proof fn law_error_kinds(error: RecvError)
    ensures
        error.spec_kind() == (if error is ReservedBits || error is NotMasked {
            RecvErrorKind::Other
        } else {
            RecvErrorKind::UnexpectedEof
        }),
{
}

/// The bytes that are taken from the front of an iterator are those it points at.
pub proof fn law_front(items: Seq<&u8>, n: int)
    requires
        0 <= n <= items.len(),
    ensures
        front(items, n).len() == n,
        forall|i: int| 0 <= i < n ==> #[trigger] front(items, n)[i] == *items[i],
{
}

/// Big-endian numbers of two, four and eight bytes, digit by digit.
pub proof fn law_big_endian_spelt(two: Seq<u8>, four: Seq<u8>, eight: Seq<u8>)
    requires
        two.len() == 2,
        four.len() == 4,
        eight.len() == 8,
    ensures
        big_endian(two) == two[0] * 0x100 + two[1],
        big_endian(four) == four[0] * 0x100_0000 + four[1] * 0x1_0000 + four[2] * 0x100 + four[3],
        big_endian(eight) == eight[0] * 0x100_0000_0000_0000 + eight[1] * 0x1_0000_0000_0000
            + eight[2] * 0x100_0000_0000 + eight[3] * 0x1_0000_0000 + eight[4] * 0x100_0000
            + eight[5] * 0x1_0000 + eight[6] * 0x100 + eight[7],
{
    lemma_big_endian_2(two);
    lemma_big_endian_4(four);
    lemma_big_endian_8(eight);
}

/// The two base-256 digits of a number.
pub proof fn law_big_endian_written(value: u16)
    ensures
        big_endian_bytes(value as nat, 2) == seq![(value / 256) as u8, (value % 256) as u8],
{
    reveal_with_fuel(big_endian_bytes, 3);
    assert((value / 256) % 256 == value / 256);
    assert(big_endian_bytes(value as nat, 2) =~= seq![(value / 256) as u8, (value % 256) as u8]);
}

/// A short frame of a client, byte by byte: the final bit and the opcode, the mask
/// bit and the length, the key, and the payload combined with the key.
pub proof fn law_short_frame_bytes(fin: bool, opcode: u8, key: Seq<u8>, payload: Seq<u8>)
    requires
        opcode < 16,
        key.len() == 4,
        payload.len() <= 125,
    ensures
        client_frame(fin, opcode, LengthForm::Bits, key, payload) == seq![
            if fin {
                0x80u8 | opcode
            } else {
                opcode
            },
            (0x80 + payload.len()) as u8,
        ] + key + Seq::new(payload.len(), |i: int| payload[i] ^ key[i % 4]),
{
    assert(0x80u8 | opcode == 0x80 + opcode) by (bit_vector)
        requires
            opcode < 16,
    ;
    assert(client_frame(fin, opcode, LengthForm::Bits, key, payload) =~= seq![
        if fin {
            0x80u8 | opcode
        } else {
            opcode
        },
        (0x80 + payload.len()) as u8,
    ] + key + Seq::new(payload.len(), |i: int| payload[i] ^ key[i % 4]));
}

/// A longer frame of a client has its length in two bytes behind the second one.
pub proof fn law_long_frame_bytes(fin: bool, opcode: u8, key: Seq<u8>, payload: Seq<u8>)
    requires
        opcode < 16,
        key.len() == 4,
        payload.len() <= 0xffff,
    ensures
        client_frame(fin, opcode, LengthForm::Short, key, payload) == seq![
            if fin {
                0x80u8 | opcode
            } else {
                opcode
            },
            0xfeu8,
            (payload.len() / 256) as u8,
            (payload.len() % 256) as u8,
        ] + key + Seq::new(payload.len(), |i: int| payload[i] ^ key[i % 4]),
{
    assert(0x80u8 | opcode == 0x80 + opcode) by (bit_vector)
        requires
            opcode < 16,
    ;
    law_big_endian_written(payload.len() as u16);
    assert(client_frame(fin, opcode, LengthForm::Short, key, payload) =~= seq![
        if fin {
            0x80u8 | opcode
        } else {
            opcode
        },
        0xfeu8,
        (payload.len() / 256) as u8,
        (payload.len() % 256) as u8,
    ] + key + Seq::new(payload.len(), |i: int| payload[i] ^ key[i % 4]));
}

/// A client's binary frame is read back from its very bytes.
pub proof fn law_binary_bytes_received(fin: bool, key: Seq<u8>, data: Seq<u8>, rest: Seq<u8>)
    requires
        key.len() == 4,
        data.len() <= 125,
    ensures
        receive(
            ReceiverView::Idle,
            seq![
                if fin {
                    0x82u8
                } else {
                    0x02u8
                },
                (0x80 + data.len()) as u8,
            ] + key + Seq::new(data.len(), |i: int| data[i] ^ key[i % 4]) + rest,
        ) == Reception::Ended(Ok(MessageView { fin, frame: FrameView::Binary(data) }), rest),
{
    assert(0x80u8 | 2u8 == 0x82u8) by (bit_vector);
    law_short_frame_bytes(fin, 2, key, data);
    law_client_frame_received(fin, 2, LengthForm::Bits, key, data, rest);
}

/// A client's text frame is read back from its very bytes.
pub proof fn law_text_bytes_received(fin: bool, key: Seq<u8>, text: Seq<char>, rest: Seq<u8>)
    requires
        key.len() == 4,
        encode_utf8(text).len() <= 125,
    ensures
        receive(
            ReceiverView::Idle,
            seq![
                if fin {
                    0x81u8
                } else {
                    0x01u8
                },
                (0x80 + encode_utf8(text).len()) as u8,
            ] + key + Seq::new(
                encode_utf8(text).len(),
                |i: int| encode_utf8(text)[i] ^ key[i % 4],
            ) + rest,
        ) == Reception::Ended(Ok(MessageView { fin, frame: FrameView::Text(text) }), rest),
{
    assert(0x80u8 | 1u8 == 0x81u8) by (bit_vector);
    encode_utf8_valid_utf8(text);
    encode_utf8_decode_utf8(text);
    law_short_frame_bytes(fin, 1, key, encode_utf8(text));
    law_client_frame_received(fin, 1, LengthForm::Bits, key, encode_utf8(text), rest);
}

/// A read from a stream brings its first bytes, as many as are asked for or as
/// there are.
pub proof fn law_stream_read(stream: Seq<u8>, count: int)
    requires
        0 <= count,
    ensures
        !read_from(stream, count).failed,
        count <= stream.len() ==> read_from(stream, count).bytes == stream.take(count),
        count > stream.len() ==> read_from(stream, count).bytes == stream,
{
}

} // verus!

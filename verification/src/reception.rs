//! Reception of a whole frame from a stream, and what becomes of the frames that
//! a client or a server sends.

use crate::bigendian::{
    big_endian, big_endian_bytes, law_big_endian_round_trip, lemma_big_endian_4, lemma_byte_powers,
};
use crate::frame::{
    FrameView, MessageView, BINARY_OPCODE, CLOSE_OPCODE, CONTINUATION_OPCODE, PING_OPCODE,
    PONG_OPCODE, TEXT_OPCODE,
};
use crate::mask::{law_unmask_involution, mask_byte, unmasked};
use crate::receiver::{
    breach_of, bytes_wanted, falls_short, has_reserved_bits, is_client_opcode, is_final, is_masked,
    opcode_of, payload_frame, step, well_formed, Breach, ReadView, ReceiverView, RecvError,
    RecvErrorKind,
};
use crate::sender::{is_sendable, sent_bytes, sent_payload};
use vstd::prelude::*;
use vstd::utf8::*;

verus! {

/// What comes of receiving from a stream.
#[verifier::ext_equal]
pub enum Reception {
    /// A message or an error, and what is left of the stream.
    Ended(Result<MessageView, RecvError>, Seq<u8>),
    /// The client broke the protocol, or the stream ended inside the payload.
    Broken(Breach),
}

/// How many reads the frame may still take.
pub open spec fn reads_left(state: ReceiverView) -> nat {
    match state {
        ReceiverView::Idle => 4,
        ReceiverView::ShortLength { fin, opcode } => 3,
        ReceiverView::LongLength { fin, opcode } => 3,
        ReceiverView::MaskingKey { fin, opcode, length } => 2,
        ReceiverView::Payload { fin, opcode, length, mask } => 1,
    }
}

/// What a read of at most `count` bytes gets from a stream that does not fail.
pub open spec fn read_from(stream: Seq<u8>, count: int) -> ReadView {
    ReadView {
        bytes: if count <= stream.len() {
            stream.take(count)
        } else {
            stream
        },
        failed: false,
    }
}

/// Reception from a stream that does not fail: as many bytes are read as are
/// wanted, until the frame has ended.
pub open spec fn receive(state: ReceiverView, stream: Seq<u8>) -> Reception
    decreases reads_left(state),
{
    let read = read_from(stream, bytes_wanted(state) as int);
    let rest = stream.skip(read.bytes.len() as int);
    match breach_of(state, read) {
        Some(breach) => Reception::Broken(breach),
        None => match step(state, read) {
            (_, Some(reply)) => Reception::Ended(reply, rest),
            (next, None) => receive(next, rest),
        },
    }
}

/// A payload combined with the four bytes of a masking key, which are used over
/// and over.
pub open spec fn masked_with(payload: Seq<u8>, key: Seq<u8>) -> Seq<u8> {
    Seq::new(payload.len(), |i: int| payload[i] ^ key[i % 4])
}

/// The first byte of a frame.
pub open spec fn first_byte(fin: bool, opcode: u8) -> u8 {
    if fin {
        (0x80 + opcode) as u8
    } else {
        opcode
    }
}

/// Where a frame has its payload's length.
pub enum LengthForm {
    /// In seven bits of the second byte.
    Bits,
    /// In the two bytes behind the second one.
    Short,
    /// In the eight bytes behind the second one.
    Long,
}

/// Whether a length can be given in a form.
pub open spec fn fits(length: nat, form: LengthForm) -> bool {
    match form {
        LengthForm::Bits => length <= 125,
        LengthForm::Short => length <= u16::MAX,
        LengthForm::Long => length <= u64::MAX,
    }
}

/// The second byte of a client's frame, and the bytes of the length behind it.
pub open spec fn length_field(length: nat, form: LengthForm) -> Seq<u8> {
    match form {
        LengthForm::Bits => seq![(0x80 + length) as u8],
        LengthForm::Short => seq![0xfeu8] + big_endian_bytes(length, 2),
        LengthForm::Long => seq![0xffu8] + big_endian_bytes(length, 8),
    }
}

/// The bytes of a frame as a client sends it.
pub open spec fn client_frame(
    fin: bool,
    opcode: u8,
    form: LengthForm,
    key: Seq<u8>,
    payload: Seq<u8>,
) -> Seq<u8> {
    seq![first_byte(fin, opcode)] + length_field(payload.len(), form) + key + masked_with(
        payload,
        key,
    )
}

/// Four bytes read as a masking key are its bytes.
proof fn lemma_key_bytes(key: Seq<u8>)
    requires
        key.len() == 4,
    ensures
        big_endian(key) <= u32::MAX,
        forall|k: int| 0 <= k < 4 ==> #[trigger] mask_byte(big_endian(key) as u32, k) == key[k],
{
    lemma_big_endian_4(key);
    let (a, b, c, d) = (key[0], key[1], key[2], key[3]);
    let m = big_endian(key) as u32;
    assert(m == a as u32 * 0x1000000 + b as u32 * 0x10000 + c as u32 * 0x100 + d as u32);
    assert(((m >> 24u32) & 0xff) as u8 == a && ((m >> 16u32) & 0xff) as u8 == b && ((m >> 8u32)
        & 0xff) as u8 == c && ((m >> 0u32) & 0xff) as u8 == d) by (bit_vector)
        requires
            m == a as u32 * 0x1000000 + b as u32 * 0x10000 + c as u32 * 0x100 + d as u32,
    ;
    assert(mask_byte(m, 0) == a);
    assert(mask_byte(m, 1) == b);
    assert(mask_byte(m, 2) == c);
    assert(mask_byte(m, 3) == d);
}

/// The receiver takes off what the client's masking put on.
pub proof fn law_unmask_client(payload: Seq<u8>, key: Seq<u8>)
    requires
        key.len() == 4,
    ensures
        unmasked(masked_with(payload, key), big_endian(key) as u32) == payload,
{
    let mask = big_endian(key) as u32;
    lemma_key_bytes(key);
    assert forall|i: int| 0 <= i < payload.len() implies masked_with(payload, key)[i] == unmasked(
        payload,
        mask,
    )[i] by {
        assert(mask_byte(mask, i % 4) == key[i % 4]);
    }
    assert(masked_with(payload, key) =~= unmasked(payload, mask));
    law_unmask_involution(payload, mask);
}

/// The fields of a frame's first byte.
proof fn lemma_first_byte_fields(fin: bool, opcode: u8)
    requires
        opcode < 16,
    ensures
        !has_reserved_bits(first_byte(fin, opcode)),
        is_final(first_byte(fin, opcode)) == fin,
        opcode_of(first_byte(fin, opcode)) == opcode,
{
}

/// Reception of a head that has its length in the second byte.
proof fn lemma_receive_bits(fin: bool, opcode: u8, length: nat, rest: Seq<u8>)
    requires
        opcode < 16,
        fits(length, LengthForm::Bits),
    ensures
        receive(
            ReceiverView::Idle,
            seq![first_byte(fin, opcode)] + length_field(length, LengthForm::Bits) + rest,
        ) == receive(ReceiverView::MaskingKey { fin, opcode, length: length as u64 }, rest),
{
    let stream = seq![first_byte(fin, opcode)] + length_field(length, LengthForm::Bits) + rest;
    lemma_first_byte_fields(fin, opcode);
    assert(stream.take(2) =~= seq![first_byte(fin, opcode), (0x80 + length) as u8]);
    assert(stream.skip(2) =~= rest);
}

/// Reception of a head that has its length in two bytes of its own.
proof fn lemma_receive_short(fin: bool, opcode: u8, length: nat, rest: Seq<u8>)
    requires
        opcode < 16,
        fits(length, LengthForm::Short),
    ensures
        receive(
            ReceiverView::Idle,
            seq![first_byte(fin, opcode)] + length_field(length, LengthForm::Short) + rest,
        ) == receive(ReceiverView::MaskingKey { fin, opcode, length: length as u64 }, rest),
{
    let stream = seq![first_byte(fin, opcode)] + length_field(length, LengthForm::Short) + rest;
    let digits = big_endian_bytes(length, 2);
    lemma_first_byte_fields(fin, opcode);
    lemma_byte_powers();
    law_big_endian_round_trip(length, 2);
    assert(stream.take(2) =~= seq![first_byte(fin, opcode), 0xfeu8]);
    assert(stream.skip(2) =~= digits + rest);
    assert(receive(ReceiverView::Idle, stream) == receive(
        ReceiverView::ShortLength { fin, opcode },
        digits + rest,
    ));
    assert((digits + rest).take(2) =~= digits);
    assert((digits + rest).skip(2) =~= rest);
}

/// Reception of a head that has its length in eight bytes of its own.
proof fn lemma_receive_long(fin: bool, opcode: u8, length: nat, rest: Seq<u8>)
    requires
        opcode < 16,
        fits(length, LengthForm::Long),
    ensures
        receive(
            ReceiverView::Idle,
            seq![first_byte(fin, opcode)] + length_field(length, LengthForm::Long) + rest,
        ) == receive(ReceiverView::MaskingKey { fin, opcode, length: length as u64 }, rest),
{
    let stream = seq![first_byte(fin, opcode)] + length_field(length, LengthForm::Long) + rest;
    let digits = big_endian_bytes(length, 8);
    lemma_first_byte_fields(fin, opcode);
    lemma_byte_powers();
    law_big_endian_round_trip(length, 8);
    assert(stream.take(2) =~= seq![first_byte(fin, opcode), 0xffu8]);
    assert(stream.skip(2) =~= digits + rest);
    assert(receive(ReceiverView::Idle, stream) == receive(
        ReceiverView::LongLength { fin, opcode },
        digits + rest,
    ));
    assert((digits + rest).take(8) =~= digits);
    assert((digits + rest).skip(8) =~= rest);
}

/// A frame's length is received as the client gave it, in whichever form.
pub proof fn law_length_received(
    fin: bool,
    opcode: u8,
    form: LengthForm,
    length: nat,
    rest: Seq<u8>,
)
    requires
        opcode < 16,
        fits(length, form),
    ensures
        receive(
            ReceiverView::Idle,
            seq![first_byte(fin, opcode)] + length_field(length, form) + rest,
        ) == receive(ReceiverView::MaskingKey { fin, opcode, length: length as u64 }, rest),
{
    match form {
        LengthForm::Bits => lemma_receive_bits(fin, opcode, length, rest),
        LengthForm::Short => lemma_receive_short(fin, opcode, length, rest),
        LengthForm::Long => lemma_receive_long(fin, opcode, length, rest),
    }
}

/// Reception of a client's frame up to the masking key.
proof fn lemma_receive_head(
    fin: bool,
    opcode: u8,
    form: LengthForm,
    key: Seq<u8>,
    payload: Seq<u8>,
    rest: Seq<u8>,
)
    requires
        opcode < 16,
        key.len() == 4,
        fits(payload.len(), form),
    ensures
        receive(ReceiverView::Idle, client_frame(fin, opcode, form, key, payload) + rest)
            == receive(
            ReceiverView::MaskingKey { fin, opcode, length: payload.len() as u64 },
            key + (masked_with(payload, key) + rest),
        ),
{
    let body = masked_with(payload, key);
    let head = seq![first_byte(fin, opcode)] + length_field(payload.len(), form);
    assert(client_frame(fin, opcode, form, key, payload) + rest =~= head + (key + (body + rest)));
    law_length_received(fin, opcode, form, payload.len(), key + (body + rest));
}

/// Reception of a client's frame up to the payload.
proof fn lemma_receive_body(
    fin: bool,
    opcode: u8,
    form: LengthForm,
    key: Seq<u8>,
    payload: Seq<u8>,
    rest: Seq<u8>,
)
    requires
        is_client_opcode(opcode),
        key.len() == 4,
        fits(payload.len(), form),
    ensures
        receive(ReceiverView::Idle, client_frame(fin, opcode, form, key, payload) + rest)
            == receive(
            ReceiverView::Payload {
                fin,
                opcode,
                length: payload.len() as u64,
                mask: big_endian(key) as u32,
            },
            masked_with(payload, key) + rest,
        ),
{
    let body = masked_with(payload, key);
    let stream = key + (body + rest);
    lemma_receive_head(fin, opcode, form, key, payload, rest);
    assert(stream.take(4) =~= key);
    assert(stream.skip(4) =~= body + rest);
}

/// A client's frame is received whole: the final bit and the payload come out as
/// the client put them in, and exactly the frame's bytes are read.
pub proof fn law_client_frame_received(
    fin: bool,
    opcode: u8,
    form: LengthForm,
    key: Seq<u8>,
    payload: Seq<u8>,
    rest: Seq<u8>,
)
    requires
        is_client_opcode(opcode),
        key.len() == 4,
        fits(payload.len(), form),
        opcode == TEXT_OPCODE ==> valid_utf8(payload),
    ensures
        receive(ReceiverView::Idle, client_frame(fin, opcode, form, key, payload) + rest)
            == Reception::Ended(
            Ok(MessageView { fin, frame: payload_frame(opcode, payload) }),
            rest,
        ),
{
    let body = masked_with(payload, key);
    lemma_receive_body(fin, opcode, form, key, payload, rest);
    law_unmask_client(payload, key);
    assert((body + rest).take(payload.len() as int) =~= body);
    assert((body + rest).skip(payload.len() as int) =~= rest);
}

/// A client's text is received as it was sent.
pub proof fn law_text_received(
    fin: bool,
    form: LengthForm,
    key: Seq<u8>,
    text: Seq<char>,
    rest: Seq<u8>,
)
    requires
        key.len() == 4,
        fits(encode_utf8(text).len(), form),
    ensures
        receive(
            ReceiverView::Idle,
            client_frame(fin, TEXT_OPCODE, form, key, encode_utf8(text)) + rest,
        ) == Reception::Ended(Ok(MessageView { fin, frame: FrameView::Text(text) }), rest),
{
    encode_utf8_valid_utf8(text);
    encode_utf8_decode_utf8(text);
    law_client_frame_received(fin, TEXT_OPCODE, form, key, encode_utf8(text), rest);
}

/// A client's binary data is received as it was sent.
pub proof fn law_binary_received(
    fin: bool,
    form: LengthForm,
    key: Seq<u8>,
    data: Seq<u8>,
    rest: Seq<u8>,
)
    requires
        key.len() == 4,
        fits(data.len(), form),
    ensures
        receive(ReceiverView::Idle, client_frame(fin, BINARY_OPCODE, form, key, data) + rest)
            == Reception::Ended(Ok(MessageView { fin, frame: FrameView::Binary(data) }), rest),
{
    law_client_frame_received(fin, BINARY_OPCODE, form, key, data, rest);
}

/// An optional text of which the empty one counts as none.
pub open spec fn unless_empty(text: Seq<char>) -> Option<Seq<char>> {
    if text.len() == 0 {
        None
    } else {
        Some(text)
    }
}

/// Only the empty text has an empty encoding.
proof fn lemma_encoding_empty(text: Seq<char>)
    ensures
        encode_utf8(text).len() == 0 <==> text.len() == 0,
{
    encode_utf8_decode_utf8(text);
    if encode_utf8(text).len() == 0 {
        encode_utf8_valid_utf8(text);
        assert(decode_utf8(encode_utf8(text)).len() == 0);
    }
}

/// A client's close with a code and a reason is received as it was sent, and so
/// is one with a code alone.
pub proof fn law_close_received(
    fin: bool,
    form: LengthForm,
    key: Seq<u8>,
    code: u16,
    reason: Seq<char>,
    rest: Seq<u8>,
)
    requires
        key.len() == 4,
        fits(2 + encode_utf8(reason).len(), form),
    ensures
        receive(
            ReceiverView::Idle,
            client_frame(
                fin,
                CLOSE_OPCODE,
                form,
                key,
                big_endian_bytes(code as nat, 2) + encode_utf8(reason),
            ) + rest,
        ) == Reception::Ended(
            Ok(MessageView { fin, frame: FrameView::Close(Some(code), unless_empty(reason)) }),
            rest,
        ),
{
    let digits = big_endian_bytes(code as nat, 2);
    let text = encode_utf8(reason);
    let payload = digits + text;
    lemma_byte_powers();
    law_big_endian_round_trip(code as nat, 2);
    encode_utf8_valid_utf8(reason);
    encode_utf8_decode_utf8(reason);
    lemma_encoding_empty(reason);
    assert(payload.take(2) =~= digits);
    assert(payload.skip(2) =~= text);
    if text.len() == 0 {
        assert(payload =~= digits);
    }
    law_client_frame_received(fin, CLOSE_OPCODE, form, key, payload, rest);
}

/// A client's close whose payload is too short for a code is received as one
/// without a code, and is read whole.
pub proof fn law_close_without_code_received(
    fin: bool,
    form: LengthForm,
    key: Seq<u8>,
    payload: Seq<u8>,
    rest: Seq<u8>,
)
    requires
        key.len() == 4,
        payload.len() < 2,
    ensures
        receive(ReceiverView::Idle, client_frame(fin, CLOSE_OPCODE, form, key, payload) + rest)
            == Reception::Ended(Ok(MessageView { fin, frame: FrameView::Close(None, None) }), rest),
{
    law_client_frame_received(fin, CLOSE_OPCODE, form, key, payload, rest);
}

/// A client's answer to a ping is received as it was sent.
pub proof fn law_pong_received(
    fin: bool,
    form: LengthForm,
    key: Seq<u8>,
    text: Seq<char>,
    rest: Seq<u8>,
)
    requires
        key.len() == 4,
        fits(encode_utf8(text).len(), form),
    ensures
        receive(
            ReceiverView::Idle,
            client_frame(fin, PONG_OPCODE, form, key, encode_utf8(text)) + rest,
        ) == Reception::Ended(
            Ok(MessageView { fin, frame: FrameView::Pong(unless_empty(text)) }),
            rest,
        ),
{
    encode_utf8_valid_utf8(text);
    encode_utf8_decode_utf8(text);
    lemma_encoding_empty(text);
    law_client_frame_received(fin, PONG_OPCODE, form, key, encode_utf8(text), rest);
}

/// A client's frame that is no text, no binary data, no close and no pong breaks
/// the reception.
pub proof fn law_other_frames_break(
    fin: bool,
    opcode: u8,
    form: LengthForm,
    key: Seq<u8>,
    payload: Seq<u8>,
    rest: Seq<u8>,
)
    requires
        opcode < 16,
        !is_client_opcode(opcode),
        key.len() == 4,
        fits(payload.len(), form),
    ensures
        receive(ReceiverView::Idle, client_frame(fin, opcode, form, key, payload) + rest)
            == Reception::Broken(
            if opcode == CONTINUATION_OPCODE {
                Breach::Continuation
            } else if opcode == PING_OPCODE {
                Breach::Ping
            } else {
                Breach::UnknownOpcode
            },
        ),
{
    let stream = key + (masked_with(payload, key) + rest);
    lemma_receive_head(fin, opcode, form, key, payload, rest);
    assert(stream.take(4) =~= key);
}

/// A client's text frame that is not UTF-8 breaks the reception.
pub proof fn law_invalid_text_breaks(
    fin: bool,
    form: LengthForm,
    key: Seq<u8>,
    payload: Seq<u8>,
    rest: Seq<u8>,
)
    requires
        key.len() == 4,
        fits(payload.len(), form),
        !valid_utf8(payload),
    ensures
        receive(ReceiverView::Idle, client_frame(fin, TEXT_OPCODE, form, key, payload) + rest)
            == Reception::Broken(Breach::TextDecoding),
{
    let body = masked_with(payload, key);
    lemma_receive_body(fin, TEXT_OPCODE, form, key, payload, rest);
    law_unmask_client(payload, key);
    assert((body + rest).take(payload.len() as int) =~= body);
}

/// A stream that ends inside the payload of a client's frame breaks the
/// reception.
pub proof fn law_cut_payload_breaks(
    fin: bool,
    opcode: u8,
    form: LengthForm,
    key: Seq<u8>,
    payload: Seq<u8>,
    missing: int,
)
    requires
        is_client_opcode(opcode),
        key.len() == 4,
        fits(payload.len(), form),
        0 < missing <= payload.len(),
    ensures
        ({
            let frame = client_frame(fin, opcode, form, key, payload);
            receive(ReceiverView::Idle, frame.take(frame.len() - missing))
        }) == Reception::Broken(Breach::TruncatedPayload),
{
    let frame = client_frame(fin, opcode, form, key, payload);
    let head = seq![first_byte(fin, opcode)] + length_field(payload.len(), form);
    let body = masked_with(payload, key).take(payload.len() - missing);
    let stream = key + body;
    assert(frame.take(frame.len() - missing) =~= head + stream);
    law_length_received(fin, opcode, form, payload.len(), stream);
    assert(stream.take(4) =~= key);
    assert(stream.skip(4) =~= body);
    let mask = big_endian(key) as u32;
    let length = payload.len() as u64;
    assert(receive(ReceiverView::MaskingKey { fin, opcode, length }, stream) == receive(
        ReceiverView::Payload { fin, opcode, length, mask },
        body,
    ));
}

/// A stream that ends inside the first two bytes of a frame gives an end-of-file
/// error.
pub proof fn law_cut_header_reported(stream: Seq<u8>)
    requires
        stream.len() < 2,
    ensures
        receive(ReceiverView::Idle, stream) == Reception::Ended(
            Err(RecvError::Header),
            Seq::empty(),
        ),
        RecvError::Header.spec_kind() == RecvErrorKind::UnexpectedEof,
{
    assert(stream.skip(stream.len() as int) =~= Seq::<u8>::empty());
}

/// A read that fails or brings too little before the payload is reached ends the
/// frame in an error of the end-of-file kind, and the receiver is ready for the
/// next frame.
pub proof fn law_short_read_reported(state: ReceiverView, read: ReadView)
    requires
        well_formed(state),
        !(state is Payload),
        falls_short(state, read),
    ensures
        breach_of(state, read) is None,
        step(state, read).0 == ReceiverView::Idle,
        step(state, read).1 matches Some(Err(e)) && e.spec_kind() == RecvErrorKind::UnexpectedEof,
{
}

/// A failure while the payload is read counts for nothing: only the bytes do.
pub proof fn law_payload_failure_ignored(state: ReceiverView, bytes: Seq<u8>)
    requires
        state is Payload,
    ensures
        breach_of(state, ReadView { bytes, failed: true }) == breach_of(
            state,
            ReadView { bytes, failed: false },
        ),
        step(state, ReadView { bytes, failed: true }) == step(
            state,
            ReadView { bytes, failed: false },
        ),
{
}

/// A frame with a reserved bit set is refused once its first two bytes are read.
pub proof fn law_reserved_bits_refused(stream: Seq<u8>)
    requires
        stream.len() >= 2,
        has_reserved_bits(stream[0]),
    ensures
        receive(ReceiverView::Idle, stream) == Reception::Ended(
            Err(RecvError::ReservedBits),
            stream.skip(2),
        ),
{
}

/// A frame that is not masked is refused once its first two bytes are read.
pub proof fn law_unmasked_refused(stream: Seq<u8>)
    requires
        stream.len() >= 2,
        !has_reserved_bits(stream[0]),
        !is_masked(stream[1]),
    ensures
        receive(ReceiverView::Idle, stream) == Reception::Ended(
            Err(RecvError::NotMasked),
            stream.skip(2),
        ),
{
}

/// What the server sends is not taken for a client's frame, unless the low byte
/// of its payload's length has the top bit set: it is refused for not being
/// masked.
pub proof fn law_sent_frame_refused(message: MessageView, rest: Seq<u8>)
    requires
        is_sendable(message.frame),
        sent_payload(message.frame).len() % 256 < 128,
    ensures
        receive(ReceiverView::Idle, sent_bytes(message) + rest) == Reception::Ended(
            Err(RecvError::NotMasked),
            sent_payload(message.frame) + rest,
        ),
{
    let stream = sent_bytes(message) + rest;
    assert(stream.skip(2) =~= sent_payload(message.frame) + rest);
    law_unmasked_refused(stream);
}

/// Every step keeps the state well formed and brings the frame nearer to its end:
/// it is there after at most four reads.
pub proof fn law_step_progress(state: ReceiverView, read: ReadView)
    requires
        well_formed(state),
        read.bytes.len() <= bytes_wanted(state),
        breach_of(state, read) is None,
    ensures
        well_formed(step(state, read).0),
        step(state, read).1 is Some ==> step(state, read).0 == ReceiverView::Idle,
        step(state, read).1 is None ==> reads_left(step(state, read).0) < reads_left(state),
{
}

} // verus!

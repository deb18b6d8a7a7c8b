//! The digest and the text encoding that the handshake answers a key with.

use vstd::prelude::*;
use vstd::utf8::*;

verus! {

/// The twenty bytes of the SHA-1 digest of `message`.
pub uninterp spec fn sha1_digest(message: Seq<u8>) -> Seq<u8>;

/// Calls `sha1::Sha1::update` once on a fresh `sha1::Sha1`, then `digest` and
/// `bytes`. It is taken on trust that the bytes depend on the message alone. The
/// digest multiplies the message's length by eight in 64 bits, so longer
/// messages are left out.
#[verifier::external_body]
pub(crate) fn sha1_bytes(message: &[u8]) -> (digest: [u8; 20])
    requires
        message@.len() * 8 <= u64::MAX,
    ensures
        digest@ == sha1_digest(message@),
{
    let mut hasher = sha1::Sha1::new();
    hasher.update(message);
    hasher.digest().bytes()
}

/// The character for a six-bit value in the standard Base64 alphabet.
pub open spec fn base64_char(value: int) -> char {
    if value < 26 {
        ('A' as u32 + value) as char
    } else if value < 52 {
        ('a' as u32 + (value - 26)) as char
    } else if value < 62 {
        ('0' as u32 + (value - 52)) as char
    } else if value == 62 {
        '+'
    } else {
        '/'
    }
}

/// Byte `k` of `data`, and zero behind its end.
pub open spec fn byte_or_zero(data: Seq<u8>, k: int) -> int {
    if 0 <= k < data.len() {
        data[k] as int
    } else {
        0
    }
}

/// The six bits that stand `6 * i` bits behind the start of `data`.
pub open spec fn six_bits(data: Seq<u8>, i: int) -> int {
    let k = 6 * i / 8;
    let two_bytes = byte_or_zero(data, k) * 256 + byte_or_zero(data, k + 1);
    let below = if i % 4 == 0 {
        1024
    } else if i % 4 == 1 {
        16
    } else if i % 4 == 2 {
        64
    } else {
        256int
    };
    (two_bytes / below) % 64
}

/// `data` in standard Base64: four characters for three bytes or what is left of
/// them, one for each six bits, and `=` where no bit of `data` is left.
pub open spec fn base64_text(data: Seq<u8>) -> Seq<char> {
    Seq::new(
        ((data.len() + 2) / 3 * 4) as nat,
        |i: int|
            if 6 * i < 8 * data.len() {
                base64_char(six_bits(data, i))
            } else {
                '='
            },
    )
}

/// Calls `base64::encode_config` with `base64::STANDARD`, of which it is taken on
/// trust that it encodes in Base64 with the standard alphabet and with padding.
/// It panics where the encoded text would not fit in memory.
#[verifier::external_body]
pub(crate) fn base64_encode(data: &[u8]) -> (text: String)
    requires
        (data@.len() + 2) / 3 * 4 <= isize::MAX,
    ensures
        text@ == base64_text(data@),
{
    base64::encode_config(data, base64::STANDARD)
}

/// The characters of the standard Base64 alphabet.
pub open spec fn is_base64_char(c: char) -> bool {
    'A' <= c <= 'Z' || 'a' <= c <= 'z' || '0' <= c <= '9' || c == '+' || c == '/'
}

/// Base64 text is ASCII, its length is fixed by that of the data, and it is made
/// of the alphabet but for the padding at its end.
pub proof fn law_base64_form(data: Seq<u8>)
    ensures
        is_ascii_chars(base64_text(data)),
        base64_text(data).len() == (data.len() + 2) / 3 * 4,
        forall|i: int|
            0 <= i < base64_text(data).len() ==> if 6 * i < 8 * data.len() {
                is_base64_char(#[trigger] base64_text(data)[i])
            } else {
                base64_text(data)[i] == '='
            },
{
    let text = base64_text(data);
    assert forall|i: int| 0 <= i < text.len() implies if 6 * i < 8 * data.len() {
        is_base64_char(#[trigger] text[i])
    } else {
        text[i] == '='
    } by {
        let v = six_bits(data, i);
        assert(0 <= v < 64);
    }
}

} // verus!

//! What the operations on text, numbers and headers come to, character by
//! character.

use crate::digest::{base64_char, base64_text, byte_or_zero, six_bits};
use crate::error::WebsocketError;
use crate::http::{field_value, headers_view, Header, HeaderView, Response};
use crate::number::{digit_value, digits_value, u16_value, unsigned_value};
use crate::text::{
    ascii_lower, each_chars, occurs_at, occurs_in, optional_chars, same_ignoring_case,
    split_at_each, text_of,
};
use core::num::ParseIntError;
use vstd::prelude::*;
use vstd::std_specs::convert::FromSpec;
use vstd::utf8::*;

verus! {

/// Two texts are the same but for case exactly if they are of one length, and
/// wherever they differ, one has an ASCII capital and the other its small letter.
pub proof fn law_case_ignored(a: Seq<char>, b: Seq<char>)
    ensures
        same_ignoring_case(a, b) <==> a.len() == b.len() && forall|i: int|
            #![trigger a[i]]
            #![trigger b[i]]
            0 <= i < a.len() ==> {
                ||| a[i] == b[i]
                ||| 'A' <= a[i] <= 'Z' && b[i] as int == a[i] as int + 32
                ||| 'A' <= b[i] <= 'Z' && a[i] as int == b[i] as int + 32
            },
{
    let x = a.map_values(|c: char| ascii_lower(c));
    let y = b.map_values(|c: char| ascii_lower(c));
    assert(x.len() == a.len() && y.len() == b.len());
    if same_ignoring_case(a, b) {
        assert forall|i: int|
            #![trigger a[i]]
            #![trigger b[i]]
            0 <= i < a.len() implies {
            ||| a[i] == b[i]
            ||| 'A' <= a[i] <= 'Z' && b[i] as int == a[i] as int + 32
            ||| 'A' <= b[i] <= 'Z' && a[i] as int == b[i] as int + 32
        } by {
            assert(x[i] == y[i]);
        }
    } else if a.len() == b.len() {
        assert(!(x =~= y));
        let i = choose|i: int| 0 <= i < x.len() && x[i] != y[i];
        assert(x[i] == ascii_lower(a[i]) && y[i] == ascii_lower(b[i]));
    }
}

/// A text occurs in another exactly if the other is that text with something, or
/// nothing, before and behind it.
pub proof fn law_occurrence(needle: Seq<char>, text: Seq<char>)
    ensures
        occurs_in(needle, text) <==> exists|a: Seq<char>, b: Seq<char>|
            text == #[trigger] (a + needle + b),
{
    if occurs_in(needle, text) {
        let i = choose|i: int| occurs_at(needle, text, i);
        let a = text.take(i);
        let b = text.skip(i + needle.len());
        assert(text =~= a + text.subrange(i, i + needle.len()) + b);
        assert(text == a + needle + b);
    }
    if exists|a: Seq<char>, b: Seq<char>| text == #[trigger] (a + needle + b) {
        let (a, b) = choose|a: Seq<char>, b: Seq<char>| text == #[trigger] (a + needle + b);
        assert(text.subrange(a.len() as int, (a.len() + needle.len()) as int) =~= needle);
        assert(occurs_at(needle, text, a.len() as int));
    }
}

/// A text without the separator is one piece. A text that goes on behind a first
/// separator is what stands before it, and then the pieces of the rest.
pub proof fn law_split_step(piece: Seq<char>, rest: Seq<char>, separator: char)
    requires
        !piece.contains(separator),
    ensures
        split_at_each(piece, separator) == seq![piece],
        split_at_each(piece.push(separator) + rest, separator) == seq![piece] + split_at_each(
            rest,
            separator,
        ),
    decreases piece.len() + rest.len(),
{
    lemma_one_piece(piece, separator);
    let text = piece.push(separator) + rest;
    if rest.len() == 0 {
        assert(text =~= piece.push(separator));
        assert(text.drop_last() =~= piece);
        assert(split_at_each(rest, separator) =~= seq![Seq::<char>::empty()]);
        assert(split_at_each(text, separator) =~= seq![piece] + split_at_each(rest, separator));
    } else {
        let less = rest.drop_last();
        law_split_step(piece, less, separator);
        crate::text::law_split_join(less, separator);
        let pieces = split_at_each(less, separator);
        assert(text.drop_last() =~= piece.push(separator) + less);
        assert(text.last() == rest.last());
        let all = seq![piece] + pieces;
        assert(all.last() == pieces.last());
        assert(all.drop_last() =~= seq![piece] + pieces.drop_last());
        assert(split_at_each(text, separator) =~= seq![piece] + split_at_each(rest, separator));
    }
}

/// A text without the separator is one piece.
proof fn lemma_one_piece(piece: Seq<char>, separator: char)
    requires
        !piece.contains(separator),
    ensures
        split_at_each(piece, separator) == seq![piece],
    decreases piece.len(),
{
    if piece.len() == 0 {
        assert(piece =~= Seq::<char>::empty());
    } else {
        let less = piece.drop_last();
        assert(piece[piece.len() - 1] == piece.last());
        assert(forall|j: int| 0 <= j < piece.len() ==> piece[j] != separator);
        assert(!less.contains(separator));
        lemma_one_piece(less, separator);
        assert(piece =~= less.push(piece.last()));
        assert(split_at_each(piece, separator) =~= seq![piece]);
    }
}

/// A list of strings has the characters of each of them, in order.
pub proof fn law_each_string(strings: Seq<String>)
    ensures
        each_chars(strings).len() == strings.len(),
        forall|i: int| 0 <= i < strings.len() ==> #[trigger] each_chars(strings)[i] == strings[i]@,
{
}

/// What encodes a text is decoded to that text; what encodes none, to nothing.
pub proof fn law_decoding(text: Seq<char>, data: Seq<u8>)
    ensures
        text_of(encode_utf8(text)) == Some(text),
        text_of(data) is None <==> !valid_utf8(data),
        text_of(data) matches Some(t) ==> encode_utf8(t) == data,
{
    encode_utf8_valid_utf8(text);
    encode_utf8_decode_utf8(text);
    if valid_utf8(data) {
        decode_utf8_encode_utf8(data);
    }
}

/// An optional string has the characters of the string, or none.
pub proof fn law_optional_string(string: Option<String>)
    ensures
        string is None ==> optional_chars(string) is None,
        string matches Some(s) ==> optional_chars(string) == Some(s@),
{
}

/// A header is viewed as the characters of its name and of its value, and a
/// response as its status and its headers in order.
pub proof fn law_headers_viewed(headers: Seq<Header>, response: Response)
    ensures
        headers_view(headers).len() == headers.len(),
        forall|i: int|
            #![trigger headers_view(headers)[i]]
            0 <= i < headers.len() ==> headers_view(headers)[i].field == headers[i].field.0@
                && headers_view(headers)[i].value == headers[i].value@,
        response@.status == response.status,
        response@.headers == headers_view(response.headers@),
{
}

/// The value that is found is that of the first header with the name, whatever
/// stands before it under other names, and whatever stands behind it.
pub proof fn law_first_header_found(
    before: Seq<HeaderView>,
    header: HeaderView,
    after: Seq<HeaderView>,
    name: Seq<char>,
)
    requires
        forall|i: int|
            #![trigger before[i]]
            0 <= i < before.len() ==> !same_ignoring_case(before[i].field, name),
        same_ignoring_case(header.field, name),
    ensures
        field_value(before + seq![header] + after, name) == Some(header.value),
        field_value(before, name) is None,
    decreases before.len(),
{
    let all = before + seq![header] + after;
    if before.len() > 0 {
        assert(all[0] == before[0]);
        let less = before.drop_first();
        assert forall|i: int|
            #![trigger less[i]]
            0 <= i < less.len() implies !same_ignoring_case(less[i].field, name) by {
            assert(less[i] == before[i + 1]);
        }
        law_first_header_found(less, header, after, name);
        assert(all.drop_first() =~= less + seq![header] + after);
    } else {
        assert(all[0] == header);
    }
}

/// The empty text and the bare plus sign spell no number.
pub proof fn law_number_needs_digits()
    ensures
        u16_value(Seq::empty(), 10) is None,
        u16_value(seq!['+'], 10) is None,
{
    assert(seq!['+'].skip(1) =~= Seq::<char>::empty());
}

/// A single decimal digit spells its own value.
pub proof fn law_digit_spelt(c: char)
    requires
        '0' <= c <= '9',
    ensures
        u16_value(seq![c], 10) == Some((c as int - '0' as int) as u16),
{
    reveal_with_fuel(digits_value, 2);
    assert(seq![c].drop_last() =~= Seq::<char>::empty());
    assert(seq![c].last() == c);
    assert(digits_value(seq![c], 10) == Some((c as int - '0' as int) as nat));
}

/// One more decimal digit makes the number ten times as large and is added to it,
/// as long as the number fits.
pub proof fn law_digit_appended(text: Seq<char>, number: u16, c: char)
    requires
        u16_value(text, 10) == Some(number),
        '0' <= c <= '9',
    ensures
        u16_value(text.push(c), 10) == (if number * 10 + (c as int - '0' as int) <= 0xffff {
            Some((number * 10 + (c as int - '0' as int)) as u16)
        } else {
            None::<u16>
        }),
{
    lemma_digit_appended(text, c);
}

/// How the value of a text goes on with one more digit.
proof fn lemma_digit_appended(text: Seq<char>, c: char)
    requires
        unsigned_value(text, 10) is Some,
        '0' <= c <= '9',
    ensures
        unsigned_value(text.push(c), 10) == Some(
            (unsigned_value(text, 10)->0 * 10 + (c as int - '0' as int)) as nat,
        ),
{
    let more = text.push(c);
    assert(text.len() > 0);
    assert(more[0] == text[0]);
    let digits = if text[0] == '+' {
        text.skip(1)
    } else {
        text
    };
    let more_digits = if more[0] == '+' {
        more.skip(1)
    } else {
        more
    };
    assert(more_digits =~= digits.push(c));
    assert(more_digits.drop_last() =~= digits);
    assert(more_digits.last() == c);
    assert(digit_value(c, 10) == Some((c as int - '0' as int) as nat));
}

/// A number that does not fit does not fit with one more digit either.
pub proof fn law_too_large_stays(text: Seq<char>, c: char)
    requires
        u16_value(text, 10) is None,
        text.len() > 0,
        forall|i: int| 0 <= i < text.len() ==> '0' <= #[trigger] text[i] <= '9',
        '0' <= c <= '9',
    ensures
        u16_value(text.push(c), 10) is None,
{
    lemma_digits_spell(text);
    lemma_digit_appended(text, c);
}

/// A row of digits spells some number.
proof fn lemma_digits_spell(digits: Seq<char>)
    requires
        forall|i: int| 0 <= i < digits.len() ==> '0' <= #[trigger] digits[i] <= '9',
    ensures
        digits_value(digits, 10) is Some,
        digits.len() > 0 ==> unsigned_value(digits, 10) is Some,
    decreases digits.len(),
{
    if digits.len() > 0 {
        lemma_digits_spell(digits.drop_last());
        assert('0' <= digits[digits.len() - 1] <= '9');
        assert('0' <= digits[0] <= '9');
    }
}

/// A plus sign before the first digit changes nothing.
pub proof fn law_plus_sign_ignored(text: Seq<char>)
    requires
        text.len() > 0,
        text[0] != '+',
    ensures
        u16_value(seq!['+'] + text, 10) == u16_value(text, 10),
{
    assert((seq!['+'] + text).skip(1) =~= text);
}

/// A text with anything but decimal digits in it spells no number, but for a plus
/// sign at its start.
pub proof fn law_other_characters_refused(text: Seq<char>, i: int)
    requires
        0 <= i < text.len(),
        !('0' <= text[i] <= '9'),
        i > 0 || text[i] != '+',
    ensures
        u16_value(text, 10) is None,
{
    if text[0] == '+' {
        assert(text.skip(1)[i - 1] == text[i]);
        lemma_no_digit(text.skip(1), i - 1);
    } else {
        lemma_no_digit(text, i);
    }
}

/// A row with something else among the digits spells nothing.
proof fn lemma_no_digit(digits: Seq<char>, i: int)
    requires
        0 <= i < digits.len(),
        !('0' <= digits[i] <= '9'),
    ensures
        digits_value(digits, 10) is None,
    decreases digits.len(),
{
    if i < digits.len() - 1 {
        lemma_no_digit(digits.drop_last(), i);
    } else {
        assert(digits.last() == digits[i]);
        assert(digit_value(digits.last(), 10) is None);
    }
}

/// An error of the number's parser is handed on as it is.
pub proof fn law_parse_error_kept(error: ParseIntError)
    ensures
        <WebsocketError as FromSpec<ParseIntError>>::from_spec(error)
            == WebsocketError::RevisionParsingError(error),
{
}

/// The Base64 alphabet: capitals, small letters, digits, plus and slash.
pub proof fn law_base64_alphabet(value: int)
    requires
        0 <= value < 64,
    ensures
        value < 26 ==> base64_char(value) as int == 0x41 + value,
        26 <= value < 52 ==> base64_char(value) as int == 0x61 + (value - 26),
        52 <= value < 62 ==> base64_char(value) as int == 0x30 + (value - 52),
        value == 62 ==> base64_char(value) == '+',
        value == 63 ==> base64_char(value) == '/',
{
}

/// How the bits of three bytes are parted into four numbers.
proof fn lemma_bits_parted(a: int, b: int, c: int, after: int)
    requires
        0 <= a < 256,
        0 <= b < 256,
        0 <= c < 256,
        0 <= after < 256,
    ensures
        ((a * 256 + b) / 1024) % 64 == a / 4,
        ((a * 256 + b) / 16) % 64 == (a % 4) * 16 + b / 16,
        ((b * 256 + c) / 64) % 64 == (b % 16) * 4 + c / 64,
        ((c * 256 + after) / 256) % 64 == c % 64,
{
    assert((a * 256 + b) / 1024 == a / 4);
    assert((a * 256 + b) / 16 == 64 * (a / 4) + ((a % 4) * 16 + b / 16));
    assert((b * 256 + c) / 64 == 64 * (b / 16) + ((b % 16) * 4 + c / 64));
    assert((c * 256 + after) / 256 == 64 * (c / 64) + c % 64);
}

/// The numbers behind four characters of a Base64 text.
proof fn lemma_six_bits(data: Seq<u8>, g: int)
    requires
        0 <= g,
    ensures
        ({
            let a = byte_or_zero(data, 3 * g);
            let b = byte_or_zero(data, 3 * g + 1);
            let c = byte_or_zero(data, 3 * g + 2);
            &&& six_bits(data, 4 * g) == a / 4
            &&& six_bits(data, 4 * g + 1) == (a % 4) * 16 + b / 16
            &&& six_bits(data, 4 * g + 2) == (b % 16) * 4 + c / 64
            &&& six_bits(data, 4 * g + 3) == c % 64
        }),
{
    let a = byte_or_zero(data, 3 * g);
    let b = byte_or_zero(data, 3 * g + 1);
    let c = byte_or_zero(data, 3 * g + 2);
    let after = byte_or_zero(data, 3 * g + 3);
    lemma_bits_parted(a, b, c, after);
    assert(6 * (4 * g) / 8 == 3 * g);
    assert(6 * (4 * g + 1) / 8 == 3 * g);
    assert(6 * (4 * g + 2) / 8 == 3 * g + 1);
    assert(6 * (4 * g + 3) / 8 == 3 * g + 2);
    assert(six_bits(data, 4 * g) == ((a * 256 + b) / 1024) % 64);
    assert(six_bits(data, 4 * g + 1) == ((a * 256 + b) / 16) % 64);
    assert(six_bits(data, 4 * g + 2) == ((b * 256 + c) / 64) % 64);
    assert(six_bits(data, 4 * g + 3) == ((c * 256 + after) / 256) % 64);
}

/// Three bytes and the four characters they are encoded as spell one number, in
/// base 256 and in base 64.
pub proof fn law_base64_group(data: Seq<u8>, g: int) -> (values: (int, int, int, int))
    requires
        0 <= g,
        3 * g + 3 <= data.len(),
    ensures
        0 <= values.0 < 64 && 0 <= values.1 < 64 && 0 <= values.2 < 64 && 0 <= values.3 < 64,
        values.0 * 0x4_0000 + values.1 * 0x1000 + values.2 * 0x40 + values.3 == data[3 * g]
            * 0x1_0000 + data[3 * g + 1] * 0x100 + data[3 * g + 2],
        base64_text(data)[4 * g] == base64_char(values.0),
        base64_text(data)[4 * g + 1] == base64_char(values.1),
        base64_text(data)[4 * g + 2] == base64_char(values.2),
        base64_text(data)[4 * g + 3] == base64_char(values.3),
{
    lemma_six_bits(data, g);
    let (a, b, c) = (data[3 * g] as int, data[3 * g + 1] as int, data[3 * g + 2] as int);
    assert(4 * g + 4 <= base64_text(data).len());
    (a / 4, (a % 4) * 16 + b / 16, (b % 16) * 4 + c / 64, c % 64)
}

/// What is left behind the last three bytes is encoded as if zeros followed, and
/// `=` stands for the characters that no byte has a part in.
pub proof fn law_base64_rest(data: Seq<u8>, g: int) -> (values: (int, int, int))
    requires
        0 <= g,
        3 * g < data.len() < 3 * g + 3,
    ensures
        0 <= values.0 < 64 && 0 <= values.1 < 64 && 0 <= values.2 < 64,
        base64_text(data).len() == 4 * g + 4,
        base64_text(data)[4 * g] == base64_char(values.0),
        base64_text(data)[4 * g + 1] == base64_char(values.1),
        base64_text(data)[4 * g + 3] == '=',
        data.len() == 3 * g + 1 ==> values.0 * 0x40 + values.1 == data[3 * g] * 0x10
            && base64_text(data)[4 * g + 2] == '=',
        data.len() == 3 * g + 2 ==> values.0 * 0x1000 + values.1 * 0x40 + values.2 == (data[3 * g]
            * 0x100 + data[3 * g + 1]) * 4 && base64_text(data)[4 * g + 2] == base64_char(values.2),
{
    lemma_six_bits(data, g);
    let a = byte_or_zero(data, 3 * g);
    let b = byte_or_zero(data, 3 * g + 1);
    let c = byte_or_zero(data, 3 * g + 2);
    assert(base64_text(data).len() == 4 * g + 4);
    (a / 4, (a % 4) * 16 + b / 16, (b % 16) * 4 + c / 64)
}

/// Data that is a whole number of three-byte groups is encoded without padding.
pub proof fn law_base64_whole(data: Seq<u8>, g: int)
    requires
        data.len() == 3 * g,
    ensures
        base64_text(data).len() == 4 * g,
{
}

} // verus!

//! Operations on text that the handshake and the frames need.

use crate::text_laws::law_occurrence;
use vstd::prelude::*;
use vstd::string::*;
use vstd::utf8::*;

verus! {

/// The error of `core::str::from_utf8`, of which nothing is looked at.
#[verifier::external_type_specification]
#[verifier::external_body]
pub struct ExUtf8Error(core::str::Utf8Error);

/// Of `core::str::from_utf8` it is taken on trust that it accepts exactly the
/// well-formed UTF-8 byte strings, and that the text it hands back is encoded by
/// the very bytes it was given.
pub assume_specification[ core::str::from_utf8 ](v: &[u8]) -> (res: Result<
    &str,
    core::str::Utf8Error,
>)
    ensures
        res is Ok <==> valid_utf8(v@),
        res matches Ok(s) ==> s.spec_bytes() == v@,
;

/// The text that `data` encodes in UTF-8, or `None` where it encodes none.
pub open spec fn text_of(data: Seq<u8>) -> Option<Seq<char>> {
    if valid_utf8(data) {
        Some(decode_utf8(data))
    } else {
        None
    }
}

/// The characters of an optional string.
pub open spec fn optional_chars(s: Option<String>) -> Option<Seq<char>> {
    match s {
        Some(s) => Some(s@),
        None => None,
    }
}

/// Decodes UTF-8.
pub fn decode_text(data: &[u8]) -> (text: Option<String>)
    ensures
        optional_chars(text) == text_of(data@),
        text is Some <==> valid_utf8(data@),
        text matches Some(t) ==> encode_utf8(t@) == data@,
{
    match core::str::from_utf8(data) {
        Ok(content) => {
            proof {
                encode_utf8_decode_utf8(content@);
            }
            Some(content.to_string())
        },
        Err(_) => None,
    }
}

/// `c` with an ASCII capital turned into its small letter.
pub open spec fn ascii_lower(c: char) -> char {
    if 'A' <= c && c <= 'Z' {
        (c as u32 + 32) as char
    } else {
        c
    }
}

/// Whether two texts are the same but for the case of ASCII letters.
pub open spec fn same_ignoring_case(a: Seq<char>, b: Seq<char>) -> bool {
    a.map_values(|c: char| ascii_lower(c)) == b.map_values(|c: char| ascii_lower(c))
}

/// Whether `needle` occurs in `text`.
pub open spec fn occurs_in(needle: Seq<char>, text: Seq<char>) -> bool {
    exists|i: int| #[trigger] occurs_at(needle, text, i)
}

/// Whether `needle` occurs in `text` from position `i` on.
pub open spec fn occurs_at(needle: Seq<char>, text: Seq<char>, i: int) -> bool {
    0 <= i && i + needle.len() <= text.len() && text.subrange(i, i + needle.len()) == needle
}

/// The pieces between the separators: one more than there are separators, and
/// empty where two separators meet.
pub open spec fn split_at_each(text: Seq<char>, separator: char) -> Seq<Seq<char>>
    decreases text.len(),
{
    if text.len() == 0 {
        seq![Seq::<char>::empty()]
    } else {
        let pieces = split_at_each(text.drop_last(), separator);
        if text.last() == separator {
            pieces.push(Seq::empty())
        } else {
            pieces.drop_last().push(pieces.last().push(text.last()))
        }
    }
}

/// The pieces in a row, with the separator between them.
pub open spec fn join_with(pieces: Seq<Seq<char>>, separator: char) -> Seq<char>
    decreases pieces.len(),
{
    if pieces.len() == 0 {
        Seq::empty()
    } else if pieces.len() == 1 {
        pieces[0]
    } else {
        join_with(pieces.drop_last(), separator).push(separator) + pieces.last()
    }
}

/// The characters of each string.
pub open spec fn each_chars(strings: Seq<String>) -> Seq<Seq<char>> {
    strings.map_values(|s: String| s@)
}

/// The characters of a text.
pub fn chars_of(text: &str) -> (chars: Vec<char>)
    ensures
        chars@ == text@,
{
    let mut chars: Vec<char> = Vec::new();
    for c in it: text.chars()
        invariant
            it.seq() == text@,
            chars@ == text@.take(it.index()),
    {
        chars.push(c);
        assert(text@.take(it.index() + 1) =~= text@.take(it.index()).push(c));
    }
    assert(text@.take(text@.len() as int) =~= text@);
    chars
}

/// `c` with an ASCII capital turned into its small letter.
fn to_ascii_lower(c: char) -> (lower: char)
    ensures
        lower == ascii_lower(c),
{
    if 'A' <= c && c <= 'Z' {
        ((c as u8) + 32) as char
    } else {
        c
    }
}

/// Whether two texts are the same but for the case of ASCII letters.
pub fn eq_ignoring_case(a: &str, b: &str) -> (same: bool)
    ensures
        same == same_ignoring_case(a@, b@),
{
    let x = chars_of(a);
    let y = chars_of(b);
    let ghost lower_a = a@.map_values(|c: char| ascii_lower(c));
    let ghost lower_b = b@.map_values(|c: char| ascii_lower(c));
    if x.len() != y.len() {
        assert(lower_a.len() != lower_b.len());
        return false;
    }
    let mut i: usize = 0;
    while i < x.len()
        invariant
            x@ == a@,
            y@ == b@,
            x@.len() == y@.len(),
            i <= x@.len(),
            lower_a == a@.map_values(|c: char| ascii_lower(c)),
            lower_b == b@.map_values(|c: char| ascii_lower(c)),
            forall|k: int| 0 <= k < i ==> lower_a[k] == lower_b[k],
        decreases x@.len() - i,
    {
        if to_ascii_lower(x[i]) != to_ascii_lower(y[i]) {
            assert(lower_a[i as int] != lower_b[i as int]);
            return false;
        }
        i = i + 1;
    }
    assert(lower_a =~= lower_b);
    true
}

/// Whether `needle` stands in `text` from position `start` on.
fn stands_at(text: &Vec<char>, needle: &Vec<char>, start: usize) -> (found: bool)
    requires
        start + needle@.len() <= text@.len(),
    ensures
        found == occurs_at(needle@, text@, start as int),
{
    let ghost piece = text@.subrange(start as int, start + needle@.len());
    let length: usize = text.len();
    let mut k: usize = 0;
    while k < needle.len()
        invariant
            length == text@.len(),
            start + needle@.len() <= length,
            piece == text@.subrange(start as int, start + needle@.len()),
            k <= needle@.len(),
            forall|j: int| 0 <= j < k ==> piece[j] == needle@[j],
        decreases needle@.len() - k,
    {
        if text[start + k] != needle[k] {
            assert(piece[k as int] != needle@[k as int]);
            return false;
        }
        k = k + 1;
    }
    assert(piece =~= needle@);
    true
}

/// Whether `needle` occurs in `text`.
pub fn contains(text: &str, needle: &str) -> (found: bool)
    ensures
        found == occurs_in(needle@, text@),
        found <==> exists|a: Seq<char>, b: Seq<char>| text@ == #[trigger] (a + needle@ + b),
{
    proof {
        law_occurrence(needle@, text@);
    }
    let t = chars_of(text);
    let n = chars_of(needle);
    if n.len() > t.len() {
        return false;
    }
    let last: usize = t.len() - n.len();
    let mut i: usize = 0;
    while i < last
        invariant
            t@ == text@,
            n@ == needle@,
            last == t@.len() - n@.len(),
            i <= last,
            forall|k: int| 0 <= k < i ==> !occurs_at(needle@, text@, k),
        decreases last - i,
    {
        if stands_at(&t, &n, i) {
            proof {
                law_occurrence(needle@, text@);
            }
            return true;
        }
        i = i + 1;
    }
    stands_at(&t, &n, last)
}

/// The pieces of `text` between the separators.
pub fn split(text: &str, separator: char) -> (pieces: Vec<String>)
    ensures
        each_chars(pieces@) == split_at_each(text@, separator),
{
    let chars = chars_of(text);
    let mut pieces: Vec<String> = Vec::new();
    let mut start: usize = 0;
    let mut i: usize = 0;
    proof {
        assert(text@.subrange(0, 0) =~= Seq::<char>::empty());
        assert(each_chars(pieces@).push(Seq::empty()) =~= seq![Seq::<char>::empty()]);
    }
    while i < chars.len()
        invariant
            chars@ == text@,
            start <= i <= chars@.len(),
            each_chars(pieces@).push(text@.subrange(start as int, i as int)) == split_at_each(
                text@.take(i as int),
                separator,
            ),
        decreases chars@.len() - i,
    {
        proof {
            assert(text@.take(i + 1).drop_last() =~= text@.take(i as int));
        }
        if chars[i] == separator {
            let ghost before = pieces@;
            let piece = text.substring_char(start, i);
            pieces.push(piece.to_owned());
            assert(each_chars(pieces@) =~= each_chars(before).push(piece@));
            start = i + 1;
            assert(text@.subrange(start as int, i + 1) =~= Seq::<char>::empty());
        } else {
            let ghost done = each_chars(pieces@);
            let ghost piece = text@.subrange(start as int, i as int);
            assert(done.push(piece).drop_last() =~= done);
            assert(text@.subrange(start as int, i + 1) =~= piece.push(chars@[i as int]));
        }
        i = i + 1;
    }
    let ghost before = pieces@;
    let piece = text.substring_char(start, i);
    pieces.push(piece.to_owned());
    proof {
        assert(each_chars(pieces@) =~= each_chars(before).push(piece@));
        assert(text@.take(i as int) =~= text@);
    }
    pieces
}

/// Splitting keeps everything: there is at least one piece, no piece holds the
/// separator, and the pieces joined with it are the text again.
pub proof fn law_split_join(text: Seq<char>, separator: char)
    ensures
        split_at_each(text, separator).len() >= 1,
        join_with(split_at_each(text, separator), separator) == text,
        forall|k: int|
            0 <= k < split_at_each(text, separator).len() ==> !(#[trigger] split_at_each(
                text,
                separator,
            )[k]).contains(separator),
    decreases text.len(),
{
    let all = split_at_each(text, separator);
    if text.len() > 0 {
        let init = text.drop_last();
        let pieces = split_at_each(init, separator);
        law_split_join(init, separator);
        assert(text =~= init.push(text.last()));
        if text.last() == separator {
            assert(all.drop_last() =~= pieces);
            assert(join_with(all, separator) =~= init.push(separator));
        } else {
            assert(all.drop_last() =~= pieces.drop_last());
            assert(join_with(all, separator) =~= join_with(pieces, separator).push(text.last()));
            assert forall|k: int| 0 <= k < all.len() implies !(#[trigger] all[k]).contains(
                separator,
            ) by {
                assert(!pieces[k].contains(separator));
                if k == all.len() - 1 {
                    let last = pieces.last();
                    assert(forall|j: int| 0 <= j < last.len() ==> last[j] != separator);
                }
            }
        }
    }
}

/// The only way to cut a text into pieces without the separator that join to it
/// again is the one that splitting takes.
pub proof fn law_split_unique(pieces: Seq<Seq<char>>, separator: char)
    requires
        pieces.len() >= 1,
        forall|k: int| 0 <= k < pieces.len() ==> !(#[trigger] pieces[k]).contains(separator),
    ensures
        split_at_each(join_with(pieces, separator), separator) == pieces,
    decreases pieces.len(), pieces.last().len(),
{
    let text = join_with(pieces, separator);
    let last = pieces.last();
    if last.len() > 0 {
        let shorter = pieces.drop_last().push(last.drop_last());
        assert(shorter.drop_last() =~= pieces.drop_last());
        assert(last =~= last.drop_last().push(last.last()));
        assert(last[last.len() - 1] == last.last());
        assert(last.contains(last.last()));
        assert forall|k: int| 0 <= k < shorter.len() implies !(#[trigger] shorter[k]).contains(
            separator,
        ) by {
            assert(!pieces[k].contains(separator));
            if k == shorter.len() - 1 {
                assert(forall|j: int| 0 <= j < last.len() ==> last[j] != separator);
            }
        }
        law_split_unique(shorter, separator);
        assert(text.drop_last() =~= join_with(shorter, separator));
        assert(split_at_each(text, separator) =~= pieces);
    } else if pieces.len() > 1 {
        assert(last =~= Seq::<char>::empty());
        let fewer = pieces.drop_last();
        assert forall|k: int| 0 <= k < fewer.len() implies !(#[trigger] fewer[k]).contains(
            separator,
        ) by {
            assert(!pieces[k].contains(separator));
        }
        law_split_unique(fewer, separator);
        assert(text.drop_last() =~= join_with(fewer, separator));
        assert(text.last() == separator);
        assert(split_at_each(text, separator) =~= pieces);
    } else {
        assert(text =~= Seq::<char>::empty());
        assert(split_at_each(text, separator) =~= pieces);
    }
}

} // verus!

//! Unsigned integers taken from the front of a byte iterator, most significant
//! byte first.

use vstd::arithmetic::power::*;
use vstd::prelude::*;
use vstd::std_specs::iter::IteratorSpec;

verus! {

/// The number that `bytes` spell in base 256, most significant byte first.
pub open spec fn big_endian(bytes: Seq<u8>) -> nat
    decreases bytes.len(),
{
    if bytes.len() == 0 {
        0
    } else {
        big_endian(bytes.drop_last()) * 256 + bytes.last() as nat
    }
}

/// The first `n` bytes that `items` points at.
pub open spec fn front(items: Seq<&u8>, n: int) -> Seq<u8> {
    items.unref().take(n)
}

/// One more byte at the end shifts the number by eight bits and is added to it.
proof fn lemma_big_endian_push(bytes: Seq<u8>, b: u8)
    ensures
        big_endian(bytes.push(b)) == big_endian(bytes) * 256 + b,
{
    assert(bytes.push(b).drop_last() =~= bytes);
}

/// The number that two bytes spell.
pub proof fn lemma_big_endian_2(bytes: Seq<u8>)
    requires
        bytes.len() == 2,
    ensures
        big_endian(bytes) == bytes[0] * 256 + bytes[1],
{
    let empty = Seq::<u8>::empty();
    lemma_big_endian_push(empty, bytes[0]);
    lemma_big_endian_push(empty.push(bytes[0]), bytes[1]);
    assert(bytes =~= empty.push(bytes[0]).push(bytes[1]));
}

/// The number that four bytes spell.
pub proof fn lemma_big_endian_4(bytes: Seq<u8>)
    requires
        bytes.len() == 4,
    ensures
        big_endian(bytes) == ((bytes[0] * 256 + bytes[1]) * 256 + bytes[2]) * 256 + bytes[3],
{
    let two = bytes.take(2);
    lemma_big_endian_2(two);
    lemma_big_endian_push(two, bytes[2]);
    lemma_big_endian_push(two.push(bytes[2]), bytes[3]);
    assert(bytes =~= two.push(bytes[2]).push(bytes[3]));
}

/// The number that eight bytes spell.
pub proof fn lemma_big_endian_8(bytes: Seq<u8>)
    requires
        bytes.len() == 8,
    ensures
        big_endian(bytes) == ((((((bytes[0] * 256 + bytes[1]) * 256 + bytes[2]) * 256 + bytes[3])
            * 256 + bytes[4]) * 256 + bytes[5]) * 256 + bytes[6]) * 256 + bytes[7],
{
    let four = bytes.take(4);
    let five = four.push(bytes[4]);
    let six = five.push(bytes[5]);
    let seven = six.push(bytes[6]);
    lemma_big_endian_4(four);
    lemma_big_endian_push(four, bytes[4]);
    lemma_big_endian_push(five, bytes[5]);
    lemma_big_endian_push(six, bytes[6]);
    lemma_big_endian_push(seven, bytes[7]);
    assert(bytes =~= seven.push(bytes[7]));
}

/// The last `count` base-256 digits of `value`, most significant first.
pub open spec fn big_endian_bytes(value: nat, count: nat) -> Seq<u8>
    decreases count,
{
    if count == 0 {
        Seq::empty()
    } else {
        big_endian_bytes(value / 256, (count - 1) as nat).push((value % 256) as u8)
    }
}

/// Reading a number's bytes gives the number back, where that many bytes can hold
/// it.
pub proof fn law_big_endian_round_trip(value: nat, count: nat)
    requires
        value < pow(256, count),
    ensures
        big_endian_bytes(value, count).len() == count,
        big_endian(big_endian_bytes(value, count)) == value,
    decreases count,
{
    reveal(pow);
    if count > 0 {
        let less = (count - 1) as nat;
        assert(value / 256 < pow(256, less)) by (nonlinear_arith)
            requires
                value < 256 * pow(256, less),
        ;
        law_big_endian_round_trip(value / 256, less);
        lemma_big_endian_push(big_endian_bytes(value / 256, less), (value % 256) as u8);
    }
}

/// How many numbers two and eight bytes can hold.
pub proof fn lemma_byte_powers()
    ensures
        pow(256, 2) == 0x1_0000,
        pow(256, 8) == 0x1_0000_0000_0000_0000,
{
    reveal_with_fuel(pow, 9);
}

/// Takes two bytes from `input` and reads them as a big-endian number.
pub fn read_bigendian_u16<'a, T: Iterator<Item = &'a u8>>(input: &mut T) -> (value: u16)
    requires
        (*old(input)).obeys_prophetic_iter_laws(),
        (*old(input)).remaining().len() >= 2,
    ensures
        value == big_endian(front((*old(input)).remaining(), 2)),
        value == *(*old(input)).remaining()[0] * 256 + *(*old(input)).remaining()[1],
        (*final(input)).obeys_prophetic_iter_laws(),
        (*final(input)).remaining() == (*old(input)).remaining().skip(2),
{
    let ghost bytes = front((*input).remaining(), 2);
    let b0: u8 = *input.next().unwrap();
    let b1: u8 = *input.next().unwrap();
    proof {
        lemma_big_endian_2(bytes);
    }
    (b0 as u16) * 256 + (b1 as u16)
}

/// Takes four bytes from `input` and reads them as a big-endian number.
pub fn read_bigendian_u32<'a, T: Iterator<Item = &'a u8>>(input: &mut T) -> (value: u32)
    requires
        (*old(input)).obeys_prophetic_iter_laws(),
        (*old(input)).remaining().len() >= 4,
    ensures
        value == big_endian(front((*old(input)).remaining(), 4)),
        ({
            let b = (*old(input)).remaining();
            value == *b[0] * 0x100_0000 + *b[1] * 0x1_0000 + *b[2] * 0x100 + *b[3]
        }),
        (*final(input)).obeys_prophetic_iter_laws(),
        (*final(input)).remaining() == (*old(input)).remaining().skip(4),
{
    let ghost bytes = front((*input).remaining(), 4);
    let b0: u8 = *input.next().unwrap();
    let b1: u8 = *input.next().unwrap();
    let b2: u8 = *input.next().unwrap();
    let b3: u8 = *input.next().unwrap();
    proof {
        lemma_big_endian_4(bytes);
    }
    (((b0 as u32) * 256 + (b1 as u32)) * 256 + (b2 as u32)) * 256 + (b3 as u32)
}

/// Takes eight bytes from `input` and reads them as a big-endian number.
pub fn read_bigendian_u64<'a, T: Iterator<Item = &'a u8>>(input: &mut T) -> (value: u64)
    requires
        (*old(input)).obeys_prophetic_iter_laws(),
        (*old(input)).remaining().len() >= 8,
    ensures
        value == big_endian(front((*old(input)).remaining(), 8)),
        ({
            let b = (*old(input)).remaining();
            value == *b[0] * 0x100_0000_0000_0000 + *b[1] * 0x1_0000_0000_0000 + *b[2]
                * 0x100_0000_0000 + *b[3] * 0x1_0000_0000 + *b[4] * 0x100_0000 + *b[5] * 0x1_0000
                + *b[6] * 0x100 + *b[7]
        }),
        (*final(input)).obeys_prophetic_iter_laws(),
        (*final(input)).remaining() == (*old(input)).remaining().skip(8),
{
    let ghost bytes = front((*input).remaining(), 8);
    let b0: u8 = *input.next().unwrap();
    let b1: u8 = *input.next().unwrap();
    let b2: u8 = *input.next().unwrap();
    let b3: u8 = *input.next().unwrap();
    let b4: u8 = *input.next().unwrap();
    let b5: u8 = *input.next().unwrap();
    let b6: u8 = *input.next().unwrap();
    let b7: u8 = *input.next().unwrap();
    proof {
        lemma_big_endian_8(bytes);
    }
    let high: u64 = (((b0 as u64) * 256 + (b1 as u64)) * 256 + (b2 as u64)) * 256 + (b3 as u64);
    (((high * 256 + (b4 as u64)) * 256 + (b5 as u64)) * 256 + (b6 as u64)) * 256 + (b7 as u64)
}

} // verus!

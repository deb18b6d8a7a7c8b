//! The masking of a client's payload.

use vstd::prelude::*;

verus! {

/// Byte `k` of the masking key, counted from the most significant one.
pub open spec fn mask_byte(mask: u32, k: int) -> u8 {
    ((mask >> ((3 - k) * 8) as u32) & 0xff) as u8
}

/// `data` with its bytes combined by exclusive or with those of the masking key,
/// which is used over and over.
pub open spec fn unmasked(data: Seq<u8>, mask: u32) -> Seq<u8> {
    Seq::new(data.len(), |i: int| data[i] ^ mask_byte(mask, i % 4))
}

/// Applies the masking key to `data`.
pub fn unmask(data: &[u8], mask: u32) -> (plain: Vec<u8>)
    ensures
        plain@ == unmasked(data@, mask),
        plain@ == Seq::new(
            data@.len(),
            |i: int| data@[i] ^ ((mask >> (24 - 8 * (i % 4)) as u32) & 0xff) as u8,
        ),
{
    let mut plain: Vec<u8> = Vec::with_capacity(data.len());
    let mut offset: u32 = 0;
    let mut i: usize = 0;
    while i < data.len()
        invariant
            i <= data@.len(),
            offset == i % 4,
            plain@ == unmasked(data@.take(i as int), mask),
        decreases data@.len() - i,
    {
        let m: u8 = ((mask >> ((3 - offset) * 8)) & 0xff) as u8;
        plain.push(data[i] ^ m);
        offset = (offset + 1) % 4;
        i = i + 1;
    }
    assert(data@.take(i as int) =~= data@);
    assert(plain@ =~= Seq::new(
        data@.len(),
        |i: int| data@[i] ^ ((mask >> (24 - 8 * (i % 4)) as u32) & 0xff) as u8,
    ));
    plain
}

/// Masking twice with one key gives the data back.
pub proof fn law_unmask_involution(data: Seq<u8>, mask: u32)
    ensures
        unmasked(unmasked(data, mask), mask) == data,
{
    assert forall|i: int| 0 <= i < data.len() implies unmasked(unmasked(data, mask), mask)[i]
        == data[i] by {
        let b = data[i];
        let m = mask_byte(mask, i % 4);
        assert((b ^ m) ^ m == b) by (bit_vector);
    }
    assert(unmasked(unmasked(data, mask), mask) =~= data);
}

} // verus!

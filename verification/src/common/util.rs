//! Conversions between a 32-bit word and its four big-endian bytes.

use vstd::prelude::*;

verus! {

/// The word encoded by four bytes, most significant first.
pub open spec fn u32_of_bytes(b0: u8, b1: u8, b2: u8, b3: u8) -> u32 {
    (b0 * 0x100_0000 + b1 * 0x1_0000 + b2 * 0x100 + b3) as u32
}

/// The four big-endian bytes of a word, most significant first.
pub open spec fn bytes_of_u32(value: u32) -> Seq<u8> {
    seq![
        (value / 0x100_0000) as u8,
        ((value / 0x1_0000) % 0x100) as u8,
        ((value / 0x100) % 0x100) as u8,
        (value % 0x100) as u8,
    ]
}

pub fn bytes_to_u32(b0: u8, b1: u8, b2: u8, b3: u8) -> (r: u32)
    ensures
        r == u32_of_bytes(b0, b1, b2, b3),
{
    (b0 as u32) * 0x100_0000 + (b1 as u32) * 0x1_0000 + (b2 as u32) * 0x100 + (b3 as u32)
}

pub fn u32_to_bytes(value: u32) -> (r: [u8; 4])
    ensures
        r@ == bytes_of_u32(value),
{
    let r = [
        (value / 0x100_0000) as u8,
        ((value / 0x1_0000) % 0x100) as u8,
        ((value / 0x100) % 0x100) as u8,
        (value % 0x100) as u8,
    ];
    proof {
        assert(r@ =~= bytes_of_u32(value));
    }
    r
}

/// Splitting a word into big-endian bytes and reassembling them gives the
/// word back.
pub proof fn lemma_u32_bytes_roundtrip(value: u32)
    ensures
        u32_of_bytes(
            bytes_of_u32(value)[0],
            bytes_of_u32(value)[1],
            bytes_of_u32(value)[2],
            bytes_of_u32(value)[3],
        ) == value,
{
    assert(value / 0x100_0000 * 0x100_0000 + (value / 0x1_0000) % 0x100 * 0x1_0000 + (value
        / 0x100) % 0x100 * 0x100 + value % 0x100 == value) by (nonlinear_arith);
}

/// Reassembling four bytes into a word and splitting it again gives the same
/// bytes back.
pub proof fn lemma_bytes_u32_roundtrip(b0: u8, b1: u8, b2: u8, b3: u8)
    ensures
        bytes_of_u32(u32_of_bytes(b0, b1, b2, b3)) == seq![b0, b1, b2, b3],
{
    let v = u32_of_bytes(b0, b1, b2, b3);
    assert(v == b0 * 0x100_0000 + b1 * 0x1_0000 + b2 * 0x100 + b3);
    assert((b0 * 0x100_0000 + b1 * 0x1_0000 + b2 * 0x100 + b3) / 0x100_0000 == b0)
        by (nonlinear_arith);
    assert((b0 * 0x100_0000 + b1 * 0x1_0000 + b2 * 0x100 + b3) / 0x1_0000 % 0x100 == b1)
        by (nonlinear_arith);
    assert((b0 * 0x100_0000 + b1 * 0x1_0000 + b2 * 0x100 + b3) / 0x100 % 0x100 == b2)
        by (nonlinear_arith);
    assert((b0 * 0x100_0000 + b1 * 0x1_0000 + b2 * 0x100 + b3) % 0x100 == b3)
        by (nonlinear_arith);
    assert(bytes_of_u32(v) =~= seq![b0, b1, b2, b3]);
}

} // verus!

//! Thirty-two-bit numbers as four bytes, the most significant byte first.

use vstd::prelude::*;

verus! {

/// The four bytes of `x`, the most significant first.
#[verifier::opaque]
pub open spec fn spec_u32_to_be(x: u32) -> Seq<u8> {
    seq![
        (x / 0x100_0000) as u8,
        (x / 0x1_0000 % 0x100) as u8,
        (x / 0x100 % 0x100) as u8,
        (x % 0x100) as u8,
    ]
}

/// The number whose four bytes, the most significant first, are the first
/// four bytes of `b`.
#[verifier::opaque]
pub open spec fn spec_u32_from_be(b: Seq<u8>) -> u32
    recommends
        b.len() >= 4,
{
    (b[0] * 0x100_0000 + b[1] * 0x1_0000 + b[2] * 0x100 + b[3]) as u32
}

/// Reading back the bytes of a number gives the number.
pub proof fn lemma_u32_be_round_trip(x: u32)
    ensures
        spec_u32_to_be(x).len() == 4,
        spec_u32_from_be(spec_u32_to_be(x)) == x,
{
    reveal(spec_u32_to_be);
    reveal(spec_u32_from_be);
}

/// Writing out the number read from four bytes gives the four bytes.
pub proof fn lemma_u32_be_bytes_round_trip(b: Seq<u8>)
    requires
        b.len() == 4,
    ensures
        spec_u32_to_be(spec_u32_from_be(b)) == b,
{
    reveal(spec_u32_to_be);
    reveal(spec_u32_from_be);
    let b0 = b[0] as int;
    let b1 = b[1] as int;
    let b2 = b[2] as int;
    let b3 = b[3] as int;
    let x = b0 * 0x100_0000 + b1 * 0x1_0000 + b2 * 0x100 + b3;
    assert(x == spec_u32_from_be(b));
    assert(x / 0x100_0000 == b0);
    assert(x / 0x1_0000 == b0 * 0x100 + b1);
    assert(x / 0x100 == b0 * 0x1_0000 + b1 * 0x100 + b2);
    assert(x % 0x100 == b3);
    assert(spec_u32_to_be(spec_u32_from_be(b)) =~= b);
}

/// The four bytes of `x`, the most significant first.
pub fn u32_to_be(x: u32) -> (b: [u8; 4])
    ensures
        b@ == spec_u32_to_be(x),
{
    let b: [u8; 4] = [
        (x / 0x100_0000) as u8,
        (x / 0x1_0000 % 0x100) as u8,
        (x / 0x100 % 0x100) as u8,
        (x % 0x100) as u8,
    ];
    proof {
        reveal(spec_u32_to_be);
    }
    b
}

/// The number that the four bytes of `bytes` from index `at` on stand for.
pub fn u32_from_be(bytes: &[u8], at: usize) -> (x: u32)
    requires
        at + 4 <= bytes@.len(),
    ensures
        x == spec_u32_from_be(bytes@.subrange(at as int, at + 4)),
{
    proof {
        reveal(spec_u32_from_be);
    }
    let b0: u32 = bytes[at] as u32;
    let b1: u32 = bytes[at + 1] as u32;
    let b2: u32 = bytes[at + 2] as u32;
    let b3: u32 = bytes[at + 3] as u32;
    b0 * 0x100_0000 + b1 * 0x1_0000 + b2 * 0x100 + b3
}

} // verus!

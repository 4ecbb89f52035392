//! Turning bytes and numbers into text.

use vstd::prelude::*;
use vstd::utf8::{
    char_is_scalar, char_u32_cast, encode_scalar, encode_utf8, has_width_1_encoding,
    leading_byte_width_1, leading_byte_width_2, leading_byte_width_3, leading_byte_width_4,
};

verus! {

/// `String::push` appends exactly one character to the end of the string
/// and leaves what was there before untouched.
pub assume_specification[ String::push ](s: &mut String, ch: char)
    ensures
        final(s)@ == old(s)@.push(ch),
;

/// The characters that `bytes` stand for when every byte is taken as the
/// code point of the same number.
pub open spec fn latin1(bytes: Seq<u8>) -> Seq<char> {
    Seq::new(bytes.len(), |i: int| bytes[i] as char)
}

/// Whether every byte of `bytes` is below `0x80`, as the bytes of ASCII
/// text are.
pub open spec fn all_ascii(bytes: Seq<u8>) -> bool {
    forall|i: int| 0 <= i < bytes.len() ==> #[trigger] bytes[i] < 0x80
}

/// Text whose UTF-8 form holds ASCII bytes only is that form read byte by
/// byte: each character is the code point of one byte.
pub proof fn lemma_latin1_of_ascii(chars: Seq<char>)
    requires
        all_ascii(encode_utf8(chars)),
    ensures
        latin1(encode_utf8(chars)) == chars,
    decreases chars.len(),
{
    if chars.len() > 0 {
        let c = chars[0] as u32;
        let rest = chars.drop_first();
        let head = encode_scalar(c);
        let tail = encode_utf8(rest);
        let bytes = encode_utf8(chars);
        assert(bytes == head + tail);
        char_is_scalar(chars[0]);
        assert(bytes[0] == head[0]);
        assert(bytes[0] < 0x80);
        assert(has_width_1_encoding(c)) by {
            assert(leading_byte_width_2(c) >= 0xC0) by (bit_vector);
            assert(leading_byte_width_3(c) >= 0xC0) by (bit_vector);
            assert(leading_byte_width_4(c) >= 0xC0) by (bit_vector);
        }
        assert(leading_byte_width_1(c) == c) by (bit_vector)
            requires
                has_width_1_encoding(c),
        ;
        char_u32_cast(chars[0], c);
        assert(all_ascii(tail)) by {
            assert forall|i: int| 0 <= i < tail.len() implies #[trigger] tail[i] < 0x80 by {
                assert(tail[i] == bytes[i + 1]);
            }
        }
        lemma_latin1_of_ascii(rest);
        assert(bytes.subrange(1, bytes.len() as int) =~= tail);
        assert(latin1(bytes) =~= seq![chars[0]] + latin1(tail));
    }
}

/// The decimal digit for `d`, which is meant to be below ten.
pub open spec fn digit(d: nat) -> char {
    (0x30 + d) as char
}

/// `n` written in base ten, without leading zeros.
pub open spec fn decimal(n: nat) -> Seq<char>
    decreases n,
{
    if n < 10 {
        seq![digit(n)]
    } else {
        decimal(n / 10).push(digit(n % 10))
    }
}

/// Appends to `s` one character per byte of `bytes`.
pub fn push_latin1(s: &mut String, bytes: &[u8])
    ensures
        final(s)@ == old(s)@ + latin1(bytes@),
{
    let mut i: usize = 0;
    while i < bytes.len()
        invariant
            i <= bytes.len(),
            s@ == old(s)@ + latin1(bytes@.subrange(0, i as int)),
        decreases bytes.len() - i,
    {
        s.push(bytes[i] as char);
        i += 1;
        assert(s@ =~= old(s)@ + latin1(bytes@.subrange(0, i as int)));
    }
    assert(bytes@.subrange(0, i as int) =~= bytes@);
}

/// The string with one character per byte of `bytes`.
pub fn latin1_string(bytes: &[u8]) -> (s: String)
    ensures
        s@ == latin1(bytes@),
{
    let mut s = String::new();
    push_latin1(&mut s, bytes);
    s
}

/// Appends the decimal form of `n` to `s`.
pub fn push_decimal(s: &mut String, n: usize)
    ensures
        final(s)@ == old(s)@ + decimal(n as nat),
    decreases n,
{
    if n >= 10 {
        push_decimal(s, n / 10);
    }
    let d: u8 = (n % 10) as u8;
    s.push((0x30u8 + d) as char);
}

} // verus!

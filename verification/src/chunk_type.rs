//! The four-byte type code of a PNG chunk and the flags its letters carry.

use crate::text::{decimal, latin1, lemma_latin1_of_ascii, push_decimal, push_latin1};
use crate::view_of;
use vstd::prelude::*;
use vstd::std_specs::cmp::PartialEqSpecImpl;
use vstd::std_specs::convert::TryFromSpecImpl;
use vstd::string::*;
use vstd::utf8::encode_utf8;

verus! {

/// Whether `b` is an ASCII letter, upper or lower case.
pub open spec fn is_letter(b: u8) -> bool {
    (0x41 <= b <= 0x5A) || (0x61 <= b <= 0x7A)
}

/// Whether every byte of `bytes` is an ASCII letter.
pub open spec fn all_letters(bytes: Seq<u8>) -> bool {
    forall|i: int| 0 <= i < bytes.len() ==> is_letter(#[trigger] bytes[i])
}

/// Whether bit 5 (value `0x20`) of `b` is set. In a chunk type each of the
/// four bytes carries one flag in this bit.
pub open spec fn flag_bit(b: u8) -> bool {
    b & 0x20 == 0x20
}

/// What reading a chunk type from a string with the bytes `bytes` gives: the
/// four bytes, or the reason why they are refused. The length is looked at
/// before the letters.
pub open spec fn spec_from_string(bytes: Seq<u8>) -> Result<Seq<u8>, ChunkTypeError> {
    if bytes.len() != 4 {
        Err(ChunkTypeError::ByteLengthError(bytes.len() as usize))
    } else if !all_letters(bytes) {
        Err(ChunkTypeError::InvalidCharacter)
    } else {
        Ok(bytes)
    }
}

/// A string that is accepted as a chunk type is the text of that type:
/// its characters are the four letters.
pub proof fn lemma_text_of_letters(chars: Seq<char>)
    ensures
        spec_from_string(encode_utf8(chars)) matches Ok(bytes) ==> latin1(bytes) == chars,
{
    let bytes = encode_utf8(chars);
    if spec_from_string(bytes) is Ok {
        assert forall|i: int| 0 <= i < bytes.len() implies #[trigger] bytes[i] < 0x80 by {
            assert(is_letter(bytes[i]));
        }
        lemma_latin1_of_ascii(chars);
    }
}

/// Why a string was not accepted as a chunk type.
#[derive(Debug, Clone, Copy, PartialEq, Eq, Structural)]
pub enum ChunkTypeError {
    /// The string is not four bytes long; the field is its length in bytes.
    ByteLengthError(usize),
    /// Some byte of the string is not an ASCII letter.
    InvalidCharacter,
}

impl ChunkTypeError {
    /// The text of the message that describes this error.
    pub open spec fn spec_message(self) -> Seq<char> {
        match self {
            ChunkTypeError::ByteLengthError(actual) => "Expected 4 bytes but received "@ + decimal(
                actual as nat,
            ) + " when creating chunk type"@,
            ChunkTypeError::InvalidCharacter => "Input contains one or more invalid characters"@,
        }
    }

    /// A message that describes this error.
    pub fn to_string(&self) -> (s: String)
        ensures
            s@ == self.spec_message(),
    {
        match self {
            ChunkTypeError::ByteLengthError(actual) => {
                let mut s = "Expected 4 bytes but received ".to_owned();
                push_decimal(&mut s, *actual);
                s.append(" when creating chunk type");
                s
            },
            ChunkTypeError::InvalidCharacter => {
                "Input contains one or more invalid characters".to_owned()
            },
        }
    }
}

/// A chunk type: four bytes, kept exactly as they were given.
#[derive(Eq, Debug, Clone, Copy)]
pub struct ChunkType([u8; 4]);

impl View for ChunkType {
    type V = Seq<u8>;

    /// The four bytes, in order.
    open spec fn view(&self) -> Seq<u8> {
        self.spec_bytes()@
    }
}

impl PartialEq for ChunkType {
    fn eq(&self, other: &ChunkType) -> (r: bool) {
        let same = self.0[0] == other.0[0] && self.0[1] == other.0[1] && self.0[2] == other.0[2]
            && self.0[3] == other.0[3];
        proof {
            if same {
                assert(self.0 =~= other.0);
            }
        }
        same
    }
}

impl PartialEqSpecImpl for ChunkType {
    open spec fn obeys_eq_spec() -> bool {
        true
    }

    open spec fn eq_spec(&self, other: &ChunkType) -> bool {
        *self == *other
    }
}

impl TryFrom<[u8; 4]> for ChunkType {
    type Error = ChunkTypeError;

    fn try_from(value: [u8; 4]) -> (r: Result<ChunkType, ChunkTypeError>)
        ensures
            view_of(r) == Ok::<Seq<u8>, ChunkTypeError>(value@),
    {
        Ok(ChunkType::from_bytes(value))
    }
}

impl TryFromSpecImpl<[u8; 4]> for ChunkType {
    open spec fn obeys_try_from_spec() -> bool {
        true
    }

    open spec fn try_from_spec(value: [u8; 4]) -> Result<ChunkType, ChunkTypeError> {
        Ok(ChunkType::spec_from_bytes(value))
    }
}

impl std::str::FromStr for ChunkType {
    type Err = ChunkTypeError;

    fn from_str(s: &str) -> (r: Result<ChunkType, ChunkTypeError>)
        ensures
            view_of(r) == spec_from_string(s.spec_bytes()),
            r matches Ok(t) ==> t.text() == s@,
    {
        ChunkType::from_string(s)
    }
}

/// Whether `b` is an ASCII letter.
fn letter(b: u8) -> (r: bool)
    ensures
        r == is_letter(b),
{
    (0x41 <= b && b <= 0x5A) || (0x61 <= b && b <= 0x7A)
}

impl ChunkType {
    /// The stored bytes.
    pub closed spec fn spec_bytes(&self) -> [u8; 4] {
        self.0
    }

    /// The chunk type that stores `bytes`.
    pub closed spec fn spec_from_bytes(bytes: [u8; 4]) -> ChunkType {
        ChunkType(bytes)
    }

    /// The four bytes as text, one character per byte.
    pub open spec fn text(&self) -> Seq<char> {
        latin1(self@)
    }

    /// Whether all four bytes are ASCII letters and the reserved bit is clear.
    pub open spec fn spec_is_valid(&self) -> bool {
        all_letters(self@) && !flag_bit(self@[2])
    }

    /// Two chunk types with the same bytes are the same chunk type.
    pub proof fn lemma_view_injective(a: ChunkType, b: ChunkType)
        requires
            a@ == b@,
        ensures
            a == b,
    {
        assert(a.0 =~= b.0);
    }

    /// Storing the bytes of a chunk type gives that chunk type again, and the
    /// bytes of a stored array are that array.
    pub proof fn lemma_bytes_round_trip(t: ChunkType, bytes: [u8; 4])
        ensures
            ChunkType::from_bytes(t.bytes()) == t,
            ChunkType::from_bytes(bytes).bytes() == bytes,
    {
    }

    /// Takes any four bytes as a chunk type, without looking at them.
    #[verifier::when_used_as_spec(spec_from_bytes)]
    pub fn from_bytes(bytes: [u8; 4]) -> (t: ChunkType)
        ensures
            t == Self::spec_from_bytes(bytes),
            t@ == bytes@,
    {
        ChunkType(bytes)
    }

    /// Reads a chunk type from a string of four ASCII letters. The length is
    /// counted in bytes of the string's UTF-8 form and is checked first.
    pub fn from_string(s: &str) -> (r: Result<ChunkType, ChunkTypeError>)
        ensures
            view_of(r) == spec_from_string(s.spec_bytes()),
            r matches Ok(t) ==> t.text() == s@,
    {
        proof {
            lemma_text_of_letters(s@);
        }
        let bytes = s.as_bytes();
        if bytes.len() != 4 {
            return Err(ChunkTypeError::ByteLengthError(bytes.len()));
        }
        let mut i: usize = 0;
        while i < 4
            invariant
                i <= 4,
                bytes@.len() == 4,
                bytes@ == s.spec_bytes(),
                forall|j: int| 0 <= j < i ==> is_letter(#[trigger] bytes@[j]),
            decreases 4 - i,
        {
            if !letter(bytes[i]) {
                return Err(ChunkTypeError::InvalidCharacter);
            }
            i += 1;
        }
        let t = ChunkType([bytes[0], bytes[1], bytes[2], bytes[3]]);
        assert(t@ =~= bytes@);
        Ok(t)
    }

    /// The four bytes.
    #[verifier::when_used_as_spec(spec_bytes)]
    pub fn bytes(&self) -> (b: [u8; 4])
        ensures
            b == self.spec_bytes(),
            b@ == self@,
    {
        self.0
    }

    /// Whether the type is fit for a chunk that is written to a file: four
    /// letters, the third of them upper case. The other three flags play no part.
    #[verifier::when_used_as_spec(spec_is_valid)]
    pub fn is_valid(&self) -> (r: bool)
        ensures
            r == self.spec_is_valid(),
    {
        let mut i: usize = 0;
        while i < 4
            invariant
                i <= 4,
                forall|j: int| 0 <= j < i ==> is_letter(#[trigger] self@[j]),
            decreases 4 - i,
        {
            if !letter(self.0[i]) {
                return false;
            }
            i += 1;
        }
        self.is_reserved_bit_valid()
    }

    /// Whether the chunk is critical: bit 5 of the first byte is clear.
    pub fn is_critical(&self) -> (r: bool)
        ensures
            r == !flag_bit(self@[0]),
    {
        (self.0[0] & 0x20) != 0x20
    }

    /// Whether the chunk is public: bit 5 of the second byte is clear.
    pub fn is_public(&self) -> (r: bool)
        ensures
            r == !flag_bit(self@[1]),
    {
        (self.0[1] & 0x20) != 0x20
    }

    /// Whether the reserved bit is as the standard asks: bit 5 of the third
    /// byte is clear.
    pub fn is_reserved_bit_valid(&self) -> (r: bool)
        ensures
            r == !flag_bit(self@[2]),
    {
        (self.0[2] & 0x20) != 0x20
    }

    /// Whether the chunk may be copied by an editor that does not know it:
    /// bit 5 of the fourth byte is set.
    pub fn is_safe_to_copy(&self) -> (r: bool)
        ensures
            r == flag_bit(self@[3]),
    {
        (self.0[3] & 0x20) == 0x20
    }

    /// Whether `s` is this type written out as text.
    pub fn reads_as(&self, s: &str) -> (r: bool)
        ensures
            r == (s@ == self.text()),
    {
        if s.unicode_len() != 4 {
            return false;
        }
        let same = s.get_char(0) == self.0[0] as char && s.get_char(1) == self.0[1] as char
            && s.get_char(2) == self.0[2] as char && s.get_char(3) == self.0[3] as char;
        proof {
            if same {
                assert(s@ =~= self.text());
            }
        }
        same
    }

    /// The four bytes as text, one character per byte.
    pub fn to_string(&self) -> (s: String)
        ensures
            s@ == self.text(),
    {
        let mut s = String::new();
        push_latin1(&mut s, self.0.as_slice());
        s
    }
}

} // verus!

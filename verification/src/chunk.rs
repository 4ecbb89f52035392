//! One chunk of a PNG file: a length, a type, a payload and a checksum.

use crate::checksum::{checksum, crc32};
use crate::chunk_type::ChunkType;
use crate::endian::{
    lemma_u32_be_bytes_round_trip, lemma_u32_be_round_trip, spec_u32_from_be, spec_u32_to_be,
    u32_from_be, u32_to_be,
};
use crate::text::{decimal, latin1, latin1_string, push_decimal};
use crate::view_of;
use vstd::prelude::*;
use vstd::slice::{slice_subrange, slice_to_vec};
use vstd::std_specs::convert::TryFromSpecImpl;

verus! {

/// Why bytes were not accepted as a chunk, or a payload not as chunk data.
#[derive(Debug, Clone, Copy, PartialEq, Eq, Structural)]
pub enum ChunkError {
    /// The input is shorter than the twelve bytes of an empty chunk; the
    /// field is the input's length.
    ByteLengthError(usize),
    /// The checksum written in the input is not the checksum of its type and
    /// data; the field is the checksum that was computed.
    MismatchedCrcError(u32),
    /// The input ends before the data and checksum that its length field
    /// announces; the field is the announced length.
    DataLengthError(u32),
    /// The payload is too long for a length field of 32 bits; the field is
    /// the payload's length.
    OversizedDataError(usize),
}

impl ChunkError {
    /// The text of the message that describes this error.
    pub open spec fn spec_message(self) -> Seq<char> {
        match self {
            ChunkError::ByteLengthError(actual) => "Expected 4 bytes but received "@
                + decimal(actual as nat) + " when creating chunk type"@,
            ChunkError::MismatchedCrcError(actual) => "Provided crc does not match actual chuck's data crc: "@
                + decimal(actual as nat),
            ChunkError::DataLengthError(declared) => "Chunk ends before the "@ + decimal(
                declared as nat,
            ) + " bytes of data it declares"@,
            ChunkError::OversizedDataError(actual) => "Chunk data of "@ + decimal(actual as nat)
                + " bytes is too long"@,
        }
    }

    /// A message that describes this error.
    pub fn to_string(&self) -> (s: String)
        ensures
            s@ == self.spec_message(),
    {
        match self {
            ChunkError::ByteLengthError(actual) => {
                let mut s = "Expected 4 bytes but received ".to_owned();
                push_decimal(&mut s, *actual);
                s.append(" when creating chunk type");
                s
            },
            ChunkError::MismatchedCrcError(actual) => {
                let mut s = "Provided crc does not match actual chuck's data crc: ".to_owned();
                push_decimal(&mut s, *actual as usize);
                s
            },
            ChunkError::DataLengthError(declared) => {
                let mut s = "Chunk ends before the ".to_owned();
                push_decimal(&mut s, *declared as usize);
                s.append(" bytes of data it declares");
                s
            },
            ChunkError::OversizedDataError(actual) => {
                let mut s = "Chunk data of ".to_owned();
                push_decimal(&mut s, *actual);
                s.append(" bytes is too long");
                s
            },
        }
    }
}

/// What a chunk holds: its type, its data and its checksum. The length is
/// the length of the data.
pub struct ChunkView {
    pub chunk_type: Seq<u8>,
    pub data: Seq<u8>,
    pub crc: u32,
}

impl ChunkView {
    /// The type has four bytes, the data's length fits in 32 bits, and the
    /// checksum is that of the type followed by the data.
    pub open spec fn wf(self) -> bool {
        &&& self.chunk_type.len() == 4
        &&& self.data.len() <= u32::MAX
        &&& self.crc == crc32(self.chunk_type + self.data)
    }

    /// The chunk as it stands in a file: length, type, data, checksum, the
    /// two numbers with their most significant byte first.
    pub open spec fn as_bytes(self) -> Seq<u8> {
        spec_u32_to_be(self.data.len() as u32) + self.chunk_type + self.data + spec_u32_to_be(
            self.crc,
        )
    }
}

/// The chunk with the given type and data and the checksum that belongs to them.
pub open spec fn spec_new(chunk_type: Seq<u8>, data: Seq<u8>) -> ChunkView {
    ChunkView { chunk_type, data, crc: crc32(chunk_type + data) }
}

/// The value of the length field of the chunk at the front of `bytes`, or
/// the reason why no chunk can stand there: the input is shorter than an
/// empty chunk, or it ends before the chunk that the length field announces.
pub open spec fn spec_data_length(bytes: Seq<u8>) -> Result<u32, ChunkError> {
    if bytes.len() < 12 {
        Err(ChunkError::ByteLengthError(bytes.len() as usize))
    } else {
        let length = spec_u32_from_be(bytes.subrange(0, 4));
        if bytes.len() < length + 12 {
            Err(ChunkError::DataLengthError(length))
        } else {
            Ok(length)
        }
    }
}

/// What reading one chunk from the front of `bytes` gives when `actual` is
/// the checksum of its type and data: the chunk where the checksum written
/// behind the data is `actual`, else a mismatch error that carries `actual`.
pub open spec fn spec_parse_with_crc(bytes: Seq<u8>, actual: u32) -> Result<ChunkView, ChunkError> {
    match spec_data_length(bytes) {
        Err(e) => Err(e),
        Ok(length) => {
            let declared = spec_u32_from_be(bytes.subrange(length + 8, length + 12));
            if declared != actual {
                Err(ChunkError::MismatchedCrcError(actual))
            } else {
                Ok(
                    ChunkView {
                        chunk_type: bytes.subrange(4, 8),
                        data: bytes.subrange(8, length + 8),
                        crc: declared,
                    },
                )
            }
        },
    }
}

/// What reading one chunk from the front of `bytes` gives. The length field
/// says how far the chunk reaches; what follows the chunk is not looked at.
pub open spec fn spec_parse(bytes: Seq<u8>) -> Result<ChunkView, ChunkError> {
    match spec_data_length(bytes) {
        Err(e) => Err(e),
        Ok(length) => spec_parse_with_crc(bytes, crc32(bytes.subrange(4, length + 8))),
    }
}

/// A written chunk is twelve bytes longer than its data.
pub proof fn lemma_as_bytes_len(c: ChunkView)
    requires
        c.chunk_type.len() == 4,
    ensures
        c.as_bytes().len() == c.data.len() + 12,
{
    lemma_u32_be_round_trip(c.data.len() as u32);
    lemma_u32_be_round_trip(c.crc);
}

/// Reading a written chunk gives the chunk back, whatever bytes follow it.
pub proof fn lemma_parse_as_bytes(c: ChunkView, rest: Seq<u8>)
    requires
        c.wf(),
    ensures
        spec_parse(c.as_bytes() + rest) == Ok::<ChunkView, ChunkError>(c),
{
    let bytes = c.as_bytes() + rest;
    let n = c.data.len() as u32;
    lemma_u32_be_round_trip(n);
    lemma_u32_be_round_trip(c.crc);
    assert(bytes.subrange(0, 4) =~= spec_u32_to_be(n));
    assert(bytes.subrange(n + 8, n + 12) =~= spec_u32_to_be(c.crc));
    assert(bytes.subrange(4, n + 8) =~= c.chunk_type + c.data);
    assert(bytes.subrange(4, 8) =~= c.chunk_type);
    assert(bytes.subrange(8, n + 8) =~= c.data);
}

/// A chunk that was read is well formed and takes up the first bytes of
/// the input: twelve more than its data has.
pub proof fn lemma_parse_prefix(bytes: Seq<u8>)
    ensures
        spec_parse(bytes) matches Ok(c) ==> c.wf() && c.data.len() + 12 <= bytes.len()
            && c.as_bytes() == bytes.subrange(0, (c.data.len() + 12) as int),
{
    if let Ok(c) = spec_parse(bytes) {
        let n = spec_u32_from_be(bytes.subrange(0, 4));
        lemma_u32_be_bytes_round_trip(bytes.subrange(0, 4));
        lemma_u32_be_bytes_round_trip(bytes.subrange(n + 8, n + 12));
        assert(bytes.subrange(4, n + 8) =~= c.chunk_type + c.data);
        assert(c.as_bytes() =~= bytes.subrange(0, n + 12));
    }
}

/// When the type or the data of a written chunk is replaced by bytes with
/// another checksum, and lengths and the written checksum stay, reading
/// fails and reports the checksum of what was put in.
pub proof fn lemma_altered_content_rejected(c: ChunkView, chunk_type: Seq<u8>, data: Seq<u8>)
    requires
        c.wf(),
        chunk_type.len() == 4,
        data.len() == c.data.len(),
        crc32(chunk_type + data) != crc32(c.chunk_type + c.data),
    ensures
        spec_parse((ChunkView { chunk_type, data, crc: c.crc }).as_bytes()) == Err::<
            ChunkView,
            ChunkError,
        >(ChunkError::MismatchedCrcError(crc32(chunk_type + data))),
{
    let altered = ChunkView { chunk_type, data, crc: c.crc };
    let bytes = altered.as_bytes();
    let n = data.len() as u32;
    lemma_u32_be_round_trip(n);
    lemma_u32_be_round_trip(c.crc);
    assert(bytes.subrange(0, 4) =~= spec_u32_to_be(n));
    assert(bytes.subrange(n + 8, n + 12) =~= spec_u32_to_be(c.crc));
    assert(bytes.subrange(4, n + 8) =~= chunk_type + data);
}

/// A chunk. Its length field and its checksum always agree with its type
/// and data.
#[derive(Debug)]
pub struct Chunk {
    length: u32,
    chunk_type: ChunkType,
    data: Vec<u8>,
    crc: u32,
}

impl View for Chunk {
    type V = ChunkView;

    closed spec fn view(&self) -> ChunkView {
        ChunkView { chunk_type: self.chunk_type@, data: self.data@, crc: self.crc }
    }
}

impl Clone for Chunk {
    fn clone(&self) -> (c: Chunk)
        ensures
            c@ == self@,
    {
        proof {
            use_type_invariant(self);
        }
        Chunk {
            length: self.length,
            chunk_type: self.chunk_type,
            data: self.data.clone(),
            crc: self.crc,
        }
    }
}

impl<'a> TryFrom<&'a [u8]> for Chunk {
    type Error = ChunkError;

    fn try_from(value: &'a [u8]) -> (r: Result<Chunk, ChunkError>)
        ensures
            view_of(r) == spec_parse(value@),
    {
        Chunk::parse(value)
    }
}

/// What `try_from` returns is stated on `try_from` itself, over views: a
/// chunk holds a vector, which no spec function can build.
impl<'a> TryFromSpecImpl<&'a [u8]> for Chunk {
    open spec fn obeys_try_from_spec() -> bool {
        false
    }

    open spec fn try_from_spec(value: &'a [u8]) -> Result<Chunk, ChunkError> {
        arbitrary()
    }
}

impl Chunk {
    /// The value of the length field.
    pub closed spec fn spec_length(&self) -> u32 {
        self.length
    }

    /// What holds of every chunk: it is well formed, and its length field is
    /// the length of its data.
    #[verifier::type_invariant]
    pub open spec fn inv(&self) -> bool {
        self@.wf() && self.spec_length() == self@.data.len()
    }

    /// Makes a chunk from a type and its data, and computes the checksum.
    /// The data must not be longer than a length field of 32 bits can say.
    pub fn new(chunk_type: ChunkType, data: Vec<u8>) -> (c: Chunk)
        requires
            data@.len() <= u32::MAX,
        ensures
            c@ == spec_new(chunk_type@, data@),
    {
        let mut content: Vec<u8> = Vec::new();
        let type_bytes = chunk_type.bytes();
        append_bytes(&mut content, type_bytes.as_slice());
        append_bytes(&mut content, data.as_slice());
        let crc = checksum(content.as_slice());
        Chunk { length: data.len() as u32, chunk_type, data, crc }
    }

    /// Makes a chunk as `new` does, and refuses data that is too long for it.
    pub fn try_new(chunk_type: ChunkType, data: Vec<u8>) -> (r: Result<Chunk, ChunkError>)
        ensures
            view_of(r) == if data@.len() <= u32::MAX {
                Ok::<ChunkView, ChunkError>(spec_new(chunk_type@, data@))
            } else {
                Err::<ChunkView, ChunkError>(ChunkError::OversizedDataError(data@.len() as usize))
            },
    {
        if data.len() > u32::MAX as usize {
            Err(ChunkError::OversizedDataError(data.len()))
        } else {
            Ok(Chunk::new(chunk_type, data))
        }
    }

    /// The number of bytes of data.
    pub fn length(&self) -> (n: u32)
        ensures
            n == self@.data.len(),
    {
        proof {
            use_type_invariant(self);
        }
        self.length
    }

    /// The chunk's type.
    pub fn chunk_type(&self) -> (t: &ChunkType)
        ensures
            t@ == self@.chunk_type,
    {
        &self.chunk_type
    }

    /// The chunk's data.
    pub fn data(&self) -> (d: &[u8])
        ensures
            d@ == self@.data,
    {
        self.data.as_slice()
    }

    /// The chunk's checksum, which is that of its type followed by its data.
    pub fn crc(&self) -> (sum: u32)
        ensures
            sum == self@.crc,
            sum == crc32(self@.chunk_type + self@.data),
    {
        proof {
            use_type_invariant(self);
        }
        self.crc
    }

    /// The data as text, one character per byte, each byte taken as the code
    /// point of the same number. This never fails.
    pub fn data_as_string(&self) -> (r: Result<String, ChunkError>)
        ensures
            r matches Ok(s) && s@ == latin1(self@.data),
    {
        Ok(latin1_string(self.data.as_slice()))
    }

    /// The data as text, as `data_as_string` gives it.
    pub fn to_string(&self) -> (s: String)
        ensures
            s@ == latin1(self@.data),
    {
        latin1_string(self.data.as_slice())
    }

    /// The chunk as it stands in a file. Reading these bytes gives the chunk
    /// back.
    pub fn as_bytes(&self) -> (bytes: Vec<u8>)
        ensures
            bytes@ == self@.as_bytes(),
            spec_parse(bytes@) == Ok::<ChunkView, ChunkError>(self@),
    {
        proof {
            use_type_invariant(self);
            lemma_parse_as_bytes(self@, Seq::empty());
            assert(self@.as_bytes() + Seq::<u8>::empty() =~= self@.as_bytes());
        }
        let mut bytes: Vec<u8> = Vec::new();
        let length = u32_to_be(self.length);
        let type_bytes = self.chunk_type.bytes();
        let crc = u32_to_be(self.crc);
        append_bytes(&mut bytes, length.as_slice());
        append_bytes(&mut bytes, type_bytes.as_slice());
        append_bytes(&mut bytes, self.data.as_slice());
        append_bytes(&mut bytes, crc.as_slice());
        bytes
    }

    /// Reads the length field of the chunk at the front of `bytes` and
    /// checks that the input is long enough for that chunk.
    pub fn data_length(bytes: &[u8]) -> (r: Result<u32, ChunkError>)
        ensures
            r == spec_data_length(bytes@),
    {
        if bytes.len() < 12 {
            return Err(ChunkError::ByteLengthError(bytes.len()));
        }
        let length = u32_from_be(bytes, 0);
        if bytes.len() - 12 < length as usize {
            return Err(ChunkError::DataLengthError(length));
        }
        Ok(length)
    }

    /// Reads one chunk from the front of `bytes`, given the checksum
    /// `actual` of its type and data, and compares the checksum written in
    /// the input with it. The caller computes `actual`; `parse` does so
    /// and then calls this function.
    pub fn parse_with_crc(bytes: &[u8], actual: u32) -> (r: Result<Chunk, ChunkError>)
        requires
            spec_data_length(bytes@) matches Ok(length) ==> actual == crc32(
                bytes@.subrange(4, length + 8),
            ),
        ensures
            view_of(r) == spec_parse_with_crc(bytes@, actual),
    {
        let length = match Chunk::data_length(bytes) {
            Ok(length) => length,
            Err(e) => {
                return Err(e);
            },
        };
        assert(length + 12 <= bytes.len());
        let n = length as usize;
        let declared = u32_from_be(bytes, n + 8);
        if declared != actual {
            return Err(ChunkError::MismatchedCrcError(actual));
        }
        let type_bytes: [u8; 4] = [bytes[4], bytes[5], bytes[6], bytes[7]];
        let chunk_type = ChunkType::from_bytes(type_bytes);
        let data = slice_to_vec(slice_subrange(bytes, 8, n + 8));
        proof {
            assert(chunk_type@ =~= bytes@.subrange(4, 8));
            assert(bytes@.subrange(4, n + 8) =~= chunk_type@ + data@);
        }
        Ok(Chunk { length, chunk_type, data, crc: declared })
    }

    /// Reads one chunk from the front of `bytes` and checks its checksum.
    /// Bytes after the chunk are left alone.
    pub fn parse(bytes: &[u8]) -> (r: Result<Chunk, ChunkError>)
        ensures
            view_of(r) == spec_parse(bytes@),
            bytes@.len() < 12 ==> (r matches Err(e) && e == ChunkError::ByteLengthError(
                bytes.len(),
            )),
            r matches Ok(c) ==> c@.data.len() + 12 <= bytes@.len(),
    {
        match Chunk::data_length(bytes) {
            Err(e) => Err(e),
            Ok(length) => {
                assert(length + 12 <= bytes.len());
                let actual = checksum(slice_subrange(bytes, 4, length as usize + 8));
                Chunk::parse_with_crc(bytes, actual)
            },
        }
    }
}

/// Appends `bytes` to `out`.
pub(crate) fn append_bytes(out: &mut Vec<u8>, bytes: &[u8])
    ensures
        final(out)@ == old(out)@ + bytes@,
{
    out.extend_from_slice(bytes);
    assert(out@ =~= old(out)@ + bytes@);
}

} // verus!

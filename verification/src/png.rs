//! A PNG file as a sequence of chunks behind the fixed signature.

use crate::chunk::{
    append_bytes, lemma_as_bytes_len, lemma_parse_as_bytes, lemma_parse_prefix, spec_parse, Chunk,
    ChunkError, ChunkView,
};
use crate::text::{decimal, latin1, push_decimal, push_latin1};
use crate::view_of;
use vstd::prelude::*;
use vstd::slice::slice_subrange;
use vstd::std_specs::convert::TryFromSpecImpl;
use vstd::string::*;

verus! {

/// Why bytes were not accepted as a PNG file, or a chunk not handed out.
#[derive(Debug, Clone, Copy, PartialEq, Eq, Structural)]
pub enum PngError {
    /// The input does not begin with the eight bytes of the signature.
    InvalidSignature,
    /// One of the chunks could not be read; the field says why.
    InvalidChunk(ChunkError),
    /// No chunk has the type that was asked for.
    ChunkNotFound,
}

impl PngError {
    /// The text of the message that describes this error.
    pub open spec fn spec_message(self) -> Seq<char> {
        match self {
            PngError::InvalidSignature => "Input does not start with the PNG signature"@,
            PngError::InvalidChunk(e) => e.spec_message(),
            PngError::ChunkNotFound => "No chunk of the given type was found"@,
        }
    }

    /// A message that describes this error.
    pub fn to_string(&self) -> (s: String)
        ensures
            s@ == self.spec_message(),
    {
        match self {
            PngError::InvalidSignature => "Input does not start with the PNG signature".to_owned(),
            PngError::InvalidChunk(e) => e.to_string(),
            PngError::ChunkNotFound => "No chunk of the given type was found".to_owned(),
        }
    }
}

/// The eight bytes with which every PNG file begins.
pub open spec fn signature() -> Seq<u8> {
    seq![0x89u8, 0x50u8, 0x4Eu8, 0x47u8, 0x0Du8, 0x0Au8, 0x1Au8, 0x0Au8]
}

/// The type of the chunk that opens a file, `IHDR`.
pub open spec fn header_type() -> Seq<u8> {
    seq![0x49u8, 0x48u8, 0x44u8, 0x52u8]
}

/// The type of the chunk that closes a file, `IEND`.
pub open spec fn end_type() -> Seq<u8> {
    seq![0x49u8, 0x45u8, 0x4Eu8, 0x44u8]
}

/// Whether every chunk of `chunks` is well formed.
pub open spec fn all_wf(chunks: Seq<ChunkView>) -> bool {
    forall|i: int| 0 <= i < chunks.len() ==> (#[trigger] chunks[i]).wf()
}

/// Whether `chunks` begins with a header chunk and ends with an end chunk,
/// as the chunks of a finished file do.
pub open spec fn spec_is_framed(chunks: Seq<ChunkView>) -> bool {
    &&& chunks.len() > 0
    &&& chunks[0].chunk_type == header_type()
    &&& chunks[chunks.len() - 1].chunk_type == end_type()
}

/// The chunks written out one after the other.
pub open spec fn spec_chunks_bytes(chunks: Seq<ChunkView>) -> Seq<u8>
    decreases chunks.len(),
{
    if chunks.len() == 0 {
        Seq::empty()
    } else {
        spec_chunks_bytes(chunks.drop_last()) + chunks.last().as_bytes()
    }
}

/// The file that holds `chunks`: the signature, then the chunks in order.
pub open spec fn spec_as_bytes(chunks: Seq<ChunkView>) -> Seq<u8> {
    signature() + spec_chunks_bytes(chunks)
}

/// What reading chunk after chunk gives, until `bytes` is used up. The first
/// chunk that cannot be read ends it with that chunk's error.
pub open spec fn spec_parse_chunks(bytes: Seq<u8>) -> Result<Seq<ChunkView>, ChunkError>
    decreases bytes.len(),
{
    if bytes.len() == 0 {
        Ok(Seq::empty())
    } else {
        match spec_parse(bytes) {
            Err(e) => Err(e),
            Ok(c) => after(
                seq![c],
                spec_parse_chunks(bytes.subrange((c.data.len() + 12) as int, bytes.len() as int)),
            ),
        }
    }
}

/// The outcome `rest` of reading further chunks, with the chunks `done`
/// that were read before put in front of those that were read then.
pub open spec fn after(done: Seq<ChunkView>, rest: Result<Seq<ChunkView>, ChunkError>) -> Result<
    Seq<ChunkView>,
    ChunkError,
> {
    match rest {
        Ok(chunks) => Ok(done + chunks),
        Err(e) => Err(e),
    }
}

/// What reading a whole file gives: its chunks, or the reason why it is
/// refused. Nothing is asked of the types of the chunks.
pub open spec fn spec_parse_png(bytes: Seq<u8>) -> Result<Seq<ChunkView>, PngError> {
    if bytes.len() < 8 || bytes.subrange(0, 8) != signature() {
        Err(PngError::InvalidSignature)
    } else {
        match spec_parse_chunks(bytes.subrange(8, bytes.len() as int)) {
            Ok(chunks) => Ok(chunks),
            Err(e) => Err(PngError::InvalidChunk(e)),
        }
    }
}

/// The index of the first chunk at or after `from` whose type, as text, is `name`.
pub open spec fn spec_position_from(chunks: Seq<ChunkView>, name: Seq<char>, from: int) -> Option<
    int,
>
    decreases chunks.len() - from,
{
    if from >= chunks.len() {
        None
    } else if latin1(chunks[from].chunk_type) == name {
        Some(from)
    } else {
        spec_position_from(chunks, name, from + 1)
    }
}

/// The index of the first chunk whose type, as text, is `name`.
pub open spec fn spec_position(chunks: Seq<ChunkView>, name: Seq<char>) -> Option<int> {
    spec_position_from(chunks, name, 0)
}

/// The line that describes one chunk: its type, the length of its data and
/// its checksum.
pub open spec fn spec_line(c: ChunkView) -> Seq<char> {
    latin1(c.chunk_type) + ": "@ + decimal(c.data.len()) + " bytes, crc "@ + decimal(c.crc as nat)
        + "\n"@
}

/// The lines that describe `chunks`, in order.
pub open spec fn spec_text(chunks: Seq<ChunkView>) -> Seq<char>
    decreases chunks.len(),
{
    if chunks.len() == 0 {
        Seq::empty()
    } else {
        spec_text(chunks.drop_last()) + spec_line(chunks.last())
    }
}

/// The views of the chunks of `chunks`, in order.
pub open spec fn views(chunks: Seq<Chunk>) -> Seq<ChunkView> {
    Seq::new(chunks.len(), |i: int| chunks[i]@)
}

/// Chunks written one after the other begin with the first chunk.
pub proof fn lemma_chunks_bytes_front(c: ChunkView, rest: Seq<ChunkView>)
    ensures
        spec_chunks_bytes(seq![c] + rest) == c.as_bytes() + spec_chunks_bytes(rest),
    decreases rest.len(),
{
    let all = seq![c] + rest;
    if rest.len() == 0 {
        assert(spec_chunks_bytes(all.drop_last()) =~= Seq::<u8>::empty());
        assert(spec_chunks_bytes(rest) =~= Seq::<u8>::empty());
        assert(spec_chunks_bytes(all) =~= c.as_bytes() + spec_chunks_bytes(rest));
    } else {
        lemma_chunks_bytes_front(c, rest.drop_last());
        assert(all.drop_last() =~= seq![c] + rest.drop_last());
        assert(spec_chunks_bytes(all) =~= c.as_bytes() + spec_chunks_bytes(rest));
    }
}

/// Reading from bytes that begin with a written chunk gives that chunk and
/// then what reading the bytes after it gives.
pub proof fn lemma_parse_chunks_step(c: ChunkView, tail: Seq<u8>)
    requires
        c.wf(),
    ensures
        spec_parse_chunks(c.as_bytes() + tail) == after(seq![c], spec_parse_chunks(tail)),
{
    let bytes = c.as_bytes() + tail;
    lemma_parse_as_bytes(c, tail);
    lemma_as_bytes_len(c);
    assert(bytes.subrange((c.data.len() + 12) as int, bytes.len() as int) =~= tail);
}

/// Reading chunks that were written one after the other gives them back.
pub proof fn lemma_parse_chunks_bytes(chunks: Seq<ChunkView>)
    requires
        all_wf(chunks),
    ensures
        spec_parse_chunks(spec_chunks_bytes(chunks)) == Ok::<Seq<ChunkView>, ChunkError>(chunks),
    decreases chunks.len(),
{
    if chunks.len() == 0 {
        assert(chunks =~= Seq::<ChunkView>::empty());
    } else {
        let c = chunks[0];
        let rest = chunks.drop_first();
        assert(chunks =~= seq![c] + rest);
        lemma_chunks_bytes_front(c, rest);
        lemma_parse_chunks_step(c, spec_chunks_bytes(rest));
        lemma_parse_chunks_bytes(rest);
    }
}

/// Reading a written file gives its chunks back, whatever their types and
/// their order.
pub proof fn lemma_parse_as_bytes_png(chunks: Seq<ChunkView>)
    requires
        all_wf(chunks),
    ensures
        spec_parse_png(spec_as_bytes(chunks)) == Ok::<Seq<ChunkView>, PngError>(chunks),
{
    let bytes = spec_as_bytes(chunks);
    assert(bytes.subrange(0, 8) =~= signature());
    assert(bytes.subrange(8, bytes.len() as int) =~= spec_chunks_bytes(chunks));
    lemma_parse_chunks_bytes(chunks);
}

/// The chunks that were read from bytes are well formed, and written one
/// after the other they are those bytes again.
pub proof fn lemma_chunks_bytes_parse(bytes: Seq<u8>)
    ensures
        spec_parse_chunks(bytes) matches Ok(chunks) ==> all_wf(chunks) && spec_chunks_bytes(chunks)
            == bytes,
    decreases bytes.len(),
{
    if bytes.len() == 0 {
        assert(spec_chunks_bytes(Seq::<ChunkView>::empty()) =~= bytes);
    } else if let Ok(c) = spec_parse(bytes) {
        lemma_parse_prefix(bytes);
        let used = (c.data.len() + 12) as int;
        let rest = bytes.subrange(used, bytes.len() as int);
        lemma_chunks_bytes_parse(rest);
        if let Ok(others) = spec_parse_chunks(rest) {
            lemma_chunks_bytes_front(c, others);
            assert(bytes.subrange(0, used) + rest =~= bytes);
        }
    }
}

/// The chunks that were read from a file are well formed, and the file
/// that holds them is the file that was read.
pub proof fn lemma_as_bytes_parse_png(bytes: Seq<u8>)
    ensures
        spec_parse_png(bytes) matches Ok(chunks) ==> all_wf(chunks) && spec_as_bytes(chunks)
            == bytes,
{
    if let Ok(chunks) = spec_parse_png(bytes) {
        let body = bytes.subrange(8, bytes.len() as int);
        lemma_chunks_bytes_parse(body);
        assert(bytes.subrange(0, 8) + body =~= bytes);
    }
}

/// `spec_position` gives an index exactly when it is the first at which the
/// type reads `name`, and gives none exactly when no type reads `name`.
pub proof fn lemma_position(chunks: Seq<ChunkView>, name: Seq<char>, from: int)
    requires
        0 <= from,
    ensures
        match spec_position_from(chunks, name, from) {
            Some(i) => {
                &&& from <= i < chunks.len()
                &&& latin1(chunks[i].chunk_type) == name
                &&& forall|j: int| from <= j < i ==> latin1(#[trigger] chunks[j].chunk_type) != name
            },
            None => forall|j: int|
                from <= j < chunks.len() ==> latin1(#[trigger] chunks[j].chunk_type) != name,
        },
    decreases chunks.len() - from,
{
    if from < chunks.len() && latin1(chunks[from].chunk_type) != name {
        lemma_position(chunks, name, from + 1);
    }
}

/// A PNG file: its chunks, in the order in which they stand in the file.
#[derive(Debug)]
pub struct Png {
    chunks: Vec<Chunk>,
}

impl View for Png {
    type V = Seq<ChunkView>;

    closed spec fn view(&self) -> Seq<ChunkView> {
        views(self.chunks@)
    }
}

impl Clone for Png {
    fn clone(&self) -> (png: Png)
        ensures
            png@ == self@,
    {
        let mut chunks: Vec<Chunk> = Vec::new();
        let mut i: usize = 0;
        while i < self.chunks.len()
            invariant
                i <= self.chunks@.len(),
                views(chunks@) == self@.subrange(0, i as int),
            decreases self.chunks@.len() - i,
        {
            let chunk = self.chunks[i].clone();
            let ghost before = views(chunks@);
            chunks.push(chunk);
            i += 1;
            assert(self@.subrange(0, i as int) =~= before.push(chunk@));
        }
        Png { chunks }
    }
}

impl<'a> TryFrom<&'a [u8]> for Png {
    type Error = PngError;

    fn try_from(value: &'a [u8]) -> (r: Result<Png, PngError>)
        ensures
            view_of(r) == spec_parse_png(value@),
    {
        Png::parse(value)
    }
}

/// What `try_from` returns is stated on `try_from` itself, over views: a
/// file holds a vector, which no spec function can build.
impl<'a> TryFromSpecImpl<&'a [u8]> for Png {
    open spec fn obeys_try_from_spec() -> bool {
        false
    }

    open spec fn try_from_spec(value: &'a [u8]) -> Result<Png, PngError> {
        arbitrary()
    }
}

/// Whether `bytes` begins with the signature.
fn starts_with_signature(bytes: &[u8]) -> (r: bool)
    ensures
        r == (bytes@.len() >= 8 && bytes@.subrange(0, 8) == signature()),
{
    if bytes.len() < 8 {
        return false;
    }
    let same = bytes[0] == 0x89 && bytes[1] == 0x50 && bytes[2] == 0x4E && bytes[3] == 0x47
        && bytes[4] == 0x0D && bytes[5] == 0x0A && bytes[6] == 0x1A && bytes[7] == 0x0A;
    proof {
        if same {
            assert(bytes@.subrange(0, 8) =~= signature());
        } else {
            assert(bytes@.subrange(0, 8)[0] == bytes@[0]);
            assert(bytes@.subrange(0, 8)[1] == bytes@[1]);
            assert(bytes@.subrange(0, 8)[2] == bytes@[2]);
            assert(bytes@.subrange(0, 8)[3] == bytes@[3]);
            assert(bytes@.subrange(0, 8)[4] == bytes@[4]);
            assert(bytes@.subrange(0, 8)[5] == bytes@[5]);
            assert(bytes@.subrange(0, 8)[6] == bytes@[6]);
            assert(bytes@.subrange(0, 8)[7] == bytes@[7]);
        }
    }
    same
}

impl Png {
    /// The eight bytes with which every PNG file begins.
    pub const STANDARD_HEADER: [u8; 8] = [0x89, 0x50, 0x4E, 0x47, 0x0D, 0x0A, 0x1A, 0x0A];

    /// The file that holds `chunks`, in that order.
    pub fn from_chunks(chunks: Vec<Chunk>) -> (png: Png)
        ensures
            png@ == views(chunks@),
    {
        Png { chunks }
    }

    /// Reads a whole file: the signature, then chunk after chunk until the
    /// input ends. The first chunk that cannot be read makes the whole fail.
    pub fn parse(bytes: &[u8]) -> (r: Result<Png, PngError>)
        ensures
            view_of(r) == spec_parse_png(bytes@),
    {
        if !starts_with_signature(bytes) {
            return Err(PngError::InvalidSignature);
        }
        let mut chunks: Vec<Chunk> = Vec::new();
        let mut cursor: usize = 8;
        let ghost body = bytes@.subrange(8, bytes@.len() as int);
        assert(after(Seq::empty(), spec_parse_chunks(body)) == spec_parse_chunks(body)) by {
            lemma_after_nothing(spec_parse_chunks(body));
        }
        assert(bytes@.subrange(cursor as int, bytes@.len() as int) == body);
        while cursor < bytes.len()
            invariant
                8 <= cursor <= bytes@.len(),
                bytes@.subrange(0, 8) == signature(),
                body == bytes@.subrange(8, bytes@.len() as int),
                spec_parse_chunks(body) == after(
                    views(chunks@),
                    spec_parse_chunks(bytes@.subrange(cursor as int, bytes@.len() as int)),
                ),
            decreases bytes@.len() - cursor,
        {
            let rest = slice_subrange(bytes, cursor, bytes.len());
            match Chunk::parse(rest) {
                Err(e) => {
                    return Err(PngError::InvalidChunk(e));
                },
                Ok(chunk) => {
                    let ghost before = views(chunks@);
                    let ghost c = chunk@;
                    let used = 12 + chunk.length() as usize;
                    proof {
                        lemma_parse_prefix(rest@);
                        assert(rest@.subrange(used as int, rest@.len() as int) =~= bytes@.subrange(
                            cursor + used,
                            bytes@.len() as int,
                        ));
                        lemma_after_push(
                            before,
                            c,
                            spec_parse_chunks(rest@.subrange(used as int, rest@.len() as int)),
                        );
                    }
                    chunks.push(chunk);
                    cursor += used;
                    assert(views(chunks@) =~= before.push(c));
                },
            }
        }
        assert(bytes@.subrange(cursor as int, bytes@.len() as int) =~= Seq::<u8>::empty());
        Ok(Png { chunks })
    }

    /// The file as bytes: the signature, then every chunk in order. Reading
    /// these bytes gives the same chunks back.
    pub fn as_bytes(&self) -> (bytes: Vec<u8>)
        ensures
            bytes@ == spec_as_bytes(self@),
            spec_parse_png(bytes@) == Ok::<Seq<ChunkView>, PngError>(self@),
    {
        let mut bytes: Vec<u8> = Vec::new();
        let first = Self::STANDARD_HEADER;
        append_bytes(&mut bytes, first.as_slice());
        assert(bytes@ =~= signature());
        let mut i: usize = 0;
        while i < self.chunks.len()
            invariant
                i <= self.chunks@.len(),
                bytes@ == signature() + spec_chunks_bytes(self@.subrange(0, i as int)),
                all_wf(self@.subrange(0, i as int)),
            decreases self.chunks@.len() - i,
        {
            let chunk = &self.chunks[i];
            let written = chunk.as_bytes();
            append_bytes(&mut bytes, written.as_slice());
            proof {
                use_type_invariant(chunk);
                let upto = self@.subrange(0, i + 1);
                assert(upto.drop_last() =~= self@.subrange(0, i as int));
                assert(bytes@ =~= signature() + spec_chunks_bytes(upto));
            }
            i += 1;
        }
        proof {
            assert(self@.subrange(0, i as int) =~= self@);
            lemma_parse_as_bytes_png(self@);
        }
        bytes
    }

    /// Puts `chunk` after all the chunks of the file. Which type it has and
    /// whether an end chunk stands before it is left to the caller.
    pub fn append_chunk(&mut self, chunk: Chunk)
        ensures
            final(self)@ == old(self)@.push(chunk@),
    {
        self.chunks.push(chunk);
    }

    /// Takes out the first chunk whose type reads `chunk_type` and returns
    /// it. The chunks around it close up and keep their order. Where no type
    /// reads so, the file stays as it is.
    pub fn remove_chunk(&mut self, chunk_type: &str) -> (r: Result<Chunk, PngError>)
        ensures
            match spec_position(old(self)@, chunk_type@) {
                Some(i) => r matches Ok(c) && c@ == old(self)@[i] && final(self)@ == old(self)@.remove(i),
                None => r matches Err(e) && e == PngError::ChunkNotFound && final(self)@ == old(self)@,
            },
    {
        let mut i: usize = 0;
        while i < self.chunks.len()
            invariant
                i <= self.chunks@.len(),
                self@ == old(self)@,
                spec_position(self@, chunk_type@) == spec_position_from(
                    self@,
                    chunk_type@,
                    i as int,
                ),
            decreases self.chunks@.len() - i,
        {
            if self.chunks[i].chunk_type().reads_as(chunk_type) {
                let chunk = self.chunks.remove(i);
                return Ok(chunk);
            }
            i += 1;
        }
        Err(PngError::ChunkNotFound)
    }

    /// The first chunk whose type reads `chunk_type`, if there is one.
    pub fn chunk_by_type(&self, chunk_type: &str) -> (r: Option<&Chunk>)
        ensures
            match spec_position(self@, chunk_type@) {
                Some(i) => r matches Some(c) && c@ == self@[i],
                None => r is None,
            },
    {
        let mut i: usize = 0;
        while i < self.chunks.len()
            invariant
                i <= self.chunks@.len(),
                spec_position(self@, chunk_type@) == spec_position_from(
                    self@,
                    chunk_type@,
                    i as int,
                ),
            decreases self.chunks@.len() - i,
        {
            if self.chunks[i].chunk_type().reads_as(chunk_type) {
                return Some(&self.chunks[i]);
            }
            i += 1;
        }
        None
    }

    /// The chunks, in the order of the file.
    pub fn chunks(&self) -> (chunks: &[Chunk])
        ensures
            views(chunks@) == self@,
    {
        self.chunks.as_slice()
    }

    /// The first chunk, which in a finished file is the header chunk.
    pub fn header(&self) -> (chunk: &Chunk)
        requires
            self@.len() > 0,
        ensures
            chunk@ == self@[0],
    {
        &self.chunks[0]
    }

    /// Whether the file begins with a header chunk and ends with an end
    /// chunk. `parse` and `append_chunk` do not ask for this.
    pub fn is_framed(&self) -> (r: bool)
        ensures
            r == spec_is_framed(self@),
    {
        let n = self.chunks.len();
        if n == 0 {
            return false;
        }
        let head = &self.chunks[0];
        let tail = &self.chunks[n - 1];
        let first = head.chunk_type().bytes();
        let last = tail.chunk_type().bytes();
        let framed = first[0] == 0x49 && first[1] == 0x48 && first[2] == 0x44 && first[3] == 0x52
            && last[0] == 0x49 && last[1] == 0x45 && last[2] == 0x4E && last[3] == 0x44;
        proof {
            use_type_invariant(head);
            use_type_invariant(tail);
            if framed {
                assert(self@[0].chunk_type =~= header_type());
                assert(self@[n - 1].chunk_type =~= end_type());
            }
        }
        framed
    }

    /// One line for each chunk, with its type, the length of its data and
    /// its checksum.
    pub fn to_string(&self) -> (s: String)
        ensures
            s@ == spec_text(self@),
    {
        let mut s = String::new();
        let mut i: usize = 0;
        while i < self.chunks.len()
            invariant
                i <= self.chunks@.len(),
                s@ == spec_text(self@.subrange(0, i as int)),
            decreases self.chunks@.len() - i,
        {
            let chunk = &self.chunks[i];
            let type_bytes = chunk.chunk_type().bytes();
            push_latin1(&mut s, type_bytes.as_slice());
            s.append(": ");
            push_decimal(&mut s, chunk.length() as usize);
            s.append(" bytes, crc ");
            push_decimal(&mut s, chunk.crc() as usize);
            s.append("\n");
            proof {
                let upto = self@.subrange(0, i + 1);
                assert(upto.drop_last() =~= self@.subrange(0, i as int));
            }
            i += 1;
        }
        assert(self@.subrange(0, i as int) =~= self@);
        s
    }
}

proof fn lemma_after_nothing(rest: Result<Seq<ChunkView>, ChunkError>)
    ensures
        after(Seq::empty(), rest) == rest,
{
    if let Ok(chunks) = rest {
    }
}

proof fn lemma_after_push(done: Seq<ChunkView>, c: ChunkView, rest: Result<
    Seq<ChunkView>,
    ChunkError,
>)
    ensures
        after(done, after(seq![c], rest)) == after(done.push(c), rest),
{
    if let Ok(chunks) = rest {
        assert(done + (seq![c] + chunks) =~= done.push(c) + chunks);
    }
}

} // verus!

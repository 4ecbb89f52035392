//! What each command computes from the bytes of an image. Reading and
//! writing the files around it is the caller's part.

use crate::args::{DecodeCommand, EncodeCommand, RemoveCommand};
use crate::chunk::{spec_new, Chunk, ChunkError, ChunkView};
use crate::chunk_type::{lemma_text_of_letters, spec_from_string, ChunkType, ChunkTypeError};
use crate::png::{
    lemma_as_bytes_parse_png, lemma_parse_as_bytes_png, lemma_position, spec_as_bytes,
    spec_parse_png, spec_position, spec_text, Png, PngError,
};
use crate::text::{latin1, lemma_latin1_of_ascii};
use vstd::prelude::*;
use vstd::string::*;
use vstd::utf8::{encode_utf8, is_ascii_chars, is_ascii_chars_encode_utf8};

verus! {

/// Why a command could not be carried out.
#[derive(Debug, Clone, Copy, PartialEq, Eq, Structural)]
pub enum Error {
    /// The chunk type that was given is not one.
    ChunkType(ChunkTypeError),
    /// The message does not fit in a chunk.
    Chunk(ChunkError),
    /// The image could not be read, or holds no chunk of the given type.
    Png(PngError),
}

impl Error {
    /// The text of the message that describes this error.
    pub open spec fn spec_message(self) -> Seq<char> {
        match self {
            Error::ChunkType(e) => e.spec_message(),
            Error::Chunk(e) => e.spec_message(),
            Error::Png(e) => e.spec_message(),
        }
    }

    /// A message that describes this error.
    pub fn to_string(&self) -> (s: String)
        ensures
            s@ == self.spec_message(),
    {
        match self {
            Error::ChunkType(e) => e.to_string(),
            Error::Chunk(e) => e.to_string(),
            Error::Png(e) => e.to_string(),
        }
    }
}

/// The image `image` with one more chunk at its end, of the type written
/// in `chunk_type` and with the data `message`. The image is read first,
/// then the type, then the length of the message is looked at.
pub open spec fn spec_encode(image: Seq<u8>, chunk_type: Seq<u8>, message: Seq<u8>) -> Result<
    Seq<u8>,
    Error,
> {
    match spec_parse_png(image) {
        Err(e) => Err(Error::Png(e)),
        Ok(chunks) => match spec_from_string(chunk_type) {
            Err(e) => Err(Error::ChunkType(e)),
            Ok(t) => if message.len() > u32::MAX {
                Err(Error::Chunk(ChunkError::OversizedDataError(message.len() as usize)))
            } else {
                Ok(spec_as_bytes(chunks.push(spec_new(t, message))))
            },
        },
    }
}

/// The text in the first chunk of `image` whose type reads `name`, if
/// there is such a chunk.
pub open spec fn spec_decode(image: Seq<u8>, name: Seq<char>) -> Result<Option<Seq<char>>, Error> {
    match spec_parse_png(image) {
        Err(e) => Err(Error::Png(e)),
        Ok(chunks) => Ok(
            match spec_position(chunks, name) {
                Some(i) => Some(latin1(chunks[i].data)),
                None => None,
            },
        ),
    }
}

/// The first chunk of `image` whose type reads `name`, and the image
/// without it.
pub open spec fn spec_remove(image: Seq<u8>, name: Seq<char>) -> Result<(ChunkView, Seq<u8>), Error> {
    match spec_parse_png(image) {
        Err(e) => Err(Error::Png(e)),
        Ok(chunks) => match spec_position(chunks, name) {
            Some(i) => Ok((chunks[i], spec_as_bytes(chunks.remove(i)))),
            None => Err(Error::Png(PngError::ChunkNotFound)),
        },
    }
}

/// The lines that describe the chunks of `image`.
pub open spec fn spec_print(image: Seq<u8>) -> Result<Seq<char>, Error> {
    match spec_parse_png(image) {
        Err(e) => Err(Error::Png(e)),
        Ok(chunks) => Ok(spec_text(chunks)),
    }
}

/// What putting a message into an image leads to. Where the image can be
/// read and holds no chunk whose type reads `chunk_type`, and `chunk_type`
/// is accepted as a chunk type, the new image reads as the chunks of the
/// old one followed by the new chunk, and the new chunk is the first whose
/// type reads `chunk_type`.
proof fn lemma_encoded(image: Seq<u8>, chunk_type: Seq<char>, data: Seq<u8>)
    requires
        spec_decode(image, chunk_type) == Ok::<Option<Seq<char>>, Error>(None),
        spec_from_string(encode_utf8(chunk_type)) is Ok,
        data.len() <= u32::MAX,
    ensures
        spec_parse_png(image) matches Ok(chunks) && spec_as_bytes(chunks) == image && {
            let all = chunks.push(spec_new(encode_utf8(chunk_type), data));
            &&& spec_encode(image, encode_utf8(chunk_type), data) == Ok::<Seq<u8>, Error>(
                spec_as_bytes(all),
            )
            &&& spec_parse_png(spec_as_bytes(all)) == Ok::<Seq<ChunkView>, PngError>(all)
            &&& spec_position(all, chunk_type) == Some(chunks.len() as int)
        },
{
    let chunks = spec_parse_png(image)->Ok_0;
    let all = chunks.push(spec_new(encode_utf8(chunk_type), data));
    // The new file reads as the old chunks and then the new one.
    lemma_as_bytes_parse_png(image);
    lemma_parse_as_bytes_png(all);
    // None of the old chunks has the type; the new one has.
    lemma_position(chunks, chunk_type, 0);
    lemma_text_of_letters(chunk_type);
    lemma_position(all, chunk_type, 0);
    assert forall|j: int| 0 <= j < chunks.len() implies latin1(#[trigger] all[j].chunk_type)
        != chunk_type by {
        assert(all[j] == chunks[j]);
    }
}

/// A message that was put into an image is found there again. Where the
/// image can be read and holds no chunk whose type reads `chunk_type`,
/// putting the ASCII text `message` into it under `chunk_type` and then
/// looking for `chunk_type` gives exactly `message`.
pub proof fn lemma_decode_encoded(image: Seq<u8>, chunk_type: Seq<char>, message: Seq<char>)
    requires
        spec_decode(image, chunk_type) == Ok::<Option<Seq<char>>, Error>(None),
        spec_from_string(encode_utf8(chunk_type)) is Ok,
        is_ascii_chars(message),
        message.len() <= u32::MAX,
    ensures
        spec_encode(image, encode_utf8(chunk_type), encode_utf8(message)) matches Ok(encoded)
            && spec_decode(encoded, chunk_type) == Ok::<Option<Seq<char>>, Error>(
            Some(message),
        ),
{
    is_ascii_chars_encode_utf8(message);
    lemma_encoded(image, chunk_type, encode_utf8(message));
    lemma_latin1_of_ascii(message);
}

/// A chunk that was put into an image can be taken out again. Where the
/// image can be read and holds no chunk whose type reads `chunk_type`,
/// putting `data` into it under `chunk_type` and then removing
/// `chunk_type` gives the new chunk and the image as it was.
pub proof fn lemma_remove_encoded(image: Seq<u8>, chunk_type: Seq<char>, data: Seq<u8>)
    requires
        spec_decode(image, chunk_type) == Ok::<Option<Seq<char>>, Error>(None),
        spec_from_string(encode_utf8(chunk_type)) is Ok,
        data.len() <= u32::MAX,
    ensures
        spec_encode(image, encode_utf8(chunk_type), data) matches Ok(encoded) && spec_remove(
            encoded,
            chunk_type,
        ) == Ok::<(ChunkView, Seq<u8>), Error>((spec_new(encode_utf8(chunk_type), data), image)),
{
    lemma_encoded(image, chunk_type, data);
    let chunks = spec_parse_png(image)->Ok_0;
    let all = chunks.push(spec_new(encode_utf8(chunk_type), data));
    assert(all.remove(chunks.len() as int) =~= chunks);
}

/// Puts the message of `params` into the image `image`, in a new chunk of
/// the type of `params` after all the others, and returns the new image.
pub fn encode_msg(params: &EncodeCommand, image: &[u8]) -> (r: Result<Vec<u8>, Error>)
    ensures
        match spec_encode(image@, encode_utf8(params.chunk_type@), encode_utf8(params.message@)) {
            Ok(bytes) => r matches Ok(out) && out@ == bytes,
            Err(e) => r matches Err(x) && x == e,
        },
{
    let mut png = match Png::parse(image) {
        Ok(png) => png,
        Err(e) => {
            return Err(Error::Png(e));
        },
    };
    let chunk_type = match ChunkType::from_string(params.chunk_type.as_str()) {
        Ok(t) => t,
        Err(e) => {
            return Err(Error::ChunkType(e));
        },
    };
    let chunk = match Chunk::try_new(chunk_type, params.message.as_str().as_bytes_vec()) {
        Ok(c) => c,
        Err(e) => {
            return Err(Error::Chunk(e));
        },
    };
    png.append_chunk(chunk);
    Ok(png.as_bytes())
}

/// Looks in the image `image` for the first chunk of the type of `params`
/// and returns its data as text.
pub fn decode_msg(params: &DecodeCommand, image: &[u8]) -> (r: Result<Option<String>, Error>)
    ensures
        match spec_decode(image@, params.chunk_type@) {
            Ok(Some(text)) => r matches Ok(Some(s)) && s@ == text,
            Ok(None) => r matches Ok(None),
            Err(e) => r matches Err(x) && x == e,
        },
{
    let png = match Png::parse(image) {
        Ok(png) => png,
        Err(e) => {
            return Err(Error::Png(e));
        },
    };
    match png.chunk_by_type(params.chunk_type.as_str()) {
        Some(chunk) => Ok(Some(chunk.to_string())),
        None => Ok(None),
    }
}

/// Takes the first chunk of the type of `params` out of the image `image`
/// and returns it together with the image that is left.
pub fn remove(params: &RemoveCommand, image: &[u8]) -> (r: Result<(Chunk, Vec<u8>), Error>)
    ensures
        match spec_remove(image@, params.chunk_type@) {
            Ok((chunk, bytes)) => r matches Ok((c, out)) && c@ == chunk && out@ == bytes,
            Err(e) => r matches Err(x) && x == e,
        },
{
    let mut png = match Png::parse(image) {
        Ok(png) => png,
        Err(e) => {
            return Err(Error::Png(e));
        },
    };
    match png.remove_chunk(params.chunk_type.as_str()) {
        Ok(chunk) => Ok((chunk, png.as_bytes())),
        Err(e) => Err(Error::Png(e)),
    }
}

/// Describes the chunks of the image `image`, one line for each.
pub fn print(image: &[u8]) -> (r: Result<String, Error>)
    ensures
        match spec_print(image@) {
            Ok(text) => r matches Ok(s) && s@ == text,
            Err(e) => r matches Err(x) && x == e,
        },
{
    match Png::parse(image) {
        Ok(png) => Ok(png.to_string()),
        Err(e) => Err(Error::Png(e)),
    }
}

} // verus!

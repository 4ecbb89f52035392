//! Reading, editing and rewriting PNG files chunk by chunk.
//!
//! A PNG file is a fixed signature followed by chunks. Each chunk has a
//! length, a four-letter type, data, and a checksum over type and data.
//! This library reads and writes that format, tells what the letters of a
//! chunk type say, and can add a chunk to a file, find one by its type and
//! take one out: enough to hide a message in an image and to get it back.
//!
//! Every function states what it returns over a model of its data: a chunk
//! type is its four bytes, a chunk is a [`chunk::ChunkView`], a file is the
//! sequence of its chunks' views. The checksum itself is computed by the
//! `crc` crate and is known here only by name, [`checksum::crc32`].

use vstd::prelude::*;

pub mod args;
pub mod checksum;
pub mod chunk;
pub mod chunk_type;
pub mod commands;
pub mod endian;
pub mod png;
pub mod text;

verus! {

/// A result with the value it holds, if any, replaced by that value's view.
pub open spec fn view_of<T: View, E>(r: Result<T, E>) -> Result<T::V, E> {
    match r {
        Ok(t) => Ok(t@),
        Err(e) => Err(e),
    }
}

} // verus!

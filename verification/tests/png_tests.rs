use pngme::chunk::{Chunk, ChunkError};
use pngme::chunk_type::ChunkType;
use pngme::png::{Png, PngError};

const SIGNATURE: [u8; 8] = [0x89, 0x50, 0x4E, 0x47, 0x0D, 0x0A, 0x1A, 0x0A];

fn chunk_of(chunk_type: &str, data: &[u8]) -> Chunk {
    Chunk::new(ChunkType::from_string(chunk_type).unwrap(), data.to_vec())
}

fn header_chunk() -> Chunk {
    chunk_of("IHDR", &[0, 0, 0, 1, 0, 0, 0, 1, 8, 2, 0, 0, 0])
}

fn framed_png() -> Png {
    Png::from_chunks(vec![
        header_chunk(),
        chunk_of("ruSt", b"hidden"),
        chunk_of("IEND", b""),
    ])
}

fn types_of(png: &Png) -> Vec<String> {
    png.chunks().iter().map(|c| c.chunk_type().to_string()).collect()
}

#[test]
fn png_signature_constant() {
    assert_eq!(Png::STANDARD_HEADER, [137, 80, 78, 71, 13, 10, 26, 10]);
}

#[test]
fn png_from_chunks_keeps_the_order() {
    let png = framed_png();
    assert_eq!(types_of(&png), ["IHDR", "ruSt", "IEND"]);
    assert_eq!(png.chunks().len(), 3);
    assert_eq!(png.header().chunk_type().to_string(), "IHDR");
    assert_eq!(png.header().length(), 13);
}

#[test]
fn png_as_bytes_is_signature_then_chunks() {
    let png = framed_png();
    let mut expected = SIGNATURE.to_vec();
    expected.extend(header_chunk().as_bytes());
    expected.extend(chunk_of("ruSt", b"hidden").as_bytes());
    expected.extend(chunk_of("IEND", b"").as_bytes());
    assert_eq!(png.as_bytes(), expected);
    assert_eq!(png.as_bytes().len(), 8 + 25 + 18 + 12);
}

#[test]
fn png_without_chunks() {
    let png = Png::from_chunks(Vec::new());
    assert_eq!(png.as_bytes(), SIGNATURE.to_vec());
    let back = Png::parse(&SIGNATURE).unwrap();
    assert_eq!(back.chunks().len(), 0);
    assert!(!back.is_framed());
    assert_eq!(back.to_string(), "");
    assert!(back.chunk_by_type("IHDR").is_none());
}

#[test]
fn png_round_trip() {
    let png = framed_png();
    let back = Png::parse(&png.as_bytes()).unwrap();
    assert_eq!(back.chunks().len(), 3);
    for (a, b) in back.chunks().iter().zip(png.chunks().iter()) {
        assert_eq!(a.chunk_type(), b.chunk_type());
        assert_eq!(a.data(), b.data());
        assert_eq!(a.crc(), b.crc());
    }
    assert_eq!(back.as_bytes(), png.as_bytes());
}

#[test]
fn png_round_trip_does_not_ask_for_a_frame() {
    let png = Png::from_chunks(vec![chunk_of("IEND", b""), chunk_of("ruSt", b"x"), chunk_of("ruSt", b"y")]);
    assert!(!png.is_framed());
    let back = Png::try_from(png.as_bytes().as_slice()).unwrap();
    assert_eq!(types_of(&back), ["IEND", "ruSt", "ruSt"]);
    assert_eq!(back.chunks()[1].data(), b"x");
    assert_eq!(back.chunks()[2].data(), b"y");
}

#[test]
fn png_parse_rejects_a_wrong_or_short_signature() {
    let good = framed_png().as_bytes();
    for n in 0..8 {
        assert_eq!(Png::parse(&good[..n]).err(), Some(PngError::InvalidSignature));
    }
    for at in 0..8 {
        let mut bad = good.clone();
        bad[at] ^= 0x01;
        assert_eq!(Png::parse(&bad).err(), Some(PngError::InvalidSignature));
    }
    assert_eq!(Png::try_from(&[0u8; 20][..]).err(), Some(PngError::InvalidSignature));
}

#[test]
fn png_parse_hands_on_chunk_errors() {
    let good = framed_png().as_bytes();

    // The last chunk is cut short: five bytes are left for it.
    let cut = &good[..good.len() - 7];
    assert_eq!(
        Png::parse(cut).err(),
        Some(PngError::InvalidChunk(ChunkError::ByteLengthError(5)))
    );

    // The second chunk loses its end and the third with it.
    let cut = &good[..8 + 25 + 14];
    assert_eq!(
        Png::parse(cut).err(),
        Some(PngError::InvalidChunk(ChunkError::DataLengthError(6)))
    );

    // One bit of the data of the second chunk is flipped.
    let mut bad = good.clone();
    bad[8 + 25 + 8] ^= 0x10;
    match Png::parse(&bad).err() {
        Some(PngError::InvalidChunk(ChunkError::MismatchedCrcError(actual))) => {
            assert_ne!(actual, chunk_of("ruSt", b"hidden").crc())
        }
        other => panic!("{:?}", other),
    }

    // Bytes after the last chunk are taken for one more chunk.
    let mut long = good.clone();
    long.push(0);
    assert_eq!(
        Png::parse(&long).err(),
        Some(PngError::InvalidChunk(ChunkError::ByteLengthError(1)))
    );
}

#[test]
fn png_append_chunk_puts_it_last() {
    let mut png = framed_png();
    png.append_chunk(chunk_of("RuSt", b"more"));
    assert_eq!(types_of(&png), ["IHDR", "ruSt", "IEND", "RuSt"]);
    assert_eq!(png.chunks()[3].data(), b"more");
    assert!(!png.is_framed());
}

#[test]
fn png_lookup_and_removal() {
    let mut png = framed_png();

    let found = png.chunk_by_type("ruSt").unwrap();
    assert_eq!(found.data(), b"hidden");
    assert!(png.chunk_by_type("RuSt").is_none());

    let removed = png.remove_chunk("ruSt").unwrap();
    assert_eq!(removed.data(), b"hidden");
    assert_eq!(removed.chunk_type().to_string(), "ruSt");
    assert_eq!(types_of(&png), ["IHDR", "IEND"]);

    assert_eq!(png.remove_chunk("ruSt").err(), Some(PngError::ChunkNotFound));
    assert_eq!(types_of(&png), ["IHDR", "IEND"]);
    assert!(png.chunk_by_type("ruSt").is_none());
}

#[test]
fn png_lookup_and_removal_take_the_first_match() {
    let mut png = Png::from_chunks(vec![
        header_chunk(),
        chunk_of("ruSt", b"first"),
        chunk_of("tEXt", b"between"),
        chunk_of("ruSt", b"second"),
        chunk_of("IEND", b""),
    ]);
    assert_eq!(png.chunk_by_type("ruSt").unwrap().data(), b"first");
    assert_eq!(png.remove_chunk("ruSt").unwrap().data(), b"first");
    assert_eq!(types_of(&png), ["IHDR", "tEXt", "ruSt", "IEND"]);
    assert_eq!(png.chunk_by_type("ruSt").unwrap().data(), b"second");
    assert_eq!(png.remove_chunk("ruSt").unwrap().data(), b"second");
    assert_eq!(types_of(&png), ["IHDR", "tEXt", "IEND"]);
    assert_eq!(png.remove_chunk("IHDR").unwrap().length(), 13);
    assert_eq!(png.remove_chunk("IEND").unwrap().length(), 0);
    assert_eq!(types_of(&png), ["tEXt"]);
}

#[test]
fn png_lookup_with_text_that_is_no_type() {
    let mut png = framed_png();
    assert!(png.chunk_by_type("").is_none());
    assert!(png.chunk_by_type("ruStruSt").is_none());
    assert!(png.chunk_by_type("ru1t").is_none());
    assert_eq!(png.remove_chunk("").err(), Some(PngError::ChunkNotFound));
    assert_eq!(png.chunks().len(), 3);
}

#[test]
fn png_is_framed() {
    assert!(framed_png().is_framed());
    assert!(Png::from_chunks(vec![header_chunk(), chunk_of("IEND", b"")]).is_framed());
    assert!(!Png::from_chunks(vec![header_chunk()]).is_framed());
    assert!(!Png::from_chunks(vec![chunk_of("IEND", b"")]).is_framed());
    assert!(!Png::from_chunks(vec![chunk_of("IEND", b""), header_chunk()]).is_framed());
    assert!(!Png::from_chunks(vec![chunk_of("iHDR", b""), chunk_of("IEND", b"")]).is_framed());
}

#[test]
fn png_to_string_has_one_line_for_each_chunk() {
    let png = Png::from_chunks(vec![
        chunk_of("RuSt", b"This is where your secret message will be!"),
        chunk_of("IEND", b""),
    ]);
    assert_eq!(
        png.to_string(),
        "RuSt: 42 bytes, crc 2882656334\nIEND: 0 bytes, crc 2923585666\n"
    );
}

#[test]
fn png_clone_is_the_same_file() {
    let png = framed_png();
    let copy = png.clone();
    assert_eq!(copy.as_bytes(), png.as_bytes());
}

#[test]
fn png_error_messages() {
    assert_eq!(PngError::InvalidSignature.to_string(), "Input does not start with the PNG signature");
    assert_eq!(PngError::ChunkNotFound.to_string(), "No chunk of the given type was found");
    assert_eq!(
        PngError::InvalidChunk(ChunkError::ByteLengthError(5)).to_string(),
        "Expected 4 bytes but received 5 when creating chunk type"
    );
}

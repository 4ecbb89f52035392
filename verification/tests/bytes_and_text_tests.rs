use pngme::endian::{u32_from_be, u32_to_be};
use pngme::text::{latin1_string, push_decimal, push_latin1};

#[test]
fn u32_to_be_puts_the_most_significant_byte_first() {
    assert_eq!(u32_to_be(0), [0, 0, 0, 0]);
    assert_eq!(u32_to_be(42), [0, 0, 0, 42]);
    assert_eq!(u32_to_be(0x0102_0304), [1, 2, 3, 4]);
    assert_eq!(u32_to_be(2882656334), [0xAB, 0xD1, 0xD8, 0x4E]);
    assert_eq!(u32_to_be(u32::MAX), [255, 255, 255, 255]);
    for x in [0u32, 1, 255, 256, 65535, 65536, 0x00FF_FFFF, 0x0100_0000, 0x8000_0000, u32::MAX] {
        assert_eq!(u32_to_be(x), x.to_be_bytes());
    }
}

#[test]
fn u32_from_be_reads_at_the_given_place() {
    let bytes = [9, 1, 2, 3, 4, 0xAB, 0xD1, 0xD8, 0x4E];
    assert_eq!(u32_from_be(&bytes, 1), 0x0102_0304);
    assert_eq!(u32_from_be(&bytes, 5), 2882656334);
    assert_eq!(u32_from_be(&bytes, 0), 0x0901_0203);
    assert_eq!(u32_from_be(&[255, 255, 255, 255], 0), u32::MAX);
}

#[test]
fn u32_be_round_trip() {
    for x in [0u32, 1, 42, 255, 256, 0x0102_0304, 0x7FFF_FFFF, 0x8000_0000, u32::MAX] {
        assert_eq!(u32_from_be(&u32_to_be(x), 0), x);
    }
}

#[test]
fn latin1_string_has_one_character_for_each_byte() {
    assert_eq!(latin1_string(b"RuSt"), "RuSt");
    assert_eq!(latin1_string(&[]), "");
    assert_eq!(latin1_string(&[0x41, 0xE9, 0xFF, 0x7F, 0x80]), "A\u{e9}\u{ff}\u{7f}\u{80}");
    let all: Vec<u8> = (0..=255).collect();
    let text = latin1_string(&all);
    assert_eq!(text.chars().count(), 256);
    for (i, c) in text.chars().enumerate() {
        assert_eq!(c as u32, i as u32);
    }
}

#[test]
fn push_latin1_keeps_what_is_there() {
    let mut s = String::from("type ");
    push_latin1(&mut s, b"IHDR");
    assert_eq!(s, "type IHDR");
}

#[test]
fn push_decimal_writes_base_ten() {
    for n in [0usize, 1, 9, 10, 11, 99, 100, 101, 1205, 4294967295, usize::MAX] {
        let mut s = String::from("n=");
        push_decimal(&mut s, n);
        assert_eq!(s, format!("n={}", n));
    }
    let mut s = String::new();
    push_decimal(&mut s, 2882656334);
    assert_eq!(s, "2882656334");
}

use sanzu::text::{decode_latin1, property_text};

#[test]
fn utf8_property_kept() {
    assert_eq!(property_text("café ☃".as_bytes()), "café ☃");
    assert_eq!(property_text(b""), "");
}

#[test]
fn invalid_utf8_read_as_latin1() {
    assert_eq!(property_text(b"caf\xe9"), "café");
    assert_eq!(property_text(b"\xff\xfe"), "ÿþ");
}

#[test]
fn latin1_is_code_point_per_byte() {
    let all: Vec<u8> = (0..=255u8).collect();
    let s = decode_latin1(&all);
    let chars: Vec<u32> = s.chars().map(|c| c as u32).collect();
    let expected: Vec<u32> = (0..=255u32).collect();
    assert_eq!(chars, expected);
}

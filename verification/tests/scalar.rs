use collect_into_rc_slice::scalar::{encode_utf8, len_utf8};

#[test]
fn encodes_one_byte() {
    let (bytes, width) = encode_utf8('a');
    assert_eq!(width, 1);
    assert_eq!(bytes[0], 0x61);
    assert_eq!(len_utf8('\u{7f}'), 1);
    assert_eq!(len_utf8('\0'), 1);
}

#[test]
fn encodes_two_bytes() {
    let (bytes, width) = encode_utf8('\u{e9}');
    assert_eq!(width, 2);
    assert_eq!(&bytes[..2], &[0xC3, 0xA9]);
    assert_eq!(len_utf8('\u{80}'), 2);
    assert_eq!(len_utf8('\u{7ff}'), 2);
}

#[test]
fn encodes_three_bytes() {
    let (bytes, width) = encode_utf8('\u{20ac}');
    assert_eq!(width, 3);
    assert_eq!(&bytes[..3], &[0xE2, 0x82, 0xAC]);
    assert_eq!(len_utf8('\u{800}'), 3);
    assert_eq!(len_utf8('\u{ffff}'), 3);
}

#[test]
fn encodes_four_bytes() {
    let (bytes, width) = encode_utf8('\u{1f600}');
    assert_eq!(width, 4);
    assert_eq!(bytes, [0xF0, 0x9F, 0x98, 0x80]);
    assert_eq!(len_utf8('\u{10000}'), 4);
    assert_eq!(len_utf8('\u{10ffff}'), 4);
}

#[test]
fn encodes_every_scalar_value_as_the_standard_library_does() {
    let mut buffer = [0u8; 4];
    for scalar in (0..=0x10FFFFu32).filter_map(char::from_u32) {
        let expected = scalar.encode_utf8(&mut buffer).as_bytes();
        let (bytes, width) = encode_utf8(scalar);
        assert_eq!(width, scalar.len_utf8());
        assert_eq!(len_utf8(scalar), width);
        assert_eq!(&bytes[..width], expected);
    }
}

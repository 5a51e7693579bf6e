use puid::{encode, encode_into, encode_suffix, is_valid_suffix_byte};

#[test]
fn test_encode_suffix() {
    let mut buf = [b'0'; 22];
    encode_suffix(&mut buf);
    assert_eq!(buf.len(), 22);
    // Check that the buffer contains valid base62 characters
    for &byte in &buf {
        assert!(byte.is_ascii_alphanumeric());
    }
}

#[test]
fn test_encode_suffix_with_prefix() {
    let mut buf = [b'0'; 25];
    buf[0..3].copy_from_slice(b"te_");
    encode_suffix(&mut buf[3..]);
    assert_eq!(buf.len(), 25);
    assert_eq!(&buf[0..3], b"te_");
    // Check that the suffix is valid base62 characters
    for &byte in &buf[3..] {
        assert!(byte.is_ascii_alphanumeric());
    }
}

#[test]
fn encode_suffix_overwrites_the_first_22_bytes_only() {
    let mut buf = [b'!'; 30];
    encode_suffix(&mut buf);
    for &byte in &buf[..22] {
        assert!(is_valid_suffix_byte(byte));
    }
    assert_eq!(&buf[22..], b"!!!!!!!!");
}

#[test]
fn encode_suffix_draws_a_new_number_each_time() {
    let mut first = [0u8; 22];
    let mut second = [0u8; 22];
    encode_suffix(&mut first);
    encode_suffix(&mut second);
    assert_ne!(first, second);
}

#[test]
fn encode_zero_is_all_zero_digits() {
    assert_eq!(&encode(0), b"0000000000000000000000");
}

#[test]
fn encode_pads_on_the_left() {
    assert_eq!(&encode(1337), b"00000000000000000000LZ");
}

#[test]
fn encode_single_digits() {
    assert_eq!(&encode(9), b"0000000000000000000009");
    assert_eq!(&encode(10), b"000000000000000000000A");
    assert_eq!(&encode(35), b"000000000000000000000Z");
    assert_eq!(&encode(36), b"000000000000000000000a");
    assert_eq!(&encode(61), b"000000000000000000000z");
}

#[test]
fn encode_carries_at_62() {
    assert_eq!(&encode(62), b"0000000000000000000010");
    assert_eq!(&encode(62 * 62 - 1), b"00000000000000000000zz");
    assert_eq!(&encode(62 * 62), b"0000000000000000000100");
}

#[test]
fn encode_64_bit_boundary() {
    assert_eq!(&encode(u64::MAX as u128), b"00000000000LygHa16AHYF");
    assert_eq!(&encode(u64::MAX as u128 + 1), b"00000000000LygHa16AHYG");
}

#[test]
fn encode_largest_number_fills_all_digits() {
    assert_eq!(&encode(u128::MAX), b"7n42DGM5Tflk9n8mt7Fhc7");
}

#[test]
fn encode_is_deterministic() {
    assert_eq!(encode(123_456_789_012_345_678_901_234_567_890), encode(123_456_789_012_345_678_901_234_567_890));
    assert_ne!(encode(1), encode(2));
}

#[test]
fn encode_gives_alphabet_bytes() {
    for value in [0u128, 1, 61, 62, 3843, 3844, 1 << 64, u128::MAX / 3, u128::MAX] {
        for byte in encode(value) {
            assert!(is_valid_suffix_byte(byte));
        }
    }
}

#[test]
fn encode_into_writes_22_bytes_and_keeps_the_rest() {
    let mut buf = *b"xxxxxxxxxxxxxxxxxxxxxxxxx";
    encode_into(1337, &mut buf);
    assert_eq!(&buf, b"00000000000000000000LZxxx");
}

#[test]
fn encode_into_exact_buffer() {
    let mut buf = [0u8; 22];
    encode_into(u128::MAX, &mut buf);
    assert_eq!(&buf, b"7n42DGM5Tflk9n8mt7Fhc7");
}

#[test]
fn alphabet_boundaries() {
    for byte in [b'0', b'9', b'A', b'Z', b'a', b'z', b'5', b'M', b'm'] {
        assert!(is_valid_suffix_byte(byte));
    }
    for byte in [b'/', b':', b'@', b'[', b'`', b'{', b'_', b' ', 0u8, 0x7f, 0x80, 0xff] {
        assert!(!is_valid_suffix_byte(byte));
    }
}

#[test]
fn alphabet_has_62_bytes() {
    let count = (0u8..=255).filter(|byte| is_valid_suffix_byte(*byte)).count();
    assert_eq!(count, 62);
}

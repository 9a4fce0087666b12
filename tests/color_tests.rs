use bouncy_world::color::{decode, encode, ColorError};

#[test]
fn decode_reads_channels_in_order() {
    assert_eq!(decode("0a1b2c3d"), Ok([0x0a, 0x1b, 0x2c, 0x3d]));
    assert_eq!(decode("FFffFF00"), Ok([255, 255, 255, 0]));
}

#[test]
fn decode_rejects_wrong_length_and_digits() {
    assert_eq!(decode("fffffff"), Err(ColorError::Malformed));
    assert_eq!(decode("fffffffff"), Err(ColorError::Malformed));
    assert_eq!(decode(""), Err(ColorError::Malformed));
    assert_eq!(decode("ffffffgg"), Err(ColorError::Malformed));
    assert_eq!(decode("ffff ffff"), Err(ColorError::Malformed));
}

#[test]
fn encode_writes_lowercase_pairs() {
    assert_eq!(encode(0, 255, 16, 9), "00ff1009");
    assert_eq!(encode(0xab, 0xcd, 0xef, 0x01), "abcdef01");
}

#[test]
fn round_trip_of_several_colors() {
    for &(r, g, b, a) in &[(0u8, 0u8, 0u8, 0u8), (255, 255, 255, 255), (1, 2, 3, 4), (200, 17, 96, 160)] {
        assert_eq!(decode(&encode(r, g, b, a)), Ok([r, g, b, a]));
    }
}

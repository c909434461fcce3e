use eolib::data::{
    decode_number, decode_string, encode_number, encode_string, EoWriterError, CHAR_MAX, INT_MAX,
    SHORT_MAX, THREE_MAX,
};

#[test]
fn maxima() {
    assert_eq!(CHAR_MAX, 253);
    assert_eq!(SHORT_MAX, 253 * 253);
    assert_eq!(THREE_MAX, 253 * 253 * 253);
    assert_eq!(INT_MAX, i32::MAX);
}

#[test]
fn encode_number_below_char_max() {
    assert_eq!(encode_number(42), Ok([43, 254, 254, 254]));
}

#[test]
fn encode_number_below_short_max() {
    assert_eq!(encode_number(533), Ok([28, 3, 254, 254]));
}

#[test]
fn encode_number_below_three_max() {
    assert_eq!(encode_number(888888), Ok([100, 225, 14, 254]));
}

#[test]
fn encode_number_above_three_max() {
    assert_eq!(encode_number(18994242), Ok([15, 189, 44, 2]));
}

#[test]
fn encode_number_at_the_maxima() {
    assert_eq!(encode_number(0), Ok([1, 254, 254, 254]));
    assert_eq!(encode_number(CHAR_MAX - 1), Ok([253, 254, 254, 254]));
    assert_eq!(encode_number(CHAR_MAX), Ok([1, 2, 254, 254]));
    assert_eq!(encode_number(SHORT_MAX - 1), Ok([253, 253, 254, 254]));
    assert_eq!(encode_number(SHORT_MAX), Ok([1, 1, 2, 254]));
    assert_eq!(encode_number(THREE_MAX - 1), Ok([253, 253, 253, 254]));
    assert_eq!(encode_number(THREE_MAX), Ok([1, 1, 1, 2]));
    assert_eq!(encode_number(INT_MAX), Ok([167, 181, 154, 133]));
}

#[test]
fn encode_number_refuses_a_negative_number() {
    assert_eq!(encode_number(-1), Err(EoWriterError::InvalidIntValue(-1)));
    assert_eq!(encode_number(i32::MIN), Err(EoWriterError::InvalidIntValue(i32::MIN as i64)));
}

#[test]
fn decode_number_of_four_bytes() {
    assert_eq!(decode_number(&[43, 254, 254, 254]), 42);
    assert_eq!(decode_number(&[28, 3, 254, 254]), 533);
    assert_eq!(decode_number(&[100, 225, 14, 254]), 888888);
    assert_eq!(decode_number(&[15, 189, 44, 2]), 18994242);
}

#[test]
fn decode_number_pads_what_is_missing() {
    assert_eq!(decode_number(&[]), 0);
    assert_eq!(decode_number(&[43]), 42);
    assert_eq!(decode_number(&[28, 3]), 533);
    assert_eq!(decode_number(&[100, 225, 14]), 888888);
}

#[test]
fn decode_number_reads_four_bytes_only() {
    assert_eq!(decode_number(&[15, 189, 44, 2, 77, 78]), 18994242);
}

#[test]
fn decode_number_takes_zero_for_the_zero_byte() {
    assert_eq!(decode_number(&[0, 0, 0, 0]), 0);
    assert_eq!(decode_number(&[0, 3, 0, 254]), 2 * 253);
    assert_eq!(decode_number(&[254, 254, 254, 254]), 0);
}

#[test]
fn decode_number_of_the_byte_255() {
    assert_eq!(decode_number(&[255]), 254);
    assert_eq!(decode_number(&[255, 255]), 254 * 253 + 254);
}

#[test]
fn decode_number_cuts_to_32_bits() {
    // 132 * THREE_MAX + 252 * SHORT_MAX + 252 * CHAR_MAX + 252 is above
    // i32::MAX by some: the digits of i32::MAX are 132, 153, 180, 166.
    let value: i64 = 132 * 16194277 + 252 * 64009 + 252 * 253 + 252;
    assert!(value > i32::MAX as i64);
    assert_eq!(decode_number(&[253, 253, 253, 133]) as i64, value - (1i64 << 32));
    let greatest: i64 = 254 * (16194277 + 64009 + 253 + 1);
    assert_eq!(decode_number(&[255, 255, 255, 255]) as i64, greatest - (1i64 << 32));
}

#[test]
fn decode_number_inverts_encode_number() {
    let mut samples: Vec<i32> = vec![
        0,
        1,
        CHAR_MAX - 1,
        CHAR_MAX,
        CHAR_MAX + 1,
        SHORT_MAX - 1,
        SHORT_MAX,
        SHORT_MAX + 1,
        THREE_MAX - 1,
        THREE_MAX,
        THREE_MAX + 1,
        INT_MAX - 1,
        INT_MAX,
    ];
    let mut value: i32 = 7;
    while value < INT_MAX / 3 {
        samples.push(value);
        value = value * 3 + 1;
    }
    for number in samples {
        let bytes = encode_number(number).unwrap();
        assert_eq!(decode_number(&bytes), number);
    }
}

#[test]
fn decode_number_inverts_a_narrow_encoding() {
    for number in 0..CHAR_MAX {
        let bytes = encode_number(number).unwrap();
        assert_eq!(decode_number(&bytes[..1]), number);
    }
    for number in [0, 1, CHAR_MAX - 1, CHAR_MAX, 533, SHORT_MAX - 1] {
        let bytes = encode_number(number).unwrap();
        assert_eq!(decode_number(&bytes[..2]), number);
    }
    for number in [0, CHAR_MAX, SHORT_MAX - 1, SHORT_MAX, 888888, THREE_MAX - 1] {
        let bytes = encode_number(number).unwrap();
        assert_eq!(decode_number(&bytes[..3]), number);
    }
}

#[test]
fn a_narrow_encoding_loses_the_maximum_of_its_width() {
    assert_eq!(decode_number(&encode_number(CHAR_MAX).unwrap()[..1]), 0);
    assert_eq!(decode_number(&encode_number(SHORT_MAX).unwrap()[..2]), 0);
    assert_eq!(decode_number(&encode_number(THREE_MAX).unwrap()[..3]), 0);
}

#[test]
fn encode_string_of_void() {
    let mut buf = b"Void".to_vec();
    encode_string(&mut buf);
    assert_eq!(buf, [0x69, 0x36, 0x5E, 0x49]);
}

#[test]
fn decode_string_of_void() {
    let mut buf = [0x69, 0x36, 0x5E, 0x49];
    decode_string(&mut buf);
    assert_eq!(&buf, b"Void");
}

#[test]
fn decode_string_inverts_encode_string() {
    let mut buf = b"Void".to_vec();
    encode_string(&mut buf);
    decode_string(&mut buf);
    assert_eq!(buf, b"Void");
}

#[test]
fn string_cipher_of_an_odd_length() {
    // Of five bytes the second and the fourth stand at wide places.
    let mut buf = b"Hello".to_vec();
    encode_string(&mut buf);
    assert_eq!(buf, [205 - b'o', 159 - b'l', 205 - b'l', 159 - b'e', 113 - b'H']);
    decode_string(&mut buf);
    assert_eq!(buf, b"Hello");
}

#[test]
fn string_cipher_leaves_bytes_out_of_its_range() {
    let mut buf = [0, 33, 126, 255, 10];
    encode_string(&mut buf);
    assert_eq!(buf, [10, 255, 126, 33, 0]);
    decode_string(&mut buf);
    assert_eq!(buf, [0, 33, 126, 255, 10]);
}

#[test]
fn string_cipher_at_the_ends_of_its_ranges() {
    // Of four bytes the first and the third stand at wide places.
    let mut buf = [34, 34, 125, 125];
    encode_string(&mut buf);
    assert_eq!(buf, [80, 34, 79, 125]);
    let mut buf = [79, 79, 80, 80];
    encode_string(&mut buf);
    assert_eq!(buf, [125, 79, 34, 80]);
}

#[test]
fn string_cipher_of_nothing_and_of_one_byte() {
    let mut buf: [u8; 0] = [];
    encode_string(&mut buf);
    decode_string(&mut buf);
    assert_eq!(buf, []);
    let mut buf = [b'A'];
    encode_string(&mut buf);
    assert_eq!(buf, [113 - b'A']);
    decode_string(&mut buf);
    assert_eq!(buf, [b'A']);
}

#[test]
fn string_cipher_inverts_on_every_byte() {
    for len in 0..6usize {
        for first in 0..=255u8 {
            let plain: Vec<u8> = (0..len).map(|i| first.wrapping_add((i * 37) as u8)).collect();
            let mut buf = plain.clone();
            encode_string(&mut buf);
            decode_string(&mut buf);
            assert_eq!(buf, plain);
            decode_string(&mut buf);
            encode_string(&mut buf);
            assert_eq!(buf, plain);
        }
    }
}

use eolib::data::{EoWriter, EoWriterError, CHAR_MAX, SHORT_MAX, THREE_MAX};

#[test]
fn with_capacity() {
    let writer = EoWriter::with_capacity(10);
    assert_eq!(writer.capacity(), 10);
}

#[test]
fn add_byte() {
    let mut writer = EoWriter::with_capacity(1);
    writer.add_byte(1);
    assert_eq!(&writer.to_byte_array()[..], [1]);
}

#[test]
fn add_char() {
    let mut writer = EoWriter::with_capacity(1);
    writer.add_char(1).unwrap();
    assert_eq!(&writer.to_byte_array()[..], [2]);
}

#[test]
fn add_short() {
    let mut writer = EoWriter::with_capacity(2);
    writer.add_short(1).unwrap();
    assert_eq!(&writer.to_byte_array()[..], [2, 0xfe]);
}

#[test]
fn add_three() {
    let mut writer = EoWriter::with_capacity(3);
    writer.add_three(1).unwrap();
    assert_eq!(&writer.to_byte_array()[..], [2, 0xfe, 0xfe]);
}

#[test]
fn add_int() {
    let mut writer = EoWriter::with_capacity(4);
    writer.add_int(1).unwrap();
    assert_eq!(&writer.to_byte_array()[..], [2, 0xfe, 0xfe, 0xfe]);
}

#[test]
fn add_negative_char() {
    let mut writer = EoWriter::with_capacity(1);
    let result = writer.add_char(-1).unwrap_err();
    assert_eq!(result, EoWriterError::InvalidCharValue(-1));
}

#[test]
fn add_negative_short() {
    let mut writer = EoWriter::with_capacity(2);
    let result = writer.add_short(-1).unwrap_err();
    assert_eq!(result, EoWriterError::InvalidShortValue(-1));
}

#[test]
fn add_negative_three() {
    let mut writer = EoWriter::with_capacity(3);
    let result = writer.add_three(-1).unwrap_err();
    assert_eq!(result, EoWriterError::InvalidThreeValue(-1));
}

// What a writer should do with a negative int is not settled among the
// implementations of the protocol: some take it for a magnitude above
// `i32::MAX` and refuse only what four bytes cannot hold. This writer takes
// the strict side and refuses every negative int, with the value as it was
// given.
#[test]
fn add_negative_int() {
    let mut writer = EoWriter::with_capacity(4);
    let result = writer.add_int(-1);
    assert_eq!(result, Err(EoWriterError::InvalidIntValue(-1)));
    assert_eq!(writer.len(), 0);
}

#[test]
fn add_large_char() {
    let mut writer = EoWriter::with_capacity(1);
    let result = writer.add_char(CHAR_MAX + 1).unwrap_err();
    assert_eq!(result, EoWriterError::InvalidCharValue(CHAR_MAX + 1));
}

#[test]
fn add_large_short() {
    let mut writer = EoWriter::with_capacity(2);
    let result = writer.add_short(SHORT_MAX + 1).unwrap_err();
    assert_eq!(result, EoWriterError::InvalidShortValue(SHORT_MAX + 1));
}

#[test]
fn add_large_three() {
    let mut writer = EoWriter::with_capacity(3);
    let result = writer.add_three(THREE_MAX + 1).unwrap_err();
    assert_eq!(result, EoWriterError::InvalidThreeValue(THREE_MAX + 1));
}

// See `add_negative_int`: on the lenient side this value would be refused
// as the magnitude `i32::MAX * 2`; on the strict side it is refused as
// what it is.
#[test]
fn add_large_int() {
    let mut writer = EoWriter::with_capacity(4);
    let result = writer.add_int(-i32::MAX).unwrap_err();
    assert_eq!(result, EoWriterError::InvalidIntValue(-(i32::MAX as i64)));
}

#[test]
fn new_writer_is_empty() {
    let writer = EoWriter::new();
    assert_eq!(writer.len(), 0);
    assert!(!writer.get_string_sanitization_mode());
    assert!(writer.to_byte_array().is_empty());
    let writer = EoWriter::default();
    assert_eq!(writer.len(), 0);
    assert!(!writer.get_string_sanitization_mode());
}

#[test]
fn capacity_is_no_less_than_length() {
    let mut writer = EoWriter::with_capacity(2);
    writer.add_bytes(&[1, 2, 3, 4, 5]);
    assert_eq!(writer.len(), 5);
    assert!(writer.capacity() >= 5);
}

#[test]
fn writes_follow_each_other() {
    let mut writer = EoWriter::new();
    writer.add_byte(1);
    writer.add_char(42).unwrap();
    writer.add_short(10).unwrap();
    assert_eq!(writer.len(), 4);
    assert_eq!(&writer.to_byte_array()[..], [1, 43, 11, 254]);
}

#[test]
fn add_bytes_appends_in_order() {
    let mut writer = EoWriter::new();
    writer.add_bytes(&[9, 8]);
    writer.add_bytes(&[]);
    writer.add_bytes(&[7, 0, 255]);
    assert_eq!(&writer.to_byte_array()[..], [9, 8, 7, 0, 255]);
}

#[test]
fn add_char_at_its_bounds() {
    let mut writer = EoWriter::new();
    writer.add_char(0).unwrap();
    writer.add_char(CHAR_MAX - 1).unwrap();
    writer.add_char(CHAR_MAX).unwrap();
    assert_eq!(&writer.to_byte_array()[..], [1, 253, 1]);
}

#[test]
fn add_short_at_its_bounds() {
    let mut writer = EoWriter::new();
    writer.add_short(0).unwrap();
    writer.add_short(CHAR_MAX).unwrap();
    writer.add_short(SHORT_MAX - 1).unwrap();
    writer.add_short(SHORT_MAX).unwrap();
    assert_eq!(&writer.to_byte_array()[..], [1, 254, 1, 2, 253, 253, 1, 1]);
}

#[test]
fn add_three_at_its_bounds() {
    let mut writer = EoWriter::new();
    writer.add_three(0).unwrap();
    writer.add_three(888888).unwrap();
    writer.add_three(THREE_MAX - 1).unwrap();
    writer.add_three(THREE_MAX).unwrap();
    assert_eq!(
        &writer.to_byte_array()[..],
        [1, 254, 254, 100, 225, 14, 253, 253, 253, 1, 1, 1]
    );
}

#[test]
fn add_int_at_its_bounds() {
    let mut writer = EoWriter::new();
    writer.add_int(0).unwrap();
    writer.add_int(18994242).unwrap();
    writer.add_int(i32::MAX).unwrap();
    assert_eq!(
        &writer.to_byte_array()[..],
        [1, 254, 254, 254, 15, 189, 44, 2, 167, 181, 154, 133]
    );
    let mut writer = EoWriter::new();
    assert_eq!(writer.add_int(i32::MIN), Err(EoWriterError::InvalidIntValue(i32::MIN as i64)));
}

#[test]
fn a_refused_value_writes_nothing() {
    let mut writer = EoWriter::new();
    writer.add_byte(7);
    assert!(writer.add_char(-1).is_err());
    assert!(writer.add_short(SHORT_MAX + 1).is_err());
    assert!(writer.add_three(-5).is_err());
    assert!(writer.add_int(-1).is_err());
    assert_eq!(&writer.to_byte_array()[..], [7]);
}

#[test]
fn add_string_writes_the_code_page() {
    let mut writer = EoWriter::new();
    writer.add_string("Hello");
    writer.add_string("");
    writer.add_string("\u{20ac}\u{e9}\u{ff}");
    assert_eq!(&writer.to_byte_array()[..], [72, 101, 108, 108, 111, 0x80, 0xe9, 0xff]);
}

#[test]
fn add_string_writes_a_reference_for_what_the_code_page_lacks() {
    let mut writer = EoWriter::new();
    writer.add_string("a\u{100}b");
    assert_eq!(&writer.to_byte_array()[..], b"a&#256;b");
}

#[test]
fn sanitization_mode_replaces_the_break_character() {
    let mut writer = EoWriter::new();
    assert!(!writer.get_string_sanitization_mode());
    writer.set_string_sanitization_mode(true);
    assert!(writer.get_string_sanitization_mode());
    writer.add_string("a\u{ff}b\u{ff}");
    writer.add_byte(0xff);
    writer.set_string_sanitization_mode(false);
    assert!(!writer.get_string_sanitization_mode());
    writer.add_string("\u{ff}");
    assert_eq!(&writer.to_byte_array()[..], [b'a', b'y', b'b', b'y', 0xff, 0xff]);
}

#[test]
fn sanitization_mode_leaves_other_characters() {
    let mut writer = EoWriter::new();
    writer.set_string_sanitization_mode(true);
    writer.add_string("y\u{fe}\u{20ac} z");
    assert_eq!(&writer.to_byte_array()[..], [b'y', 0xfe, 0x80, b' ', b'z']);
}

#[test]
fn add_encoded_string_writes_the_cipher_text() {
    let mut writer = EoWriter::new();
    writer.add_encoded_string("Void");
    assert_eq!(&writer.to_byte_array()[..], [0x69, 0x36, 0x5e, 0x49]);
}

#[test]
fn add_encoded_string_sanitizes_before_it_encodes() {
    let mut writer = EoWriter::new();
    writer.set_string_sanitization_mode(true);
    writer.add_encoded_string("\u{ff}o");
    let mut expected = [b'y', b'o'];
    eolib::data::encode_string(&mut expected);
    assert_eq!(&writer.to_byte_array()[..], expected);
}

#[test]
fn try_add_string_adds_what_fits() {
    let mut writer = EoWriter::new();
    writer.add_byte(1);
    assert!(writer.try_add_string("Hello"));
    assert!(writer.try_add_encoded_string("Void"));
    assert_eq!(
        &writer.to_byte_array()[..],
        [1, 72, 101, 108, 108, 111, 0x69, 0x36, 0x5e, 0x49]
    );
}

#[test]
fn try_add_string_sanitizes_as_add_string_does() {
    let mut writer = EoWriter::new();
    writer.set_string_sanitization_mode(true);
    assert!(writer.try_add_string("\u{ff}"));
    assert_eq!(&writer.to_byte_array()[..], [b'y']);
}

#[test]
fn writer_errors_from_a_string() {
    assert_eq!(
        EoWriterError::from(String::from("full")),
        EoWriterError::Other(String::from("full"))
    );
}

use pidgeon::encoding::big_endian;
use pidgeon::encoding::{
    decode_numeric_bytes, decode_string_bytes, encode_numeric_bytes, encode_string_bytes,
    parse_numeric_bytes, parse_string_bytes,
};

#[test]
fn numeric_bytes_put_the_last_register_first() {
    assert_eq!(decode_numeric_bytes(&[0x1234, 0x5678]), vec![0x78, 0x56, 0x34, 0x12]);
}

#[test]
fn numeric_bytes_of_unset_registers_are_zero() {
    assert_eq!(decode_numeric_bytes(&[0xFFFF, 0xFFFF]), vec![0, 0, 0, 0]);
}

#[test]
fn numeric_bytes_of_partly_unset_registers_are_kept() {
    assert_eq!(decode_numeric_bytes(&[0xFFFF, 0x0001]), vec![0x01, 0x00, 0xFF, 0xFF]);
}

#[test]
fn numeric_bytes_of_nothing_are_empty() {
    assert_eq!(decode_numeric_bytes(&[]), Vec::<u8>::new());
}

#[test]
fn parsed_numeric_bytes_keep_unset_registers() {
    assert_eq!(parse_numeric_bytes(&[0xFFFF]), vec![0xFF, 0xFF]);
    assert_eq!(parse_numeric_bytes(&[0x0102, 0x0304]), vec![0x04, 0x03, 0x02, 0x01]);
}

#[test]
fn string_bytes_put_the_high_byte_first() {
    assert_eq!(decode_string_bytes(&[0x4142, 0x4300]), vec![0x41, 0x42, 0x43, 0x00]);
    assert_eq!(parse_string_bytes(&[0x6869]), b"hi".to_vec());
}

#[test]
fn numeric_words_swap_the_bytes_of_a_value() {
    // The native (little-endian) bytes of 0x1234 are written as 0x3412.
    assert_eq!(encode_numeric_bytes(&[0x34, 0x12]), vec![0x3412]);
    assert_eq!(encode_numeric_bytes(&[0x01, 0x02, 0x03, 0x04]), vec![0x0304, 0x0102]);
}

#[test]
fn numeric_words_pad_an_odd_byte_with_zero() {
    assert_eq!(encode_numeric_bytes(&[0xAB]), vec![0x00AB]);
}

#[test]
fn string_words_take_two_characters_each() {
    assert_eq!(encode_string_bytes(b"ABC"), vec![0x4142, 0x4300]);
    assert_eq!(encode_string_bytes(b""), Vec::<u16>::new());
}

#[test]
fn string_registers_round_trip() {
    let words = vec![0x7069, 0x6467, 0x656f];
    let bytes = decode_string_bytes(&words);
    assert_eq!(encode_string_bytes(&bytes), words);
}

#[test]
fn string_bytes_round_trip_for_even_lengths() {
    let bytes = b"pidgeon!".to_vec();
    let words = encode_string_bytes(&bytes);
    assert_eq!(decode_string_bytes(&words), bytes);
}

#[test]
fn big_endian_layouts() {
    assert_eq!(big_endian::decode_numeric_bytes(&[0x1234, 0x5678]), vec![0x34, 0x12, 0x78, 0x56]);
    assert_eq!(big_endian::decode_numeric_bytes(&[0xFFFF]), vec![0, 0]);
    assert_eq!(big_endian::decode_string_bytes(&[0x4142]), vec![0x42, 0x41]);
}

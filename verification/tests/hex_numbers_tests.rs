use velocity_engine::hex::{decode_hex, decode_hex_nibble, hex_encode};
use velocity_engine::numbers::{parse_i64, parse_usize};

#[test]
fn hex_encodes_lower_case_two_digits_per_byte() {
    assert_eq!(hex_encode(&[0x00, 0x0f, 0xab, 0xff]), "000fabff");
    assert_eq!(hex_encode(&[]), "");
}

#[test]
fn hex_round_trip_on_concrete_bytes() {
    let bytes = vec![1u8, 35, 69, 103, 137, 171, 205, 239];
    let text = hex_encode(&bytes);
    assert_eq!(decode_hex(&text), Ok(bytes));
}

#[test]
fn hex_decoding_accepts_either_case_and_refuses_bad_text() {
    assert_eq!(decode_hex("0AfF"), Ok(vec![0x0a, 0xff]));
    assert_eq!(decode_hex("abc"), Err("invalid signature format"));
    assert_eq!(decode_hex("zz"), Err("invalid signature format"));
    assert_eq!(decode_hex_nibble(b'g'), None);
    assert_eq!(decode_hex_nibble(b'F'), Some(15));
}

#[test]
fn integers_parse_like_std() {
    assert_eq!(parse_i64("-42"), Some(-42));
    assert_eq!(parse_i64("+7"), Some(7));
    assert_eq!(parse_i64("9223372036854775807"), Some(i64::MAX));
    assert_eq!(parse_i64("-9223372036854775808"), Some(i64::MIN));
    assert_eq!(parse_i64("9223372036854775808"), None);
    assert_eq!(parse_i64(" 1"), None);
    assert_eq!(parse_i64("-"), None);
    assert_eq!(parse_usize("0123"), Some(123));
    assert_eq!(parse_usize("-1"), None);
    assert_eq!(parse_usize(""), None);
}

use workingdb::util::text::{
    format_u64, parse_i64, parse_u32, parse_u64, parse_usize, push_decimal, push_latin1,
    push_signed_decimal, to_ascii_lowercase, to_ascii_uppercase,
};

#[test]
fn numbers_are_written_in_decimal() {
    assert_eq!(format_u64(0), b"0".to_vec());
    assert_eq!(format_u64(7), b"7".to_vec());
    assert_eq!(format_u64(10), b"10".to_vec());
    assert_eq!(format_u64(1_234_567_890), b"1234567890".to_vec());
    assert_eq!(format_u64(u64::MAX), b"18446744073709551615".to_vec());
    let mut out = b"n=".to_vec();
    push_decimal(&mut out, 42);
    assert_eq!(out, b"n=42".to_vec());
}

#[test]
fn signed_numbers_are_written_with_their_sign() {
    for (n, text) in [
        (0i64, "0"),
        (1, "1"),
        (-1, "-1"),
        (-10, "-10"),
        (i64::MAX, "9223372036854775807"),
        (i64::MIN, "-9223372036854775808"),
    ] {
        let mut out = Vec::new();
        push_signed_decimal(&mut out, n);
        assert_eq!(out, text.as_bytes().to_vec());
        assert_eq!(out, n.to_string().into_bytes());
    }
}

#[test]
fn unsigned_numbers_are_read_as_the_standard_library_reads_them() {
    for text in [
        "0", "7", "007", "+5", "+", "", "-0", "-1", " 1", "1 ", "12a", "a", "++1",
        "18446744073709551615", "18446744073709551616", "99999999999999999999999",
        "4294967295", "4294967296", "1_000", "0x10", "٣",
    ] {
        assert_eq!(parse_u64(text.as_bytes()), text.parse::<u64>().ok(), "{:?}", text);
        assert_eq!(parse_u32(text.as_bytes()), text.parse::<u32>().ok(), "{:?}", text);
        assert_eq!(parse_usize(text.as_bytes()), text.parse::<usize>().ok(), "{:?}", text);
    }
    assert_eq!(parse_u64(b"18446744073709551615"), Some(u64::MAX));
    assert_eq!(parse_u64(b"18446744073709551616"), None);
    assert_eq!(parse_u32(b"4294967295"), Some(u32::MAX));
    assert_eq!(parse_u32(b"4294967296"), None);
    assert_eq!(parse_u64(b"+5"), Some(5));
    assert_eq!(parse_u64(b""), None);
    assert_eq!(parse_u64(&[0xff]), None);
}

#[test]
fn signed_numbers_are_read_as_the_standard_library_reads_them() {
    for text in [
        "0", "-0", "+0", "5", "-5", "+5", "-", "+", "", "--5", "+-5", "5-", " 5",
        "9223372036854775807", "9223372036854775808", "-9223372036854775808",
        "-9223372036854775809", "18446744073709551616", "-18446744073709551616", "1e3",
    ] {
        assert_eq!(parse_i64(text.as_bytes()), text.parse::<i64>().ok(), "{:?}", text);
    }
    assert_eq!(parse_i64(b"-9223372036854775808"), Some(i64::MIN));
    assert_eq!(parse_i64(b"9223372036854775807"), Some(i64::MAX));
    assert_eq!(parse_i64(b"9223372036854775808"), None);
    assert_eq!(parse_i64(b"-1"), Some(-1));
}

#[test]
fn letters_change_case_and_nothing_else_does() {
    assert_eq!(to_ascii_uppercase(b"get Key_1 {z}"), b"GET KEY_1 {Z}".to_vec());
    assert_eq!(to_ascii_lowercase(b"GET Key_1 [Z]"), b"get key_1 [z]".to_vec());
    let all: Vec<u8> = (0..=255).collect();
    assert_eq!(to_ascii_uppercase(&all), all.to_ascii_uppercase());
    assert_eq!(to_ascii_lowercase(&all), all.to_ascii_lowercase());
}

#[test]
fn a_byte_is_written_as_the_character_of_its_code() {
    for byte in 0..=255u8 {
        let mut out = Vec::new();
        push_latin1(&mut out, byte);
        assert_eq!(out, (byte as char).to_string().into_bytes());
    }
}

use goldsrc_assets::bytes::{
    bincode_bool_at, bincode_i16_at, bincode_i32_at, bincode_u16_at, bincode_u32_at, byte_array_16,
    byteorder_u16_at, byteorder_u32_at, le_i16, le_i32, le_u16, le_u32,
};
use goldsrc_assets::text::{
    decimal, lossy_name, null_terminated_bytes_to_str, signed_decimal, str_eq, substr, trim_end,
    trim_nul, trim_start, utf8_name,
};

#[test]
fn bincode_reads_little_endian_values() {
    let data = [0x34u8, 0x12, 0xff, 0xff, 0x78, 0x56, 0x34, 0x12, 1, 0, 2];
    assert_eq!(bincode_u16_at(&data, 0), Some(0x1234));
    assert_eq!(bincode_i16_at(&data, 2), Some(-1));
    assert_eq!(bincode_u32_at(&data, 4), Some(0x1234_5678));
    assert_eq!(bincode_i32_at(&data, 0), Some(-0xedcc));
    assert_eq!(bincode_bool_at(&data, 8), Some(true));
    assert_eq!(bincode_bool_at(&data, 9), Some(false));
}

#[test]
fn bincode_reports_short_input_and_bad_bools() {
    let data = [1u8, 2, 3];
    assert_eq!(bincode_u16_at(&data, 2), None);
    assert_eq!(bincode_u32_at(&data, 0), None);
    assert_eq!(bincode_i32_at(&data, 5), None);
    assert_eq!(bincode_bool_at(&data, 3), None);
    assert_eq!(bincode_bool_at(&[2u8], 0), None);
}

#[test]
fn byteorder_and_plain_reads_agree() {
    let data = [0xcdu8, 0xab, 0x01, 0x00, 0x00, 0x80];
    assert_eq!(byteorder_u16_at(&data, 0), 0xabcd);
    assert_eq!(le_u16(&data, 0), 0xabcd);
    assert_eq!(le_i16(&data, 0), 0xabcdu16 as i16);
    assert_eq!(byteorder_u32_at(&data, 2), 0x8000_0001);
    assert_eq!(le_u32(&data, 2), 0x8000_0001);
    assert_eq!(le_i32(&data, 2), i32::MIN + 1);
}

#[test]
fn byte_array_16_copies_a_window() {
    let data: Vec<u8> = (0u8..20).collect();
    let a = byte_array_16(&data, 3);
    assert_eq!(a[0], 3);
    assert_eq!(a[15], 18);
}

#[test]
fn null_terminated_text_stops_at_first_zero() {
    assert_eq!(null_terminated_bytes_to_str(b"abc\0def").unwrap(), "abc");
    assert_eq!(null_terminated_bytes_to_str(b"whole").unwrap(), "whole");
    assert_eq!(null_terminated_bytes_to_str(b"\0x").unwrap(), "");
}

#[test]
fn null_terminated_text_reports_invalid_utf8() {
    let err = null_terminated_bytes_to_str(&[b'a', 0xff, b'b', 0, b'c']).unwrap_err();
    assert_eq!(err.end, 3);
    assert_eq!(err.str_error.valid_up_to(), 1);
}

#[test]
fn invalid_text_reports_its_end_and_longest_valid_prefix() {
    let result = null_terminated_bytes_to_str(&[0x61, 0xff, 0x00, 0x62]);
    assert!(result.is_err());
    let err = result.unwrap_err();
    assert_eq!(err.end, 2);
    assert_eq!(err.str_error.valid_up_to(), 1);
}

#[test]
fn decimals_are_written_in_base_ten() {
    assert_eq!(decimal(0), "0");
    assert_eq!(decimal(1234567890), "1234567890");
    assert_eq!(decimal(u64::MAX), "18446744073709551615");
    assert_eq!(signed_decimal(-42), "-42");
    assert_eq!(signed_decimal(7), "7");
    assert_eq!(signed_decimal(i64::MIN), "-9223372036854775808");
}

#[test]
fn string_helpers() {
    assert!(str_eq("wad", "wad"));
    assert!(!str_eq("wad", "wa"));
    let b = b"  ab  ";
    assert_eq!(trim_start(b, 0, 6, b' '), 2);
    assert_eq!(trim_end(b, 0, 6, b' '), 4);
    assert_eq!(trim_start(b, 0, 0, b' '), 0);
    assert_eq!(substr("hello", 1, 4), "ell");
    assert_eq!(trim_nul("name\0\0\0"), "name");
    assert_eq!(trim_nul("a\0b\0"), "a\0b");
    assert_eq!(trim_nul("\0\0ab\0"), "ab");
}

#[test]
fn names_drop_trailing_zeros() {
    let mut raw = [0u8; 8];
    raw[..3].copy_from_slice(b"rat");
    assert_eq!(lossy_name(&raw), "rat");
    assert_eq!(utf8_name(&raw), Some("rat".to_string()));
    let bad = [b'x', 0xff, 0, 0];
    assert_eq!(utf8_name(&bad), None);
    assert_eq!(lossy_name(&bad), "x\u{fffd}");
}

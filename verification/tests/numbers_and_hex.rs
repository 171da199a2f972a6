use btc_indexer::hexcodec::reverse_bytes;
use btc_indexer::numparse::{parse_bool, parse_i32, parse_u16, parse_u32};

#[test]
fn parse_u32_reads_plain_decimal() {
    assert_eq!(parse_u32("850000"), Some(850000));
    assert_eq!(parse_u32("0"), Some(0));
    assert_eq!(parse_u32("+17"), Some(17));
    assert_eq!(parse_u32("4294967295"), Some(u32::MAX));
}

#[test]
fn parse_u32_refuses_what_str_parse_refuses() {
    for text in ["", "+", "-1", "4294967296", "12a", " 1", "1 ", "١"] {
        assert_eq!(parse_u32(text), text.parse::<u32>().ok(), "{text:?}");
    }
    assert_eq!(parse_u32("99999999999999999999"), None);
}

#[test]
fn parse_u16_bounds() {
    assert_eq!(parse_u16("65535"), Some(65535));
    assert_eq!(parse_u16("65536"), None);
    assert_eq!(parse_u16("8080"), Some(8080));
}

#[test]
fn parse_i32_handles_signs_and_bounds() {
    assert_eq!(parse_i32("-2147483648"), Some(i32::MIN));
    assert_eq!(parse_i32("2147483647"), Some(i32::MAX));
    assert_eq!(parse_i32("2147483648"), None);
    assert_eq!(parse_i32("-2147483649"), None);
    assert_eq!(parse_i32("-"), None);
    assert_eq!(parse_i32("-+3"), None);
    assert_eq!(parse_i32("+42"), Some(42));
    assert_eq!(parse_i32("-0"), Some(0));
    for text in ["7", "-7", "x", "", "+-1", "00012"] {
        assert_eq!(parse_i32(text), text.parse::<i32>().ok(), "{text:?}");
    }
}

#[test]
fn parse_bool_is_exact() {
    assert_eq!(parse_bool("true"), Some(true));
    assert_eq!(parse_bool("false"), Some(false));
    assert_eq!(parse_bool("False"), None);
    assert_eq!(parse_bool("1"), None);
}

#[test]
fn reverse_bytes_reads_back_to_front() {
    assert_eq!(reverse_bytes(&vec![1, 2, 3]), vec![3, 2, 1]);
    assert_eq!(reverse_bytes(&vec![]), Vec::<u8>::new());
}

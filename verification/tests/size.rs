use bandcamper::decimal::{decimal_string, digit_of, parse_unsigned};
use bandcamper::size::{parse_size, size_from_parts, SizeError};

#[test]
fn test_deserialize_megabytes() {
    let tokens = vec![
        (1181116006u64, "1.1GB"),
        (1179648000, "1125MB"),
        (11808768, "11532kb"),
        (11809382, "11532.6K"),
    ];
    for (size, token) in tokens.into_iter() {
        assert_eq!(parse_size(token), Ok(size));
    }
}

#[test]
fn size_units_are_binary_multiples() {
    assert_eq!(parse_size("1K"), Ok(1024));
    assert_eq!(parse_size("1k"), Ok(1024));
    assert_eq!(parse_size("1M"), Ok(1024 * 1024));
    assert_eq!(parse_size("1m"), Ok(1024 * 1024));
    assert_eq!(parse_size("1G"), Ok(1024 * 1024 * 1024));
    assert_eq!(parse_size("1g"), Ok(1024 * 1024 * 1024));
    assert_eq!(parse_size("0K"), Ok(0));
}

#[test]
fn size_byte_mark_is_optional() {
    assert_eq!(parse_size("2KB"), Ok(2048));
    assert_eq!(parse_size("2Kb"), Ok(2048));
    assert_eq!(parse_size("2K"), Ok(2048));
}

#[test]
fn size_is_rounded_down() {
    assert_eq!(parse_size("0.9K"), Ok(921));
    assert_eq!(parse_size("0.0009K"), Ok(0));
    assert_eq!(parse_size("1.5K"), Ok(1536));
    assert_eq!(parse_size("0.001M"), Ok(1048));
    assert_eq!(parse_size("2.0000000000000000000000000000000000001G"), Ok(2147483648));
    assert_eq!(parse_size("0.99999999999999999999999999999999999999K"), Ok(1023));
}

#[test]
fn size_point_may_lead_or_trail() {
    assert_eq!(parse_size("5.K"), Ok(5120));
    assert_eq!(parse_size(".5K"), Ok(512));
    assert_eq!(parse_size("007M"), Ok(7 * 1024 * 1024));
}

#[test]
fn size_of_another_shape_is_refused() {
    assert_eq!(parse_size(""), Err(SizeError::Shape));
    assert_eq!(parse_size("12"), Err(SizeError::Shape));
    assert_eq!(parse_size("K"), Err(SizeError::Shape));
    assert_eq!(parse_size("12B"), Err(SizeError::Shape));
    assert_eq!(parse_size("12T"), Err(SizeError::Shape));
    assert_eq!(parse_size("12KBB"), Err(SizeError::Shape));
    assert_eq!(parse_size("12 K"), Err(SizeError::Shape));
    assert_eq!(parse_size(" 12K"), Err(SizeError::Shape));
    assert_eq!(parse_size("12K\n"), Err(SizeError::Shape));
    assert_eq!(parse_size("-1K"), Err(SizeError::Shape));
    assert_eq!(parse_size("1e3K"), Err(SizeError::Shape));
    assert_eq!(parse_size("1,5K"), Err(SizeError::Shape));
}

#[test]
fn size_with_a_bad_number_is_refused() {
    assert_eq!(parse_size(".K"), Err(SizeError::Number));
    assert_eq!(parse_size("1.2.3K"), Err(SizeError::Number));
    assert_eq!(parse_size("..M"), Err(SizeError::Number));
    assert_eq!(parse_size("1..G"), Err(SizeError::Number));
}

#[test]
fn size_from_parts_names_each_fault() {
    assert_eq!(size_from_parts("1.5", "K"), Ok(1536));
    assert_eq!(size_from_parts("", "K"), Err(SizeError::Number));
    assert_eq!(size_from_parts("1a", "K"), Err(SizeError::Number));
    assert_eq!(size_from_parts("1", "T"), Err(SizeError::Unit));
    assert_eq!(size_from_parts("1", ""), Err(SizeError::Unit));
    assert_eq!(size_from_parts("1", "KB"), Err(SizeError::Unit));
    assert_eq!(size_from_parts("x", "T"), Err(SizeError::Number));
}

#[test]
fn size_beyond_the_range_is_the_largest() {
    assert_eq!(parse_size("17179869183G"), Ok(17179869183 * 1024 * 1024 * 1024));
    assert_eq!(parse_size("17179869184G"), Ok(u64::MAX));
    assert_eq!(parse_size("99999999999999999999999999999999999999999999G"), Ok(u64::MAX));
    assert_eq!(parse_size("18014398509481983.999K"), Ok(u64::MAX - 1));
    assert_eq!(parse_size("18014398509481984K"), Ok(u64::MAX));
}

#[test]
fn decimal_writes_without_leading_zeros() {
    assert_eq!(decimal_string(0), "0");
    assert_eq!(decimal_string(7), "7");
    assert_eq!(decimal_string(10), "10");
    assert_eq!(decimal_string(1234567890), "1234567890");
    assert_eq!(decimal_string(u64::MAX), "18446744073709551615");
}

#[test]
fn digit_of_knows_the_ten_digits() {
    assert_eq!(digit_of('0'), Some(0));
    assert_eq!(digit_of('9'), Some(9));
    assert_eq!(digit_of('a'), None);
    assert_eq!(digit_of('.'), None);
    assert_eq!(digit_of('٣'), None);
}

#[test]
fn parse_unsigned_reads_digits() {
    assert_eq!(parse_unsigned(b"0"), Some(0));
    assert_eq!(parse_unsigned(b"123456"), Some(123456));
    assert_eq!(parse_unsigned(b"+42"), Some(42));
    assert_eq!(parse_unsigned(b"0042"), Some(42));
    assert_eq!(parse_unsigned(b"18446744073709551615"), Some(u64::MAX));
    assert_eq!(parse_unsigned(b"18446744073709551616"), None);
    assert_eq!(parse_unsigned(b"99999999999999999999999"), None);
    assert_eq!(parse_unsigned(b""), None);
    assert_eq!(parse_unsigned(b"+"), None);
    assert_eq!(parse_unsigned(b"-1"), None);
    assert_eq!(parse_unsigned(b"12a"), None);
    assert_eq!(parse_unsigned(b" 12"), None);
    assert_eq!(parse_unsigned(b"12 "), None);
    assert_eq!(parse_unsigned(b"1_000"), None);
    assert_eq!(parse_unsigned(b"++1"), None);
}

use sad_xml_sql::address::{address_to_id, convert_from_address_to_id};
use sad_xml_sql::text::{i32_to_decimal, parse_i32, parse_u64, str_equal, text_le_exec, u64_to_decimal};

#[test]
fn parse_u64_reads_decimal_numbers() {
    assert_eq!(parse_u64("42"), Some(42));
    assert_eq!(parse_u64("+7"), Some(7));
    assert_eq!(parse_u64("007"), Some(7));
    assert_eq!(parse_u64("18446744073709551615"), Some(u64::MAX));
}

#[test]
fn parse_u64_rejects_what_from_str_rejects() {
    assert_eq!(parse_u64(""), None);
    assert_eq!(parse_u64("+"), None);
    assert_eq!(parse_u64("12a"), None);
    assert_eq!(parse_u64("-1"), None);
    assert_eq!(parse_u64("18446744073709551616"), None);
}

#[test]
fn parse_u64_agrees_with_std() {
    for s in ["0", "1", "99", "+5", "", "x", "1 ", "4294967296", "99999999999999999999"] {
        assert_eq!(parse_u64(s), s.parse::<u64>().ok());
    }
}

#[test]
fn decimal_numerals_read_back() {
    for n in [0u64, 9, 10, 255, 256, 1234567890, u64::MAX] {
        let s = u64_to_decimal(n);
        assert_eq!(s, n.to_string());
        assert_eq!(parse_u64(&s), Some(n));
    }
}

#[test]
fn signed_numerals() {
    assert_eq!(i32_to_decimal(-5), "-5");
    assert_eq!(i32_to_decimal(0), "0");
    assert_eq!(i32_to_decimal(i32::MIN), i32::MIN.to_string());
    assert_eq!(parse_i32("-12"), Some(-12));
    assert_eq!(parse_i32("+3"), Some(3));
    assert_eq!(parse_i32("2147483648"), None);
    assert_eq!(parse_i32("-2147483648"), Some(i32::MIN));
}

#[test]
fn text_comparisons() {
    assert!(str_equal("abc", "abc"));
    assert!(!str_equal("abc", "abd"));
    assert!(text_le_exec("apple", "Banana", true));
    assert!(!text_le_exec("apple", "Banana", false));
    assert!(text_le_exec("abc", "abc", false));
}

#[test]
fn addresses_give_ids() {
    assert_eq!(address_to_id("1.2.3.4"), Some(16909060));
    assert_eq!(address_to_id("0.0.0.0"), Some(0));
    assert_eq!(address_to_id("0.0.1.0"), Some(256));
    assert_eq!(address_to_id("x.0.0.5"), Some(5));
    assert_eq!(address_to_id("1.2.3"), None);
    assert_eq!(address_to_id("1.2.3.4.5"), None);
    assert_eq!(address_to_id(""), None);
    assert_eq!(convert_from_address_to_id("0.0.2.1".to_string(), "test"), 513);
}

#[test]
fn address_ids_too_large_are_refused() {
    assert_eq!(address_to_id("18446744073709551615.0.0.0"), None);
    assert_eq!(address_to_id("0.0.0.18446744073709551615"), Some(u64::MAX));
}

#[test]
fn formatted_addresses_give_distinct_ids() {
    let mut seen = std::collections::HashSet::new();
    for (a, b, c, d) in [(0u64, 0u64, 0u64, 0u64), (255, 255, 255, 255), (1, 2, 3, 4), (4, 3, 2, 1), (0, 0, 1, 0), (0, 1, 0, 0)] {
        let id = convert_from_address_to_id(format!("{}.{}.{}.{}", a, b, c, d), "test");
        assert_eq!(id, a * 16777216 + b * 65536 + c * 256 + d);
        assert_eq!((id >> 24, (id >> 16) & 255, (id >> 8) & 255, id & 255), (a, b, c, d));
        assert!(seen.insert(id));
    }
}

use diskscry::presentation::locale::Locale;
use diskscry::presentation::smart_view::{format_decimal_count, format_hours, format_minutes};
use diskscry::text::{
    group_decimal, hex2_upper, parse_u128, trim_text, trimmed, u128_text, TrimSet,
};

#[test]
fn decimals_are_grouped_by_thousands() {
    assert_eq!(group_decimal(""), "");
    assert_eq!(group_decimal("7"), "7");
    assert_eq!(group_decimal("999"), "999");
    assert_eq!(group_decimal("1000"), "1,000");
    assert_eq!(group_decimal("1234567"), "1,234,567");
    assert_eq!(group_decimal("123456"), "123,456");
}

#[test]
fn decimal_parsing_matches_std() {
    assert_eq!(parse_u128("0"), Some(0));
    assert_eq!(parse_u128("+42"), Some(42));
    assert_eq!(parse_u128("007"), Some(7));
    assert_eq!(
        parse_u128("340282366920938463463374607431768211455"),
        Some(u128::MAX)
    );
    assert_eq!(parse_u128("340282366920938463463374607431768211456"), None);
    assert_eq!(parse_u128(""), None);
    assert_eq!(parse_u128("+"), None);
    assert_eq!(parse_u128("-1"), None);
    assert_eq!(parse_u128("1 "), None);
    for value in [0_u128, 9, 10, 65_535, u128::MAX] {
        assert_eq!(parse_u128(&u128_text(value)), Some(value));
        assert_eq!(u128_text(value), value.to_string());
    }
}

#[test]
fn hex_bytes_are_two_upper_digits() {
    assert_eq!(hex2_upper(0), "00");
    assert_eq!(hex2_upper(0x0e), "0E");
    assert_eq!(hex2_upper(0xff), "FF");
}

#[test]
fn trimming_removes_padding_and_whitespace() {
    assert_eq!(trim_text("  disk \t", TrimSet::Whitespace), "disk");
    assert_eq!(trim_text("\0 SERIAL \0", TrimSet::Padding), "SERIAL");
    assert_eq!(trimmed("\0\0  "), None);
    assert_eq!(trimmed(" x ").as_deref(), Some("x"));
}

#[test]
fn counters_render_with_units() {
    let en = Locale::En.messages();
    assert_eq!(format_hours("23", &en), "23 hours");
    assert_eq!(format_hours("1234", &en), "51 days / 1,234 hours");
    assert_eq!(format_hours("x", &en), en.not_available);
    assert_eq!(format_minutes("59", &en, "1.0"), "59 minutes");
    assert_eq!(format_minutes("90", &en, "1.5"), "1.5 hours / 90 minutes");
    assert_eq!(format_minutes("-1", &en, ""), en.not_available);
    assert_eq!(format_decimal_count("1234567", &en), "1,234,567");
    assert_eq!(format_decimal_count("", &en), en.not_available);
    assert_eq!(format_decimal_count("12a", &en), en.not_available);
}

use hcms_29xx::format::{
    format_decimal, format_i32, format_i64, format_int, format_u32, format_u64, format_uint,
    max_unsigned_64_for_chars, max_unsigned_for_chars,
};
use hcms_29xx::Decimal;

fn text(cells: Option<Vec<u8>>) -> Option<String> {
    cells.map(|c| String::from_utf8(c).unwrap())
}

#[test]
fn signed_boundary_on_four_cells() {
    assert_eq!(text(format_int(-999, 4)), Some("-999".to_string()));
    assert_eq!(format_int(-1000, 4), None);
    assert_eq!(text(format_int(999, 4)), Some(" 999".to_string()));
    assert_eq!(format_int(1000, 4), None);
}

#[test]
fn unsigned_boundary_on_four_cells() {
    assert_eq!(text(format_uint(9999, 4)), Some("9999".to_string()));
    assert_eq!(format_uint(10000, 4), None);
}

#[test]
fn zero_is_a_single_digit_without_sign() {
    assert_eq!(text(format_int(0, 4)), Some("   0".to_string()));
    assert_eq!(text(format_uint(0, 8)), Some("       0".to_string()));
    assert_eq!(text(format_i32(0, 1)), Some("0".to_string()));
}

#[test]
fn numbers_are_right_justified_with_blanks() {
    assert_eq!(text(format_i32(-42, 8)), Some("     -42".to_string()));
    assert_eq!(text(format_u32(1234, 8)), Some("    1234".to_string()));
}

#[test]
fn narrow_and_wide_paths_agree() {
    assert_eq!(format_int(-12345, 8), format_i64(-12345, 8));
    assert_eq!(format_int(-12345, 8), format_i32(-12345, 8));
    assert_eq!(format_uint(12345, 8), format_u64(12345, 8));
    assert_eq!(format_uint(12345, 8), format_u32(12345, 8));
}

#[test]
fn values_beyond_32_bits_do_not_fit_narrow_displays() {
    assert_eq!(format_int(3_000_000_000, 10), None);
    assert_eq!(format_int(-3_000_000_000, 10), None);
    assert_eq!(format_uint(5_000_000_000, 9), None);
    assert_eq!(text(format_uint(5_000_000_000, 10)), Some("5000000000".to_string()));
}

#[test]
fn wide_displays_take_64_bit_values() {
    assert_eq!(
        text(format_int(i64::MIN, 20)),
        Some("-9223372036854775808".to_string())
    );
    assert_eq!(format_int(i64::MIN, 19), None);
    assert_eq!(
        text(format_uint(u64::MAX, 20)),
        Some("18446744073709551615".to_string())
    );
    assert_eq!(format_uint(u64::MAX, 19), None);
    assert_eq!(text(format_i32(i32::MIN, 12)), Some(" -2147483648".to_string()));
    assert_eq!(text(format_i32(i32::MIN, 11)), Some("-2147483648".to_string()));
    assert_eq!(format_i32(i32::MIN, 10), None);
    assert_eq!(format_i32(i32::MAX, 10), None);
    assert_eq!(text(format_i32(i32::MAX, 11)), Some(" 2147483647".to_string()));
    assert_eq!(text(format_u32(u32::MAX, 10)), Some("4294967295".to_string()));
}

#[test]
fn no_cells_show_nothing() {
    assert_eq!(format_int(0, 0), None);
    assert_eq!(format_uint(0, 0), None);
}

#[test]
fn largest_values_for_a_width() {
    assert_eq!(max_unsigned_for_chars(0), 0);
    assert_eq!(max_unsigned_for_chars(4), 9999);
    assert_eq!(max_unsigned_for_chars(9), 999_999_999);
    assert_eq!(max_unsigned_for_chars(10), u32::MAX);
    assert_eq!(max_unsigned_64_for_chars(19), 9_999_999_999_999_999_999);
    assert_eq!(max_unsigned_64_for_chars(20), u64::MAX);
}

#[test]
fn round_trip_through_text() {
    for value in [-9_999_999i64, -1234, -1, 0, 7, 99, 100, 9_999_999] {
        let cells = format_int(value, 8).unwrap();
        let read: i64 = String::from_utf8(cells).unwrap().trim_start().parse().unwrap();
        assert_eq!(read, value);
    }
    for value in [0u64, 5, 10, 99_999_999] {
        let cells = format_uint(value, 8).unwrap();
        let read: u64 = String::from_utf8(cells).unwrap().trim_start().parse().unwrap();
        assert_eq!(read, value);
    }
}

#[test]
fn not_a_number_and_infinities() {
    for precision in [0u8, 1, 3, 200] {
        assert_eq!(
            text(format_decimal(Decimal::NotANumber, precision, 4)),
            Some(" NaN".to_string())
        );
        assert_eq!(
            text(format_decimal(Decimal::Infinite { negative: false }, precision, 4)),
            Some("+Inf".to_string())
        );
        assert_eq!(
            text(format_decimal(Decimal::Infinite { negative: true }, precision, 8)),
            Some("    -Inf".to_string())
        );
    }
    assert_eq!(format_decimal(Decimal::NotANumber, 0, 2), None);
    assert_eq!(format_decimal(Decimal::Infinite { negative: true }, 0, 3), None);
}

#[test]
fn fixed_point_text() {
    let v = Decimal::Finite { negative: false, scaled: 314 };
    assert_eq!(text(format_decimal(v, 2, 8)), Some("    3.14".to_string()));
    assert_eq!(text(format_decimal(v, 2, 4)), Some("3.14".to_string()));
    assert_eq!(format_decimal(v, 2, 3), None);
    let n = Decimal::Finite { negative: true, scaled: 5 };
    assert_eq!(text(format_decimal(n, 2, 8)), Some("   -0.05".to_string()));
    assert_eq!(text(format_decimal(n, 0, 4)), Some("  -5".to_string()));
    let z = Decimal::Finite { negative: false, scaled: 0 };
    assert_eq!(text(format_decimal(z, 0, 4)), Some("   0".to_string()));
    assert_eq!(text(format_decimal(z, 3, 8)), Some("   0.000".to_string()));
    let big = Decimal::Finite { negative: false, scaled: 4_294_967_295 };
    assert_eq!(text(format_decimal(big, 12, 16)), Some("  0.004294967295".to_string()));
    assert_eq!(format_decimal(big, 0, 9), None);
}

#[test]
fn readings_beyond_32_bits() {
    let ten_billion = Decimal::Finite { negative: false, scaled: 10_000_000_000 };
    assert_eq!(text(format_decimal(ten_billion, 0, 12)), Some(" 10000000000".to_string()));
    assert_eq!(text(format_decimal(ten_billion, 0, 11)), Some("10000000000".to_string()));
    assert_eq!(format_decimal(ten_billion, 0, 10), None);
    assert_eq!(text(format_decimal(ten_billion, 3, 12)), Some("10000000.000".to_string()));
    let negative = Decimal::Finite { negative: true, scaled: 10_000_000_000 };
    assert_eq!(text(format_decimal(negative, 0, 12)), Some("-10000000000".to_string()));
    assert_eq!(format_decimal(negative, 0, 11), None);
    let largest = Decimal::Finite { negative: false, scaled: u128::MAX };
    assert_eq!(
        text(format_decimal(largest, 0, 40)),
        Some(" 340282366920938463463374607431768211455".to_string())
    );
    assert_eq!(format_decimal(largest, 0, 38), None);
    assert_eq!(
        text(format_decimal(largest, 38, 40)),
        Some("3.40282366920938463463374607431768211455".to_string())
    );
}

#[test]
fn reading_that_is_too_large_is_never_shown() {
    for width in [0usize, 4, 40, 400] {
        for precision in [0u8, 2, 255] {
            assert_eq!(format_decimal(Decimal::TooLarge, precision, width), None);
        }
    }
}

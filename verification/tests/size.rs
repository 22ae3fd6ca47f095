use snapshot_manifest::decimal::format_decimal;
use std::num::IntErrorKind;

use snapshot_manifest::size::{parse_size, SizeError};

#[test]
fn plain_number_is_a_byte_count() {
    assert_eq!(parse_size("123"), Ok(123));
    assert_eq!(parse_size("0"), Ok(0));
    assert_eq!(parse_size("32768"), Ok(32768));
}

#[test]
fn kilobyte_suffix_scales_by_1024() {
    assert_eq!(parse_size("4k"), Ok(4096));
    assert_eq!(parse_size("4K"), Ok(4096));
    assert_eq!(parse_size("0k"), Ok(0));
}

#[test]
fn megabyte_suffix_scales_by_1024_squared() {
    assert_eq!(parse_size("2m"), Ok(2 * 1024 * 1024));
    assert_eq!(parse_size("2M"), Ok(2097152));
}

#[test]
fn gigabyte_suffix_scales_by_1024_cubed() {
    assert_eq!(parse_size("1g"), Ok(1073741824));
    assert_eq!(parse_size("3G"), Ok(3 * 1024 * 1024 * 1024));
}

#[test]
fn leading_zeros_and_one_plus_sign_are_accepted() {
    assert_eq!(parse_size("007"), Ok(7));
    assert_eq!(parse_size("+5"), Ok(5));
    assert_eq!(parse_size("+5k"), Ok(5120));
}

#[test]
fn empty_input_is_rejected() {
    assert_eq!(parse_size(""), Err(SizeError::Empty));
}

#[test]
fn unit_without_number_is_rejected() {
    assert_eq!(parse_size("k"), Err(SizeError::Empty));
    assert_eq!(parse_size("G"), Err(SizeError::Empty));
}

#[test]
fn non_numeric_input_is_rejected() {
    assert_eq!(parse_size("abc"), Err(SizeError::InvalidDigit));
    assert_eq!(parse_size("12x"), Err(SizeError::InvalidDigit));
    assert_eq!(parse_size("x12"), Err(SizeError::InvalidDigit));
    assert_eq!(parse_size(" 12"), Err(SizeError::InvalidDigit));
    assert_eq!(parse_size("12 "), Err(SizeError::InvalidDigit));
}

#[test]
fn sign_alone_is_rejected() {
    assert_eq!(parse_size("+"), Err(SizeError::InvalidDigit));
    assert_eq!(parse_size("-"), Err(SizeError::InvalidDigit));
    assert_eq!(parse_size("+k"), Err(SizeError::InvalidDigit));
    assert_eq!(parse_size("++5"), Err(SizeError::InvalidDigit));
}

#[test]
fn negative_sizes_are_rejected() {
    assert_eq!(parse_size("-1"), Err(SizeError::InvalidDigit));
    assert_eq!(parse_size("-1k"), Err(SizeError::InvalidDigit));
}

#[test]
fn fractional_sizes_are_rejected() {
    assert_eq!(parse_size("1.5"), Err(SizeError::InvalidDigit));
    assert_eq!(parse_size("1.5k"), Err(SizeError::InvalidDigit));
}

#[test]
fn other_unit_letters_are_rejected() {
    assert_eq!(parse_size("1t"), Err(SizeError::InvalidDigit));
    assert_eq!(parse_size("1b"), Err(SizeError::InvalidDigit));
    assert_eq!(parse_size("1kb"), Err(SizeError::InvalidDigit));
    assert_eq!(parse_size("1kk"), Err(SizeError::InvalidDigit));
}

#[test]
fn non_ascii_digits_are_rejected() {
    assert_eq!(parse_size("\u{0661}\u{0662}"), Err(SizeError::InvalidDigit));
    assert_eq!(parse_size("1\u{00e9}"), Err(SizeError::InvalidDigit));
}

#[test]
fn largest_number_is_accepted() {
    assert_eq!(parse_size("18446744073709551615"), Ok(u64::MAX));
}

#[test]
fn number_beyond_64_bits_is_rejected() {
    assert_eq!(parse_size("18446744073709551616"), Err(SizeError::NumberTooLarge));
    assert_eq!(parse_size("99999999999999999999999"), Err(SizeError::NumberTooLarge));
    assert_eq!(parse_size("99999999999999999999999k"), Err(SizeError::NumberTooLarge));
}

#[test]
fn product_beyond_64_bits_is_rejected_not_wrapped() {
    assert_eq!(parse_size("18014398509481984k"), Err(SizeError::SizeTooLarge));
    assert_eq!(parse_size("17592186044416m"), Err(SizeError::SizeTooLarge));
    assert_eq!(parse_size("17179869184g"), Err(SizeError::SizeTooLarge));
    assert_eq!(parse_size("18446744073709551615k"), Err(SizeError::SizeTooLarge));
}

#[test]
fn largest_products_are_accepted() {
    assert_eq!(parse_size("18014398509481983k"), Ok(18014398509481983 * 1024));
    assert_eq!(parse_size("17592186044415m"), Ok(17592186044415 * 1024 * 1024));
    assert_eq!(parse_size("17179869183g"), Ok(17179869183 * 1024 * 1024 * 1024));
}

#[test]
fn first_fault_from_the_left_decides_the_error() {
    assert_eq!(parse_size("99999999999999999999x"), Err(SizeError::NumberTooLarge));
    assert_eq!(parse_size("1x99999999999999999999"), Err(SizeError::InvalidDigit));
}

#[test]
fn decimal_text_has_no_leading_zeros() {
    assert_eq!(format_decimal(0), "0");
    assert_eq!(format_decimal(7), "7");
    assert_eq!(format_decimal(10), "10");
    assert_eq!(format_decimal(32768), "32768");
    assert_eq!(format_decimal(u64::MAX), "18446744073709551615");
}

#[test]
fn written_sizes_are_read_back() {
    let samples: [u64; 8] = [0, 1, 9, 10, 1024, 32768, 4294967296, u64::MAX];
    for n in samples {
        assert_eq!(parse_size(&format_decimal(n)), Ok(n));
    }
}

#[test]
fn every_unit_letter_scales_the_decimal_value() {
    let units: [(&str, u64); 7] = [
        ("", 1),
        ("k", 1024),
        ("K", 1024),
        ("m", 1048576),
        ("M", 1048576),
        ("g", 1073741824),
        ("G", 1073741824),
    ];
    let numbers: [u64; 5] = [0, 1, 42, 1000, 65535];
    for (suffix, multiplier) in units {
        for n in numbers {
            let text = format!("{}{}", n, suffix);
            assert_eq!(parse_size(&text), Ok(n * multiplier));
        }
    }
}

#[test]
fn numbers_agree_with_the_standard_parser() {
    let inputs = [
        "",
        "0",
        "1",
        "+1",
        "-1",
        "+",
        "-",
        "++1",
        "+-1",
        "-+1",
        "00",
        "+00",
        "4294967296",
        "18446744073709551615",
        "+18446744073709551615",
        "18446744073709551616",
        "000018446744073709551616",
        "99999999999999999999999999",
        "99999999999999999999999999x",
        "x99999999999999999999999999",
        "1 ",
        " 1",
        "1_000",
        "0x10",
        "1e3",
        "12a",
        "a12",
        "\u{0663}",
        "\u{ff11}\u{ff12}",
    ];
    for input in inputs {
        let expected = match input.parse::<u64>() {
            Ok(value) => Ok(value),
            Err(error) => Err(match error.kind() {
                IntErrorKind::Empty => SizeError::Empty,
                IntErrorKind::InvalidDigit => SizeError::InvalidDigit,
                IntErrorKind::PosOverflow => SizeError::NumberTooLarge,
                other => panic!("{:?} for {:?}", other, input),
            }),
        };
        assert_eq!(parse_size(input), expected, "{:?}", input);
    }
}

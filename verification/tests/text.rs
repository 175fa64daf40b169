//! Numbers and white space in texts.

use openaudio::text::{
    blank, chars_contain, decimal_text, join2, join3, join_number, join_number_between, not_after,
    parse_unsigned, same_text, starts_with, trim, two_digit_text,
};

#[test]
fn decimals_are_written_like_integers() {
    for n in [0u128, 7, 10, 99, 100, 65_535, 4_294_967_295, u128::MAX] {
        assert_eq!(decimal_text(n), n.to_string());
    }
    assert_eq!(two_digit_text(0), "00");
    assert_eq!(two_digit_text(7), "07");
    assert_eq!(two_digit_text(59), "59");
    assert_eq!(two_digit_text(123), "123");
}

#[test]
fn unsigned_numbers_are_read_like_the_standard_library_reads_them() {
    let samples = [
        "", "0", "00", "7", "+7", "++7", "+", "-", "-1", "65535", "65536", "00065535", " 7", "7 ",
        "7a", "a", "4294967295", "4294967296", "18446744073709551615", "18446744073709551616",
        "99999999999999999999999999", "1_000", "٣", "+0",
    ];
    for sample in samples {
        assert_eq!(
            parse_unsigned(sample, u16::MAX as u64),
            sample.parse::<u16>().ok().map(|n| n as u64),
            "u16 {sample:?}"
        );
        assert_eq!(
            parse_unsigned(sample, u32::MAX as u64),
            sample.parse::<u32>().ok().map(|n| n as u64),
            "u32 {sample:?}"
        );
        assert_eq!(parse_unsigned(sample, u64::MAX), sample.parse::<u64>().ok(), "u64 {sample:?}");
    }
}

#[test]
fn every_port_survives_its_decimal_notation() {
    for port in 0..=u16::MAX {
        assert_eq!(parse_unsigned(&decimal_text(port as u128), 65_535), Some(port as u64));
    }
}

#[test]
fn trimming_removes_the_white_space_of_all_scripts() {
    for code in 0..=0x10_ffffu32 {
        if let Some(c) = char::from_u32(code) {
            let sample: String = [c, 'x', c, 'y', c].iter().collect();
            assert_eq!(trim(&sample), sample.trim(), "U+{code:04X}");
        }
    }
    assert_eq!(trim(""), "");
    assert_eq!(trim(" \t\n"), "");
    assert_eq!(trim(trim("  a b  ")), "a b");
}

#[test]
fn blank_texts_hold_white_space_only() {
    assert!(blank(""));
    assert!(blank(" \u{3000}\n"));
    assert!(!blank(" x "));
}

#[test]
fn searching_and_comparing_follow_the_standard_library() {
    let samples = ["", "a", "ab", "abc", "bc", "cab", "abcabd", "é", "eé", "Z", "z", "ß", "ẞ"];
    for a in samples {
        for b in samples {
            let chars: Vec<char> = a.chars().collect();
            assert_eq!(chars_contain(&chars, b), a.contains(b), "{a:?} {b:?}");
            assert_eq!(starts_with(a, b), a.starts_with(b), "{a:?} {b:?}");
            assert_eq!(same_text(a, b), a == b, "{a:?} {b:?}");
            assert_eq!(not_after(a, b), a <= b, "{a:?} {b:?}");
        }
    }
}

#[test]
fn joining_keeps_the_order_of_the_parts() {
    assert_eq!(join2("a", "b"), "ab");
    assert_eq!(join3("a", "b", "c"), "abc");
    assert_eq!(join_number("port ", 7050), "port 7050");
    assert_eq!(join_number_between("<", 12, ">"), "<12>");
}

use ampscan::report::{sanitize, wrap_text};
use ampscan::text::{contains_str, decimal_string, hex_to_bytes, parse_decimal, trim, truncate, HexError};

#[test]
fn test_truncate_generic_utf8() {
    assert_eq!(truncate("hello world", 8), "hello...");
    assert_eq!(truncate("hello", 10), "hello");

    let s1 = "possible infection";
    assert_eq!(truncate(s1, 11), "possible...");
    assert_eq!(truncate(s1, 18), "possible infection");

    let s2 = "Alert 🚨 security";
    assert_eq!(truncate(s2, 10), "Alert 🚨...");

    assert_eq!(truncate("", 5), "");
    assert_eq!(truncate("abc", 0), "...");
}

#[test]
fn truncate_twice_is_truncate_once() {
    for (s, m) in [("hello world", 8usize), ("abcdef", 1), ("abcdef", 0), ("Alert 🚨 security", 10), ("ab", 5)] {
        let once = truncate(s, m);
        assert_eq!(truncate(&once, m), once);
        assert!(once.chars().count() <= m.max(3));
    }
}

#[test]
fn trim_removes_unicode_white_space() {
    assert_eq!(trim("  10.0.0.1/24 \t\n"), "10.0.0.1/24");
    assert_eq!(trim("\u{a0}x\u{3000}"), "x");
    assert_eq!(trim("   "), "");
    assert_eq!(trim("a b"), "a b");
}

#[test]
fn contains_finds_substrings() {
    assert!(contains_str("CRITICAL_FD_EXHAUSTION: too many", "CRITICAL_FD_EXHAUSTION"));
    assert!(contains_str("abc", ""));
    assert!(!contains_str("ab", "abc"));
    assert!(!contains_str("FD_EXHAUSTION", "CRITICAL"));
}

#[test]
fn decimal_round_trip() {
    for n in [0u64, 7, 10, 256, 65535, u64::MAX] {
        let s = decimal_string(n);
        assert_eq!(s, n.to_string());
        assert_eq!(parse_decimal(&s, u64::MAX), Some(n));
    }
}

#[test]
fn decimal_parsing_follows_integer_syntax() {
    assert_eq!(parse_decimal("42", 100), Some(42));
    assert_eq!(parse_decimal("+42", 100), Some(42));
    assert_eq!(parse_decimal("007", 100), Some(7));
    assert_eq!(parse_decimal("101", 100), None);
    assert_eq!(parse_decimal("", 100), None);
    assert_eq!(parse_decimal("+", 100), None);
    assert_eq!(parse_decimal("-1", 100), None);
    assert_eq!(parse_decimal("1a", 100), None);
    assert_eq!(parse_decimal("99999999999999999999999", u64::MAX), None);
    assert_eq!(parse_decimal("18446744073709551615", u64::MAX), Some(u64::MAX));
}

#[test]
fn hex_text_is_read_in_pairs() {
    assert_eq!(hex_to_bytes("FF0102"), Ok(vec![0xFF, 0x01, 0x02]));
    assert_eq!(hex_to_bytes("  ff 01 02 \n"), Ok(vec![0xFF, 0x01, 0x02]));
    assert_eq!(hex_to_bytes(""), Ok(vec![]));
}

#[test]
fn hex_text_errors() {
    assert_eq!(hex_to_bytes("F"), Err(HexError::OddLength));
    assert_eq!(hex_to_bytes("FFF"), Err(HexError::OddLength));
    assert_eq!(hex_to_bytes("GG"), Err(HexError::InvalidDigit));
    assert_eq!(hex_to_bytes("0x"), Err(HexError::InvalidDigit));
    assert_eq!(hex_to_bytes("é"), Err(HexError::InvalidDigit));
    assert_eq!(hex_to_bytes("+f"), Err(HexError::InvalidDigit));
    assert_eq!(hex_to_bytes("-1"), Err(HexError::InvalidDigit));
    assert_eq!(hex_to_bytes("aé0"), Err(HexError::InvalidDigit));
    assert_eq!(hex_to_bytes("1é"), Err(HexError::OddLength));
}

#[test]
fn sanitize_spells_portuguese_letters_plainly() {
    assert_eq!(sanitize("Relatório de Vulnerabilidades"), "Relatorio de Vulnerabilidades");
    assert_eq!(sanitize("AÇÃO çà ÉÍÓÚ"), "ACAO ca EIOU");
    assert_eq!(sanitize("plain 🚨"), "plain 🚨");
    let once = sanitize("ação");
    assert_eq!(sanitize(&once), once);
}

#[test]
fn wrap_text_fills_lines_greedily() {
    assert_eq!(wrap_text("the quick brown fox", 10), vec!["the quick", "brown fox"]);
    assert_eq!(wrap_text("  a   b  ", 10), vec!["a b"]);
    assert_eq!(wrap_text("", 10), vec![""]);
    assert_eq!(wrap_text("   ", 10), vec![""]);
    assert_eq!(wrap_text("averyveryverylongword x", 5), vec!["averyveryverylongword", "x"]);
}

#[test]
fn wrap_text_counts_bytes() {
    // "ção" is 5 bytes: "ab ção" is 8 bytes, over a limit of 7.
    assert_eq!(wrap_text("ab ção", 7), vec!["ab", "ção"]);
    assert_eq!(wrap_text("ab ção", 8), vec!["ab ção"]);
}

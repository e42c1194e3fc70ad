//! The text functions against the standard library's own, on the same inputs.

use std::path::Path;

use supervisor::path::join;
use supervisor::text::{
    chars_of, decimal_of, join_strs, owned, same, signed_decimal_of, str_contains, str_ends_with, str_lines,
    str_parse_i64, str_parse_u32, str_parse_unsigned, str_rsplit_once, str_split, str_split_once, str_starts_with,
    str_strip_prefix, str_trim, str_trim_end, str_words, two_digits_of,
};

/// Texts with every kind of whitespace, line end and separator, and characters of each UTF-8 length.
fn samples() -> Vec<String> {
    let mut samples: Vec<String> = [
        "",
        " ",
        "\n",
        "\r\n",
        "a",
        " a ",
        "a\n",
        "a\r\n",
        "a\rb",
        "a\n\nb",
        "\r",
        "a b",
        "a  b   c ",
        "key : value",
        "a : b : c",
        " : ",
        "a,b,,c",
        ",",
        "\u{85}a\u{a0}",
        "\u{1680}x\u{2000}y\u{200a}",
        "\u{2028}z\u{2029}",
        "\u{202f}\u{205f}\u{3000}",
        "\u{200b}a\u{200b}",
        "\u{1c}a\u{1f}",
        "\u{feff}a",
        "é,ü",
        "日本 語",
        "🦀 : 🦀",
        "\t\u{b}\u{c}x\t",
        "aaa",
        "abab",
    ]
    .into_iter()
    .map(String::from)
    .collect();
    // Every character that is whitespace, and its neighbours, between two letters.
    for code in 0u32..0x3100 {
        let near = [code.saturating_sub(1), code, code + 1];
        let close = near.iter().any(|c| char::from_u32(*c).is_some_and(char::is_whitespace));
        if let (true, Some(c)) = (close, char::from_u32(code)) {
            samples.push(format!("{c}a{c}b{c}"));
        }
    }
    samples
}

const PATTERNS: [&str; 10] = [" ", ",", " : ", "a", "aa", "ab", "\n\n", "é", "🦀", "missing"];

#[test]
fn trimming_and_words_are_the_standard_librarys() {
    for s in samples() {
        assert_eq!(str_trim(&s), s.trim(), "{s:?}");
        assert_eq!(str_trim_end(&s), s.trim_end(), "{s:?}");
        assert_eq!(str_words(&s), s.split_whitespace().collect::<Vec<_>>(), "{s:?}");
    }
}

#[test]
fn lines_are_the_standard_librarys() {
    for s in samples() {
        assert_eq!(str_lines(&s), s.lines().collect::<Vec<_>>(), "{s:?}");
    }
}

#[test]
fn splitting_is_the_standard_librarys() {
    for s in samples() {
        for pattern in PATTERNS {
            assert_eq!(str_split(&s, pattern), s.split(pattern).collect::<Vec<_>>(), "{s:?} {pattern:?}");
            assert_eq!(str_split_once(&s, pattern), s.split_once(pattern), "{s:?} {pattern:?}");
            assert_eq!(str_rsplit_once(&s, pattern), s.rsplit_once(pattern), "{s:?} {pattern:?}");
        }
    }
}

#[test]
fn searching_is_the_standard_librarys() {
    for s in samples() {
        for pattern in PATTERNS.into_iter().chain([""]) {
            assert_eq!(str_contains(&s, pattern), s.contains(pattern), "{s:?} {pattern:?}");
            assert_eq!(str_starts_with(&s, pattern), s.starts_with(pattern), "{s:?} {pattern:?}");
            assert_eq!(str_ends_with(&s, pattern), s.ends_with(pattern), "{s:?} {pattern:?}");
            assert_eq!(str_strip_prefix(&s, pattern), s.strip_prefix(pattern), "{s:?} {pattern:?}");
            assert_eq!(same(&s, pattern), s == pattern, "{s:?} {pattern:?}");
        }
    }
}

#[test]
fn joining_and_owning_keep_every_piece() {
    let pieces = vec!["a", "", "日本", "c"];
    assert_eq!(join_strs(&pieces, "; "), pieces.join("; "));
    assert_eq!(join_strs(&Vec::new(), "; "), "");
    assert_eq!(owned(&pieces), pieces);
    assert_eq!(chars_of("aé🦀"), vec!['a', 'é', '🦀']);
}

#[test]
fn numbers_parse_as_the_standard_library_parses_them() {
    let texts = [
        "", "+", "-", "0", "00", "7", "+7", "-7", "-0", "007", " 7", "7 ", "1_000", "0x10", "1.0", "٣", "255", "256",
        "4294967295", "4294967296", "+4294967295", "18446744073709551615", "18446744073709551616",
        "9223372036854775807", "9223372036854775808", "-9223372036854775808", "-9223372036854775809",
        "99999999999999999999999999",
    ];
    for text in texts {
        assert_eq!(str_parse_u32(text), text.parse().ok(), "{text:?}");
        assert_eq!(str_parse_i64(text), text.parse().ok(), "{text:?}");
        assert_eq!(str_parse_unsigned(text, u64::MAX), text.parse().ok(), "{text:?}");
        assert_eq!(str_parse_unsigned(text, 255), text.parse::<u8>().ok().map(u64::from), "{text:?}");
    }
}

#[test]
fn numbers_print_as_the_standard_library_prints_them() {
    for n in [0, 1, 9, 10, 59, 99, 100, 1005, u64::MAX] {
        assert_eq!(decimal_of(n), format!("{n}"));
        assert_eq!(two_digits_of(n), format!("{n:02}"));
    }
    for n in [0, 7, -7, 10, -10, i64::MAX, i64::MIN] {
        assert_eq!(signed_decimal_of(n), format!("{n}"));
    }
}

#[test]
fn joined_paths_are_the_standard_librarys() {
    for dir in ["", "/", "a", "/a/", "/a/b", "a//"] {
        for name in ["", "x", "/x", "x/y", ".x"] {
            assert_eq!(join(dir, name), Path::new(dir).join(name).to_string_lossy(), "{dir:?} {name:?}");
        }
    }
}

use host_metrics::number::{decimal_of, float_literal, parse_u64, parse_unsigned, Radix};
use host_metrics::text::{
    chars_of, remove_char, same, scan, scan_back, split_lines, split_once, split_words,
    starts_with, string_of, trim, trim_end, white_space, CharClass,
};

fn chars(s: &str) -> Vec<char> {
    s.chars().collect()
}

fn strings(v: Vec<Vec<char>>) -> Vec<String> {
    v.into_iter().map(|w| w.into_iter().collect()).collect()
}

#[test]
fn chars_and_strings_round_trip() {
    assert_eq!(chars_of("a\u{e9}\u{4e2d}"), vec!['a', '\u{e9}', '\u{4e2d}']);
    assert_eq!(string_of(&['k', 'B']), "kB");
    assert_eq!(string_of(&chars_of("MemTotal")), "MemTotal");
    assert_eq!(string_of(&[]), "");
}

#[test]
fn white_space_is_the_unicode_class() {
    for c in ['\t', '\n', '\u{b}', '\u{c}', '\r', ' ', '\u{85}', '\u{a0}', '\u{1680}', '\u{2000}',
        '\u{200a}', '\u{2028}', '\u{2029}', '\u{202f}', '\u{205f}', '\u{3000}']
    {
        assert!(white_space(c));
        assert!(c.is_whitespace());
    }
    for c in ['a', '0', ':', '\u{200b}', '\u{1c}', '\u{feff}'] {
        assert!(!white_space(c));
        assert!(!c.is_whitespace());
    }
}

#[test]
fn white_space_agrees_with_std_on_every_char() {
    let mut n: u32 = 0;
    while n <= 0x10ffff {
        if let Some(c) = char::from_u32(n) {
            assert_eq!(white_space(c), c.is_whitespace());
        }
        n += 1;
    }
}

#[test]
fn scan_stops_at_the_first_char_outside_the_class() {
    let s = chars("123abc");
    assert_eq!(scan(&s, 0, CharClass::Digit), 3);
    assert_eq!(scan(&s, 3, CharClass::Digit), 3);
    assert_eq!(scan(&s, 3, CharClass::NonSpace), 6);
    assert_eq!(scan(&s, 6, CharClass::NonSpace), 6);
    assert_eq!(scan(&s, 0, CharClass::Except('b')), 4);
    assert_eq!(scan(&s, 0, CharClass::Only('1')), 1);
    assert_eq!(scan_back(&s, 6, CharClass::Except('3')), 3);
    assert_eq!(scan_back(&s, 6, CharClass::Space), 6);
}

#[test]
fn lines_are_cut_like_std() {
    for text in [
        "",
        "\n",
        "a",
        "a\n",
        "a\nb",
        "a\r\nb\r\n",
        "a\n\nb",
        "a\r",
        "a\r\r\n",
        "\r\n",
        "x\ny\n\n",
        "carriage\rreturn\n",
    ] {
        let expected: Vec<String> = text.lines().map(|l| l.to_string()).collect();
        assert_eq!(strings(split_lines(&chars(text))), expected, "{:?}", text);
    }
}

#[test]
fn words_are_cut_like_std() {
    for text in ["", "   ", "a", " a ", "a b", "  a\t\tb \n c\u{a0}d ", "16:   123,456  78"] {
        let expected: Vec<String> = text.split_whitespace().map(|l| l.to_string()).collect();
        assert_eq!(strings(split_words(&chars(text))), expected, "{:?}", text);
    }
}

#[test]
fn split_once_cuts_at_the_first_separator() {
    assert_eq!(split_once(&chars("a:b:c"), ':'), Some((chars("a"), chars("b:c"))));
    assert_eq!(split_once(&chars(":"), ':'), Some((chars(""), chars(""))));
    assert_eq!(split_once(&chars("abc"), ':'), None);
    assert_eq!(split_once(&chars(""), ':'), None);
}

#[test]
fn trim_removes_white_space_at_both_ends() {
    for text in ["", "  ", "a", "  a b \n", "\ta", "a\r\n", " \u{3000}x\u{2003} "] {
        assert_eq!(string_of(&trim(&chars(text))), text.trim(), "{:?}", text);
    }
}

#[test]
fn trim_end_removes_a_class_at_the_end() {
    assert_eq!(trim_end(&chars("16:"), CharClass::Only(':')), chars("16"));
    assert_eq!(trim_end(&chars("NMI:::"), CharClass::Only(':')), chars("NMI"));
    assert_eq!(trim_end(&chars(":a"), CharClass::Only(':')), chars(":a"));
    assert_eq!(trim_end(&chars(":::"), CharClass::Only(':')), chars(""));
}

#[test]
fn remove_char_removes_every_occurrence() {
    assert_eq!(remove_char(&chars("123,456"), ','), chars("123456"));
    assert_eq!(remove_char(&chars(",1,,2,"), ','), chars("12"));
    assert_eq!(remove_char(&chars("78"), ','), chars("78"));
}

#[test]
fn same_and_starts_with() {
    assert!(same(&chars("kB"), &chars("kB")));
    assert!(!same(&chars("kB"), &chars("KB")));
    assert!(!same(&chars("kB"), &chars("kBs")));
    assert!(starts_with(&chars("loop0"), &chars("loop")));
    assert!(starts_with(&chars("loop"), &chars("")));
    assert!(!starts_with(&chars("lo"), &chars("loop")));
    assert!(!starts_with(&chars("sda"), &chars("loop")));
}

#[test]
fn decimal_integers_parse_like_std() {
    for text in [
        "0",
        "42",
        "007",
        "+5",
        "18446744073709551615",
        "18446744073709551616",
        "99999999999999999999999",
        "",
        "+",
        "-1",
        "++1",
        "1 ",
        " 1",
        "12a",
        "1,2",
        "0x10",
        "\u{661}",
    ] {
        assert_eq!(parse_u64(&chars(text)), text.parse::<u64>().ok(), "{:?}", text);
    }
}

#[test]
fn hex_integers_parse_like_std() {
    for text in [
        "0000002a",
        "ffffffffffffffff",
        "FFFFFFFFFFFFFFFF",
        "10000000000000000",
        "+ff",
        "0x2a",
        "g",
        "",
        "-1",
    ] {
        assert_eq!(
            parse_unsigned(&chars(text), Radix::Hex, u64::MAX),
            u64::from_str_radix(text, 16).ok(),
            "{:?}",
            text
        );
    }
    assert_eq!(parse_unsigned(&chars("0000002a"), Radix::Hex, u64::MAX), Some(42));
}

#[test]
fn parse_unsigned_respects_the_limit() {
    assert_eq!(parse_unsigned(&chars("4294967295"), Radix::Decimal, 0xffff_ffff), Some(4294967295));
    assert_eq!(parse_unsigned(&chars("4294967296"), Radix::Decimal, 0xffff_ffff), None);
    assert_eq!(parse_unsigned(&chars("9"), Radix::Decimal, 8), None);
    assert_eq!(parse_unsigned(&chars("8"), Radix::Decimal, 8), Some(8));
}

#[test]
fn decimal_text_is_written_like_std() {
    for n in [0u64, 1, 9, 10, 11, 99, 100, 12345, 4294967295, u64::MAX] {
        assert_eq!(string_of(&decimal_of(n)), n.to_string());
    }
}

#[test]
fn float_literals_are_those_that_std_parses() {
    for text in [
        "0",
        "1",
        "-1",
        "+1",
        "12345.678901",
        "1.",
        ".5",
        "-.5",
        "1e5",
        "1E5",
        "1e+5",
        "1.5e-3",
        ".5e1",
        "inf",
        "-inf",
        "+Infinity",
        "INFINITY",
        "nan",
        "NaN",
        "-nan",
        "",
        "+",
        "-",
        ".",
        "e5",
        "1e",
        "1e+",
        "1.2.3",
        "1 ",
        " 1",
        "0x10",
        "1_000",
        "infinit",
        "nana",
        "1e5.0",
        "--1",
        "1,5",
    ] {
        assert_eq!(float_literal(&chars(text)), text.parse::<f64>().is_ok(), "{:?}", text);
    }
}

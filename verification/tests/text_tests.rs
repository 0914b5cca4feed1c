use webcrawler::text::{
    chars_of, is_whitespace, line_ranges, join_strings, parse_u64, trim, u64_to_decimal, word_count,
};

#[test]
fn trim_removes_unicode_white_space() {
    assert_eq!(trim("  hello world \t\r\n"), "hello world");
    assert_eq!(trim("\u{3000}\u{A0}x\u{2009}"), "x");
    assert_eq!(trim(" \n\t "), "");
    assert_eq!(trim(""), "");
    assert_eq!(trim("a b"), "a b");
}

#[test]
fn trim_agrees_with_str_trim() {
    for s in ["", " ", "a", " a ", "\u{85}a\u{85}", "\u{200B}a", "a\u{1680}", "\u{2028}b c\u{2029}"] {
        assert_eq!(trim(s), s.trim(), "input {:?}", s);
    }
}

#[test]
fn whitespace_matches_char_is_whitespace() {
    for c in ['\t', '\n', ' ', '\u{0B}', '\u{85}', '\u{A0}', '\u{2007}', '\u{200B}', 'a', '\u{3000}', '\u{FEFF}'] {
        assert_eq!(is_whitespace(c), c.is_whitespace(), "char {:?}", c);
    }
}

#[test]
fn parse_u64_follows_from_str() {
    assert_eq!(parse_u64("5"), Some(5));
    assert_eq!(parse_u64("+5"), Some(5));
    assert_eq!(parse_u64("007"), Some(7));
    assert_eq!(parse_u64(""), None);
    assert_eq!(parse_u64("+"), None);
    assert_eq!(parse_u64("-5"), None);
    assert_eq!(parse_u64(" 5"), None);
    assert_eq!(parse_u64("1.5"), None);
    assert_eq!(parse_u64("18446744073709551615"), Some(u64::MAX));
    assert_eq!(parse_u64("18446744073709551616"), None);
    assert_eq!(parse_u64("99999999999999999999999"), None);
    for s in ["0", "+0", "12a", "++1", "4294967296"] {
        assert_eq!(parse_u64(s), s.parse::<u64>().ok(), "input {:?}", s);
    }
}

#[test]
fn decimal_round_trips() {
    for n in [0u64, 7, 10, 255, 1000, 86_400_000, u64::MAX] {
        let d = u64_to_decimal(n);
        assert_eq!(d, n.to_string());
        assert_eq!(parse_u64(&d), Some(n));
    }
}

#[test]
fn word_count_counts_runs() {
    assert_eq!(word_count(""), 0);
    assert_eq!(word_count("   "), 0);
    assert_eq!(word_count("one"), 1);
    assert_eq!(word_count("  one two\tthree\n"), 3);
    assert_eq!(word_count("a\u{3000}b"), 2);
}

#[test]
fn join_puts_separator_between() {
    let v = vec!["a".to_string(), "b".to_string(), "c".to_string()];
    assert_eq!(join_strings(&v, ", "), "a, b, c");
    assert_eq!(join_strings(&vec![], " "), "");
    assert_eq!(join_strings(&vec!["x".to_string()], " "), "x");
}

#[test]
fn chars_of_lists_characters() {
    assert_eq!(chars_of("héllo"), vec!['h', 'é', 'l', 'l', 'o']);
}

#[test]
fn line_ranges_agree_with_str_lines() {
    for s in ["", "\n", "a", "a\n", "a\r\nb", "a\n\nb\n", "a\r", "x\r\n\r\ny", "\r\n", "one\ntwo\r\nthree"] {
        let v = chars_of(s);
        let got: Vec<String> = line_ranges(&v).iter().map(|&(lo, hi)| v[lo..hi].iter().collect()).collect();
        let want: Vec<String> = s.lines().map(|l| l.to_string()).collect();
        assert_eq!(got, want, "input {:?}", s);
    }
}

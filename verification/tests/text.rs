use apt_cmd::text;

fn chars(s: &str) -> Vec<char> {
    s.chars().collect()
}

#[test]
fn text_whitespace_is_as_std_has_it() {
    for n in 0..=0x10ffffu32 {
        if let Some(c) = char::from_u32(n) {
            assert_eq!(text::char_is_space(c), c.is_whitespace(), "{:x}", n);
            assert_eq!(text::char_is_ascii_space(c), c.is_ascii_whitespace(), "{:x}", n);
        }
    }
}

#[test]
fn text_words_are_as_std_splits_them() {
    for sample in ["", " ", "a", " a", "a ", "  ab \t cd\u{a0}e\u{2003}\u{2003}f\n", "\u{c}x\u{c}y", "\u{85}a\u{85}"] {
        let all = chars(sample);
        let by_unicode: Vec<String> = sample.split_whitespace().map(|s| s.to_string()).collect();
        let by_ascii: Vec<String> = sample.split_ascii_whitespace().map(|s| s.to_string()).collect();
        for (ascii, expected) in [(false, by_unicode), (true, by_ascii)] {
            for n in 0..expected.len() + 2 {
                let found = text::word(&all, n, ascii).map(|(a, b)| all[a..b].iter().collect::<String>());
                assert_eq!(found, expected.get(n).cloned());
            }
        }
    }
}

#[test]
fn text_numbers_are_as_std_reads_them() {
    for sample in [
        "", "+", "-", "0", "00", "+0", "-0", "1", "+1", "++1", "255", "256", "0255", " 1", "1 ", "1_0", "0x1", "１",
        "18446744073709551615", "18446744073709551616", "99999999999999999999999", "1844674407370955161a",
    ] {
        assert_eq!(text::parse_u64(&chars(sample)), sample.parse::<u64>().ok(), "{:?}", sample);
        assert_eq!(text::parse_u8(&chars(sample)), sample.parse::<u8>().ok(), "{:?}", sample);
    }
}

#[test]
fn text_decimal_is_as_std_writes_it() {
    for n in [0u64, 1, 9, 10, 11, 99, 100, 101, 255, 1000, 18446744073709551615] {
        assert_eq!(text::decimal(n), n.to_string());
    }
}

#[test]
fn text_trimming_is_as_std_trims() {
    for sample in ["", " ", "a", " a ", "\t\u{a0}a b\u{2003}\n", "\n\n", "a\r\n"] {
        let all = chars(sample);
        let (start, end) = text::trim_bounds(&all);
        assert_eq!(all[start..end].iter().collect::<String>(), sample.trim());
        assert_eq!(all[..text::trim_end_index(&all)].iter().collect::<String>(), sample.trim_end());
        assert_eq!(all[text::trim_start_index(&all)..].iter().collect::<String>(), sample.trim_start());
    }
}

#[test]
fn text_lines_are_as_std_splits_them() {
    for sample in ["", "\n", "a", "a\n", "a\nb", "a\r\nb\r\n", "a\rb\n", "a\n\nb", "\r\n", "a\r", "\n\r\n\r", "a\n\r"] {
        let found: Vec<String> =
            text::split_lines(&chars(sample)).into_iter().map(|line| line.into_iter().collect()).collect();
        let expected: Vec<String> = sample.lines().map(|line| line.to_string()).collect();
        assert_eq!(found, expected, "{:?}", sample);
    }
}

#[test]
fn text_search_is_as_std_searches() {
    for (sample, pattern) in [("", ""), ("a", ""), ("", "a"), ("abcabc", "cab"), ("abcabc", "cb"), ("aab", "ab"), ("ab", "abc")] {
        assert_eq!(text::includes(&chars(sample), &chars(pattern)), sample.contains(pattern));
        assert_eq!(text::starts_with(&chars(sample), &chars(pattern)), sample.starts_with(pattern));
        assert_eq!(text::same(&chars(sample), &chars(pattern)), sample == pattern);
        assert_eq!(text::equals(sample, pattern), sample == pattern);
        assert_eq!(text::prefix_len(&chars(sample), pattern).is_some(), sample.starts_with(pattern));
    }
    assert_eq!(text::find_char(&chars("a/b/c"), 0, '/'), 1);
    assert_eq!(text::find_char(&chars("a/b/c"), 2, '/'), 3);
    assert_eq!(text::find_char(&chars("a/b/c"), 4, '/'), 5);
    assert_eq!(text::to_chars("h\u{e9}llo"), chars("h\u{e9}llo"));
    assert_eq!(text::string_of(&chars("h\u{e9}llo"), 1, 3), "\u{e9}l");
}

use brig::text::{
    chars_of, comes_before, has_prefix, is_space_char, joined, nth_field, parse_unsigned,
    same_text, split_lines, trimmed,
};

#[test]
fn lines_of_empty_text_are_none() {
    assert_eq!(split_lines(""), Vec::<String>::new());
}

#[test]
fn lines_end_at_line_feeds() {
    assert_eq!(split_lines("a\nb\n"), vec!["a".to_string(), "b".to_string()]);
    assert_eq!(split_lines("a\nb"), vec!["a".to_string(), "b".to_string()]);
    assert_eq!(split_lines("\n"), vec!["".to_string()]);
    assert_eq!(split_lines("a\n\nb"), vec!["a".to_string(), "".to_string(), "b".to_string()]);
}

#[test]
fn lines_lose_a_carriage_return_before_the_line_feed_only() {
    assert_eq!(split_lines("a\r\nb\r"), vec!["a".to_string(), "b\r".to_string()]);
    assert_eq!(split_lines("a\r\r\n"), vec!["a\r".to_string()]);
    assert_eq!(split_lines("\r\n"), vec!["".to_string()]);
}

#[test]
fn lines_agree_with_std() {
    for text in ["", "x", "x\n", "\n\n", "a\r\nb\nc\r", "NAME\ntank/x@brig-1\n", "é\nß\r\n"] {
        let expected: Vec<String> = text.lines().map(|l| l.to_string()).collect();
        assert_eq!(split_lines(text), expected);
    }
}

#[test]
fn characters_are_counted_not_bytes() {
    assert_eq!(chars_of("aé"), vec!['a', 'é']);
    assert_eq!(chars_of(""), Vec::<char>::new());
    assert_eq!(nth_field("é ßü x", 1), Some("ßü".to_string()));
    assert_eq!(split_lines("é\nß"), vec!["é".to_string(), "ß".to_string()]);
}

#[test]
fn fields_are_parted_by_white_space() {
    assert_eq!(nth_field("size\t4096", 0), Some("size".to_string()));
    assert_eq!(nth_field("size\t4096", 1), Some("4096".to_string()));
    assert_eq!(nth_field("  a   b  ", 1), Some("b".to_string()));
    assert_eq!(nth_field("  a   b  ", 2), None);
    assert_eq!(nth_field("", 0), None);
    assert_eq!(nth_field("   ", 0), None);
    assert_eq!(nth_field("a\u{3000}b", 1), Some("b".to_string()));
}

#[test]
fn fields_agree_with_std() {
    for text in ["size 1 2", "\tsize\t\t17\n", "one", " \u{a0}x\u{2003}y "] {
        for n in 0..4 {
            let expected = text.split_whitespace().nth(n).map(|f| f.to_string());
            assert_eq!(nth_field(text, n), expected);
        }
    }
}

#[test]
fn white_space_is_that_of_unicode() {
    for code in 0u32..0x3100 {
        if let Some(c) = char::from_u32(code) {
            assert_eq!(is_space_char(c), c.is_whitespace());
        }
    }
}

#[test]
fn trimming_takes_white_space_from_both_ends() {
    assert_eq!(trimmed("  a b \n"), "a b");
    assert_eq!(trimmed(""), "");
    assert_eq!(trimmed(" \t "), "");
    assert_eq!(trimmed("x"), "x");
}

#[test]
fn unsigned_numbers_are_decimal_digits() {
    assert_eq!(parse_unsigned("0"), Some(0));
    assert_eq!(parse_unsigned("4096"), Some(4096));
    assert_eq!(parse_unsigned("+5"), Some(5));
    assert_eq!(parse_unsigned("007"), Some(7));
    assert_eq!(parse_unsigned(""), None);
    assert_eq!(parse_unsigned("+"), None);
    assert_eq!(parse_unsigned("-1"), None);
    assert_eq!(parse_unsigned("12a"), None);
    assert_eq!(parse_unsigned(" 1"), None);
    assert_eq!(parse_unsigned("++1"), None);
    assert_eq!(parse_unsigned("١٢"), None);
}

#[test]
fn unsigned_numbers_stop_at_the_width_of_u64() {
    assert_eq!(parse_unsigned("18446744073709551615"), Some(u64::MAX));
    assert_eq!(parse_unsigned("18446744073709551616"), None);
    assert_eq!(parse_unsigned("99999999999999999999999"), None);
    assert_eq!(parse_unsigned("00000000000000000000001"), Some(1));
}

#[test]
fn unsigned_numbers_agree_with_std() {
    for text in ["1", "+1", "-0", "18446744073709551615", "18446744073709551616", "1_0", "0x10"] {
        assert_eq!(parse_unsigned(text), text.parse::<u64>().ok());
    }
}

#[test]
fn order_of_texts_is_lexicographic() {
    assert!(comes_before("20240101000000", "20240102000000"));
    assert!(!comes_before("20240102000000", "20240101000000"));
    assert!(!comes_before("20240101000000", "20240101000000"));
    assert!(comes_before("", "a"));
    assert!(!comes_before("a", ""));
    assert!(!comes_before("", ""));
    assert!(comes_before("ab", "abc"));
    assert!(comes_before("abc", "abd"));
    assert!(comes_before("z", "é"));
}

#[test]
fn order_of_texts_agrees_with_std() {
    let samples = ["", "a", "ab", "b", "é", "z", "20231231235959", "20240101000000", "\u{10000}"];
    for a in samples {
        for b in samples {
            assert_eq!(comes_before(a, b), a < b);
        }
    }
}

#[test]
fn prefixes_and_equal_texts() {
    assert!(has_prefix("size 1", "size"));
    assert!(has_prefix("size", "size"));
    assert!(has_prefix("size", ""));
    assert!(!has_prefix("siz", "size"));
    assert!(!has_prefix("Size 1", "size"));
    assert!(same_text("abc", "abc"));
    assert!(!same_text("abc", "abd"));
    assert!(!same_text("abc", "ab"));
    assert_eq!(joined("ab", "cd"), "abcd");
}

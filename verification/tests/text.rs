use neurond::text::{
    char_is_space, chars_of, contains, decimal_text, join, join3, join_words, lines_of, parse_u64,
    split_once, starts_with, text_eq, trim, words_of,
};

fn strings(items: &[&str]) -> Vec<String> {
    items.iter().map(|s| s.to_string()).collect()
}

#[test]
fn lines_end_at_line_feeds() {
    assert_eq!(lines_of(""), Vec::<String>::new());
    assert_eq!(lines_of("a"), strings(&["a"]));
    assert_eq!(lines_of("a\n"), strings(&["a"]));
    assert_eq!(lines_of("a\nb"), strings(&["a", "b"]));
    assert_eq!(lines_of("a\r\nb\r\n"), strings(&["a", "b"]));
    assert_eq!(lines_of("\n\na\n\n"), strings(&["", "", "a", ""]));
    assert_eq!(lines_of("a\rb\n"), strings(&["a\rb"]));
    assert_eq!(lines_of("a\r"), strings(&["a\r"]));
    assert_eq!(lines_of("\r\n"), strings(&[""]));
    assert_eq!(lines_of("a\r\r\n"), strings(&["a\r"]));
    for sample in ["", "x\ny\r\n\rz", "\n", "\r\n\r", "é\nü"] {
        let expected: Vec<String> = sample.lines().map(|l| l.to_string()).collect();
        assert_eq!(lines_of(sample), expected);
    }
}

#[test]
fn words_are_what_white_space_parts() {
    assert_eq!(words_of(""), Vec::<String>::new());
    assert_eq!(words_of(" \t\n"), Vec::<String>::new());
    assert_eq!(words_of("one"), strings(&["one"]));
    assert_eq!(words_of("  one \t two\u{a0}three  "), strings(&["one", "two", "three"]));
    for sample in ["a b", " a\u{2003}b\u{3000}c ", "x\u{85}y", "no-space", "\u{1680}"] {
        let expected: Vec<String> = sample.split_whitespace().map(|w| w.to_string()).collect();
        assert_eq!(words_of(sample), expected);
    }
    for code in 0u32..=0x10FFFF {
        if let Some(c) = char::from_u32(code) {
            assert_eq!(char_is_space(c), c.is_whitespace());
        }
    }
}

#[test]
fn trimming_takes_the_white_space_off_both_ends() {
    assert_eq!(trim("  a b \n"), "a b");
    assert_eq!(trim(""), "");
    assert_eq!(trim(" \t "), "");
    assert_eq!(trim("x"), "x");
    assert_eq!(trim("\u{a0}é\u{2028}"), "é");
}

#[test]
fn searching_finds_prefixes_and_parts() {
    assert!(starts_with("cpu0 1 2", "cpu"));
    assert!(starts_with("cpu", "cpu"));
    assert!(starts_with("cpu", ""));
    assert!(!starts_with("cp", "cpu"));
    assert!(!starts_with("xcpu", "cpu"));
    assert!(contains("Linux x86_64 GNU", "x86_64"));
    assert!(contains("x86_64", "x86_64"));
    assert!(contains("abc", ""));
    assert!(contains("", ""));
    assert!(!contains("x86_6", "x86_64"));
    assert!(!contains("", "a"));
    assert!(contains("aab", "ab"));
    assert_eq!(split_once("k=v=w", '='), Some(("k".to_string(), "v=w".to_string())));
    assert_eq!(split_once("=v", '='), Some((String::new(), "v".to_string())));
    assert_eq!(split_once("k=", '='), Some(("k".to_string(), String::new())));
    assert_eq!(split_once("kv", '='), None);
    assert!(text_eq("a", "a"));
    assert!(!text_eq("a", "b"));
    assert_eq!(chars_of("aé"), vec!['a', 'é']);
}

#[test]
fn joining_puts_the_parts_together() {
    assert_eq!(join("a", "b"), "ab");
    assert_eq!(join3("a", "", "c"), "ac");
    let items = strings(&["a", "b", "c", "d"]);
    assert_eq!(join_words(&items, 0), "a b c d");
    assert_eq!(join_words(&items, 2), "c d");
    assert_eq!(join_words(&items, 3), "d");
    assert_eq!(join_words(&items, 4), "");
    assert_eq!(join_words(&items, 9), "");
}

#[test]
fn numbers_are_written_and_read_in_decimal() {
    for n in [0u64, 7, 10, 99, 100, 8443, 1234567890, u64::MAX] {
        let written = decimal_text(n);
        assert_eq!(written, n.to_string());
        let chars: Vec<char> = written.chars().collect();
        assert_eq!(parse_u64(&chars, 0, chars.len()), Some(n));
    }
    let chars: Vec<char> = "ab+12cd".chars().collect();
    assert_eq!(parse_u64(&chars, 2, 5), Some(12));
    assert_eq!(parse_u64(&chars, 3, 5), Some(12));
    assert_eq!(parse_u64(&chars, 2, 3), None);
    assert_eq!(parse_u64(&chars, 2, 6), None);
    assert_eq!(parse_u64(&chars, 4, 4), None);
    for sample in ["", "+", "-1", "1 ", " 1", "0x10", "١٢", "18446744073709551616", "00018"] {
        let chars: Vec<char> = sample.chars().collect();
        assert_eq!(parse_u64(&chars, 0, chars.len()), sample.parse::<u64>().ok());
    }
}

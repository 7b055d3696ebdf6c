use icpad::text::{chars_of, contains, decimal_string, join_words, split_words, str_eq};

#[test]
fn str_eq_compares_texts() {
    assert!(str_eq("", ""));
    assert!(str_eq("abc", "abc"));
    assert!(!str_eq("abc", "abd"));
    assert!(!str_eq("abc", "ab"));
    assert!(!str_eq("ab", "abc"));
    assert!(str_eq("héllo", "héllo"));
    assert!(!str_eq("héllo", "hello"));
}

#[test]
fn chars_of_lists_the_characters() {
    assert_eq!(chars_of(""), Vec::<char>::new());
    assert_eq!(chars_of("aé✓"), vec!['a', 'é', '✓']);
}

#[test]
fn contains_finds_a_run_of_characters() {
    assert!(contains("pub fn main() {}", "fn main"));
    assert!(contains("abc", "abc"));
    assert!(contains("abc", "c"));
    assert!(contains("abc", "a"));
    assert!(!contains("abc", "abcd"));
    assert!(!contains("abc", "ac"));
    assert!(!contains("", "a"));
    assert!(contains("aab", "ab"));
}

#[test]
fn contains_finds_the_empty_text_everywhere() {
    assert!(contains("abc", ""));
    assert!(contains("", ""));
}

#[test]
fn contains_works_on_characters_not_bytes() {
    assert!(contains("grüße", "üß"));
    assert!(!contains("grüße", "us"));
}

#[test]
fn decimal_string_writes_numbers() {
    assert_eq!(decimal_string(0), "0");
    assert_eq!(decimal_string(7), "7");
    assert_eq!(decimal_string(10), "10");
    assert_eq!(decimal_string(1234567890), "1234567890");
    assert_eq!(decimal_string(1_000_000), "1000000");
    assert_eq!(decimal_string(u64::MAX), "18446744073709551615");
}

#[test]
fn split_words_splits_at_white_space() {
    assert_eq!(split_words("rust build"), vec!["rust".to_string(), "build".to_string()]);
    assert_eq!(split_words("  a \t b\n\nc  "), vec!["a".to_string(), "b".to_string(), "c".to_string()]);
    assert_eq!(split_words("one"), vec!["one".to_string()]);
}

#[test]
fn split_words_of_nothing_is_nothing() {
    assert_eq!(split_words(""), Vec::<String>::new());
    assert_eq!(split_words(" \t\r\n "), Vec::<String>::new());
}

#[test]
fn split_words_knows_white_space_beyond_ascii() {
    assert_eq!(
        split_words("a\u{00a0}b\u{2003}c\u{3000}d"),
        vec!["a".to_string(), "b".to_string(), "c".to_string(), "d".to_string()]
    );
    assert_eq!(split_words("a\u{200b}b"), vec!["a\u{200b}b".to_string()]);
}

#[test]
fn split_words_agrees_with_split_whitespace() {
    let line = " dfx   deploy --network\tic \u{2028} é ";
    let expected: Vec<String> = line.split_whitespace().map(|w| w.to_string()).collect();
    assert_eq!(split_words(line), expected);
}

#[test]
fn join_words_puts_one_space_between() {
    let words = vec!["dfx".to_string(), "deploy".to_string(), "now".to_string()];
    assert_eq!(join_words(&words, 0), "dfx deploy now");
    assert_eq!(join_words(&words, 1), "deploy now");
    assert_eq!(join_words(&words, 2), "now");
    assert_eq!(join_words(&words, 3), "");
    assert_eq!(join_words(&words, 4), "");
    assert_eq!(join_words(&Vec::new(), 0), "");
}

#[test]
fn text_less_orders_texts_as_strings_are_ordered() {
    let samples = ["", "a", "A", "ab", "abc", "abd", "b", "é", "z", "tpl_10", "tpl_9", "\u{10000}", "\u{ffff}"];
    for a in samples {
        for b in samples {
            assert_eq!(icpad::text::text_less(a, b), a < b, "{:?} < {:?}", a, b);
        }
    }
}

#[test]
fn white_space_is_the_set_of_25_characters() {
    let listed = |c: char| {
        let code = c as u32;
        (0x0009..=0x000D).contains(&code)
            || code == 0x0020
            || code == 0x0085
            || code == 0x00A0
            || code == 0x1680
            || (0x2000..=0x200A).contains(&code)
            || code == 0x2028
            || code == 0x2029
            || code == 0x202F
            || code == 0x205F
            || code == 0x3000
    };
    let mut count = 0;
    for code in 0u32..=0x10FFFF {
        if let Some(c) = char::from_u32(code) {
            assert_eq!(c.is_whitespace(), listed(c), "U+{:04X}", code);
            let line = format!("a{}b", c);
            let parts = if listed(c) { 2 } else { 1 };
            if listed(c) {
                count += 1;
                assert_eq!(split_words(&line).len(), parts, "U+{:04X}", code);
            }
        }
    }
    assert_eq!(count, 25);
    assert_eq!(split_words("a\u{200b}b\u{180e}c\u{feff}d").len(), 1);
}

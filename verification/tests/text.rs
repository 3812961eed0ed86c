use rpictl_mcp::text::{
    all_digits, comes_before, first_word, has, lowercase, number, remove, replace, split_at_each,
    split_first, starts_with, strip_prefix, take_chars, trimmed, words_of,
};

#[test]
fn whitespace_is_handled_as_std_does() {
    for text in [
        "",
        "  ",
        " a b ",
        "\u{a0}x\u{2003}y\u{3000}",
        "a\u{200b}b",
        "\tone\u{b}two\r\n",
    ] {
        assert_eq!(trimmed(text), text.trim());
        let words: Vec<&str> = text.split_whitespace().collect();
        assert_eq!(words_of(text), words);
        assert_eq!(
            first_word(text),
            text.split_ascii_whitespace().next().unwrap_or_default()
        );
    }
}

#[test]
fn pieces_are_found_as_std_does() {
    for text in ["", ";", "a;b", "a;;b;", "=x", "k=v=w"] {
        let pieces: Vec<&str> = text.split(';').collect();
        assert_eq!(split_at_each(text, ';'), pieces);
        let halves = text
            .split_once('=')
            .map(|(a, b)| (a.to_string(), b.to_string()));
        assert_eq!(split_first(text, '='), halves);
    }
    assert!(has("abcabd", "abd"));
    assert!(has("abc", ""));
    assert!(!has("ab", "abc"));
    assert!(starts_with("err x", "err"));
    assert!(!starts_with("er", "err"));
    assert_eq!(strip_prefix("POWER on", "POWER "), Some("on".to_string()));
    assert_eq!(strip_prefix("POWER", "POWER "), None);
}

#[test]
fn texts_are_changed_as_std_does() {
    assert_eq!(lowercase("AbC-\u{c4}"), "AbC-\u{c4}".to_ascii_lowercase());
    assert_eq!(replace("a-b-c", '-', ':'), "a:b:c");
    assert_eq!(remove("a-b-", '-'), "ab");
    assert_eq!(take_chars("h\u{e9}llo", 2), "h\u{e9}");
    assert_eq!(take_chars("h", 2), "h");
    assert!(all_digits("0123"));
    assert!(all_digits(""));
    assert!(!all_digits("12a"));
    assert!(!all_digits("\u{661}"));
    for n in [0usize, 7, 10, 99, 100, 4096, usize::MAX] {
        assert_eq!(number(n), n.to_string());
    }
    for (a, b) in [("a", "b"), ("a", "a"), ("", "a"), ("ab", "a"), ("Z", "a")] {
        assert_eq!(comes_before(a, b), a < b);
        assert_eq!(comes_before(b, a), b < a);
    }
}

use lens::text::begins_with;
use lens::text::chars_of;
use lens::text::parse_number;
use lens::text::same_text;
use lens::text::space;
use lens::text::split_lines;
use lens::text::split_whitespace;
use lens::text::sub_text;
use lens::text::text_after_last;

fn words(text: &str) -> Vec<String> {
    split_whitespace(&chars_of(text)).into_iter().map(|w| w.into_iter().collect()).collect()
}

fn rows(text: &str) -> Vec<String> {
    split_lines(&chars_of(text)).into_iter().map(|w| w.into_iter().collect()).collect()
}

fn number(text: &str) -> Option<u64> {
    parse_number(&chars_of(text))
}

#[test]
fn chars_of_keeps_every_character() {
    assert_eq!(chars_of(""), Vec::<char>::new());
    assert_eq!(chars_of("a b"), vec!['a', ' ', 'b']);
    assert_eq!(chars_of("é\u{3000}z"), vec!['é', '\u{3000}', 'z']);
}

#[test]
fn space_agrees_with_the_standard_library() {
    for code in 0u32..0x11_0000 {
        if let Some(c) = char::from_u32(code) {
            assert_eq!(space(c), c.is_whitespace(), "U+{:04X}", code);
        }
    }
}

#[test]
fn fields_are_the_runs_between_white_space() {
    assert_eq!(words(""), Vec::<String>::new());
    assert_eq!(words("   \t\n"), Vec::<String>::new());
    assert_eq!(words("one"), vec!["one"]);
    assert_eq!(words("  one  two\tthree\n"), vec!["one", "two", "three"]);
    assert_eq!(words("a\u{a0}b\u{2003}c\r"), vec!["a", "b", "c"]);
    assert_eq!(words("VmRSS:\t    1234 kB"), vec!["VmRSS:", "1234", "kB"]);
}

#[test]
fn fields_agree_with_the_standard_library() {
    let texts = [
        "1 (a b) R 2",
        " lead",
        "trail ",
        "\u{85}x\u{1680}y\u{2028}z\u{205f}",
        "tab\tseparated\tvalues",
        "multi\nline\r\ntext",
    ];
    for text in texts {
        let expected: Vec<&str> = text.split_whitespace().collect();
        assert_eq!(words(text), expected);
    }
}

#[test]
fn lines_end_at_line_feeds() {
    assert_eq!(rows(""), Vec::<String>::new());
    assert_eq!(rows("\n"), vec![""]);
    assert_eq!(rows("a"), vec!["a"]);
    assert_eq!(rows("a\n"), vec!["a"]);
    assert_eq!(rows("a\nb"), vec!["a", "b"]);
    assert_eq!(rows("a\n\nb\n"), vec!["a", "", "b"]);
    assert_eq!(rows("\n\n"), vec!["", ""]);
    assert_eq!(rows("a\r\nb"), vec!["a\r", "b"]);
}

#[test]
fn lines_agree_with_the_standard_library_but_for_carriage_returns() {
    let texts = ["", "x", "x\n", "x\ny", "\n", "\n\n\nx", "a b\n c d \n\n"];
    for text in texts {
        let expected: Vec<&str> = text.lines().collect();
        assert_eq!(rows(text), expected);
    }
}

#[test]
fn numbers_are_unsigned_decimals() {
    assert_eq!(number("0"), Some(0));
    assert_eq!(number("42"), Some(42));
    assert_eq!(number("+42"), Some(42));
    assert_eq!(number("007"), Some(7));
    assert_eq!(number("18446744073709551615"), Some(u64::MAX));
    assert_eq!(number("00018446744073709551615"), Some(u64::MAX));
}

#[test]
fn other_words_are_no_numbers() {
    assert_eq!(number(""), None);
    assert_eq!(number("+"), None);
    assert_eq!(number("-1"), None);
    assert_eq!(number("++1"), None);
    assert_eq!(number("1+"), None);
    assert_eq!(number("12a"), None);
    assert_eq!(number("a12"), None);
    assert_eq!(number("1 2"), None);
    assert_eq!(number("1.5"), None);
    assert_eq!(number("٣"), None);
    assert_eq!(number("18446744073709551616"), None);
    assert_eq!(number("99999999999999999999999"), None);
}

#[test]
fn numbers_agree_with_the_standard_library() {
    let texts = ["", "+", "-", "0", "+0", "-0", "12", "1_000", " 1", "255", "18446744073709551615",
        "18446744073709551616", "184467440737095516150", "0x10", "１２"];
    for text in texts {
        assert_eq!(number(text), text.parse::<u64>().ok(), "{:?}", text);
    }
}

#[test]
fn prefixes_and_equality() {
    let line = chars_of("VmRSS:\t12 kB");
    assert!(begins_with(&line, &chars_of("VmRSS:")));
    assert!(begins_with(&line, &chars_of("")));
    assert!(begins_with(&line, &line));
    assert!(!begins_with(&line, &chars_of("VmRSS:\t12 kB ")));
    assert!(!begins_with(&line, &chars_of("VmPeak:")));
    assert!(same_text(&chars_of("abc"), &chars_of("abc")));
    assert!(same_text(&chars_of(""), &chars_of("")));
    assert!(!same_text(&chars_of("abc"), &chars_of("abd")));
    assert!(!same_text(&chars_of("abc"), &chars_of("ab")));
}

#[test]
fn sub_text_copies_a_range() {
    let text = chars_of("--warm=3");
    assert_eq!(sub_text(&text, 2, 6), chars_of("warm"));
    assert_eq!(sub_text(&text, 7, 8), chars_of("3"));
    assert_eq!(sub_text(&text, 3, 3), chars_of(""));
    assert_eq!(sub_text(&text, 0, 8), text);
}

#[test]
fn text_after_the_last_mark() {
    let after = |text: &str| -> Option<String> {
        text_after_last(&chars_of(text), ')').map(|rest| rest.into_iter().collect())
    };
    assert_eq!(after(""), None);
    assert_eq!(after("no mark"), None);
    assert_eq!(after("(only an opening one"), None);
    assert_eq!(after(")"), Some("".to_string()));
    assert_eq!(after("1 (a) S 2"), Some(" S 2".to_string()));
    assert_eq!(after("1 (a) b) S 2"), Some(" S 2".to_string()));
    assert_eq!(after("x))"), Some("".to_string()));
    assert_eq!(after(")é("), Some("é(".to_string()));
}

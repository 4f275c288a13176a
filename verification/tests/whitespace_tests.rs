use source_concat::chars::{is_whitespace, to_chars};
use source_concat::whitespace::{leading_spaces, squeeze_chars, trim_chars, trimmed_end};

fn text(chars: &[char]) -> String {
    chars.iter().collect()
}

#[test]
fn whitespace_class_agrees_with_std_on_every_char() {
    for code in 0..=0x10FFFFu32 {
        if let Some(c) = char::from_u32(code) {
            assert_eq!(is_whitespace(c), c.is_whitespace(), "U+{:04X}", code);
        }
    }
}

#[test]
fn whitespace_class_on_named_characters() {
    assert!(is_whitespace(' '));
    assert!(is_whitespace('\t'));
    assert!(is_whitespace('\n'));
    assert!(is_whitespace('\r'));
    assert!(is_whitespace('\u{a0}'));
    assert!(is_whitespace('\u{3000}'));
    assert!(!is_whitespace('a'));
    assert!(!is_whitespace('/'));
    assert!(!is_whitespace('\u{200b}'));
}

#[test]
fn to_chars_lists_the_characters() {
    assert_eq!(to_chars("a\u{e9}z"), vec!['a', '\u{e9}', 'z']);
    assert_eq!(to_chars(""), Vec::<char>::new());
}

#[test]
fn leading_spaces_counts_characters_not_bytes() {
    assert_eq!(leading_spaces(&to_chars("    x")), 4);
    assert_eq!(leading_spaces(&to_chars("\t\u{3000} x")), 3);
    assert_eq!(leading_spaces(&to_chars("x  ")), 0);
    assert_eq!(leading_spaces(&to_chars("   ")), 3);
    assert_eq!(leading_spaces(&to_chars("")), 0);
}

#[test]
fn trimmed_end_skips_trailing_whitespace() {
    assert_eq!(trimmed_end(&to_chars("ab  ")), 2);
    assert_eq!(trimmed_end(&to_chars("  ab")), 4);
    assert_eq!(trimmed_end(&to_chars("   ")), 0);
    assert_eq!(trimmed_end(&to_chars("")), 0);
}

#[test]
fn trim_agrees_with_std() {
    let samples = [
        "", " ", "a", "  a", "a  ", "  a b  ", "\t\r\n x \u{a0}", "\u{2003}wide\u{2003}",
        "   \t  ", "x\ty",
    ];
    for s in samples {
        assert_eq!(text(&trim_chars(&to_chars(s))), s.trim(), "{:?}", s);
    }
}

#[test]
fn squeeze_turns_each_run_into_one_space() {
    assert_eq!(text(&squeeze_chars(&to_chars("a   b"))), "a b");
    assert_eq!(text(&squeeze_chars(&to_chars("a\t\t b\u{a0}c"))), "a b c");
    assert_eq!(text(&squeeze_chars(&to_chars("  a  "))), " a ");
    assert_eq!(text(&squeeze_chars(&to_chars(""))), "");
    assert_eq!(text(&squeeze_chars(&to_chars("abc"))), "abc");
}

#[test]
fn squeeze_of_trimmed_text_joins_its_words() {
    let samples = ["const   x   =   1;", "a", "a b", "fn  main ( )\t{", "x\u{3000}\u{3000}y z"];
    for s in samples {
        let words: Vec<&str> = s.split_whitespace().collect();
        assert_eq!(text(&squeeze_chars(&to_chars(s))), words.join(" "), "{:?}", s);
    }
}

use source_concat::chars::to_chars;
use source_concat::strip::{
    is_blank_chars, is_comment_chars, strip_chars, strip_line_chars, strip_spaces,
};

fn text(chars: &[char]) -> String {
    chars.iter().collect()
}

/// The same stripping, written with the string methods of std.
fn strip_with_std(content: &str) -> String {
    let lines: Vec<String> = content
        .lines()
        .filter(|line| !line.trim().is_empty())
        .map(|line| {
            let trimmed = line.trim();
            if trimmed.starts_with("//") || trimmed.starts_with("#") {
                trimmed.to_string()
            } else {
                let indent = line.chars().take_while(|c| c.is_whitespace()).count();
                let words: Vec<&str> = trimmed.split_whitespace().collect();
                format!("{}{}", " ".repeat(indent), words.join(" "))
            }
        })
        .collect();
    lines.join("\n")
}

const SAMPLES: [&str; 16] = [
    "",
    "\n",
    "\n\n\n",
    "    const   x   =   1;",
    "a\nb\n",
    "a\r\nb\r\n",
    "a\r",
    "  // note   with   gaps  \n\tlet  y = 2;\n\n   \n# heading   text\n",
    "fn main() {\n    let   a  =  1;\n\n\n    //  keep   this\n}\n",
    "\t\tdeep\t\tindent",
    "/ / not a comment",
    "/",
    "#",
    "  x  \u{3000}  y  ",
    "\u{a0}\u{a0}wide   indent",
    "one\n  two\n    three   four\n",
];

#[test]
fn strip_keeps_indentation_and_squeezes_runs() {
    assert_eq!(strip_spaces("    const   x   =   1;"), "    const x = 1;");
}

#[test]
fn strip_drops_blank_lines() {
    assert_eq!(strip_spaces("a\n\n  \n\t\nb\n"), "a\nb");
    assert_eq!(strip_spaces("\n\n"), "");
    assert_eq!(strip_spaces(""), "");
    assert_eq!(strip_spaces("   "), "");
}

#[test]
fn strip_trims_comment_lines_and_keeps_their_inside() {
    assert_eq!(strip_spaces("   //  a   b  "), "//  a   b");
    assert_eq!(strip_spaces("\t# title   here\t"), "# title   here");
    assert_eq!(strip_spaces("  / / x"), "  / / x");
}

#[test]
fn strip_turns_indentation_into_spaces_of_the_same_width() {
    assert_eq!(strip_spaces("\t\tx"), "  x");
    assert_eq!(strip_spaces("\t \u{a0}x  y"), "   x y");
}

#[test]
fn strip_treats_carriage_returns_as_whitespace() {
    assert_eq!(strip_spaces("a  b\r\n  c\r\n"), "a b\n  c");
    assert_eq!(strip_spaces("a\rb"), "a b");
}

#[test]
fn strip_agrees_with_std_on_samples() {
    for s in SAMPLES {
        assert_eq!(strip_spaces(s), strip_with_std(s), "{:?}", s);
    }
}

#[test]
fn strip_is_idempotent_on_samples() {
    for s in SAMPLES {
        let once = strip_spaces(s);
        assert_eq!(strip_spaces(&once), once, "{:?}", s);
    }
}

#[test]
fn strip_chars_agrees_with_strip_spaces() {
    for s in SAMPLES {
        assert_eq!(text(&strip_chars(&to_chars(s))), strip_spaces(s), "{:?}", s);
    }
}

#[test]
fn strip_line_on_single_lines() {
    assert_eq!(text(&strip_line_chars(&to_chars("  let   a = 1;  "))), "  let a = 1;");
    assert_eq!(text(&strip_line_chars(&to_chars("  // c   d  "))), "// c   d");
    assert_eq!(text(&strip_line_chars(&to_chars("x"))), "x");
}

#[test]
fn blank_lines_are_recognised() {
    assert!(is_blank_chars(&to_chars("")));
    assert!(is_blank_chars(&to_chars(" \t\r")));
    assert!(!is_blank_chars(&to_chars(" . ")));
}

#[test]
fn comment_lines_are_recognised() {
    assert!(is_comment_chars(&to_chars("// x")));
    assert!(is_comment_chars(&to_chars("//")));
    assert!(is_comment_chars(&to_chars("#")));
    assert!(is_comment_chars(&to_chars("#define")));
    assert!(!is_comment_chars(&to_chars("/")));
    assert!(!is_comment_chars(&to_chars("/ /")));
    assert!(!is_comment_chars(&to_chars("")));
    assert!(!is_comment_chars(&to_chars(" //")));
}

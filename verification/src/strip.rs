//! Whitespace stripping: blank lines are dropped, comment lines are
//! trimmed, and every other line keeps the width of its indentation while
//! the runs of whitespace inside it shrink to one space each.

use crate::chars::{from_chars, to_chars};
use crate::text::{
    free_of, join, join_chars, lemma_split_join, lemma_split_pieces, push_all, rows, split_chars,
    split_on,
};
use crate::whitespace::{
    indent_width, is_blank, leading_spaces, lemma_blank, lemma_squeeze_fixed,
    lemma_squeeze_trimmed, lemma_trim_fixed, lemma_trim_indented, lemma_trim_shape, squeeze,
    squeeze_chars, trim, trim_chars,
};
use vstd::prelude::*;

verus! {

/// Whether the trimmed line `t` is a comment: it begins with `//` or with `#`.
pub open spec fn is_comment(t: Seq<char>) -> bool {
    ||| t.len() >= 2 && t[0] == '/' && t[1] == '/'
    ||| t.len() >= 1 && t[0] == '#'
}

/// `n` space characters.
pub open spec fn spaces(n: int) -> Seq<char> {
    Seq::new(n as nat, |i: int| ' ')
}

/// The stripped form of one line that is not blank. A comment is trimmed.
/// Any other line becomes as many spaces as it had leading whitespace
/// characters, followed by its trimmed text with whitespace runs squeezed.
pub open spec fn strip_line(line: Seq<char>) -> Seq<char> {
    let t = trim(line);
    if is_comment(t) {
        t
    } else {
        spaces(indent_width(line)) + squeeze(t)
    }
}

/// The stripped forms of those `lines` that are not blank, in order.
pub open spec fn strip_lines(lines: Seq<Seq<char>>) -> Seq<Seq<char>> {
    lines.filter(|l: Seq<char>| !is_blank(l)).map_values(|l: Seq<char>| strip_line(l))
}

/// The stripped form of a whole text: its lines are those between line
/// feeds, and the lines that remain are joined by single line feeds.
pub open spec fn stripped(content: Seq<char>) -> Seq<char> {
    join(strip_lines(split_on(content, '\n')), seq!['\n'])
}

/// How `strip_lines` grows with one more line.
proof fn lemma_strip_lines_push(lines: Seq<Seq<char>>, line: Seq<char>)
    ensures
        strip_lines(lines.push(line)) == if is_blank(line) {
            strip_lines(lines)
        } else {
            strip_lines(lines).push(strip_line(line))
        },
{
    lines.lemma_filter_push(line, |l: Seq<char>| !is_blank(l));
}

/// Stripping a line that is not blank gives a line that is not blank and
/// that stripping leaves as it is. Where the line held no line feed, its
/// stripped form holds none.
pub proof fn lemma_strip_line_fixed(line: Seq<char>)
    requires
        !is_blank(line),
    ensures
        !is_blank(strip_line(line)),
        strip_line(strip_line(line)) == strip_line(line),
        free_of(line, '\n') ==> free_of(strip_line(line), '\n'),
{
    lemma_trim_shape(line);
    let t = trim(line);
    if is_comment(t) {
        lemma_trim_fixed(t);
    } else {
        // The line becomes `pad + words`. Its words begin as `t` begins, so
        // they are no comment either; trimming it gives the words again, and
        // squeezing leaves them as they are.
        let pad = spaces(indent_width(line));
        let words = squeeze(t);
        lemma_squeeze_trimmed(t);
        assert(!is_comment(words));
        lemma_trim_indented(pad, words);
        lemma_squeeze_fixed(words, words.len() as int);
        // A line feed is whitespace, and squeezed text holds no whitespace
        // but spaces.
        assert(free_of(pad + words, '\n'));
    }
}

/// Stripped lines are left as they are by another stripping, and hold no
/// line feed where the lines they came from held none.
proof fn lemma_strip_lines_fixed(lines: Seq<Seq<char>>)
    requires
        forall|i: int| 0 <= i < lines.len() ==> free_of(#[trigger] lines[i], '\n'),
    ensures
        strip_lines(strip_lines(lines)) == strip_lines(lines),
        forall|j: int|
            0 <= j < strip_lines(lines).len() ==> free_of(#[trigger] strip_lines(lines)[j], '\n'),
    decreases lines.len(),
{
    if lines.len() == 0 {
        lemma_strip_lines_empty();
    } else {
        let front = lines.drop_last();
        let last = lines.last();
        assert(lines == front.push(last));
        lemma_strip_lines_fixed(front);
        lemma_strip_lines_push(front, last);
        if !is_blank(last) {
            lemma_strip_line_fixed(last);
            lemma_strip_lines_push(strip_lines(front), strip_line(last));
        }
    }
}

/// No lines give no stripped lines.
proof fn lemma_strip_lines_empty()
    ensures
        strip_lines(Seq::<Seq<char>>::empty()) == Seq::<Seq<char>>::empty(),
{
    reveal(Seq::filter);
}

/// Stripping is idempotent: a text that was stripped is left as it is by
/// another stripping.
pub proof fn lemma_stripping_is_idempotent(content: Seq<char>)
    ensures
        stripped(stripped(content)) == stripped(content),
{
    let lines = split_on(content, '\n');
    lemma_split_pieces(content, '\n');
    lemma_strip_lines_fixed(lines);
    let kept = strip_lines(lines);
    if kept.len() == 0 {
        // Nothing was kept: the stripped text is empty, and its one line
        // is blank.
        lemma_strip_lines_empty();
        lemma_strip_lines_push(Seq::<Seq<char>>::empty(), Seq::<char>::empty());
    } else {
        // The lines of the stripped text are the kept lines again.
        lemma_split_join(kept, '\n');
    }
}

/// Tests whether `s` holds nothing but whitespace.
pub fn is_blank_chars(s: &Vec<char>) -> (b: bool)
    ensures
        b == is_blank(s@),
{
    proof {
        lemma_blank(s@);
    }
    leading_spaces(s) == s.len()
}

/// Tests whether the trimmed line `t` begins with `//` or with `#`.
pub fn is_comment_chars(t: &Vec<char>) -> (b: bool)
    ensures
        b == is_comment(t@),
{
    (t.len() >= 2 && t[0] == '/' && t[1] == '/') || (t.len() >= 1 && t[0] == '#')
}

/// Strips one line that is not blank.
pub fn strip_line_chars(line: &Vec<char>) -> (out: Vec<char>)
    ensures
        out@ == strip_line(line@),
{
    let t = trim_chars(line);
    if is_comment_chars(&t) {
        t
    } else {
        let width = leading_spaces(line);
        let mut out: Vec<char> = Vec::new();
        let mut i: usize = 0;
        while i < width
            invariant
                i <= width,
                out@ == spaces(i as int),
            decreases width - i,
        {
            out.push(' ');
            i += 1;
        }
        let words = squeeze_chars(&t);
        push_all(&mut out, &words);
        out
    }
}

/// Strips a whole text, given as characters, of blank lines and of
/// needless whitespace.
pub fn strip_chars(content: &Vec<char>) -> (out: Vec<char>)
    ensures
        out@ == stripped(content@),
{
    let lines = split_chars(content, '\n');
    let mut kept: Vec<Vec<char>> = Vec::new();
    let mut i: usize = 0;
    proof {
        lemma_strip_lines_empty();
    }
    while i < lines.len()
        invariant
            i <= lines.len(),
            rows(kept@) == strip_lines(rows(lines@).take(i as int)),
        decreases lines.len() - i,
    {
        proof {
            assert(rows(lines@).take(i + 1) == rows(lines@).take(i as int).push(lines@[i as int]@));
            lemma_strip_lines_push(rows(lines@).take(i as int), lines@[i as int]@);
        }
        if !is_blank_chars(&lines[i]) {
            kept.push(strip_line_chars(&lines[i]));
        }
        i += 1;
    }
    proof {
        assert(rows(lines@).take(i as int) == rows(lines@));
    }
    let mut feed: Vec<char> = Vec::new();
    feed.push('\n');
    join_chars(&kept, &feed)
}

/// Strips a whole text of blank lines and of needless whitespace.
pub fn strip_spaces(content: &str) -> (out: String)
    ensures
        out@ == stripped(content@),
{
    from_chars(&strip_chars(&to_chars(content)))
}

} // verus!

//! Leading and trailing whitespace, trimming, and the squeezing of
//! whitespace runs.

use crate::chars::{is_space, is_whitespace};
use vstd::prelude::*;

verus! {

/// The index of the first character of `s` at or after `from` that is not
/// whitespace, or `s.len()` where only whitespace follows.
pub open spec fn skip_spaces(s: Seq<char>, from: int) -> int
    decreases s.len() - from,
{
    if 0 <= from < s.len() && is_space(s[from]) {
        skip_spaces(s, from + 1)
    } else {
        from
    }
}

/// Where the text of `s[..upto]` ends once its trailing whitespace is left off.
pub open spec fn text_end(s: Seq<char>, upto: int) -> int
    decreases upto,
{
    if 0 < upto <= s.len() && is_space(s[upto - 1]) {
        text_end(s, upto - 1)
    } else {
        upto
    }
}

/// The number of whitespace characters that `s` begins with.
pub open spec fn indent_width(s: Seq<char>) -> int {
    skip_spaces(s, 0)
}

/// Whether `s` holds nothing but whitespace.
pub open spec fn is_blank(s: Seq<char>) -> bool {
    forall|i: int| 0 <= i < s.len() ==> is_space(s[i])
}

/// `s` without its leading and trailing whitespace.
pub open spec fn trim(s: Seq<char>) -> Seq<char> {
    let start = skip_spaces(s, 0);
    let end = text_end(s, s.len() as int);
    if start < end {
        s.subrange(start, end)
    } else {
        Seq::<char>::empty()
    }
}

/// The first `n` characters of `s` with every run of whitespace replaced by
/// one space character.
pub open spec fn squeezed(s: Seq<char>, n: int) -> Seq<char>
    decreases n,
{
    if n <= 0 {
        Seq::<char>::empty()
    } else {
        let before = squeezed(s, n - 1);
        if !is_space(s[n - 1]) {
            before.push(s[n - 1])
        } else if n >= 2 && is_space(s[n - 2]) {
            before
        } else {
            before.push(' ')
        }
    }
}

/// `s` with every run of whitespace replaced by one space character.
pub open spec fn squeeze(s: Seq<char>) -> Seq<char> {
    squeezed(s, s.len() as int)
}

/// `skip_spaces` stops at the first character that is not whitespace.
pub proof fn lemma_skip_spaces(s: Seq<char>, from: int)
    requires
        0 <= from <= s.len(),
    ensures
        from <= skip_spaces(s, from) <= s.len(),
        forall|i: int| from <= i < skip_spaces(s, from) ==> is_space(s[i]),
        skip_spaces(s, from) < s.len() ==> !is_space(s[skip_spaces(s, from)]),
    decreases s.len() - from,
{
    if from < s.len() && is_space(s[from]) {
        lemma_skip_spaces(s, from + 1);
    }
}

/// `text_end` stops behind the last character that is not whitespace.
pub proof fn lemma_text_end(s: Seq<char>, upto: int)
    requires
        0 <= upto <= s.len(),
    ensures
        0 <= text_end(s, upto) <= upto,
        forall|i: int| text_end(s, upto) <= i < upto ==> is_space(s[i]),
        text_end(s, upto) > 0 ==> !is_space(s[text_end(s, upto) - 1]),
    decreases upto,
{
    if 0 < upto && is_space(s[upto - 1]) {
        lemma_text_end(s, upto - 1);
    }
}

/// A sequence is blank exactly when skipping its leading whitespace
/// reaches its end, and exactly when its trimmed form is empty.
pub proof fn lemma_blank(s: Seq<char>)
    ensures
        is_blank(s) <==> skip_spaces(s, 0) == s.len(),
        is_blank(s) <==> trim(s).len() == 0,
        !is_blank(s) ==> skip_spaces(s, 0) < text_end(s, s.len() as int),
{
    lemma_skip_spaces(s, 0);
    lemma_text_end(s, s.len() as int);
}

/// Whether `t` begins and ends with a character that is not whitespace.
pub open spec fn is_trimmed(t: Seq<char>) -> bool {
    t.len() > 0 && !is_space(t[0]) && !is_space(t.last())
}

/// Whether every whitespace character of `t` is a space that is followed
/// by a character that is not whitespace.
pub open spec fn is_squeezed(t: Seq<char>) -> bool {
    forall|i: int|
        0 <= i < t.len() && is_space(#[trigger] t[i]) ==> t[i] == ' ' && i + 1 < t.len()
            && !is_space(t[i + 1])
}

/// The trimmed form of a line that is not blank begins and ends with text,
/// and is the part of the line between its indentation and its trailing
/// whitespace.
pub proof fn lemma_trim_shape(s: Seq<char>)
    requires
        !is_blank(s),
    ensures
        is_trimmed(trim(s)),
        trim(s) == s.subrange(indent_width(s), text_end(s, s.len() as int)),
        0 <= indent_width(s) < text_end(s, s.len() as int) <= s.len(),
{
    lemma_blank(s);
    lemma_skip_spaces(s, 0);
    lemma_text_end(s, s.len() as int);
}

/// Trimming leaves trimmed text as it is.
pub proof fn lemma_trim_fixed(t: Seq<char>)
    requires
        is_trimmed(t),
    ensures
        trim(t) == t,
        indent_width(t) == 0,
        !is_blank(t),
{
}

/// Trimming removes an indentation of spaces before trimmed text.
pub(crate) proof fn lemma_trim_indented(pad: Seq<char>, t: Seq<char>)
    requires
        is_trimmed(t),
        is_blank(pad),
    ensures
        indent_width(pad + t) == pad.len(),
        trim(pad + t) == t,
        !is_blank(pad + t),
{
    let line = pad + t;
    lemma_skip_spaces(line, 0);
    lemma_text_end(line, line.len() as int);
    assert(line.subrange(pad.len() as int, line.len() as int) == t);
}

/// What squeezing yields: a squeezed text that ends with whitespace exactly
/// when the input does, and that ends with the last character of the input
/// where that is not whitespace. It holds no whitespace but spaces.
proof fn lemma_squeezed_shape(s: Seq<char>, n: int)
    requires
        0 <= n <= s.len(),
    ensures
        n > 0 ==> squeezed(s, n).len() > 0,
        n > 0 && !is_space(s[n - 1]) ==> squeezed(s, n).last() == s[n - 1],
        n > 0 && is_space(s[n - 1]) ==> squeezed(s, n).last() == ' ',
        forall|i: int|
            0 <= i < squeezed(s, n).len() && is_space(#[trigger] squeezed(s, n)[i]) ==> squeezed(
                s,
                n,
            )[i] == ' ',
        forall|i: int|
            0 <= i < squeezed(s, n).len() - 1 && is_space(#[trigger] squeezed(s, n)[i])
                ==> !is_space(squeezed(s, n)[i + 1]),
    decreases n,
{
    if n > 0 {
        lemma_squeezed_shape(s, n - 1);
        let before = squeezed(s, n - 1);
        let now = squeezed(s, n);
        if !is_space(s[n - 1]) {
            assert(now == before.push(s[n - 1]));
            assert forall|i: int| 0 <= i < now.len() - 1 && is_space(#[trigger] now[i]) implies !is_space(
                now[i + 1],
            ) by {
                if i < before.len() - 1 {
                    assert(now[i] == before[i]);
                    assert(now[i + 1] == before[i + 1]);
                }
            }
        } else if n >= 2 && is_space(s[n - 2]) {
        } else {
            assert(now == before.push(' '));
            assert forall|i: int| 0 <= i < now.len() - 1 && is_space(#[trigger] now[i]) implies !is_space(
                now[i + 1],
            ) by {
                if i < before.len() - 1 {
                    assert(now[i] == before[i]);
                    assert(now[i + 1] == before[i + 1]);
                } else {
                    assert(now[i] == before.last());
                }
            }
        }
    }
}

/// Squeezing a longer prefix only appends to what a shorter one gave.
proof fn lemma_squeezed_grows(s: Seq<char>, n: int, m: int)
    requires
        0 <= n <= m,
    ensures
        squeezed(s, n).is_prefix_of(squeezed(s, m)),
    decreases m - n,
{
    if n < m {
        lemma_squeezed_grows(s, n, m - 1);
    }
}

/// Squeezing leaves squeezed text as it is.
pub(crate) proof fn lemma_squeeze_fixed(t: Seq<char>, n: int)
    requires
        is_squeezed(t),
        0 <= n <= t.len(),
    ensures
        squeezed(t, n) == t.take(n),
    decreases n,
{
    if n > 0 {
        lemma_squeeze_fixed(t, n - 1);
    }
}

/// Squeezing trimmed text gives text that is trimmed and squeezed, with
/// the same first character and, but for whitespace turned into a space,
/// the same second one.
pub(crate) proof fn lemma_squeeze_trimmed(t: Seq<char>)
    requires
        is_trimmed(t),
    ensures
        is_trimmed(squeeze(t)),
        is_squeezed(squeeze(t)),
        squeeze(t)[0] == t[0],
        t.len() >= 2 ==> squeeze(t).len() >= 2 && squeeze(t)[1] == (if is_space(t[1]) {
            ' '
        } else {
            t[1]
        }),
        t.len() == 1 ==> squeeze(t).len() == 1,
{
    let n = t.len() as int;
    lemma_squeezed_shape(t, n);
    lemma_squeezed_grows(t, 1, n);
    assert(squeezed(t, 0) == Seq::<char>::empty());
    assert(squeezed(t, 1)[0] == t[0]);
    if n >= 2 {
        lemma_squeezed_grows(t, 2, n);
        assert(squeezed(t, 2)[1] == squeeze(t)[1]);
    }
}

/// Counts the whitespace characters that `s` begins with.
pub fn leading_spaces(s: &Vec<char>) -> (n: usize)
    ensures
        n == indent_width(s@),
        n <= s.len(),
{
    let mut i: usize = 0;
    while i < s.len() && is_whitespace(s[i])
        invariant
            i <= s.len(),
            skip_spaces(s@, 0) == skip_spaces(s@, i as int),
        decreases s.len() - i,
    {
        i += 1;
    }
    i
}

/// Finds where the text of `s` ends once trailing whitespace is left off.
pub fn trimmed_end(s: &Vec<char>) -> (n: usize)
    ensures
        n == text_end(s@, s.len() as int),
        n <= s.len(),
{
    let mut i: usize = s.len();
    while i > 0 && is_whitespace(s[i - 1])
        invariant
            i <= s.len(),
            text_end(s@, s.len() as int) == text_end(s@, i as int),
        decreases i,
    {
        i -= 1;
    }
    i
}

/// Copies `s[from..to]`.
pub(crate) fn slice_chars(s: &Vec<char>, from: usize, to: usize) -> (out: Vec<char>)
    requires
        from <= to <= s.len(),
    ensures
        out@ == s@.subrange(from as int, to as int),
{
    let mut out: Vec<char> = Vec::new();
    let mut i: usize = from;
    while i < to
        invariant
            from <= i <= to <= s.len(),
            out@ == s@.subrange(from as int, i as int),
        decreases to - i,
    {
        out.push(s[i]);
        i += 1;
    }
    out
}

/// Removes leading and trailing whitespace.
pub fn trim_chars(s: &Vec<char>) -> (t: Vec<char>)
    ensures
        t@ == trim(s@),
{
    let start = leading_spaces(s);
    let end = trimmed_end(s);
    if start < end {
        slice_chars(s, start, end)
    } else {
        Vec::new()
    }
}

/// Replaces every run of whitespace by one space character.
pub fn squeeze_chars(s: &Vec<char>) -> (out: Vec<char>)
    ensures
        out@ == squeeze(s@),
{
    let mut out: Vec<char> = Vec::new();
    let mut i: usize = 0;
    while i < s.len()
        invariant
            i <= s.len(),
            out@ == squeezed(s@, i as int),
        decreases s.len() - i,
    {
        if !is_whitespace(s[i]) {
            out.push(s[i]);
        } else if i == 0 || !is_whitespace(s[i - 1]) {
            out.push(' ');
        }
        i += 1;
    }
    out
}

} // verus!

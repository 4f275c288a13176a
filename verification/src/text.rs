//! Splitting and joining of character sequences.

use vstd::prelude::*;

verus! {

/// The views of a vector of character vectors.
pub open spec fn rows(v: Seq<Vec<char>>) -> Seq<Seq<char>> {
    v.map_values(|r: Vec<char>| r@)
}

/// The views of a vector of strings.
pub open spec fn texts(v: Seq<String>) -> Seq<Seq<char>> {
    v.map_values(|s: String| s@)
}

/// The pieces of `s` that lie between the occurrences of `sep`. There is one
/// more piece than there are separators, so the result is never empty.
pub open spec fn split_on(s: Seq<char>, sep: char) -> Seq<Seq<char>>
    decreases s.len(),
{
    if s.len() == 0 {
        seq![Seq::<char>::empty()]
    } else {
        let before = split_on(s.drop_last(), sep);
        if s.last() == sep {
            before.push(Seq::<char>::empty())
        } else {
            before.drop_last().push(before.last().push(s.last()))
        }
    }
}

/// The `parts` in order, with `sep` between each two neighbours.
pub open spec fn join(parts: Seq<Seq<char>>, sep: Seq<char>) -> Seq<char>
    decreases parts.len(),
{
    if parts.len() == 0 {
        Seq::<char>::empty()
    } else if parts.len() == 1 {
        parts[0]
    } else {
        join(parts.drop_last(), sep) + sep + parts.last()
    }
}

/// Whether `c` occurs nowhere in `s`.
pub open spec fn free_of(s: Seq<char>, c: char) -> bool {
    forall|i: int| 0 <= i < s.len() ==> s[i] != c
}

/// A split always yields at least one piece.
pub proof fn lemma_split_len(s: Seq<char>, sep: char)
    ensures
        split_on(s, sep).len() >= 1,
    decreases s.len(),
{
    if s.len() > 0 {
        lemma_split_len(s.drop_last(), sep);
    }
}

/// No piece of a split holds the separator.
pub proof fn lemma_split_pieces(s: Seq<char>, sep: char)
    ensures
        forall|i: int| 0 <= i < split_on(s, sep).len() ==> free_of(#[trigger] split_on(s, sep)[i], sep),
    decreases s.len(),
{
    if s.len() > 0 {
        lemma_split_len(s.drop_last(), sep);
        lemma_split_pieces(s.drop_last(), sep);
    }
}

/// Appending text without a separator lengthens the last piece.
proof fn lemma_split_append(s: Seq<char>, t: Seq<char>, sep: char)
    requires
        free_of(t, sep),
    ensures
        split_on(s + t, sep) == split_on(s, sep).drop_last().push(split_on(s, sep).last() + t),
    decreases t.len(),
{
    lemma_split_len(s, sep);
    let pieces = split_on(s, sep);
    if t.len() > 0 {
        let shorter = t.drop_last();
        lemma_split_append(s, shorter, sep);
        assert((s + t).drop_last() == s + shorter);
        assert((pieces.last() + shorter).push(t.last()) == pieces.last() + t);
    }
}

/// Appending the separator opens a new, empty piece.
proof fn lemma_split_push_sep(s: Seq<char>, sep: char)
    ensures
        split_on(s.push(sep), sep) == split_on(s, sep).push(Seq::<char>::empty()),
{
    assert(s.push(sep).drop_last() == s);
}

/// Lengthening the last part lengthens the joined text by as much.
proof fn lemma_join_append(parts: Seq<Seq<char>>, sep: Seq<char>, t: Seq<char>)
    requires
        parts.len() >= 1,
    ensures
        join(parts.drop_last().push(parts.last() + t), sep) == join(parts, sep) + t,
{
    let grown = parts.drop_last().push(parts.last() + t);
    if parts.len() > 1 {
        assert(grown.drop_last() == parts.drop_last());
    }
}

/// Joining undoes splitting: the pieces of a text, joined by the
/// separator, are the text again.
pub proof fn lemma_join_split(s: Seq<char>, sep: char)
    ensures
        join(split_on(s, sep), seq![sep]) == s,
    decreases s.len(),
{
    if s.len() > 0 {
        let front = s.drop_last();
        let before = split_on(front, sep);
        lemma_split_len(front, sep);
        lemma_join_split(front, sep);
        if s.last() == sep {
            assert(before.push(Seq::<char>::empty()).drop_last() == before);
        } else {
            lemma_join_append(before, seq![sep], seq![s.last()]);
            assert(before.last().push(s.last()) == before.last() + seq![s.last()]);
        }
    }
}

/// Splitting undoes joining: where no part holds the separator, the pieces
/// of the joined text are the parts again.
pub proof fn lemma_split_join(parts: Seq<Seq<char>>, sep: char)
    requires
        parts.len() >= 1,
        forall|i: int| 0 <= i < parts.len() ==> free_of(#[trigger] parts[i], sep),
    ensures
        split_on(join(parts, seq![sep]), sep) == parts,
    decreases parts.len(),
{
    let last = parts.last();
    if parts.len() == 1 {
        lemma_split_append(Seq::<char>::empty(), last, sep);
    } else {
        let front = parts.drop_last();
        lemma_split_join(front, sep);
        let head = join(front, seq![sep]);
        lemma_split_push_sep(head, sep);
        assert(head + seq![sep] == head.push(sep));
        lemma_split_append(head.push(sep), last, sep);
    }
}

/// Appends the characters of `src` to `out`.
pub fn push_all(out: &mut Vec<char>, src: &Vec<char>)
    ensures
        final(out)@ == old(out)@ + src@,
{
    let mut i: usize = 0;
    while i < src.len()
        invariant
            i <= src.len(),
            out@ == old(out)@ + src@.take(i as int),
        decreases src.len() - i,
    {
        out.push(src[i]);
        i += 1;
    }
}

/// Splits `s` at every occurrence of `sep`.
pub fn split_chars(s: &Vec<char>, sep: char) -> (parts: Vec<Vec<char>>)
    ensures
        rows(parts@) == split_on(s@, sep),
{
    let mut parts: Vec<Vec<char>> = Vec::new();
    let mut cur: Vec<char> = Vec::new();
    let mut i: usize = 0;
    while i < s.len()
        invariant
            i <= s.len(),
            split_on(s@.take(i as int), sep) == rows(parts@).push(cur@),
        decreases s.len() - i,
    {
        let c = s[i];
        proof {
            assert(s@.take(i + 1).drop_last() == s@.take(i as int));
        }
        if c == sep {
            parts.push(cur);
            cur = Vec::new();
        } else {
            cur.push(c);
        }
        i += 1;
    }
    proof {
        assert(s@.take(i as int) == s@);
    }
    parts.push(cur);
    parts
}

/// Joins `parts` with `sep` between each two neighbours.
pub fn join_chars(parts: &Vec<Vec<char>>, sep: &Vec<char>) -> (out: Vec<char>)
    ensures
        out@ == join(rows(parts@), sep@),
{
    let mut out: Vec<char> = Vec::new();
    let mut i: usize = 0;
    while i < parts.len()
        invariant
            i <= parts.len(),
            out@ == join(rows(parts@).take(i as int), sep@),
        decreases parts.len() - i,
    {
        proof {
            assert(rows(parts@).take(i + 1).drop_last() == rows(parts@).take(i as int));
        }
        if i > 0 {
            push_all(&mut out, sep);
        }
        push_all(&mut out, &parts[i]);
        i += 1;
    }
    proof {
        assert(rows(parts@).take(i as int) == rows(parts@));
    }
    out
}

} // verus!

//! Paths as text: their segments, the name of the file they lead to, and
//! its extension.
//!
//! A path is read as segments separated by `/`. Its last segment is the
//! name of the file.

use crate::chars::{from_chars, lowercase, lowercased, to_chars};
use crate::text::{lemma_split_len, rows, split_chars, split_on};
use crate::whitespace::slice_chars;
use vstd::prelude::*;

verus! {

/// The segments of `path`: what stands between its `/` characters.
pub open spec fn segments(path: Seq<char>) -> Seq<Seq<char>> {
    split_on(path, '/')
}

/// Whether one of the segments of `path` is exactly `name`.
pub open spec fn has_segment(path: Seq<char>, name: Seq<char>) -> bool {
    segments(path).contains(name)
}

/// The last segment of `path`.
pub open spec fn file_name(path: Seq<char>) -> Seq<char> {
    segments(path).last()
}

/// The index of the last `c` among the first `upto` characters of `s`, or
/// `-1` where there is none.
pub open spec fn last_index_of(s: Seq<char>, c: char, upto: int) -> int
    decreases upto,
{
    if upto <= 0 {
        -1
    } else if s[upto - 1] == c {
        upto - 1
    } else {
        last_index_of(s, c, upto - 1)
    }
}

/// The extension of a file name: what follows its last dot. A name without
/// a dot has none, nor has a name whose only dot is its first character,
/// nor has the name `..`.
pub open spec fn name_extension(name: Seq<char>) -> Option<Seq<char>> {
    let dot = last_index_of(name, '.', name.len() as int);
    if dot <= 0 || name == seq!['.', '.'] {
        None
    } else {
        Some(name.subrange(dot + 1, name.len() as int))
    }
}

/// The extension of the file that `path` leads to.
pub open spec fn extension(path: Seq<char>) -> Option<Seq<char>> {
    name_extension(file_name(path))
}

/// The view of an optional string.
pub open spec fn text_of(s: Option<String>) -> Option<Seq<char>> {
    match s {
        Some(t) => Some(t@),
        None => None,
    }
}

/// The lowercase form of an optional extension.
pub open spec fn lowered(ext: Option<Seq<char>>) -> Option<Seq<char>> {
    match ext {
        Some(e) => Some(lowercased(e)),
        None => None,
    }
}

/// What `last_index_of` finds: a position of `c` with no `c` behind it.
pub proof fn lemma_last_index_of(s: Seq<char>, c: char, upto: int)
    requires
        0 <= upto <= s.len(),
    ensures
        -1 <= last_index_of(s, c, upto) < upto,
        last_index_of(s, c, upto) >= 0 ==> s[last_index_of(s, c, upto)] == c,
        forall|i: int| last_index_of(s, c, upto) < i < upto ==> s[i] != c,
    decreases upto,
{
    if upto > 0 && s[upto - 1] != c {
        lemma_last_index_of(s, c, upto - 1);
    }
}

/// An extension holds no dot, and the name is its stem, a dot and the
/// extension, with a stem that is not empty.
pub proof fn lemma_extension_shape(name: Seq<char>)
    requires
        name_extension(name) is Some,
    ensures
        forall|i: int|
            0 <= i < name_extension(name)->Some_0.len() ==> name_extension(name)->Some_0[i]
                != '.',
        name.len() >= 2 + name_extension(name)->Some_0.len(),
        name == name.take(name.len() - 1 - name_extension(name)->Some_0.len()).push('.')
            + name_extension(name)->Some_0,
{
    lemma_last_index_of(name, '.', name.len() as int);
}

/// Compares two character vectors.
pub fn same_chars(a: &Vec<char>, b: &Vec<char>) -> (eq: bool)
    ensures
        eq == (a@ == b@),
{
    if a.len() != b.len() {
        return false;
    }
    let mut i: usize = 0;
    while i < a.len()
        invariant
            i <= a.len(),
            a.len() == b.len(),
            forall|j: int| 0 <= j < i ==> a@[j] == b@[j],
        decreases a.len() - i,
    {
        if a[i] != b[i] {
            return false;
        }
        i += 1;
    }
    assert(a@ =~= b@);
    true
}

/// Tests whether `name` is among `segs`.
pub fn holds_segment(segs: &Vec<Vec<char>>, name: &Vec<char>) -> (found: bool)
    ensures
        found == rows(segs@).contains(name@),
{
    let mut i: usize = 0;
    while i < segs.len()
        invariant
            i <= segs.len(),
            forall|j: int| 0 <= j < i ==> rows(segs@)[j] != name@,
        decreases segs.len() - i,
    {
        if same_chars(&segs[i], name) {
            assert(rows(segs@)[i as int] == name@);
            return true;
        }
        i += 1;
    }
    false
}

/// Tests whether one of the segments of `path` is exactly `name`.
pub fn contains_segment(path: &str, name: &str) -> (found: bool)
    ensures
        found == has_segment(path@, name@),
{
    let segs = split_chars(&to_chars(path), '/');
    holds_segment(&segs, &to_chars(name))
}

/// Finds the extension of a file name.
pub fn extension_chars(name: &Vec<char>) -> (ext: Option<Vec<char>>)
    ensures
        ext is Some == name_extension(name@) is Some,
        ext is Some ==> ext->Some_0@ == name_extension(name@)->Some_0,
{
    let mut i: usize = name.len();
    while i > 0 && name[i - 1] != '.'
        invariant
            i <= name.len(),
            last_index_of(name@, '.', name.len() as int) == last_index_of(name@, '.', i as int),
        decreases i,
    {
        i -= 1;
    }
    if i <= 1 {
        return None;
    }
    if name.len() == 2 && name[0] == '.' {
        assert(name@ =~= seq!['.', '.']);
        return None;
    }
    assert(name@ != seq!['.', '.']) by {
        if name@.len() == 2 {
            assert(seq!['.', '.'][0] == '.');
        }
    }
    Some(slice_chars(name, i, name.len()))
}

/// Finds the extension of the file that `path` leads to.
pub fn extension_of(path: &str) -> (ext: Option<String>)
    ensures
        ext is Some == extension(path@) is Some,
        ext is Some ==> ext->Some_0@ == extension(path@)->Some_0,
{
    let segs = split_chars(&to_chars(path), '/');
    proof {
        lemma_split_len(path@, '/');
    }
    match extension_chars(&segs[segs.len() - 1]) {
        Some(e) => Some(from_chars(&e)),
        None => None,
    }
}

/// The extension of the file that `path` leads to, in lowercase.
pub fn lowered_extension(path: &str) -> (ext: Option<String>)
    ensures
        text_of(ext) == lowered(extension(path@)),
{
    match extension_of(path) {
        Some(e) => Some(lowercase(e.as_str())),
        None => None,
    }
}

} // verus!

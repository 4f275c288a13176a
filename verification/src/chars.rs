//! Characters: the whitespace class, and moving between strings and
//! vectors of characters.

use vstd::prelude::*;

verus! {

/// Whether `c` is Unicode whitespace (the `White_Space` property).
pub open spec fn is_space(c: char) -> bool {
    ||| '\u{9}' <= c <= '\u{d}'
    ||| c == ' '
    ||| c == '\u{85}'
    ||| c == '\u{a0}'
    ||| c == '\u{1680}'
    ||| '\u{2000}' <= c <= '\u{200a}'
    ||| c == '\u{2028}'
    ||| c == '\u{2029}'
    ||| c == '\u{202f}'
    ||| c == '\u{205f}'
    ||| c == '\u{3000}'
}

/// Tests `c` for Unicode whitespace.
pub fn is_whitespace(c: char) -> (b: bool)
    ensures
        b == is_space(c),
{
    (c >= '\u{9}' && c <= '\u{d}') || c == ' ' || c == '\u{85}' || c == '\u{a0}' || c == '\u{1680}'
        || (c >= '\u{2000}' && c <= '\u{200a}') || c == '\u{2028}' || c == '\u{2029}' || c
        == '\u{202f}' || c == '\u{205f}' || c == '\u{3000}'
}

/// The characters of `s`, in order.
pub fn to_chars(s: &str) -> (v: Vec<char>)
    ensures
        v@ == s@,
{
    let mut v: Vec<char> = Vec::new();
    for c in it: s.chars()
        invariant
            v@ == it.seq().take(it.index()),
            it.seq() == s@,
    {
        v.push(c);
    }
    v
}

/// The lowercase form that std's `str::to_lowercase` gives to `s`. It
/// follows the case mappings of Unicode, which are not restated here.
pub uninterp spec fn lowercased(s: Seq<char>) -> Seq<char>;

/// Calls std's `str::to_lowercase`. The result depends on the characters
/// of `s` alone, not on a locale.
#[verifier::external_body]
pub(crate) fn lowercase(s: &str) -> (out: String)
    ensures
        out@ == lowercased(s@),
{
    s.to_lowercase()
}

/// The string that holds the characters of `v`, in order. The body collects
/// the characters with std's `String::from_iter`, which appends each
/// character in turn to an empty string.
#[verifier::external_body]
pub(crate) fn from_chars(v: &Vec<char>) -> (s: String)
    ensures
        s@ == v@,
{
    String::from_iter(v.iter())
}

} // verus!

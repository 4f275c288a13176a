//! Exclusion patterns: shell-style globs, compiled and matched by the
//! `glob` crate.
//!
//! What the crate makes of a pattern is not restated here. It is named:
//! `glob_compiles` says whether a pattern is valid, `glob_matches` whether
//! a valid pattern matches a path. Both follow the path conventions of the
//! platform that the library is built for.

use std::path::Path;
use vstd::prelude::*;

verus! {

/// Whether `glob::Pattern::new` accepts `pattern`.
pub uninterp spec fn glob_compiles(pattern: Seq<char>) -> bool;

/// Whether the pattern that `glob::Pattern::new` compiles from `pattern`
/// matches `path`, as `glob::Pattern::matches_path` tells.
pub uninterp spec fn glob_matches(pattern: Seq<char>, path: Seq<char>) -> bool;

/// Whether `pattern` excludes `path`: it is valid and matches. A pattern
/// that does not compile excludes nothing.
pub open spec fn pattern_excludes(pattern: Seq<char>, path: Seq<char>) -> bool {
    glob_compiles(pattern) && glob_matches(pattern, path)
}

/// Whether one of `patterns` excludes `path`.
pub open spec fn excluded(path: Seq<char>, patterns: Seq<Seq<char>>) -> bool {
    exists|i: int| 0 <= i < patterns.len() && pattern_excludes(#[trigger] patterns[i], path)
}

/// What became of one pattern on one path.
#[derive(Clone, Copy, Debug, PartialEq, Eq, Structural)]
pub enum Outcome {
    /// The pattern does not compile.
    Invalid,
    /// The pattern compiles and does not match the path.
    Miss,
    /// The pattern compiles and matches the path.
    Hit,
}

/// The outcome that stands for a pattern and a path.
pub open spec fn outcome_of(pattern: Seq<char>, path: Seq<char>) -> Outcome {
    if !glob_compiles(pattern) {
        Outcome::Invalid
    } else if glob_matches(pattern, path) {
        Outcome::Hit
    } else {
        Outcome::Miss
    }
}

/// Calls `glob::Pattern::new` on `pattern` and tells whether it returned a
/// pattern rather than an error. Compiling reads nothing but the text of
/// the pattern.
#[verifier::external_body]
pub(crate) fn try_compile(pattern: &str) -> (ok: bool)
    ensures
        ok == glob_compiles(pattern@),
{
    glob::Pattern::new(pattern).is_ok()
}

/// Compiles `pattern` with `glob::Pattern::new` and, where that gives a
/// pattern, asks `glob::Pattern::matches_path` whether it matches `path`.
/// The result is `None` exactly where the pattern does not compile. The
/// compiled pattern is fixed by the text it came from, and matching reads
/// nothing but the compiled pattern and the text of the path.
#[verifier::external_body]
fn try_match(pattern: &str, path: &str) -> (hit: Option<bool>)
    ensures
        hit is Some == glob_compiles(pattern@),
        hit is Some ==> hit->Some_0 == glob_matches(pattern@, path@),
{
    match glob::Pattern::new(pattern) {
        Ok(compiled) => Some(compiled.matches_path(Path::new(path))),
        Err(_) => None,
    }
}

/// Reads the answer of the matcher: no answer means that the pattern did
/// not compile.
pub fn outcome_from(answer: Option<bool>) -> (outcome: Outcome)
    ensures
        outcome == match answer {
            None => Outcome::Invalid,
            Some(false) => Outcome::Miss,
            Some(true) => Outcome::Hit,
        },
{
    match answer {
        None => Outcome::Invalid,
        Some(false) => Outcome::Miss,
        Some(true) => Outcome::Hit,
    }
}

/// Whether one of the outcomes is a hit. Invalid patterns and misses
/// exclude nothing.
pub open spec fn any_hit(outcomes: Seq<Outcome>) -> bool {
    exists|i: int| 0 <= i < outcomes.len() && #[trigger] outcomes[i] == Outcome::Hit
}

/// Decides from the outcomes of all patterns on one path whether the path
/// is excluded.
pub fn excluded_by(outcomes: &Vec<Outcome>) -> (out: bool)
    ensures
        out == any_hit(outcomes@),
{
    let mut i: usize = 0;
    while i < outcomes.len()
        invariant
            i <= outcomes.len(),
            forall|j: int| 0 <= j < i ==> outcomes@[j] != Outcome::Hit,
        decreases outcomes.len() - i,
    {
        if outcomes[i] == Outcome::Hit {
            return true;
        }
        i += 1;
    }
    false
}

/// Tests one pattern on one path.
pub fn match_pattern(pattern: &str, path: &str) -> (outcome: Outcome)
    ensures
        outcome == outcome_of(pattern@, path@),
{
    outcome_from(try_match(pattern, path))
}

} // verus!

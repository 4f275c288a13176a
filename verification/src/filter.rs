//! The filter: which paths of the tree belong in the output.
//!
//! A path is left out where it lies below a directory that is ignored by
//! default. Otherwise it is let in where its extension is wanted, or where
//! it has none and such files were asked for, unless a pattern excludes it.

use crate::chars::{lowercased, to_chars};
use crate::config::{Config, ConfigView};
use crate::globs::{
    any_hit, excluded, excluded_by, glob_compiles, match_pattern, outcome_of, pattern_excludes,
    try_compile, Outcome,
};
use crate::paths::{
    extension, has_segment, holds_segment, lowered, lowered_extension, text_of,
};
use crate::text::{split_chars, texts};
use vstd::prelude::*;

verus! {

/// Whether a segment of `path` is `node_modules`.
pub open spec fn in_node_modules(path: Seq<char>) -> bool {
    has_segment(path, "node_modules"@)
}

/// Whether a segment of `path` is one of the other names that are ignored
/// by default: `.git`, `target`, `dist`, `build`, `.cache`, `.temp`, `tmp`.
pub open spec fn in_ignored_directory(path: Seq<char>) -> bool {
    ||| has_segment(path, ".git"@)
    ||| has_segment(path, "target"@)
    ||| has_segment(path, "dist"@)
    ||| has_segment(path, "build"@)
    ||| has_segment(path, ".cache"@)
    ||| has_segment(path, ".temp"@)
    ||| has_segment(path, "tmp"@)
}

/// Whether `path` is left out for a segment that is ignored by default.
/// The configuration can switch the whole list off, and can let
/// `node_modules` alone in.
pub open spec fn default_ignored(path: Seq<char>, cfg: ConfigView) -> bool {
    &&& !cfg.no_default_ignores
    &&& (in_node_modules(path) && !cfg.include_node_modules || in_ignored_directory(path))
}

/// Whether a file with the lowercase extension `ext` is wanted: the
/// extension is on the list, or there is none and files without one were
/// asked for.
pub open spec fn extension_wanted(ext: Option<Seq<char>>, cfg: ConfigView) -> bool {
    match ext {
        Some(e) => cfg.extensions.contains(e),
        None => cfg.include_no_ext,
    }
}

/// The decision on one path, given the lowercase form of its extension and
/// the outcome of every exclusion pattern on it.
pub open spec fn decision(
    path: Seq<char>,
    cfg: ConfigView,
    ext: Option<Seq<char>>,
    outcomes: Seq<Outcome>,
) -> bool {
    &&& !default_ignored(path, cfg)
    &&& extension_wanted(ext, cfg)
    &&& !any_hit(outcomes)
}

/// Whether `path` belongs in the output.
pub open spec fn included(path: Seq<char>, cfg: ConfigView) -> bool {
    &&& !default_ignored(path, cfg)
    &&& extension_wanted(lowered(extension(path)), cfg)
    &&& !excluded(path, cfg.exclude)
}

/// The outcomes of `patterns` on `path`, one for each pattern.
pub open spec fn outcomes_of(path: Seq<char>, patterns: Seq<Seq<char>>) -> Seq<Outcome> {
    patterns.map_values(|p: Seq<char>| outcome_of(p, path))
}

/// A hit among the outcomes is a pattern that excludes the path.
proof fn lemma_hit_is_exclusion(path: Seq<char>, patterns: Seq<Seq<char>>)
    ensures
        any_hit(outcomes_of(path, patterns)) == excluded(path, patterns),
{
    let outcomes = outcomes_of(path, patterns);
    if any_hit(outcomes) {
        let i = choose|i: int| 0 <= i < outcomes.len() && #[trigger] outcomes[i] == Outcome::Hit;
        assert(pattern_excludes(patterns[i], path));
    }
    if excluded(path, patterns) {
        let i = choose|i: int|
            0 <= i < patterns.len() && pattern_excludes(#[trigger] patterns[i], path);
        assert(outcomes[i] == Outcome::Hit);
    }
}

/// Tests whether `path` is left out for a segment that is ignored by
/// default.
pub fn is_default_ignored(path: &str, cfg: &Config) -> (ignored: bool)
    ensures
        ignored == default_ignored(path@, cfg@),
{
    if cfg.no_default_ignores {
        return false;
    }
    let segs = split_chars(&to_chars(path), '/');
    (!cfg.include_node_modules && holds_segment(&segs, &to_chars("node_modules")))
        || holds_segment(&segs, &to_chars(".git")) || holds_segment(&segs, &to_chars("target"))
        || holds_segment(&segs, &to_chars("dist")) || holds_segment(&segs, &to_chars("build"))
        || holds_segment(&segs, &to_chars(".cache")) || holds_segment(&segs, &to_chars(".temp"))
        || holds_segment(&segs, &to_chars("tmp"))
}

/// Tests whether a file with the lowercase extension `ext` is wanted.
pub fn is_wanted(ext: &Option<String>, cfg: &Config) -> (wanted: bool)
    ensures
        wanted == extension_wanted(text_of(*ext), cfg@),
{
    match ext {
        None => cfg.include_no_ext,
        Some(e) => {
            let mut i: usize = 0;
            while i < cfg.extensions.len()
                invariant
                    i <= cfg.extensions.len(),
                    text_of(*ext) == Some(e@),
                    forall|j: int| 0 <= j < i ==> texts(cfg.extensions@)[j] != e@,
                decreases cfg.extensions.len() - i,
            {
                if cfg.extensions[i] == *e {
                    assert(cfg@.extensions[i as int] == e@);
                    return true;
                }
                i += 1;
            }
            false
        },
    }
}

/// Decides on one path from the lowercase form of its extension and the
/// outcomes of the exclusion patterns on it.
pub fn decide(path: &str, cfg: &Config, ext: &Option<String>, outcomes: &Vec<Outcome>) -> (keep:
    bool)
    ensures
        keep == decision(path@, cfg@, text_of(*ext), outcomes@),
{
    !is_default_ignored(path, cfg) && is_wanted(ext, cfg) && !excluded_by(outcomes)
}

/// Tests every pattern on `path`.
pub fn match_patterns(path: &str, patterns: &Vec<String>) -> (outcomes: Vec<Outcome>)
    ensures
        outcomes@ == outcomes_of(path@, texts(patterns@)),
{
    let mut outcomes: Vec<Outcome> = Vec::new();
    let mut i: usize = 0;
    while i < patterns.len()
        invariant
            i <= patterns.len(),
            outcomes@ == outcomes_of(path@, texts(patterns@)).take(i as int),
        decreases patterns.len() - i,
    {
        let outcome = match_pattern(patterns[i].as_str(), path);
        outcomes.push(outcome);
        i += 1;
    }
    outcomes
}

/// Decides whether `path` belongs in the output.
pub fn should_include(path: &str, cfg: &Config) -> (keep: bool)
    ensures
        keep == included(path@, cfg@),
{
    let ext = lowered_extension(path);
    let outcomes = match_patterns(path, &cfg.exclude);
    proof {
        lemma_hit_is_exclusion(path@, cfg@.exclude);
    }
    decide(path, cfg, &ext, &outcomes)
}

/// The paths among `candidates` that belong in the output, in their order.
pub open spec fn selection(candidates: Seq<Seq<char>>, cfg: ConfigView) -> Seq<Seq<char>> {
    candidates.filter(|p: Seq<char>| included(p, cfg))
}

/// The patterns among `patterns` that do not compile, in their order.
pub open spec fn invalid_among(patterns: Seq<Seq<char>>) -> Seq<Seq<char>> {
    patterns.filter(|p: Seq<char>| !glob_compiles(p))
}

/// A file is selected where its extension in lowercase is on the list, no
/// pattern excludes its path, and no segment of its path is ignored by
/// default.
pub proof fn lemma_wanted_file_is_included(path: Seq<char>, cfg: ConfigView)
    requires
        extension(path) is Some,
        cfg.extensions.contains(lowercased(extension(path)->Some_0)),
        !excluded(path, cfg.exclude),
        !in_node_modules(path),
        !in_ignored_directory(path),
    ensures
        included(path, cfg),
{
}

/// The case of an extension does not matter: two extensions with the same
/// lowercase form are wanted alike.
pub proof fn lemma_extension_case_is_ignored(first: Seq<char>, second: Seq<char>, cfg: ConfigView)
    requires
        lowercased(first) == lowercased(second),
    ensures
        extension_wanted(lowered(Some(first)), cfg) == extension_wanted(
            lowered(Some(second)),
            cfg,
        ),
{
}

/// A file below `node_modules` is left out, unless `node_modules` was let
/// in or the default list was switched off.
pub proof fn lemma_node_modules_left_out(path: Seq<char>, cfg: ConfigView)
    requires
        in_node_modules(path),
        !cfg.include_node_modules,
        !cfg.no_default_ignores,
    ensures
        !included(path, cfg),
{
}

/// Patterns that do not compile exclude nothing.
pub proof fn lemma_invalid_patterns_exclude_nothing(path: Seq<char>, patterns: Seq<Seq<char>>)
    requires
        forall|i: int| 0 <= i < patterns.len() ==> !glob_compiles(#[trigger] patterns[i]),
    ensures
        !excluded(path, patterns),
{
}

/// The selection holds each path that belongs in the output as often as
/// the candidates do, and no other path.
pub proof fn lemma_selection_counts(candidates: Seq<Seq<char>>, cfg: ConfigView, path: Seq<char>)
    ensures
        selection(candidates, cfg).to_multiset().count(path) == if included(path, cfg) {
            candidates.to_multiset().count(path)
        } else {
            0
        },
    decreases candidates.len(),
{
    broadcast use vstd::seq_lib::group_to_multiset_ensures;

    let keep = |p: Seq<char>| included(p, cfg);
    if candidates.len() == 0 {
        assert(selection(candidates, cfg) == Seq::<Seq<char>>::empty()) by {
            reveal(Seq::filter);
        }
    } else {
        let front = candidates.drop_last();
        let last = candidates.last();
        assert(candidates == front.push(last));
        lemma_selection_counts(front, cfg, path);
        front.lemma_filter_push(last, keep);
    }
}

/// Selects the paths that belong in the output.
pub fn select(candidates: &Vec<String>, cfg: &Config) -> (chosen: Vec<String>)
    ensures
        texts(chosen@) == selection(texts(candidates@), cfg@),
{
    let mut chosen: Vec<String> = Vec::new();
    let mut i: usize = 0;
    proof {
        assert(selection(Seq::<Seq<char>>::empty(), cfg@) == Seq::<Seq<char>>::empty()) by {
            reveal(Seq::filter);
        }
    }
    while i < candidates.len()
        invariant
            i <= candidates.len(),
            texts(chosen@) == selection(texts(candidates@).take(i as int), cfg@),
        decreases candidates.len() - i,
    {
        proof {
            let seen = texts(candidates@).take(i as int);
            assert(texts(candidates@).take(i + 1) == seen.push(candidates@[i as int]@));
            seen.lemma_filter_push(candidates@[i as int]@, |p: Seq<char>| included(p, cfg@));
        }
        if should_include(candidates[i].as_str(), cfg) {
            chosen.push(candidates[i].clone());
        }
        i += 1;
    }
    proof {
        assert(texts(candidates@).take(i as int) == texts(candidates@));
    }
    chosen
}

/// Lists the patterns that do not compile, so that the caller can warn of
/// them. Such patterns exclude nothing.
pub fn invalid_patterns(patterns: &Vec<String>) -> (invalid: Vec<String>)
    ensures
        texts(invalid@) == invalid_among(texts(patterns@)),
{
    let mut invalid: Vec<String> = Vec::new();
    let mut i: usize = 0;
    proof {
        assert(invalid_among(Seq::<Seq<char>>::empty()) == Seq::<Seq<char>>::empty()) by {
            reveal(Seq::filter);
        }
    }
    while i < patterns.len()
        invariant
            i <= patterns.len(),
            texts(invalid@) == invalid_among(texts(patterns@).take(i as int)),
        decreases patterns.len() - i,
    {
        proof {
            let seen = texts(patterns@).take(i as int);
            assert(texts(patterns@).take(i + 1) == seen.push(patterns@[i as int]@));
            seen.lemma_filter_push(patterns@[i as int]@, |p: Seq<char>| !glob_compiles(p));
        }
        if !try_compile(patterns[i].as_str()) {
            invalid.push(patterns[i].clone());
        }
        i += 1;
    }
    proof {
        assert(texts(patterns@).take(i as int) == texts(patterns@));
    }
    invalid
}

} // verus!

use source_concat::globs::{excluded_by, match_pattern, outcome_from, Outcome};

#[test]
fn pattern_outcomes_on_paths() {
    assert_eq!(match_pattern("*.ts", "a.ts"), Outcome::Hit);
    assert_eq!(match_pattern("*.ts", "a.js"), Outcome::Miss);
    assert_eq!(match_pattern("**/*.test.ts", "src/deep/a.test.ts"), Outcome::Hit);
    assert_eq!(match_pattern("**/*.test.ts", "src/deep/a.ts"), Outcome::Miss);
    assert_eq!(match_pattern("src/?.ts", "src/a.ts"), Outcome::Hit);
    assert_eq!(match_pattern("src/[ab].ts", "src/c.ts"), Outcome::Miss);
    assert_eq!(match_pattern("a.ts", "a.ts"), Outcome::Hit);
    assert_eq!(match_pattern("a.ts", "*.ts"), Outcome::Miss);
}

#[test]
fn pattern_that_does_not_compile_is_invalid() {
    assert_eq!(match_pattern("[", "a.ts"), Outcome::Invalid);
    assert_eq!(match_pattern("a**", "a.ts"), Outcome::Invalid);
    assert_eq!(match_pattern("***", "a.ts"), Outcome::Invalid);
    assert_eq!(match_pattern("[", "["), Outcome::Invalid);
}

#[test]
fn empty_pattern_matches_only_the_empty_path() {
    assert_eq!(match_pattern("", "a.ts"), Outcome::Miss);
    assert_eq!(match_pattern("", ""), Outcome::Hit);
}

#[test]
fn outcome_reads_the_answer_of_the_matcher() {
    assert_eq!(outcome_from(None), Outcome::Invalid);
    assert_eq!(outcome_from(Some(false)), Outcome::Miss);
    assert_eq!(outcome_from(Some(true)), Outcome::Hit);
}

#[test]
fn only_a_hit_excludes() {
    assert!(!excluded_by(&vec![]));
    assert!(!excluded_by(&vec![Outcome::Invalid]));
    assert!(!excluded_by(&vec![Outcome::Miss, Outcome::Invalid, Outcome::Miss]));
    assert!(excluded_by(&vec![Outcome::Hit]));
    assert!(excluded_by(&vec![Outcome::Invalid, Outcome::Miss, Outcome::Hit]));
}

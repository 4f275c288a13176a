use source_concat::config::{parse_extensions, Config};
use source_concat::filter::{
    decide, invalid_patterns, is_default_ignored, is_wanted, match_patterns, select,
    should_include,
};
use source_concat::globs::Outcome;

fn config(extensions: &str) -> Config {
    Config { extensions: parse_extensions(extensions), no_open: true, ..Config::default() }
}

fn strings(items: &[&str]) -> Vec<String> {
    items.iter().map(|s| s.to_string()).collect()
}

#[test]
fn default_run_leaves_node_modules_out() {
    let cfg = config("ts,tsx");
    let chosen = select(&strings(&["a.ts", "node_modules/b.ts"]), &cfg);
    assert_eq!(chosen, vec!["a.ts"]);
}

#[test]
fn listed_extensions_select_in_the_order_of_the_candidates() {
    let cfg = config("ts,js");
    assert_eq!(select(&strings(&["a.ts", "b.js", "c.py"]), &cfg), vec!["a.ts", "b.js"]);
    assert_eq!(select(&strings(&["c.py", "b.js", "a.ts"]), &cfg), vec!["b.js", "a.ts"]);
}

#[test]
fn selection_keeps_a_path_as_often_as_it_was_given() {
    let cfg = config("ts");
    let chosen = select(&strings(&["a.ts", "x.py", "a.ts", "b.ts"]), &cfg);
    assert_eq!(chosen, vec!["a.ts", "a.ts", "b.ts"]);
    assert_eq!(select(&Vec::new(), &cfg), Vec::<String>::new());
}

#[test]
fn selection_is_the_same_on_a_second_run() {
    let mut cfg = config("ts,js");
    cfg.exclude = strings(&["**/*.test.ts", "["]);
    let candidates = strings(&["a.ts", "src/a.test.ts", "b.js", "dist/c.js", "d"]);
    assert_eq!(select(&candidates, &cfg), select(&candidates, &cfg));
    assert_eq!(select(&candidates, &cfg), vec!["a.ts", "b.js"]);
}

#[test]
fn extension_is_compared_without_regard_to_case() {
    let cfg = config("ts");
    assert!(should_include("A.TS", &cfg));
    assert!(should_include("src/b.Ts", &cfg));
    assert!(!should_include("c.tsx", &cfg));
    let upper = config("TS");
    assert!(should_include("a.ts", &upper));
}

#[test]
fn node_modules_come_in_only_when_asked_for() {
    let mut cfg = config("ts");
    assert!(!should_include("node_modules/pkg/a.ts", &cfg));
    assert!(!should_include("./web/node_modules/a.ts", &cfg));
    cfg.include_node_modules = true;
    assert!(should_include("node_modules/pkg/a.ts", &cfg));
    assert!(!should_include("node_modules/pkg/dist/a.ts", &cfg));
    assert!(!should_include("node_modules/pkg/a.py", &cfg));
}

#[test]
fn default_ignores_can_be_switched_off() {
    let mut cfg = config("ts");
    for dir in ["node_modules", ".git", "target", "dist", "build", ".cache", ".temp", "tmp"] {
        assert!(!should_include(&format!("{}/a.ts", dir), &cfg), "{}", dir);
        assert!(!should_include(&format!("x/{}/y/a.ts", dir), &cfg), "{}", dir);
    }
    cfg.no_default_ignores = true;
    for dir in ["node_modules", ".git", "target", "dist", "build", ".cache", ".temp", "tmp"] {
        assert!(should_include(&format!("{}/a.ts", dir), &cfg), "{}", dir);
    }
}

#[test]
fn ignored_names_must_be_whole_segments() {
    let cfg = config("ts");
    assert!(should_include("src/builder.ts", &cfg));
    assert!(should_include("distance/a.ts", &cfg));
    assert!(should_include("targets/a.ts", &cfg));
    assert!(should_include("tmpl/a.ts", &cfg));
    assert!(!is_default_ignored("src/builder.ts", &cfg));
    assert!(is_default_ignored("src/build/a.ts", &cfg));
    assert!(is_default_ignored("tmp", &cfg));
}

#[test]
fn files_without_extension_come_in_only_when_asked_for() {
    let mut cfg = config("ts");
    assert!(!should_include("Makefile", &cfg));
    assert!(!should_include(".gitignore", &cfg));
    cfg.include_no_ext = true;
    assert!(should_include("Makefile", &cfg));
    assert!(should_include("src/.env", &cfg));
    assert!(should_include("a.ts", &cfg));
    assert!(!should_include("a.py", &cfg));
    assert!(!should_include("build/Makefile", &cfg));
}

#[test]
fn exclusion_patterns_drop_matching_paths() {
    let mut cfg = config("ts");
    cfg.exclude = strings(&["**/*.test.ts", "gen/*"]);
    assert!(should_include("src/a.ts", &cfg));
    assert!(!should_include("src/a.test.ts", &cfg));
    assert!(!should_include("gen/a.ts", &cfg));
    cfg.include_no_ext = true;
    assert!(!should_include("gen/LICENSE", &cfg));
    assert!(should_include("LICENSE", &cfg));
}

#[test]
fn invalid_pattern_excludes_nothing_and_is_reported() {
    let mut cfg = config("ts");
    cfg.exclude = strings(&["[", "*.test.ts", "a**"]);
    assert!(should_include("a.ts", &cfg));
    assert!(!should_include("a.test.ts", &cfg));
    assert_eq!(invalid_patterns(&cfg.exclude), vec!["[", "a**"]);
    assert_eq!(invalid_patterns(&strings(&["*.ts", ""])), Vec::<String>::new());
    assert_eq!(select(&strings(&["a.ts", "b.ts"]), &cfg), vec!["a.ts", "b.ts"]);
}

#[test]
fn patterns_are_each_tried_on_the_path() {
    let patterns = strings(&["*.ts", "[", "*.js"]);
    assert_eq!(
        match_patterns("a.ts", &patterns),
        vec![Outcome::Hit, Outcome::Invalid, Outcome::Miss]
    );
    assert_eq!(match_patterns("a.ts", &Vec::new()), Vec::<Outcome>::new());
}

#[test]
fn wanted_goes_by_the_list_or_by_the_flag() {
    let mut cfg = config("ts,tsx");
    assert!(is_wanted(&Some("ts".to_string()), &cfg));
    assert!(is_wanted(&Some("tsx".to_string()), &cfg));
    assert!(!is_wanted(&Some("TS".to_string()), &cfg));
    assert!(!is_wanted(&Some("".to_string()), &cfg));
    assert!(!is_wanted(&None, &cfg));
    cfg.include_no_ext = true;
    assert!(is_wanted(&None, &cfg));
    assert!(!is_wanted(&Some("py".to_string()), &cfg));
}

#[test]
fn decision_on_given_values() {
    let cfg = config("ts");
    let ts = Some("ts".to_string());
    let py = Some("py".to_string());
    let miss = vec![Outcome::Miss, Outcome::Invalid];
    let hit = vec![Outcome::Miss, Outcome::Hit];
    assert!(decide("src/a.ts", &cfg, &ts, &miss));
    assert!(decide("src/a.ts", &cfg, &ts, &Vec::new()));
    assert!(!decide("src/a.ts", &cfg, &ts, &hit));
    assert!(!decide("src/a.py", &cfg, &py, &miss));
    assert!(!decide("src/a", &cfg, &None, &miss));
    assert!(!decide("dist/a.ts", &cfg, &ts, &miss));
    assert!(!decide("node_modules/a.ts", &cfg, &ts, &miss));
}

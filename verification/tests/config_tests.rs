use source_concat::config::{
    parse_extensions, Config, DEFAULT_EXTENSIONS, DEFAULT_OUTPUT, DEFAULT_ROOT,
};

#[test]
fn default_configuration_selects_ts_and_tsx_below_the_current_directory() {
    let cfg = Config::default();
    assert_eq!(cfg.root, ".");
    assert_eq!(cfg.output, "concatenated");
    assert_eq!(cfg.extensions, vec!["ts", "tsx"]);
    assert!(cfg.exclude.is_empty());
    assert!(!cfg.include_node_modules);
    assert!(!cfg.no_default_ignores);
    assert!(!cfg.strip_spaces);
    assert!(!cfg.include_no_ext);
    assert!(!cfg.estimate_tokens);
    assert!(!cfg.no_open);
}

#[test]
fn default_values_are_named() {
    assert_eq!(DEFAULT_ROOT, ".");
    assert_eq!(DEFAULT_OUTPUT, "concatenated");
    assert_eq!(DEFAULT_EXTENSIONS, "ts,tsx");
    assert_eq!(parse_extensions(DEFAULT_EXTENSIONS), Config::default().extensions);
}

#[test]
fn extensions_are_split_trimmed_and_lowered() {
    assert_eq!(parse_extensions("ts,tsx"), vec!["ts", "tsx"]);
    assert_eq!(parse_extensions(" TS , Tsx,js "), vec!["ts", "tsx", "js"]);
    assert_eq!(parse_extensions("rs"), vec!["rs"]);
}

#[test]
fn extensions_keep_empty_items() {
    assert_eq!(parse_extensions(""), vec![""]);
    assert_eq!(parse_extensions("ts,,js,"), vec!["ts", "", "js", ""]);
}

#[test]
fn extensions_agree_with_std() {
    let samples = ["ts,tsx", "A, b ,C", ",", " x", "Py,RS,\u{c9}"];
    for s in samples {
        let expected: Vec<String> = s.split(',').map(|item| item.trim().to_lowercase()).collect();
        assert_eq!(parse_extensions(s), expected, "{:?}", s);
    }
}

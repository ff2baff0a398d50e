use sca::config::{
    default_encoding, default_file_glob, default_lsp_version, effective_threshold, encoding_label,
    glob_patterns, list_entries, raw_list_to_targets, threshold_exceeded, ConfigError, Grammar, RawNodeTarget,
};
use sca::model::{FullNodeInfo, Point};
use sca::sanitize::{mask_non_ascii, sanitize_source};
use sca::snapshot::{collect_errors, compare_with_snapshot, format_error, snapshot_errors};
use sca::text::{parse_u64, push_decimal, trim_text};

fn entry(path: &str, name: &str, row: usize, references: usize, prefix: bool, children: Vec<FullNodeInfo>) -> FullNodeInfo {
    FullNodeInfo {
        node_type: "method_definition".to_string(),
        name: name.to_string(),
        start_position: Point { row, column: 4 },
        file_path: path.to_string(),
        references,
        parent_name_prefix: prefix,
        children,
    }
}

#[test]
fn reads_grammar_names() {
    assert_eq!(Grammar::from_str("TypeScript").unwrap(), Grammar::TypeScript);
    assert_eq!(Grammar::from_str("typescript").unwrap(), Grammar::TypeScript);
    match Grammar::from_str("Rust") {
        Err(ConfigError::UnsupportedGrammar(name)) => assert_eq!(name, "rust"),
        other => panic!("unexpected {:?}", other),
    }
}

#[test]
fn raw_targets_without_kind_are_dropped() {
    let raw = RawNodeTarget {
        node_type: Some("class_declaration".to_string()),
        ref_type: Some("type_identifier".to_string()),
        children: vec![
            RawNodeTarget { node_type: None, ref_type: None, children: vec![] },
            RawNodeTarget {
                node_type: Some("method_definition".to_string()),
                ref_type: None,
                children: vec![],
            },
        ],
    };
    let t = raw.into_target().unwrap();
    assert_eq!(t.node_type, "class_declaration");
    assert_eq!(t.ref_type.as_deref(), Some("type_identifier"));
    assert_eq!(t.children.len(), 1);
    assert_eq!(t.children[0].node_type, "method_definition");
    let none = RawNodeTarget { node_type: None, ref_type: None, children: vec![] };
    assert!(none.into_target().is_none());
    let list = raw_list_to_targets(&vec![RawNodeTarget { node_type: None, ref_type: None, children: vec![] }]);
    assert!(list.is_empty());
}

#[test]
fn configuration_defaults() {
    assert_eq!(default_file_glob(), "**/*.*");
    assert_eq!(default_encoding(), "utf-8");
    assert_eq!(default_lsp_version(), "0.0.0");
    assert_eq!(encoding_label("ASCII"), "us-ascii");
    assert_eq!(encoding_label("Windows-1251"), "windows-1251");
    assert_eq!(glob_patterns(&vec![], Some("**/*")), vec!["**/*".to_string()]);
    assert!(glob_patterns(&vec![], None).is_empty());
    assert_eq!(glob_patterns(&vec!["*.ts".to_string()], Some("**/*")), vec!["*.ts".to_string()]);
}

#[test]
fn sanitizes_exactly() {
    assert_eq!(sanitize_source("a // c\nb"), "a \nb");
    assert_eq!(sanitize_source("x /* y\n z */ w"), "x  w");
    assert_eq!(sanitize_source("f();\nconsole.log(a, b);  \ng();"), "f();\ng();");
    assert_eq!(sanitize_source("let é = 1;"), "let   = 1;");
    assert_eq!(mask_non_ascii("aé—b"), "a  b");
}

#[test]
fn text_helpers() {
    assert_eq!(trim_text("  a b \t\n"), "a b");
    assert_eq!(trim_text(" \u{3000} "), "");
    let mut out = String::from("n=");
    push_decimal(&mut out, 0);
    push_decimal(&mut out, 1203);
    assert_eq!(out, "n=01203");
    assert_eq!(parse_u64("0042"), Some(42));
    assert_eq!(parse_u64(""), None);
    assert_eq!(parse_u64("+"), None);
    assert_eq!(parse_u64("-3"), None);
}

#[test]
fn collects_errors_in_pre_order() {
    let tree = entry("a.ts", "A", 1, 0, false, vec![
        entry("a.ts", "B", 2, 3, false, vec![entry("a.ts", "C", 3, 1, true, vec![])]),
        entry("a.ts", "D", 4, 0, false, vec![]),
    ]);
    let errors = collect_errors(&tree);
    let names: Vec<&str> = errors.iter().map(|e| e.name.as_str()).collect();
    assert_eq!(names, vec!["A", "C", "D"]);
    assert_eq!(errors[0].children.len(), 2);
}

#[test]
fn snapshot_against_itself_has_no_new_errors() {
    let forest = vec![
        entry("a.ts", "A", 1, 0, false, vec![entry("a.ts", "Ab", 2, 0, true, vec![])]),
        entry("b.ts", "B", 1, 2, false, vec![]),
    ];
    let snapshot = snapshot_errors(&forest);
    assert_eq!(snapshot.len(), 2);
    assert!(compare_with_snapshot(&forest, &snapshot).is_empty());
}

#[test]
fn snapshot_comparison_matches_file_name_and_position() {
    let forest = vec![
        entry("a.ts", "A", 1, 0, false, vec![]),
        entry("a.ts", "B", 2, 0, false, vec![]),
    ];
    let old = vec![entry("a.ts", "A", 1, 5, true, vec![]), entry("a.ts", "B", 3, 0, false, vec![])];
    let fresh = compare_with_snapshot(&forest, &old);
    assert_eq!(fresh.len(), 1);
    assert_eq!(fresh[0].name, "B");
    assert_eq!(compare_with_snapshot(&forest, &vec![]).len(), 2);
}

#[test]
fn formats_new_errors() {
    let e = entry("src/a.ts", "Foo", 3, 0, true, vec![]);
    assert_eq!(format_error(&e), "src/a.ts:3:4 :: Foo (dead code, useless prefix)");
    let p = entry("src/a.ts", "fooBar", 12, 2, true, vec![]);
    assert_eq!(format_error(&p), "src/a.ts:12:4 :: fooBar (useless prefix)");
}

#[test]
fn reads_file_list_entries() {
    let entries = list_entries("src/a.ts\r\n\n   \n  /abs/b.ts  \nlast");
    assert_eq!(entries, vec!["src/a.ts".to_string(), "/abs/b.ts".to_string(), "last".to_string()]);
    assert!(list_entries("").is_empty());
    assert!(list_entries("\n \t\n").is_empty());
}

#[test]
fn threshold_decides_failure() {
    assert_eq!(effective_threshold(Some(3), Some(9)), Some(3));
    assert_eq!(effective_threshold(None, Some(9)), Some(9));
    assert!(threshold_exceeded(4, Some(3)));
    assert!(!threshold_exceeded(3, Some(3)));
    assert!(!threshold_exceeded(100, None));
}

use sca::analyzer::{
    count_dead_entities, enrich_nodes, has_errors, query_positions,
    references_excluding_declaration,
};
use sca::config::Grammar;
use sca::model::{FullNodeInfo, NodeInfo, NodeTarget, Point};
use sca::report::{build_report, render_node, FAILED_MARK, PASSED_MARK};
use sca::text::is_prefix_ignoring_case;
use sca::tree::{SyntaxNode, SyntaxTree, TreeAnalyzer};

fn syn(kind: &str, text: &str, depth: usize, row: usize, column: usize) -> SyntaxNode {
    SyntaxNode {
        kind: kind.to_string(),
        text: text.to_string(),
        depth,
        start_position: Point { row, column },
    }
}

fn target(kind: &str, ref_kind: Option<&str>, children: Vec<NodeTarget>) -> NodeTarget {
    NodeTarget {
        node_type: kind.to_string(),
        ref_type: ref_kind.map(|k| k.to_string()),
        children,
    }
}

fn full(name: &str, references: usize, prefix: bool, children: Vec<FullNodeInfo>) -> FullNodeInfo {
    FullNodeInfo {
        node_type: "class_declaration".to_string(),
        name: name.to_string(),
        start_position: Point { row: 1, column: 2 },
        file_path: "src/a.ts".to_string(),
        references,
        parent_name_prefix: prefix,
        children,
    }
}

fn class_tree() -> SyntaxTree {
    SyntaxTree {
        nodes: vec![
            syn("program", "class UserService { user() {} }", 0, 0, 0),
            syn("class_declaration", "class UserService { user() {} }", 1, 0, 0),
            syn("type_identifier", " UserService ", 2, 0, 6),
            syn("class_body", "{ user() {} }", 2, 0, 18),
            syn("method_definition", "user() {}", 3, 0, 20),
            syn("property_identifier", "user", 4, 0, 20),
            syn("statement_block", "{}", 4, 0, 27),
        ],
    }
}

fn class_targets() -> Vec<NodeTarget> {
    vec![target(
        "class_declaration",
        Some("type_identifier"),
        vec![target("method_definition", Some("property_identifier"), vec![])],
    )]
}

#[test]
fn matches_nested_declarations_with_reference_kinds() {
    let analyzer = TreeAnalyzer::new(Grammar::TypeScript, class_targets());
    let found = analyzer.find_positions(&class_tree());
    assert_eq!(found.len(), 1);
    assert_eq!(found[0].node_type, "class_declaration");
    assert_eq!(found[0].name, "UserService");
    assert_eq!(found[0].start_position, Point { row: 0, column: 6 });
    assert_eq!(found[0].children.len(), 1);
    assert_eq!(found[0].children[0].node_type, "method_definition");
    assert_eq!(found[0].children[0].name, "user");
    assert_eq!(found[0].children[0].start_position, Point { row: 0, column: 20 });
}

#[test]
fn unresolved_reference_kind_yields_no_match() {
    let targets = vec![target("class_declaration", Some("identifier"), vec![])];
    let analyzer = TreeAnalyzer::new(Grammar::TypeScript, targets);
    assert!(analyzer.find_positions(&class_tree()).is_empty());
}

#[test]
fn node_never_matches_as_its_own_child() {
    let targets = vec![target(
        "class_declaration",
        None,
        vec![target("class_declaration", None, vec![])],
    )];
    let analyzer = TreeAnalyzer::new(Grammar::TypeScript, targets);
    let found = analyzer.find_positions(&class_tree());
    assert_eq!(found.len(), 1);
    assert!(found[0].children.is_empty());
}

#[test]
fn several_targets_match_the_same_kind_independently() {
    let targets = vec![
        target("method_definition", Some("property_identifier"), vec![]),
        target("method_definition", None, vec![]),
    ];
    let analyzer = TreeAnalyzer::new(Grammar::TypeScript, targets);
    let found = analyzer.find_positions(&class_tree());
    assert_eq!(found.len(), 2);
    assert_eq!(found[0].name, "user");
    assert_eq!(found[1].name, "user() {}");
    assert_eq!(found[1].start_position, Point { row: 0, column: 20 });
}

#[test]
fn method_prefix_of_class_is_dead_and_useless_prefix() {
    let analyzer = TreeAnalyzer::new(Grammar::TypeScript, class_targets());
    let found = analyzer.find_positions(&class_tree());
    let positions = query_positions(&found);
    assert_eq!(positions, vec![Point { row: 0, column: 6 }, Point { row: 0, column: 20 }]);
    let path = "src/user.ts".to_string();
    let enriched = enrich_nodes(&path, &found, &vec![3, 1]).unwrap();
    assert_eq!(enriched[0].references, 2);
    assert!(!enriched[0].parent_name_prefix);
    let method = &enriched[0].children[0];
    assert_eq!(method.references, 0);
    assert!(method.parent_name_prefix);
    assert_eq!(method.file_path, "src/user.ts");
}

#[test]
fn enrichment_needs_one_count_per_node() {
    let analyzer = TreeAnalyzer::new(Grammar::TypeScript, class_targets());
    let found = analyzer.find_positions(&class_tree());
    let path = "src/user.ts".to_string();
    assert!(enrich_nodes(&path, &found, &vec![3]).is_none());
    assert!(enrich_nodes(&path, &found, &vec![3, 1, 1]).is_none());
}

#[test]
fn flat_targets_give_childless_nodes() {
    let targets = vec![
        target("class_declaration", Some("type_identifier"), vec![]),
        target("method_definition", Some("property_identifier"), vec![]),
    ];
    let analyzer = TreeAnalyzer::new(Grammar::TypeScript, targets);
    let found = analyzer.find_positions(&class_tree());
    assert_eq!(found.len(), 2);
    let path = "a.ts".to_string();
    let enriched = enrich_nodes(&path, &found, &vec![2, 2]).unwrap();
    assert!(enriched.iter().all(|n| n.children.is_empty()));
}

#[test]
fn reference_count_excludes_declaration_without_underflow() {
    assert_eq!(references_excluding_declaration(0), 0);
    assert_eq!(references_excluding_declaration(1), 0);
    assert_eq!(references_excluding_declaration(5), 4);
}

#[test]
fn useless_prefix_is_case_insensitive_and_directional() {
    assert!(is_prefix_ignoring_case("foo", "foobar"));
    assert!(is_prefix_ignoring_case("FOO", "fooBar"));
    assert!(!is_prefix_ignoring_case("foo", "bar"));
    assert!(!is_prefix_ignoring_case("foobar", "foo"));
}

#[test]
fn root_nodes_never_have_useless_prefix() {
    let nodes = vec![NodeInfo {
        node_type: "interface_declaration".to_string(),
        name: "foo".to_string(),
        start_position: Point { row: 0, column: 0 },
        children: vec![],
    }];
    let path = "a.ts".to_string();
    let enriched = enrich_nodes(&path, &nodes, &vec![0]).unwrap();
    assert!(!enriched[0].parent_name_prefix);
}

#[test]
fn counts_dead_nodes_over_whole_forest() {
    assert_eq!(count_dead_entities(&vec![]), 0);
    let forest = vec![
        full("A", 0, false, vec![full("B", 0, false, vec![full("C", 0, false, vec![])])]),
        full("D", 3, false, vec![full("E", 0, true, vec![]), full("F", 1, false, vec![])]),
    ];
    assert_eq!(count_dead_entities(&forest), 4);
}

#[test]
fn errors_found_in_descendants() {
    let clean = full("A", 2, false, vec![full("B", 1, false, vec![])]);
    assert!(!has_errors(&clean));
    let deep = full("A", 2, false, vec![full("B", 1, false, vec![full("C", 0, false, vec![])])]);
    assert!(has_errors(&deep));
    assert!(has_errors(&full("P", 4, true, vec![])));
}

#[test]
fn dead_interface_renders_failing_line() {
    let tree = SyntaxTree {
        nodes: vec![
            syn("program", "interface Foo {}", 0, 0, 0),
            syn("interface_declaration", "interface Foo {}", 1, 10, 2),
            syn("type_identifier", "Foo", 2, 10, 12),
            syn("object_type", "{}", 2, 10, 16),
        ],
    };
    let analyzer = TreeAnalyzer::new(
        Grammar::TypeScript,
        vec![target("interface_declaration", Some("type_identifier"), vec![])],
    );
    let found = analyzer.find_positions(&tree);
    let path = "test".to_string();
    let enriched = enrich_nodes(&path, &found, &vec![1]).unwrap();
    assert_eq!(enriched[0].references, 0);
    let line = render_node(&enriched[0], false, 0).unwrap();
    assert_eq!(line, format!("[{}] Foo:10:12 :: (dead code)", FAILED_MARK));
    assert_eq!(
        build_report(&enriched, false),
        format!("test\n[{}] Foo:10:12 :: (dead code)\n{}\n", FAILED_MARK, "-".repeat(80))
    );
}

#[test]
fn report_hides_passing_subtrees_unless_asked() {
    let forest = vec![full("A", 2, false, vec![full("B", 1, false, vec![])])];
    assert_eq!(build_report(&forest, false), "");
    assert_eq!(build_report(&vec![], true), "");
    let shown = build_report(&forest, true);
    assert_eq!(
        shown,
        format!(
            "src/a.ts\n[{p}] A:1:2 :: ()\n\t[{p}] B:1:2 :: ()\n{}\n",
            "-".repeat(80),
            p = PASSED_MARK
        )
    );
}

#[test]
fn nested_failures_render_with_indentation() {
    let node = full("Outer", 1, false, vec![full("outerThing", 0, true, vec![])]);
    let text = render_node(&node, false, 1).unwrap();
    assert_eq!(
        text,
        format!(
            "\t[{p}] Outer:1:2 :: ()\n\t\t[{f}] outerThing:1:2 :: (dead code, useless prefix)",
            p = PASSED_MARK,
            f = FAILED_MARK
        )
    );
}

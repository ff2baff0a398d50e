use sca::model::{FullNodeInfo, Point};
use sca::report::render_node;
use sca::sanitize::sanitize_source;

#[test]
fn removes_comments_and_non_ascii() {
    let source = r#"
        // comment
        /*
           block comment
        */
        const —В–µ–Ї—Б—В = "–Ј–љ–∞—З–µ–љ–Є–µ";
        console.log("trace");
        "#;

    let sanitized = sanitize_source(source);
    assert!(!sanitized.contains("comment"));
    assert!(!sanitized.contains("console.log"));
    assert!(!sanitized.contains("—В–µ–Ї—Б—В"));
}

#[test]
fn renders_dead_code() {
    let node = FullNodeInfo {
        node_type: "interface".to_string(),
        name: "Foo".to_string(),
        start_position: Point { row: 10, column: 2 },
        file_path: "test".into(),
        references: 0,
        parent_name_prefix: false,
        children: vec![],
    };

    let report = render_node(&node, false, 0).unwrap();
    assert!(report.contains("ðŸ’©"));
    assert!(report.contains("dead code"));
}

use fast_indexer::edges::{materialize_edges, Edge, EdgeType};
use fast_indexer::graph::Record;
use fast_indexer::pipeline::build_task_index;
use fast_indexer::render::{decimal_text, dot_text, graphml_text};

fn doc(id: &str, title: &str) -> Record {
    Record {
        id: id.to_string(),
        path: format!("/w/{}.md", id),
        aliases: vec![id.to_string()],
        title: title.to_string(),
        kind: None,
        status: None,
        priority: None,
        order: 0,
        project: None,
        due: None,
        tags: Vec::new(),
        depth: 0,
        leaf: true,
        raw_links: Vec::new(),
        parent: None,
        depends_on: Vec::new(),
        soft_depends_on: Vec::new(),
        children: Vec::new(),
        blocks: Vec::new(),
        soft_blocks: Vec::new(),
        assignee: None,
        complexity: None,
    }
}

#[test]
fn decimals() {
    assert_eq!(decimal_text(0), "0");
    assert_eq!(decimal_text(42), "42");
    assert_eq!(decimal_text(-7), "-7");
    assert_eq!(decimal_text(i64::MIN), "-9223372036854775808");
    assert_eq!(decimal_text(1000), "1000");
}

#[test]
fn dot_description() {
    let mut a = doc("a", "Say \"hi\"");
    a.depends_on = vec!["b".to_string()];
    let b = doc("b", "B");
    let t = build_task_index(&vec![a, b]).ok().unwrap();
    let es = materialize_edges(&t.nodes);
    let text = dot_text(&t.nodes, &es);
    let expected = "digraph G {\n    rankdir=TB;\n    node [shape=box, style=filled, fillcolor=\"#e9ecef\"];\n\n    \"a\" [label=\"Say \\\"hi\\\"\"];\n    \"b\" [label=\"B\"];\n\n    \"a\" -> \"b\" [style=bold, color=\"#dc3545\", penwidth=2];\n}\n";
    assert_eq!(text, expected);
}

#[test]
fn graphml_document() {
    let mut a = doc("a", "x<y & z");
    a.tags = vec!["t1".to_string(), "t2".to_string()];
    a.parent = Some("b".to_string());
    let b = doc("b", "B");
    let t = build_task_index(&vec![a, b]).ok().unwrap();
    let es = vec![Edge { source: 0, target: 1, kind: EdgeType::Parent }];
    let text = graphml_text(&t.nodes, &es);
    assert!(text.starts_with("<?xml version=\"1.0\" encoding=\"UTF-8\"?>\n<graphml"));
    assert!(text.contains("    <node id=\"a\">\n      <data key=\"d0\">x&lt;y &amp; z</data>\n      <data key=\"d1\">/w/a.md</data>\n      <data key=\"d2\">t1,t2</data>\n      <data key=\"d3\">task</data>\n      <data key=\"d4\">active</data>\n      <data key=\"d5\">2</data>\n      <data key=\"d13\">b</data>\n    </node>\n"));
    assert!(text.contains("      <data key=\"d14\">a</data>\n"));
    assert!(text.contains("    <edge id=\"e0\" source=\"a\" target=\"b\">\n      <data key=\"e0\">parent</data>\n    </edge>\n"));
    assert!(text.ends_with("  </graph>\n</graphml>\n"));
}

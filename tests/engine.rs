use fast_indexer::classify::classify;
use fast_indexer::filter::{apply_filters, Filters};
use fast_indexer::edges::{materialize_edges, Edge, EdgeType};
use fast_indexer::graph::{vec_to_option, Node, Record};
use fast_indexer::guard::find_duplicate_ids;
use fast_indexer::links::{infer_links, Links};
use fast_indexer::pipeline::{build_task_index, resolve_graph, TaskIndex};
use fast_indexer::resolve::AliasIndex;

fn rec(id: &str, path: &str) -> Record {
    let stem = path.rsplit('/').next().unwrap().trim_end_matches(".md").to_string();
    Record {
        id: id.to_string(),
        path: path.to_string(),
        aliases: vec![stem, id.to_string()],
        title: id.to_string(),
        kind: None,
        status: None,
        priority: None,
        order: 0,
        project: None,
        due: None,
        tags: Vec::new(),
        depth: 0,
        leaf: true,
        raw_links: Vec::new(),
        parent: None,
        depends_on: Vec::new(),
        soft_depends_on: Vec::new(),
        children: Vec::new(),
        blocks: Vec::new(),
        soft_blocks: Vec::new(),
        assignee: None,
        complexity: None,
    }
}

fn strings(xs: &[&str]) -> Vec<String> {
    xs.iter().map(|s| s.to_string()).collect()
}

fn index(records: &Vec<Record>) -> TaskIndex {
    match build_task_index(records) {
        Ok(t) => t,
        Err(_) => panic!("unexpected duplicate ids"),
    }
}

fn pos(t: &TaskIndex, id: &str) -> usize {
    t.nodes.iter().position(|n| n.id == id).unwrap()
}

fn sorted(mut v: Vec<usize>) -> Vec<usize> {
    v.sort();
    v
}

fn empty_links() -> Links {
    Links {
        parent: None,
        children: Vec::new(),
        depends_on: Vec::new(),
        blocks: Vec::new(),
        soft_depends_on: Vec::new(),
        soft_blocks: Vec::new(),
        leaf: true,
    }
}

#[test]
fn parent_dependency_and_completed_scenario() {
    let a = rec("a", "/w/a.md");
    let mut b = rec("b", "/w/b.md");
    b.parent = Some("a".to_string());
    b.depends_on = strings(&["c"]);
    let mut c = rec("c", "/w/c.md");
    c.status = Some("done".to_string());
    let t = index(&vec![a, b, c]);
    assert_eq!(t.nodes[0].links.children, vec![1]);
    assert!(!t.blocked.contains(&1));
    assert!(t.ready.contains(&1));
    assert!(!t.ready.contains(&2));
    assert!(!t.blocked.contains(&2));
    assert!(!t.roots.contains(&2));
    assert_eq!(t.roots, vec![0]);
    assert_eq!(t.ready, vec![1]);
    assert!(t.blocked.is_empty());
}

#[test]
fn priority_dominates_order_in_ready_list() {
    let mut x = rec("x", "/w/x.md");
    x.priority = Some(1);
    x.order = 5;
    let mut y = rec("y", "/w/y.md");
    y.priority = Some(0);
    y.order = 9;
    let t = index(&vec![x, y]);
    assert_eq!(t.ready, vec![1, 0]);
}

#[test]
fn ready_ties_broken_by_order_then_title() {
    let mut p = rec("p", "/w/p.md");
    p.title = "beta".to_string();
    let mut q = rec("q", "/w/q.md");
    q.title = "alpha".to_string();
    let mut r = rec("r", "/w/r.md");
    r.order = -1;
    r.title = "zeta".to_string();
    let t = index(&vec![p, q, r]);
    assert_eq!(t.ready, vec![2, 1, 0]);
}

#[test]
fn declared_blocks_gives_inverse_dependency() {
    let mut d = rec("d", "/w/d.md");
    d.blocks = strings(&["z"]);
    let z = rec("z", "/w/z.md");
    let t = index(&vec![d, z]);
    let zi = pos(&t, "z");
    let di = pos(&t, "d");
    assert_eq!(t.nodes[zi].links.depends_on, vec![di]);
    assert!(t.blocked.contains(&zi));
    assert!(t.ready.contains(&di));
}

#[test]
fn duplicate_ids_fail_the_run() {
    let a = rec("same", "/w/one.md");
    let b = rec("other", "/w/two.md");
    let c = rec("same", "/w/three.md");
    match build_task_index(&vec![a, b, c]) {
        Ok(_) => panic!("a run with a repeated id must fail"),
        Err(d) => {
            assert_eq!(d.len(), 1);
            assert_eq!(d[0].id, "same");
            assert_eq!(d[0].members, vec![0, 2]);
            assert_eq!(d[0].paths, vec!["/w/one.md", "/w/three.md"]);
        }
    }
}

#[test]
fn duplicate_report_lists_every_repeated_id_once() {
    let rs = vec![
        rec("x", "/w/1.md"),
        rec("y", "/w/2.md"),
        rec("x", "/w/3.md"),
        rec("y", "/w/4.md"),
        rec("x", "/w/5.md"),
        rec("z", "/w/6.md"),
    ];
    let d = find_duplicate_ids(&rs);
    assert_eq!(d.len(), 2);
    assert_eq!(d[0].id, "x");
    assert_eq!(d[0].members, vec![0, 2, 4]);
    assert_eq!(d[1].id, "y");
    assert_eq!(d[1].members, vec![1, 3]);
    assert!(find_duplicate_ids(&vec![rec("a", "/w/a.md"), rec("b", "/w/b.md")]).is_empty());
}

#[test]
fn inverse_relations_are_symmetric() {
    let mut a = rec("a", "/w/a.md");
    a.depends_on = strings(&["b"]);
    a.soft_depends_on = strings(&["c"]);
    a.parent = Some("c".to_string());
    let b = rec("b", "/w/b.md");
    let mut c = rec("c", "/w/c.md");
    c.soft_blocks = strings(&["b"]);
    let t = index(&vec![a, b, c]);
    assert_eq!(t.nodes[1].links.blocks, vec![0]);
    assert_eq!(t.nodes[2].links.soft_blocks, vec![1, 0]);
    assert_eq!(t.nodes[1].links.soft_depends_on, vec![2]);
    assert_eq!(t.nodes[2].links.children, vec![0]);
}

#[test]
fn inference_is_idempotent() {
    let mut a = rec("a", "/w/a.md");
    a.depends_on = strings(&["b", "b"]);
    a.children = strings(&["c"]);
    let mut b = rec("b", "/w/b.md");
    b.blocks = strings(&["c"]);
    b.parent = Some("a".to_string());
    let c = rec("c", "/w/c.md");
    let rs = vec![a, b, c];
    let declared = resolve_graph(&AliasIndex::build(&rs), &rs);
    let once = infer_links(&declared);
    let twice = infer_links(&once);
    for (x, y) in once.iter().zip(twice.iter()) {
        assert_eq!(x.parent, y.parent);
        assert_eq!(sorted(x.children.clone()), sorted(y.children.clone()));
        assert_eq!(sorted(x.depends_on.clone()), sorted(y.depends_on.clone()));
        assert_eq!(sorted(x.blocks.clone()), sorted(y.blocks.clone()));
        assert_eq!(sorted(x.soft_depends_on.clone()), sorted(y.soft_depends_on.clone()));
        assert_eq!(sorted(x.soft_blocks.clone()), sorted(y.soft_blocks.clone()));
        assert_eq!(x.leaf, y.leaf);
    }
    assert_eq!(once[0].depends_on, vec![1]);
    assert_eq!(once[2].parent, Some(0));
}

#[test]
fn leaf_follows_children() {
    let mut a = rec("a", "/w/a.md");
    a.leaf = true;
    let mut b = rec("b", "/w/b.md");
    b.leaf = false;
    b.parent = Some("a".to_string());
    let t = index(&vec![a, b]);
    assert!(!t.nodes[0].links.leaf);
    assert!(t.nodes[1].links.leaf);
}

#[test]
fn explicit_parent_is_kept_over_inferred_one() {
    let mut p = rec("p", "/w/p.md");
    p.children = strings(&["c"]);
    let q = rec("q", "/w/q.md");
    let mut c = rec("c", "/w/c.md");
    c.parent = Some("q".to_string());
    let mut d = rec("d", "/w/d.md");
    d.children = strings(&["e"]);
    let mut f = rec("f", "/w/f.md");
    f.children = strings(&["e"]);
    let e = rec("e", "/w/e.md");
    let t = index(&vec![p, q, c, d, f, e]);
    assert_eq!(t.nodes[2].links.parent, Some(1));
    assert_eq!(t.nodes[5].links.parent, Some(3));
}

#[test]
fn ready_and_blocked_are_disjoint() {
    let mut a = rec("a", "/w/a.md");
    a.status = Some("blocked".to_string());
    let mut b = rec("b", "/w/b.md");
    b.depends_on = strings(&["a"]);
    let mut c = rec("c", "/w/c.md");
    c.status = Some("cancelled".to_string());
    c.depends_on = strings(&["a"]);
    let mut d = rec("d", "/w/d.md");
    d.status = Some("in_progress".to_string());
    let t = index(&vec![a, b, c, d]);
    assert_eq!(t.blocked, vec![0, 1]);
    assert!(t.ready.is_empty());
    for r in &t.ready {
        assert!(!t.blocked.contains(r));
    }
}

#[test]
fn soft_dependency_status_does_not_matter() {
    for status in ["done", "active"] {
        let mut a = rec("a", "/w/a.md");
        a.soft_depends_on = strings(&["s"]);
        let mut s = rec("s", "/w/s.md");
        s.status = Some(status.to_string());
        s.kind = Some("learn".to_string());
        let t = index(&vec![a, s]);
        assert!(t.ready.contains(&0));
        assert!(!t.blocked.contains(&0));
    }
}

#[test]
fn learn_documents_are_never_ready() {
    let mut a = rec("a", "/w/a.md");
    a.kind = Some("learn".to_string());
    let t = index(&vec![a]);
    assert!(t.ready.is_empty());
    assert!(t.blocked.is_empty());
    assert_eq!(t.nodes[0].kind, "learn");
}

#[test]
fn defaults_and_status_aliases_apply() {
    let mut a = rec("a", "/w/a.md");
    a.status = Some("inbox".to_string());
    let b = rec("b", "/w/b.md");
    let t = index(&vec![a, b]);
    assert_eq!(t.nodes[0].status, "active");
    assert_eq!(t.nodes[1].status, "active");
    assert_eq!(t.nodes[1].kind, "task");
    assert_eq!(t.nodes[1].priority, 2);
}

#[test]
fn orphaned_parent_is_a_root_and_unresolved_refs_drop() {
    let mut a = rec("a", "/w/a.md");
    a.parent = Some("missing".to_string());
    a.depends_on = strings(&["nowhere"]);
    let t = index(&vec![a]);
    assert_eq!(t.nodes[0].links.parent, None);
    assert!(t.nodes[0].links.depends_on.is_empty());
    assert_eq!(t.roots, vec![0]);
    assert_eq!(t.ready, vec![0]);
}

#[test]
fn references_resolve_case_insensitively_and_by_relative_path() {
    let mut a = rec("a", "/w/sub/a.md");
    a.aliases = strings(&["Alpha-Key"]);
    let mut b = rec("b", "/w/sub/b.md");
    b.depends_on = strings(&["ALPHA-KEY"]);
    b.soft_depends_on = strings(&["c.md"]);
    let mut c = rec("c", "/w/sub/c.md");
    c.aliases = Vec::new();
    let t = index(&vec![a, b, c]);
    assert_eq!(t.nodes[1].links.depends_on, vec![0]);
    assert_eq!(t.nodes[1].links.soft_depends_on, vec![2]);
}

#[test]
fn colliding_alias_goes_to_first_document() {
    let mut a = rec("a", "/w/a.md");
    a.aliases = strings(&["shared"]);
    let mut b = rec("b", "/w/b.md");
    b.aliases = strings(&["SHARED"]);
    let rs = vec![a, b];
    let ix = AliasIndex::build(&rs);
    assert_eq!(ix.lookup("shared"), Some(0));
    assert_eq!(ix.resolve(&rs, "/w/c.md", "Shared"), Some(0));
    assert_eq!(ix.resolve(&rs, "/w/c.md", "b.md"), Some(1));
    assert_eq!(ix.resolve(&rs, "/w/c.md", "zzz"), None);
}

#[test]
fn body_links_and_project_resolve() {
    let mut a = rec("a", "/w/a.md");
    a.raw_links = strings(&["b", "nothing", "B"]);
    a.project = Some("p".to_string());
    let b = rec("b", "/w/b.md");
    let p = rec("p", "/w/p.md");
    let t = index(&vec![a, b, p]);
    assert_eq!(t.nodes[0].link_targets, vec![1, 1]);
    assert_eq!(t.nodes[0].project_target, Some(2));
}

#[test]
fn edges_are_typed_unique_and_never_loops() {
    let mut a = rec("a", "/w/a.md");
    a.parent = Some("b".to_string());
    a.depends_on = strings(&["c", "a"]);
    a.raw_links = strings(&["c", "c", "a"]);
    let mut b = rec("b", "/w/b.md");
    b.children = strings(&["a"]);
    let mut c = rec("c", "/w/c.md");
    c.soft_depends_on = strings(&["b"]);
    let t = index(&vec![a, b, c]);
    let es = materialize_edges(&t.nodes);
    let has = |s: usize, d: usize, k: EdgeType| es.contains(&Edge { source: s, target: d, kind: k });
    assert!(has(0, 1, EdgeType::Parent));
    assert!(has(0, 2, EdgeType::DependsOn));
    assert!(has(2, 1, EdgeType::SoftDependsOn));
    assert!(has(0, 2, EdgeType::Link));
    assert_eq!(es.len(), 4);
    assert!(es.iter().all(|e| e.source != e.target));
}

#[test]
fn nodes_group_by_project() {
    let mut a = rec("a", "/w/a.md");
    a.project = Some("p1".to_string());
    let b = rec("b", "/w/b.md");
    let mut c = rec("c", "/w/c.md");
    c.project = Some("p1".to_string());
    let t = index(&vec![a, b, c]);
    assert_eq!(t.by_project.len(), 2);
    assert_eq!(t.by_project[0].project, Some("p1".to_string()));
    assert_eq!(t.by_project[0].members, vec![0, 2]);
    assert_eq!(t.by_project[1].project, None);
    assert_eq!(t.by_project[1].members, vec![1]);
}

#[test]
fn direct_inference_on_links() {
    let mut g = vec![empty_links(), empty_links(), empty_links()];
    g[0].parent = Some(1);
    g[0].leaf = false;
    g[2].blocks = vec![0, 0];
    g[2].soft_depends_on = vec![1];
    let r = infer_links(&g);
    assert_eq!(r[1].children, vec![0]);
    assert!(r[0].leaf);
    assert!(!r[1].leaf);
    assert_eq!(r[0].depends_on, vec![2]);
    assert_eq!(r[2].blocks, vec![0]);
    assert_eq!(r[1].soft_blocks, vec![2]);
}

#[test]
fn classify_on_hand_built_nodes() {
    let node = |id: &str, status: &str, links: Links| Node {
        id: id.to_string(),
        path: String::new(),
        title: id.to_string(),
        kind: "task".to_string(),
        status: status.to_string(),
        priority: 2,
        order: 0,
        depth: 0,
        project: None,
        due: None,
        tags: Vec::new(),
        assignee: None,
        complexity: None,
        links,
        link_targets: Vec::new(),
        project_target: None,
    };
    let mut l0 = empty_links();
    l0.depends_on = vec![1];
    let mut l2 = empty_links();
    l2.parent = Some(7);
    let ns = vec![node("a", "active", l0), node("b", "waiting", empty_links()), node("c", "active", l2)];
    let c = classify(&ns);
    assert_eq!(c.blocked, vec![0]);
    assert_eq!(c.ready, vec![2]);
    assert_eq!(c.roots, vec![0, 1, 2]);
}

#[test]
fn empty_vec_becomes_none() {
    assert_eq!(vec_to_option::<u8>(Vec::new()), None);
    assert_eq!(vec_to_option(vec![3]), Some(vec![3]));
}

#[test]
fn empty_working_set() {
    let t = index(&Vec::new());
    assert!(t.nodes.is_empty());
    assert!(t.roots.is_empty() && t.ready.is_empty() && t.blocked.is_empty());
    assert!(t.by_project.is_empty());
}

#[test]
fn filters_keep_matching_documents_in_order() {
    let mut a = rec("a", "/w/a.md");
    a.kind = Some("Task".to_string());
    a.status = Some("active".to_string());
    a.priority = Some(1);
    let mut b = rec("b", "/w/b.md");
    b.kind = Some("goal".to_string());
    b.priority = Some(0);
    let c = rec("c", "/w/c.md");
    let mut d = rec("d", "/w/d.md");
    d.kind = Some("task".to_string());
    d.priority = Some(3);
    let all = vec![a, b, c, d];
    let by_kind = Filters { kinds: Some(vec!["TASK".to_string()]), statuses: None, priorities: None };
    let kept = apply_filters(all, &by_kind);
    let ids: Vec<&str> = kept.iter().map(|r| r.id.as_str()).collect();
    assert_eq!(ids, vec!["a", "d"]);
    let by_priority = Filters { kinds: None, statuses: None, priorities: Some(vec![0, 1]) };
    let kept = apply_filters(kept, &by_priority);
    let ids: Vec<&str> = kept.iter().map(|r| r.id.as_str()).collect();
    assert_eq!(ids, vec!["a"]);
    let by_status = Filters { kinds: None, statuses: Some(vec!["Active".to_string()]), priorities: None };
    assert_eq!(apply_filters(kept, &by_status).len(), 1);
    let none = Filters { kinds: None, statuses: None, priorities: None };
    assert_eq!(apply_filters(vec![rec("x", "/w/x.md")], &none).len(), 1);
}

#[test]
fn dependency_cycle_keeps_both_blocked() {
    let mut a = rec("a", "/w/a.md");
    a.depends_on = strings(&["b"]);
    let mut b = rec("b", "/w/b.md");
    b.depends_on = strings(&["a"]);
    let t = index(&vec![a, b]);
    assert_eq!(t.blocked, vec![0, 1]);
    assert!(t.ready.is_empty());
    let mut a = rec("a", "/w/a.md");
    a.depends_on = strings(&["b"]);
    let mut b = rec("b", "/w/b.md");
    b.depends_on = strings(&["a"]);
    b.status = Some("done".to_string());
    let t = index(&vec![a, b]);
    assert_eq!(t.ready, vec![0]);
    assert!(t.blocked.is_empty());
}

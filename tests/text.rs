use fast_indexer::extract::{extract_links, extract_tags, has_prefix, links_from_captures, split_commas, DeclaredTags};
use fast_indexer::ident::{canonical_id, compute_id, document_aliases, task_prefix};
use fast_indexer::record::{make_record, FrontMatter};
use fast_indexer::order::title_less;
use fast_indexer::status::{is_completed, resolve_status_alias, text_eq};

#[test]
fn legacy_statuses_fold_to_canonical_values() {
    assert_eq!(resolve_status_alias("inbox"), "active");
    assert_eq!(resolve_status_alias("todo"), "active");
    assert_eq!(resolve_status_alias("open"), "active");
    assert_eq!(resolve_status_alias("in-progress"), "in_progress");
    assert_eq!(resolve_status_alias("in_review"), "review");
    assert_eq!(resolve_status_alias("in-review"), "review");
    assert_eq!(resolve_status_alias("complete"), "done");
    assert_eq!(resolve_status_alias("completed"), "done");
    assert_eq!(resolve_status_alias("closed"), "done");
    assert_eq!(resolve_status_alias("waiting"), "waiting");
    assert_eq!(resolve_status_alias("Inbox"), "Inbox");
}

#[test]
fn completed_statuses() {
    assert!(is_completed("done"));
    assert!(is_completed("cancelled"));
    assert!(!is_completed("active"));
    assert!(!is_completed("closed"));
    assert!(text_eq("ab", "ab"));
    assert!(!text_eq("ab", "abc"));
}

#[test]
fn titles_order_by_characters() {
    assert!(title_less("alpha", "beta"));
    assert!(!title_less("beta", "alpha"));
    assert!(title_less("ab", "abc"));
    assert!(!title_less("abc", "abc"));
    assert!(title_less("", "a"));
    assert!(title_less("Z", "a"));
    assert!(title_less("a", "é"));
}

#[test]
fn path_ids_are_md5_of_path_without_extension() {
    assert_eq!(compute_id("notes/task-one.md"), "c9345a816db199e6b328c693b872b3a7");
    assert_eq!(compute_id("/work/tasks/ab-12x-fix.md"), "6fa1c004d75e5d59d8575c0920cf140d");
    assert_eq!(compute_id("notes/task-one.md"), compute_id("notes/task-one.txt"));
    assert_eq!(compute_id("x.md").len(), 32);
}

#[test]
fn declared_id_wins_over_path_hash() {
    assert_eq!(canonical_id(&Some("T-1".to_string()), "notes/task-one.md"), "T-1");
    assert_eq!(canonical_id(&None, "notes/task-one.md"), "c9345a816db199e6b328c693b872b3a7");
}

#[test]
fn task_prefix_of_stems() {
    assert_eq!(task_prefix("ab-12x-title"), Some("ab-12x".to_string()));
    assert_eq!(task_prefix("aops-123-fix-it"), Some("aops-123".to_string()));
    assert_eq!(task_prefix("abcde-1-x"), None);
    assert_eq!(task_prefix("ab-12x"), None);
    assert_eq!(task_prefix("Ab-12-x"), None);
    assert_eq!(task_prefix("ab--x"), None);
    assert_eq!(task_prefix(""), None);
}

#[test]
fn aliases_of_a_document() {
    let a = document_aliases("ab-1-note", &Some("  My/Link ".to_string()), &Some(" T-9".to_string()));
    assert_eq!(a, vec!["ab-1-note", "My/Link", "T-9", "ab-1"]);
    let b = document_aliases("plain", &None, &None);
    assert_eq!(b, vec!["plain"]);
}

#[test]
fn commas_split_every_piece() {
    assert_eq!(split_commas("a, b,,c"), vec!["a", " b", "", "c"]);
    assert_eq!(split_commas(""), vec![""]);
    assert_eq!(split_commas("solo"), vec!["solo"]);
    assert!(has_prefix("https://x", "http"));
    assert!(!has_prefix("htt", "http"));
    assert!(has_prefix("#top", "#"));
}

#[test]
fn body_references_are_found_and_filtered() {
    let body = "See [[Target One|alias]] and [[ two ]] plus [x](./c.md) [web](https://e.com) [a](#top)";
    assert_eq!(extract_links(body), vec!["Target One", "two", "./c.md"]);
    assert!(extract_links("no links here").is_empty());
}

#[test]
fn captured_targets_are_trimmed_and_kept() {
    let c = vec![Some(" http://x ".to_string()), None, Some(" y ".to_string())];
    assert_eq!(links_from_captures(&c, true), vec!["y"]);
    assert_eq!(links_from_captures(&c, false), vec!["http://x", "y"]);
}

#[test]
fn tags_come_from_metadata_and_body_once_each() {
    let mut t = extract_tags(&DeclaredTags::List(vec!["x".to_string(), "y".to_string()]), "body #tag1 and#not #x");
    t.sort();
    assert_eq!(t, vec!["tag1", "x", "y"]);
    let mut u = extract_tags(&DeclaredTags::Text(" a, b ".to_string()), "#c");
    u.sort();
    assert_eq!(u, vec!["a", "b", "c"]);
    assert!(extract_tags(&DeclaredTags::Absent, "").is_empty());
}

#[test]
fn record_from_metadata() {
    let fm = FrontMatter {
        id: None,
        title: None,
        kind: Some("task".to_string()),
        status: Some("todo".to_string()),
        priority: Some(1),
        order: None,
        depth: Some(3),
        leaf: None,
        permalink: Some(" Perm ".to_string()),
        parent: Some("p".to_string()),
        project: None,
        due: None,
        assignee: None,
        complexity: None,
        tags: DeclaredTags::Absent,
        depends_on: vec!["d".to_string()],
        soft_depends_on: Vec::new(),
        children: Vec::new(),
        blocks: Vec::new(),
        soft_blocks: Vec::new(),
    };
    let r = make_record(fm, "notes/task-one.md", "task-one", "body [[other]] #t");
    assert_eq!(r.id, "c9345a816db199e6b328c693b872b3a7");
    assert_eq!(r.title, "task-one");
    assert_eq!(r.status, Some("active".to_string()));
    assert_eq!(r.priority, Some(1));
    assert_eq!(r.order, 0);
    assert_eq!(r.depth, 3);
    assert!(r.leaf);
    assert_eq!(r.aliases, vec!["task-one", "Perm"]);
    assert_eq!(r.raw_links, vec!["other"]);
    assert_eq!(r.tags, vec!["t"]);
    assert_eq!(r.parent, Some("p".to_string()));
    assert_eq!(r.depends_on, vec!["d"]);
}

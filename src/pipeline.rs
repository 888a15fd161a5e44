//! The whole run over a snapshot of documents: the duplicate identity guard,
//! resolution of every reference, inference of the inverse relations, and the
//! readiness classification.

use vstd::prelude::*;
use crate::classify::{classify, in_ready_order, is_blocked, is_ready, is_root, strictly_increasing};
use crate::graph::{Node, Record};
use crate::guard::{find_duplicate_ids, ids_unique, reports_duplicates, DuplicateId};
use crate::links::{as_set, graph_wf, infer_links, inferred, model, LinkSets, Links};
use crate::resolve::{resolution, resolved_refs, AliasIndex};
use crate::projects::{group_by_project, grouped, holds_project, project_key, ProjectGroup};
use crate::status::{canonical_status, resolve_status_alias};

verus! {

/// The priority of a document that declares none.
pub const DEFAULT_PRIORITY: i32 = 2;

/// The status of a node: the document's own, or `active` when it declares
/// none, folded through the alias table.
pub open spec fn status_of(r: Record) -> Seq<char> {
    canonical_status(
        match r.status {
            Some(s) => s@,
            None => "active"@,
        },
    )
}

/// The kind of a node: the document's own, or `task` when it declares none.
pub open spec fn kind_of(r: Record) -> Seq<char> {
    match r.kind {
        Some(k) => k@,
        None => "task"@,
    }
}

pub open spec fn priority_of(r: Record) -> i32 {
    match r.priority {
        Some(p) => p,
        None => DEFAULT_PRIORITY,
    }
}

/// The relations that document `i` declares, resolved; references that lead
/// nowhere are gone.
pub open spec fn declared_links(rs: Seq<Record>, i: int) -> LinkSets {
    let p = rs[i].path@;
    LinkSets {
        parent: match rs[i].parent {
            Some(r) => resolution(rs, p, r@),
            None => None,
        },
        children: as_set(resolved_refs(rs, p, rs[i].children@)),
        depends_on: as_set(resolved_refs(rs, p, rs[i].depends_on@)),
        blocks: as_set(resolved_refs(rs, p, rs[i].blocks@)),
        soft_depends_on: as_set(resolved_refs(rs, p, rs[i].soft_depends_on@)),
        soft_blocks: as_set(resolved_refs(rs, p, rs[i].soft_blocks@)),
        leaf: rs[i].leaf,
    }
}

pub open spec fn declared_graph(rs: Seq<Record>) -> Seq<LinkSets> {
    Seq::new(rs.len(), |i: int| declared_links(rs, i))
}

/// The document that document `i`'s project reference leads to.
pub open spec fn project_ref(rs: Seq<Record>, i: int) -> Option<usize> {
    match rs[i].project {
        Some(p) => resolution(rs, rs[i].path@, p@),
        None => None,
    }
}

pub open spec fn links_of(ns: Seq<Node>) -> Seq<LinkSets> {
    Seq::new(ns.len(), |i: int| ns[i].links@)
}

/// Node `n` carries the metadata of document `r`, defaults applied.
pub open spec fn carries(n: Node, r: Record) -> bool {
    &&& n.id@ == r.id@
    &&& n.path@ == r.path@
    &&& n.title@ == r.title@
    &&& n.kind@ == kind_of(r)
    &&& n.status@ == status_of(r)
    &&& n.priority == priority_of(r)
    &&& n.order == r.order
    &&& n.depth == r.depth
    &&& n.project == r.project
    &&& n.due == r.due
}

/// The task index: the nodes, their grouping by project, and the derived
/// scheduling lists, each naming nodes by position.
pub struct TaskIndex {
    pub nodes: Vec<Node>,
    pub by_project: Vec<ProjectGroup>,
    pub roots: Vec<usize>,
    pub ready: Vec<usize>,
    pub blocked: Vec<usize>,
}

fn copy_text(o: &Option<String>) -> (r: Option<String>)
    ensures
        r == *o,
{
    match o {
        Some(s) => Some(s.clone()),
        None => None,
    }
}

/// Resolves the relations that document `i` declares.
pub fn resolve_links(ix: &AliasIndex, records: &Vec<Record>, i: usize) -> (l: Links)
    requires
        ix.indexes(records@),
        i < records.len(),
    ensures
        l@ == declared_links(records@, i as int),
        l.wf(records.len() as nat),
{
    let r = &records[i];
    let p = r.path.as_str();
    let parent = match &r.parent {
        Some(x) => ix.resolve(records, p, x.as_str()),
        None => None,
    };
    Links {
        parent,
        children: ix.resolve_all(records, p, &r.children),
        depends_on: ix.resolve_all(records, p, &r.depends_on),
        blocks: ix.resolve_all(records, p, &r.blocks),
        soft_depends_on: ix.resolve_all(records, p, &r.soft_depends_on),
        soft_blocks: ix.resolve_all(records, p, &r.soft_blocks),
        leaf: r.leaf,
    }
}

/// Resolves every document's relations against an alias index of all of
/// them, which is complete before the first reference is looked up.
pub fn resolve_graph(ix: &AliasIndex, records: &Vec<Record>) -> (g: Vec<Links>)
    requires
        ix.indexes(records@),
    ensures
        g.len() == records.len(),
        graph_wf(g@),
        model(g@) == declared_graph(records@),
{
    let mut g: Vec<Links> = Vec::new();
    let mut i: usize = 0;
    while i < records.len()
        invariant
            ix.indexes(records@),
            i <= records.len(),
            g.len() == i,
            forall|j: int| 0 <= j < i ==> (#[trigger] g@[j]).wf(records.len() as nat),
            forall|j: int| 0 <= j < i ==> (#[trigger] g@[j])@ == declared_links(records@, j),
        decreases records.len() - i,
    {
        let l = resolve_links(ix, records, i);
        g.push(l);
        i = i + 1;
    }
    assert(model(g@) =~= declared_graph(records@));
    g
}

/// The nodes of the graph: each document's metadata with defaults applied,
/// its inferred relations, and the documents its body's references lead to.
fn make_nodes(ix: &AliasIndex, records: &Vec<Record>, links: Vec<Links>) -> (ns: Vec<Node>)
    requires
        ix.indexes(records@),
        links.len() == records.len(),
    ensures
        ns.len() == records.len(),
        forall|i: int| 0 <= i < ns.len() ==> carries(#[trigger] ns@[i], records@[i]),
        forall|i: int| 0 <= i < ns.len() ==> (#[trigger] ns@[i]).links == links@[i],
        forall|i: int| 0 <= i < ns.len() ==> (#[trigger] ns@[i]).project_target == project_ref(records@, i),
        forall|i: int|
            0 <= i < ns.len() ==> (#[trigger] ns@[i]).link_targets@ == resolved_refs(
                records@,
                records@[i].path@,
                records@[i].raw_links@,
            ),
{
    let ghost all = links@;
    let mut rest = links;
    let mut ns: Vec<Node> = Vec::new();
    let mut i: usize = 0;
    while i < records.len()
        invariant
            ix.indexes(records@),
            all.len() == records.len(),
            i <= records.len(),
            ns.len() == i,
            rest@ == all.skip(i as int),
            forall|j: int| 0 <= j < i ==> carries(#[trigger] ns@[j], records@[j]),
            forall|j: int| 0 <= j < i ==> (#[trigger] ns@[j]).links == all[j],
            forall|j: int| 0 <= j < i ==> (#[trigger] ns@[j]).project_target == project_ref(records@, j),
            forall|j: int|
                0 <= j < i ==> (#[trigger] ns@[j]).link_targets@ == resolved_refs(
                    records@,
                    records@[j].path@,
                    records@[j].raw_links@,
                ),
        decreases records.len() - i,
    {
        let r = &records[i];
        let l = rest.remove(0);
        assert(rest@ =~= all.skip(i as int + 1));
        let status = match &r.status {
            Some(s) => resolve_status_alias(s.as_str()),
            None => resolve_status_alias("active"),
        };
        let kind = match &r.kind {
            Some(k) => k.clone(),
            None => "task".to_owned(),
        };
        let priority = match r.priority {
            Some(p) => p,
            None => DEFAULT_PRIORITY,
        };
        let node = Node {
            id: r.id.clone(),
            path: r.path.clone(),
            title: r.title.clone(),
            kind,
            status,
            priority,
            order: r.order,
            depth: r.depth,
            project: copy_text(&r.project),
            due: copy_text(&r.due),
            tags: r.tags.clone(),
            assignee: copy_text(&r.assignee),
            complexity: copy_text(&r.complexity),
            links: l,
            link_targets: ix.resolve_all(records, r.path.as_str(), &r.raw_links),
            project_target: match &r.project {
                Some(p) => ix.resolve(records, r.path.as_str(), p.as_str()),
                None => None,
            },
        };
        ns.push(node);
        i = i + 1;
    }
    ns
}

/// Runs the engine over a working set of documents. Fails, building
/// nothing, exactly when two documents share an id, and then reports every
/// such id. Otherwise node `i` stands for document `i` with every relation
/// resolved and its inverse merged in, and the scheduling lists are derived
/// from those nodes.
pub fn build_task_index(records: &Vec<Record>) -> (r: Result<TaskIndex, Vec<DuplicateId>>)
    ensures
        r is Err <==> !ids_unique(records@),
        r matches Err(d) ==> reports_duplicates(records@, d@),
        r matches Ok(t) ==> {
            &&& t.nodes.len() == records.len()
            &&& forall|i: int| 0 <= i < records.len() ==> carries(#[trigger] t.nodes@[i], records@[i])
            &&& forall|i: int|
                0 <= i < records.len() ==> (#[trigger] t.nodes@[i]).link_targets@ == resolved_refs(
                    records@,
                    records@[i].path@,
                    records@[i].raw_links@,
                )
            &&& forall|i: int|
                0 <= i < records.len() ==> (#[trigger] t.nodes@[i]).project_target == project_ref(records@, i)
            &&& links_of(t.nodes@) == inferred(declared_graph(records@))
            &&& forall|i: int| 0 <= i < records.len() ==> (#[trigger] t.nodes@[i]).links.deduplicated()
            &&& forall|y: usize| #[trigger]
                t.roots@.contains(y) <==> (y < records.len() && is_root(t.nodes@, y as int))
            &&& strictly_increasing(t.roots@)
            &&& forall|y: usize| #[trigger]
                t.blocked@.contains(y) <==> (y < records.len() && is_blocked(t.nodes@, y as int))
            &&& strictly_increasing(t.blocked@)
            &&& forall|y: usize| #[trigger]
                t.ready@.contains(y) <==> (y < records.len() && is_ready(t.nodes@, y as int))
            &&& in_ready_order(t.nodes@, t.ready@)
            &&& forall|q: int| 0 <= q < t.by_project@.len() ==> holds_project(t.nodes@, #[trigger] t.by_project@[q])
            &&& forall|q1: int, q2: int|
                0 <= q1 < q2 < t.by_project@.len() ==> project_key(t.by_project@[q1].project)
                    != project_key(t.by_project@[q2].project)
            &&& forall|i: int| 0 <= i < records.len() ==> grouped(t.by_project@, (#[trigger] t.nodes@[i]).project)
        },
{
    let duplicates = find_duplicate_ids(records);
    if duplicates.len() > 0 {
        return Err(duplicates);
    }
    let ix = AliasIndex::build(records);
    let declared = resolve_graph(&ix, records);
    let links = infer_links(&declared);
    let ghost inferred_links = links@;
    let nodes = make_nodes(&ix, records, links);
    assert(links_of(nodes@) =~= model(inferred_links));
    let c = classify(&nodes);
    let by_project = group_by_project(&nodes);
    Ok(TaskIndex { nodes, by_project, roots: c.roots, ready: c.ready, blocked: c.blocked })
}

} // verus!

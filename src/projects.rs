//! The grouping of nodes by the project they declare.

use vstd::prelude::*;
use crate::graph::Node;

verus! {

broadcast use vstd::seq_lib::lemma_seq_contains_after_push;

/// The nodes that declare one project, or none, ascending by position.
pub struct ProjectGroup {
    pub project: Option<String>,
    pub members: Vec<usize>,
}

pub open spec fn project_key(p: Option<String>) -> Option<Seq<char>> {
    match p {
        Some(s) => Some(s@),
        None => None,
    }
}

/// Node `i` is the first node that declares its project.
pub open spec fn first_in_project(ns: Seq<Node>, i: int) -> bool {
    forall|j: int| 0 <= j < i ==> project_key(ns[j].project) != project_key(ns[i].project)
}

/// `g` holds exactly the nodes that declare its project.
pub open spec fn holds_project(ns: Seq<Node>, g: ProjectGroup) -> bool {
    &&& g.members@.len() >= 1
    &&& forall|a: int, b: int| 0 <= a < b < g.members@.len() ==> g.members@[a] < g.members@[b]
    &&& forall|k: usize| #[trigger]
        g.members@.contains(k) <==> (k < ns.len() && project_key(ns[k as int].project)
            == project_key(g.project))
    &&& first_in_project(ns, g.members@[0] as int)
}

/// Some group of `gs` is the group of project `p`.
pub open spec fn grouped(gs: Seq<ProjectGroup>, p: Option<String>) -> bool {
    exists|q: int| 0 <= q < gs.len() && project_key(#[trigger] gs[q].project) == project_key(p)
}

fn same_project(a: &Option<String>, b: &Option<String>) -> (r: bool)
    ensures
        r == (project_key(*a) == project_key(*b)),
{
    match (a, b) {
        (Some(x), Some(y)) => *x == *y,
        (None, None) => true,
        _ => false,
    }
}

fn first_of_its_project(ns: &Vec<Node>, i: usize) -> (r: bool)
    requires
        i < ns.len(),
    ensures
        r == first_in_project(ns@, i as int),
{
    let mut j: usize = 0;
    while j < i
        invariant
            i < ns.len(),
            j <= i,
            forall|q: int|
                0 <= q < j ==> project_key(ns@[q].project) != project_key(ns@[i as int].project),
        decreases i - j,
    {
        if same_project(&ns[j].project, &ns[i].project) {
            return false;
        }
        j = j + 1;
    }
    true
}

fn project_members(ns: &Vec<Node>, p: &Option<String>) -> (m: Vec<usize>)
    ensures
        forall|a: int, b: int| 0 <= a < b < m@.len() ==> m@[a] < m@[b],
        forall|k: usize| #[trigger]
            m@.contains(k) <==> (k < ns.len() && project_key(ns@[k as int].project) == project_key(
                *p,
            )),
{
    let mut m: Vec<usize> = Vec::new();
    let mut k: usize = 0;
    while k < ns.len()
        invariant
            k <= ns.len(),
            forall|a: int, b: int| 0 <= a < b < m@.len() ==> m@[a] < m@[b],
            forall|q: int| 0 <= q < m@.len() ==> #[trigger] m@[q] < k,
            forall|x: usize| #[trigger]
                m@.contains(x) <==> (x < k && project_key(ns@[x as int].project) == project_key(
                    *p,
                )),
        decreases ns.len() - k,
    {
        if same_project(&ns[k].project, p) {
            m.push(k);
        }
        k = k + 1;
    }
    m
}

fn copy_project(o: &Option<String>) -> (r: Option<String>)
    ensures
        project_key(r) == project_key(*o),
{
    match o {
        Some(s) => Some(s.clone()),
        None => None,
    }
}

/// One group per project that some node declares, and one for the nodes
/// that declare none, in the order of the first node of each; every node
/// stands in exactly the group of its project.
pub fn group_by_project(ns: &Vec<Node>) -> (r: Vec<ProjectGroup>)
    ensures
        forall|q: int| 0 <= q < r@.len() ==> holds_project(ns@, #[trigger] r@[q]),
        forall|q1: int, q2: int|
            0 <= q1 < q2 < r@.len() ==> r@[q1].members@[0] < r@[q2].members@[0] && project_key(
                r@[q1].project,
            ) != project_key(r@[q2].project),
        forall|i: int| 0 <= i < ns.len() ==> grouped(r@, (#[trigger] ns@[i]).project),
{
    let mut out: Vec<ProjectGroup> = Vec::new();
    let mut i: usize = 0;
    while i < ns.len()
        invariant
            i <= ns.len(),
            forall|q: int| 0 <= q < out@.len() ==> holds_project(ns@, #[trigger] out@[q]),
            forall|q: int| 0 <= q < out@.len() ==> #[trigger] out@[q].members@[0] < i,
            forall|q1: int, q2: int|
                0 <= q1 < q2 < out@.len() ==> out@[q1].members@[0] < out@[q2].members@[0],
            forall|j: int| 0 <= j < i ==> grouped(out@, (#[trigger] ns@[j]).project),
        decreases ns.len() - i,
    {
        if first_of_its_project(ns, i) {
            let p = copy_project(&ns[i].project);
            let members = project_members(ns, &p);
            proof {
                assert(members@.contains(i));
                assert(members@.contains(members@[0]));
                assert(members@[0] <= i) by {
                    if members@[0] > i {
                        let k = choose|k: int| 0 <= k < members@.len() && members@[k] == i;
                        assert(members@[k] >= members@[0]);
                    }
                }
                assert(members@[0] == i);
            }
            let ghost before = out@;
            out.push(ProjectGroup { project: p, members });
            proof {
                assert forall|j: int| 0 <= j < i + 1 implies grouped(out@, (#[trigger] ns@[j]).project) by {
                    if j < i {
                        let q = choose|q: int|
                            0 <= q < before.len() && project_key(#[trigger] before[q].project)
                                == project_key(ns@[j].project);
                        assert(out@[q] == before[q]);
                    } else {
                        assert(project_key(out@[before.len() as int].project) == project_key(
                            ns@[j].project,
                        ));
                    }
                }
            }
        } else {
            proof {
                let k = choose|k: int|
                    0 <= k < i && project_key(ns@[k].project) == project_key(ns@[i as int].project);
                assert(grouped(out@, ns@[k].project));
            }
        }
        i = i + 1;
    }
    proof {
        assert forall|q1: int, q2: int| 0 <= q1 < q2 < out@.len() implies project_key(
            out@[q1].project,
        ) != project_key(out@[q2].project) by {
            let f1 = out@[q1].members@[0];
            let f2 = out@[q2].members@[0];
            assert(out@[q1].members@.contains(f1));
            assert(out@[q2].members@.contains(f2));
        }
    }
    out
}

} // verus!

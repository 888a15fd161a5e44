//! Readiness: which nodes are roots, which are blocked, and which are ready
//! to be worked on, in the order in which they should be taken up.

use vstd::prelude::*;
use crate::graph::Node;
use crate::order::{
    lemma_title_irreflexive, lemma_title_total, lemma_title_transitive, title_less, title_lt,
};
use crate::status::{is_completed, is_completed_status, text_eq};

verus! {

broadcast use vstd::seq_lib::lemma_seq_contains_after_push;

/// Node `i` has a terminal status.
pub open spec fn completed(ns: Seq<Node>, i: int) -> bool {
    is_completed_status(ns[i].status@)
}

/// Some hard dependency of node `i` is a node of the graph that is not completed.
pub open spec fn has_unmet_dependency(ns: Seq<Node>, i: int) -> bool {
    exists|k: int|
        0 <= k < ns[i].links.depends_on.len() && #[trigger] ns[i].links.depends_on@[k] < ns.len()
            && !completed(ns, ns[i].links.depends_on@[k] as int)
}

/// Node `i` is blocked: not completed, and marked blocked or waiting on an
/// unmet hard dependency. Soft dependencies play no part. Cycles of hard
/// dependencies are not rejected: every node on one stays blocked until
/// some node of the cycle is completed.
pub open spec fn is_blocked(ns: Seq<Node>, i: int) -> bool {
    !completed(ns, i) && (ns[i].status@ == "blocked"@ || has_unmet_dependency(ns, i))
}

/// Node `i` is ready: an active leaf that is not blocked and is not of the
/// purely observational kind `learn`.
pub open spec fn is_ready(ns: Seq<Node>, i: int) -> bool {
    &&& !completed(ns, i)
    &&& !is_blocked(ns, i)
    &&& ns[i].links.leaf
    &&& ns[i].status@ == "active"@
    &&& ns[i].kind@ != "learn"@
}

/// Node `i` is a root: not completed, and without a parent in the graph.
pub open spec fn is_root(ns: Seq<Node>, i: int) -> bool {
    !completed(ns, i) && match ns[i].links.parent {
        None => true,
        Some(p) => p >= ns.len(),
    }
}

/// The order of the ready list: by priority, then order, then title, and
/// last by position in the graph, all ascending.
pub open spec fn ready_before(ns: Seq<Node>, x: usize, y: usize) -> bool {
    let a = ns[x as int];
    let b = ns[y as int];
    a.priority < b.priority || (a.priority == b.priority && (a.order < b.order || (a.order
        == b.order && (title_lt(a.title@, b.title@) || (a.title@ == b.title@ && x < y)))))
}

pub open spec fn strictly_increasing(s: Seq<usize>) -> bool {
    forall|i: int, j: int| 0 <= i < j < s.len() ==> s[i] < s[j]
}

pub open spec fn in_ready_order(ns: Seq<Node>, s: Seq<usize>) -> bool {
    forall|i: int, j: int| 0 <= i < j < s.len() ==> ready_before(ns, s[i], s[j])
}

/// The derived scheduling lists, each naming nodes by position.
pub struct Classification {
    pub roots: Vec<usize>,
    pub ready: Vec<usize>,
    pub blocked: Vec<usize>,
}

/// The ready order is strict: no node comes before itself. With
/// transitivity and totality below it orders any set of nodes one way only.
pub proof fn lemma_ready_before_irreflexive(ns: Seq<Node>, x: usize)
    ensures
        !ready_before(ns, x, x),
{
    lemma_title_irreflexive(ns[x as int].title@);
}

pub proof fn lemma_ready_before_transitive(ns: Seq<Node>, x: usize, y: usize, z: usize)
    requires
        ready_before(ns, x, y),
        ready_before(ns, y, z),
    ensures
        ready_before(ns, x, z),
{
    let (a, b, c) = (ns[x as int].title@, ns[y as int].title@, ns[z as int].title@);
    if title_lt(a, b) && title_lt(b, c) {
        lemma_title_transitive(a, b, c);
    }
}

pub proof fn lemma_ready_before_total(ns: Seq<Node>, x: usize, y: usize)
    requires
        x != y,
    ensures
        ready_before(ns, x, y) || ready_before(ns, y, x),
{
    if ns[x as int].title@ != ns[y as int].title@ {
        lemma_title_total(ns[x as int].title@, ns[y as int].title@);
    }
}

/// Disjointness: no node is both ready and blocked, and a completed node is
/// neither.
pub proof fn lemma_ready_blocked_disjoint(ns: Seq<Node>, i: int)
    ensures
        !(is_ready(ns, i) && is_blocked(ns, i)),
        completed(ns, i) ==> !is_ready(ns, i) && !is_blocked(ns, i),
{
}

/// Soft-dependency neutrality: whatever happens to a node `t` that node `i`
/// only soft-depends on (its status turning completed or not in
/// particular), `i` stays exactly as ready and as blocked as before. A node
/// that is also a hard dependency of `i`, or is `i` itself, is not such a
/// node.
pub proof fn lemma_soft_dependency_neutral(ns: Seq<Node>, ms: Seq<Node>, i: int, t: usize)
    requires
        0 <= i < ns.len(),
        ms.len() == ns.len(),
        t < ns.len(),
        t != i,
        ns[i].links.soft_depends_on@.contains(t),
        !ns[i].links.depends_on@.contains(t),
        forall|j: int| 0 <= j < ns.len() && j != t ==> ms[j] == ns[j],
    ensures
        is_ready(ms, i) == is_ready(ns, i),
        is_blocked(ms, i) == is_blocked(ns, i),
{
    let deps = ns[i].links.depends_on@;
    assert(ms[i] == ns[i]);
    assert forall|k: int| 0 <= k < deps.len() implies completed(ms, deps[k] as int) == completed(
        ns,
        deps[k] as int,
    ) || deps[k] >= ns.len() by {
        if deps[k] < ns.len() {
            assert(deps[k] != t);
        }
    }
    assert(has_unmet_dependency(ms, i) == has_unmet_dependency(ns, i));
}

fn unmet_dependency(ns: &Vec<Node>, i: usize) -> (r: bool)
    requires
        i < ns.len(),
    ensures
        r == has_unmet_dependency(ns@, i as int),
{
    let deps = &ns[i].links.depends_on;
    let mut k: usize = 0;
    while k < deps.len()
        invariant
            i < ns.len(),
            deps@ == ns@[i as int].links.depends_on@,
            k <= deps.len(),
            forall|q: int|
                0 <= q < k ==> !(#[trigger] deps@[q] < ns.len() && !completed(ns@, deps@[q] as int)),
        decreases deps.len() - k,
    {
        let d = deps[k];
        if d < ns.len() && !is_completed(ns[d].status.as_str()) {
            return true;
        }
        k = k + 1;
    }
    false
}

fn blocked_at(ns: &Vec<Node>, i: usize) -> (r: bool)
    requires
        i < ns.len(),
    ensures
        r == is_blocked(ns@, i as int),
{
    let status = ns[i].status.as_str();
    !is_completed(status) && (text_eq(status, "blocked") || unmet_dependency(ns, i))
}

fn ready_at(ns: &Vec<Node>, i: usize) -> (r: bool)
    requires
        i < ns.len(),
    ensures
        r == is_ready(ns@, i as int),
{
    let n = &ns[i];
    !is_completed(n.status.as_str()) && !blocked_at(ns, i) && n.links.leaf && text_eq(
        n.status.as_str(),
        "active",
    ) && !text_eq(n.kind.as_str(), "learn")
}

fn root_at(ns: &Vec<Node>, i: usize) -> (r: bool)
    requires
        i < ns.len(),
    ensures
        r == is_root(ns@, i as int),
{
    let n = &ns[i];
    !is_completed(n.status.as_str()) && match n.links.parent {
        None => true,
        Some(p) => p >= ns.len(),
    }
}

fn before(ns: &Vec<Node>, x: usize, y: usize) -> (r: bool)
    requires
        x < ns.len(),
        y < ns.len(),
    ensures
        r == ready_before(ns@, x, y),
{
    let a = &ns[x];
    let b = &ns[y];
    if a.priority != b.priority {
        a.priority < b.priority
    } else if a.order != b.order {
        a.order < b.order
    } else if title_less(a.title.as_str(), b.title.as_str()) {
        true
    } else if a.title == b.title {
        x < y
    } else {
        false
    }
}

/// Inserts `x` into a list kept in ready order.
fn insert_in_ready_order(ns: &Vec<Node>, list: &mut Vec<usize>, x: usize)
    requires
        x < ns.len(),
        in_ready_order(ns@, old(list)@),
        !old(list)@.contains(x),
        forall|k: int| 0 <= k < old(list)@.len() ==> #[trigger] old(list)@[k] < ns.len(),
    ensures
        in_ready_order(ns@, final(list)@),
        forall|y: usize| #[trigger]
            final(list)@.contains(y) <==> (old(list)@.contains(y) || y == x),
        forall|k: int| 0 <= k < final(list)@.len() ==> #[trigger] final(list)@[k] < ns.len(),
{
    let ghost l = list@;
    let mut p: usize = 0;
    let mut found = false;
    while !found && p < list.len()
        invariant
            list@ == l,
            x < ns.len(),
            forall|k: int| 0 <= k < l.len() ==> #[trigger] l[k] < ns.len(),
            !l.contains(x),
            p <= l.len(),
            found ==> p < l.len() && ready_before(ns@, x, l[p as int]),
            forall|q: int| 0 <= q < p ==> ready_before(ns@, #[trigger] l[q], x),
        decreases l.len() - p + (if found { 0int } else { 1int }),
    {
        if before(ns, x, list[p]) {
            found = true;
        } else {
            proof {
                assert(l[p as int] != x);
                lemma_ready_before_total(ns@, x, l[p as int]);
            }
            p = p + 1;
        }
    }
    list.insert(p, x);
    proof {
        let m = list@;
        assert(m =~= l.insert(p as int, x));
        assert forall|k: int| 0 <= k < m.len() implies m[k] == (if k < p {
            l[k]
        } else if k == p {
            x
        } else {
            l[k - 1]
        }) by {}
        assert forall|q: int| p <= q < l.len() implies ready_before(ns@, x, l[q]) by {
            if q > p {
                lemma_ready_before_transitive(ns@, x, l[p as int], l[q]);
            }
        }
        assert forall|i: int, j: int| 0 <= i < j < m.len() implies ready_before(
            ns@,
            m[i],
            m[j],
        ) by {
            if i < p && j > p {
                lemma_ready_before_transitive(ns@, m[i], x, m[j]);
            }
        }
        assert forall|y: usize| m.contains(y) <==> (l.contains(y) || y == x) by {
            if m.contains(y) {
                let k = choose|k: int| 0 <= k < m.len() && m[k] == y;
                if k < p {
                    assert(l[k] == y);
                } else if k > p {
                    assert(l[k - 1] == y);
                }
            }
            if l.contains(y) {
                let k = choose|k: int| 0 <= k < l.len() && l[k] == y;
                if k < p {
                    assert(m[k] == y);
                } else {
                    assert(m[k + 1] == y);
                }
            }
            if y == x {
                assert(m[p as int] == x);
            }
        }
        assert forall|k: int| 0 <= k < m.len() implies #[trigger] m[k] < ns.len() by {
            if k > p {
                assert(l[k - 1] < ns.len());
            }
        }
    }
}

/// Classifies every node: the roots and the blocked nodes in graph order,
/// the ready nodes in ready order.
pub fn classify(ns: &Vec<Node>) -> (c: Classification)
    ensures
        forall|y: usize| #[trigger]
            c.roots@.contains(y) <==> (y < ns.len() && is_root(ns@, y as int)),
        strictly_increasing(c.roots@),
        forall|y: usize| #[trigger]
            c.blocked@.contains(y) <==> (y < ns.len() && is_blocked(ns@, y as int)),
        strictly_increasing(c.blocked@),
        forall|y: usize| #[trigger]
            c.ready@.contains(y) <==> (y < ns.len() && is_ready(ns@, y as int)),
        in_ready_order(ns@, c.ready@),
{
    let mut roots: Vec<usize> = Vec::new();
    let mut ready: Vec<usize> = Vec::new();
    let mut blocked: Vec<usize> = Vec::new();
    let mut i: usize = 0;
    while i < ns.len()
        invariant
            i <= ns.len(),
            forall|y: usize| #[trigger] roots@.contains(y) <==> (y < i && is_root(ns@, y as int)),
            forall|k: int| 0 <= k < roots@.len() ==> #[trigger] roots@[k] < i,
            strictly_increasing(roots@),
            forall|y: usize| #[trigger]
                blocked@.contains(y) <==> (y < i && is_blocked(ns@, y as int)),
            forall|k: int| 0 <= k < blocked@.len() ==> #[trigger] blocked@[k] < i,
            strictly_increasing(blocked@),
            forall|y: usize| #[trigger] ready@.contains(y) <==> (y < i && is_ready(ns@, y as int)),
            in_ready_order(ns@, ready@),
        decreases ns.len() - i,
    {
        if root_at(ns, i) {
            roots.push(i);
        }
        if blocked_at(ns, i) {
            blocked.push(i);
        }
        if ready_at(ns, i) {
            assert forall|k: int| 0 <= k < ready@.len() implies #[trigger] ready@[k] < ns.len() by {
                assert(ready@.contains(ready@[k]));
            }
            insert_in_ready_order(ns, &mut ready, i);
        }
        i = i + 1;
    }
    Classification { roots, ready, blocked }
}

} // verus!

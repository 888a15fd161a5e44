//! Relations between nodes and the inference of their inverses.
//!
//! A node's relations name other nodes by their position in the graph. Three
//! pairs of relations are symmetric although a document authors only one
//! side: `parent` / `children`, `depends_on` / `blocks` and
//! `soft_depends_on` / `soft_blocks`. Inference runs in two phases: it first
//! reads every node and collects `(target, source)` update tuples, then
//! applies them to fresh relation lists, so no node is written while others
//! are still being read.

use vstd::prelude::*;

verus! {

broadcast use vstd::seq_lib::lemma_seq_contains_after_push;

/// The relations of one node, each target given by its position in the graph.
pub struct Links {
    pub parent: Option<usize>,
    pub children: Vec<usize>,
    pub depends_on: Vec<usize>,
    pub blocks: Vec<usize>,
    pub soft_depends_on: Vec<usize>,
    pub soft_blocks: Vec<usize>,
    pub leaf: bool,
}

/// The relations of one node as sets: order and repetition do not matter.
pub struct LinkSets {
    pub parent: Option<usize>,
    pub children: Set<usize>,
    pub depends_on: Set<usize>,
    pub blocks: Set<usize>,
    pub soft_depends_on: Set<usize>,
    pub soft_blocks: Set<usize>,
    pub leaf: bool,
}

/// The relation lists that carry a set of targets.
pub enum Relation {
    Children,
    DependsOn,
    Blocks,
    SoftDependsOn,
    SoftBlocks,
}

pub open spec fn as_set(s: Seq<usize>) -> Set<usize> {
    Set::new(|x: usize| s.contains(x))
}

/// Every target in `s` names a node of a graph with `n` nodes.
pub open spec fn targets_below(s: Seq<usize>, n: nat) -> bool {
    forall|k: int| 0 <= k < s.len() ==> (#[trigger] s[k]) < n
}

impl View for Links {
    type V = LinkSets;

    open spec fn view(&self) -> LinkSets {
        LinkSets {
            parent: self.parent,
            children: as_set(self.children@),
            depends_on: as_set(self.depends_on@),
            blocks: as_set(self.blocks@),
            soft_depends_on: as_set(self.soft_depends_on@),
            soft_blocks: as_set(self.soft_blocks@),
            leaf: self.leaf,
        }
    }
}

impl LinkSets {
    pub open spec fn rel(self, r: Relation) -> Set<usize> {
        match r {
            Relation::Children => self.children,
            Relation::DependsOn => self.depends_on,
            Relation::Blocks => self.blocks,
            Relation::SoftDependsOn => self.soft_depends_on,
            Relation::SoftBlocks => self.soft_blocks,
        }
    }
}

impl Links {
    pub open spec fn rel_seq(&self, r: Relation) -> Seq<usize> {
        match r {
            Relation::Children => self.children@,
            Relation::DependsOn => self.depends_on@,
            Relation::Blocks => self.blocks@,
            Relation::SoftDependsOn => self.soft_depends_on@,
            Relation::SoftBlocks => self.soft_blocks@,
        }
    }

    /// Every target names one of the `n` nodes of the graph.
    pub open spec fn wf(&self, n: nat) -> bool {
        &&& (self.parent matches Some(p) ==> p < n)
        &&& targets_below(self.children@, n)
        &&& targets_below(self.depends_on@, n)
        &&& targets_below(self.blocks@, n)
        &&& targets_below(self.soft_depends_on@, n)
        &&& targets_below(self.soft_blocks@, n)
    }

    /// No relation list names a target twice.
    pub open spec fn deduplicated(&self) -> bool {
        &&& self.children@.no_duplicates()
        &&& self.depends_on@.no_duplicates()
        &&& self.blocks@.no_duplicates()
        &&& self.soft_depends_on@.no_duplicates()
        &&& self.soft_blocks@.no_duplicates()
    }

    pub fn targets(&self, r: &Relation) -> (t: &Vec<usize>)
        ensures
            t@ == self.rel_seq(*r),
    {
        match r {
            Relation::Children => &self.children,
            Relation::DependsOn => &self.depends_on,
            Relation::Blocks => &self.blocks,
            Relation::SoftDependsOn => &self.soft_depends_on,
            Relation::SoftBlocks => &self.soft_blocks,
        }
    }
}

/// Every relation of every node stays inside the graph.
pub open spec fn graph_wf(g: Seq<Links>) -> bool {
    forall|i: int| 0 <= i < g.len() ==> (#[trigger] g[i]).wf(g.len())
}

pub open spec fn model(g: Seq<Links>) -> Seq<LinkSets> {
    Seq::new(g.len(), |i: int| g[i]@)
}

/// The nodes whose relation `r` names `t`.
pub open spec fn sources_toward(g: Seq<LinkSets>, r: Relation, t: usize) -> Set<usize> {
    Set::new(|s: usize| s < g.len() && g[s as int].rel(r).contains(t))
}

/// The nodes whose parent is `b`.
pub open spec fn children_by_parent(g: Seq<LinkSets>, b: usize) -> Set<usize> {
    Set::new(|a: usize| a < g.len() && g[a as int].parent == Some(b))
}

/// The first node, from position `from` on, that lists `c` among its children.
pub open spec fn first_claimant(g: Seq<LinkSets>, c: usize, from: int) -> Option<usize>
    decreases g.len() - from,
{
    if from < 0 || from >= g.len() {
        None
    } else if g[from].children.contains(c) {
        Some(from as usize)
    } else {
        first_claimant(g, c, from + 1)
    }
}

/// A parent that a document authored is kept; an absent one is filled from
/// the first node that lists the document among its children.
pub open spec fn parent_after(g: Seq<LinkSets>, c: int) -> Option<usize> {
    match g[c].parent {
        Some(p) => Some(p),
        None => first_claimant(g, c as usize, 0),
    }
}

/// Node `i` once the inverse of every relation is merged in and `leaf` is
/// recomputed from its children.
pub open spec fn inferred_node(g: Seq<LinkSets>, i: int) -> LinkSets {
    let children = g[i].children + children_by_parent(g, i as usize);
    LinkSets {
        parent: parent_after(g, i),
        children,
        depends_on: g[i].depends_on + sources_toward(g, Relation::Blocks, i as usize),
        blocks: g[i].blocks + sources_toward(g, Relation::DependsOn, i as usize),
        soft_depends_on: g[i].soft_depends_on + sources_toward(g, Relation::SoftBlocks, i as usize),
        soft_blocks: g[i].soft_blocks + sources_toward(g, Relation::SoftDependsOn, i as usize),
        leaf: children.is_empty(),
    }
}

pub open spec fn inferred(g: Seq<LinkSets>) -> Seq<LinkSets> {
    Seq::new(g.len(), |i: int| inferred_node(g, i))
}

pub fn contains_index(v: &Vec<usize>, x: usize) -> (r: bool)
    ensures
        r == v@.contains(x),
{
    let mut k: usize = 0;
    while k < v.len()
        invariant
            k <= v.len(),
            forall|q: int| 0 <= q < k ==> v@[q] != x,
        decreases v.len() - k,
    {
        if v[k] == x {
            return true;
        }
        k = k + 1;
    }
    false
}

fn push_unique(v: &mut Vec<usize>, x: usize)
    requires
        old(v)@.no_duplicates(),
    ensures
        final(v)@.no_duplicates(),
        as_set(final(v)@) == as_set(old(v)@).insert(x),
        forall|n: nat| targets_below(old(v)@, n) && x < n ==> targets_below(final(v)@, n),
{
    if !contains_index(v, x) {
        v.push(x);
        assert(v@ == old(v)@.push(x));
        assert forall|y: usize| v@.contains(y) <==> (old(v)@.contains(y) || y == x) by {
            if v@.contains(y) {
                let q = choose|q: int| 0 <= q < v@.len() && v@[q] == y;
                if q < old(v)@.len() {
                    assert(old(v)@[q] == y);
                }
            }
            if old(v)@.contains(y) {
                let q = choose|q: int| 0 <= q < old(v)@.len() && old(v)@[q] == y;
                assert(v@[q] == y);
            }
            if y == x {
                assert(v@[old(v)@.len() as int] == x);
            }
        }
    }
    assert(as_set(v@) =~= as_set(old(v)@).insert(x));
}


/// Phase one for a set relation: the tuple `(t, s)` for every node `s` whose
/// relation `r` names a node `t` of the graph.
fn collect_updates(g: &Vec<Links>, r: &Relation) -> (u: Vec<(usize, usize)>)
    ensures
        forall|t: usize, s: usize| #[trigger]
            u@.contains((t, s)) <==> (s < g.len() && t < g.len() && g@[s as int].rel_seq(
                *r,
            ).contains(t)),
{
    let n = g.len();
    let mut u: Vec<(usize, usize)> = Vec::new();
    let mut s: usize = 0;
    while s < n
        invariant
            n == g.len(),
            s <= n,
            forall|t: usize, s2: usize| #[trigger]
                u@.contains((t, s2)) <==> (s2 < s && t < n && g@[s2 as int].rel_seq(
                    *r,
                ).contains(t)),
        decreases n - s,
    {
        let ts = g[s].targets(r);
        let mut k: usize = 0;
        while k < ts.len()
            invariant
                n == g.len(),
                s < n,
                k <= ts.len(),
                ts@ == g@[s as int].rel_seq(*r),
                forall|t: usize, s2: usize| #[trigger]
                    u@.contains((t, s2)) <==> ((s2 < s && t < n && g@[s2 as int].rel_seq(
                        *r,
                    ).contains(t)) || (s2 == s && t < n && ts@.take(k as int).contains(t))),
            decreases ts.len() - k,
        {
            let t = ts[k];
            assert(ts@.take(k as int + 1) =~= ts@.take(k as int).push(t));
            if t < n {
                u.push((t, s));
            }
            k = k + 1;
        }
        assert(ts@.take(ts@.len() as int) =~= ts@);
        s = s + 1;
    }
    u
}

/// Phase one for `parent`: the tuple `(p, a)` for every node `a` whose parent
/// is a node `p` of the graph.
fn collect_parent_updates(g: &Vec<Links>) -> (u: Vec<(usize, usize)>)
    ensures
        forall|t: usize, s: usize| #[trigger]
            u@.contains((t, s)) <==> (s < g.len() && t < g.len() && g@[s as int].parent == Some(
                t,
            )),
{
    let n = g.len();
    let mut u: Vec<(usize, usize)> = Vec::new();
    let mut s: usize = 0;
    while s < n
        invariant
            n == g.len(),
            s <= n,
            forall|t: usize, s2: usize| #[trigger]
                u@.contains((t, s2)) <==> (s2 < s && t < n && g@[s2 as int].parent == Some(t)),
        decreases n - s,
    {
        if let Some(p) = g[s].parent {
            if p < n {
                u.push((p, s));
            }
        }
        s = s + 1;
    }
    u
}

/// Phase two for one target: `base` without repetitions, followed by every
/// source that an update tuple addresses to `target`.
fn merge_sources(base: &Vec<usize>, updates: &Vec<(usize, usize)>, target: usize, n: usize) -> (r:
    Vec<usize>)
    requires
        targets_below(base@, n as nat),
        forall|t: usize, s: usize| #[trigger] updates@.contains((t, s)) ==> s < n,
    ensures
        r@.no_duplicates(),
        targets_below(r@, n as nat),
        as_set(r@) == as_set(base@) + Set::new(|s: usize| updates@.contains((target, s))),
{
    let mut r: Vec<usize> = Vec::new();
    let mut k: usize = 0;
    while k < base.len()
        invariant
            k <= base.len(),
            targets_below(base@, n as nat),
            r@.no_duplicates(),
            targets_below(r@, n as nat),
            as_set(r@) == as_set(base@.take(k as int)),
        decreases base.len() - k,
    {
        assert(base@.take(k as int + 1) =~= base@.take(k as int).push(base@[k as int]));
        push_unique(&mut r, base[k]);
        assert(as_set(r@) =~= as_set(base@.take(k as int + 1)));
        k = k + 1;
    }
    assert(base@.take(base@.len() as int) =~= base@);
    let mut q: usize = 0;
    while q < updates.len()
        invariant
            q <= updates.len(),
            forall|t: usize, s: usize| #[trigger] updates@.contains((t, s)) ==> s < n,
            r@.no_duplicates(),
            targets_below(r@, n as nat),
            as_set(r@) == as_set(base@) + Set::new(
                |s: usize| updates@.take(q as int).contains((target, s)),
            ),
        decreases updates.len() - q,
    {
        let (t, s) = updates[q];
        assert(updates@.take(q as int + 1) =~= updates@.take(q as int).push((t, s)));
        assert(updates@.contains((t, s)));
        let ghost before = r@;
        if t == target {
            push_unique(&mut r, s);
        }
        assert(as_set(r@) =~= as_set(base@) + Set::new(
            |s: usize| updates@.take(q as int + 1).contains((target, s)),
        ));
        q = q + 1;
    }
    assert(updates@.take(updates@.len() as int) =~= updates@);
    r
}

/// The first node of the graph that lists `c` among its children.
fn claimant(g: &Vec<Links>, c: usize) -> (r: Option<usize>)
    ensures
        r == first_claimant(model(g@), c, 0),
{
    let mut b: usize = 0;
    while b < g.len()
        invariant
            b <= g.len(),
            first_claimant(model(g@), c, 0) == first_claimant(model(g@), c, b as int),
        decreases g.len() - b,
    {
        if contains_index(&g[b].children, c) {
            return Some(b);
        }
        b = b + 1;
    }
    None
}

/// Merges the inverse of every relation into the graph: `children` from the
/// parents, `blocks` from `depends_on` and back, `soft_blocks` from
/// `soft_depends_on` and back, and a missing parent from the first node that
/// lists the node as a child. Every list comes out without repetitions and
/// `leaf` holds exactly when a node has no children.
pub fn infer_links(g: &Vec<Links>) -> (r: Vec<Links>)
    requires
        graph_wf(g@),
    ensures
        r.len() == g.len(),
        graph_wf(r@),
        forall|i: int| 0 <= i < r.len() ==> (#[trigger] r@[i]).deduplicated(),
        forall|i: int| 0 <= i < r.len() ==> (#[trigger] r@[i]).leaf == (r@[i].children.len() == 0),
        model(r@) == inferred(model(g@)),
{
    let n = g.len();
    let child_updates = collect_parent_updates(g);
    let block_updates = collect_updates(g, &Relation::DependsOn);
    let dep_updates = collect_updates(g, &Relation::Blocks);
    let soft_block_updates = collect_updates(g, &Relation::SoftDependsOn);
    let soft_dep_updates = collect_updates(g, &Relation::SoftBlocks);
    let ghost m = model(g@);
    let mut out: Vec<Links> = Vec::new();
    let mut i: usize = 0;
    while i < n
        invariant
            n == g.len(),
            i <= n,
            out.len() == i,
            m == model(g@),
            graph_wf(g@),
            forall|t: usize, s: usize| #[trigger]
                child_updates@.contains((t, s)) <==> (s < n && t < n && g@[s as int].parent
                    == Some(t)),
            forall|t: usize, s: usize| #[trigger]
                block_updates@.contains((t, s)) <==> (s < n && t < n && g@[s as int].rel_seq(
                    Relation::DependsOn,
                ).contains(t)),
            forall|t: usize, s: usize| #[trigger]
                dep_updates@.contains((t, s)) <==> (s < n && t < n && g@[s as int].rel_seq(
                    Relation::Blocks,
                ).contains(t)),
            forall|t: usize, s: usize| #[trigger]
                soft_block_updates@.contains((t, s)) <==> (s < n && t < n && g@[s as int].rel_seq(
                    Relation::SoftDependsOn,
                ).contains(t)),
            forall|t: usize, s: usize| #[trigger]
                soft_dep_updates@.contains((t, s)) <==> (s < n && t < n && g@[s as int].rel_seq(
                    Relation::SoftBlocks,
                ).contains(t)),
            forall|j: int| 0 <= j < i ==> (#[trigger] out@[j]).wf(n as nat),
            forall|j: int| 0 <= j < i ==> (#[trigger] out@[j]).deduplicated(),
            forall|j: int| 0 <= j < i ==> (#[trigger] out@[j]).leaf == (out@[j].children.len()
                == 0),
            forall|j: int| 0 <= j < i ==> (#[trigger] out@[j])@ == inferred_node(m, j),
        decreases n - i,
    {
        let node = &g[i];
        assert(node.wf(n as nat));
        let children = merge_sources(&node.children, &child_updates, i, n);
        let depends_on = merge_sources(&node.depends_on, &dep_updates, i, n);
        let blocks = merge_sources(&node.blocks, &block_updates, i, n);
        let soft_depends_on = merge_sources(&node.soft_depends_on, &soft_dep_updates, i, n);
        let soft_blocks = merge_sources(&node.soft_blocks, &soft_block_updates, i, n);
        let parent = match node.parent {
            Some(p) => Some(p),
            None => claimant(g, i),
        };
        let leaf = children.len() == 0;
        let links = Links { parent, children, depends_on, blocks, soft_depends_on, soft_blocks, leaf };
        proof {
            let e = inferred_node(m, i as int);
            assert(m[i as int] == node@);
            assert(links@.children =~= e.children);
            assert(links@.depends_on =~= e.depends_on);
            assert(links@.blocks =~= e.blocks);
            assert(links@.soft_depends_on =~= e.soft_depends_on);
            assert(links@.soft_blocks =~= e.soft_blocks);
            if links.children@.len() > 0 {
                assert(links@.children.contains(links.children@[0]));
            }
            assert(links@.leaf == e.leaf);
            if let Some(p) = parent {
                if node.parent is None {
                    lemma_claimant_below(m, i, 0);
                }
            }
            assert(links@ == e);
        }
        out.push(links);
        i = i + 1;
    }
    assert(model(out@) =~= inferred(m));
    out
}

/// A claimant is a node of the graph that lists `c` among its children, and
/// no earlier node from `from` on does.
proof fn lemma_claimant_below(g: Seq<LinkSets>, c: usize, from: int)
    requires
        g.len() <= usize::MAX,
    ensures
        first_claimant(g, c, from) matches Some(b) ==> b < g.len() && from <= b && g[b as int].children.contains(c),
    decreases g.len() - from,
{
    if 0 <= from < g.len() && !g[from].children.contains(c) {
        lemma_claimant_below(g, c, from + 1);
    }
}

/// No node from `from` on lists `c` among its children exactly when no
/// claimant is found from there.
proof fn lemma_claimant_none(g: Seq<LinkSets>, c: usize, from: int)
    requires
        0 <= from,
    ensures
        first_claimant(g, c, from) is None <==> forall|b: int|
            from <= b < g.len() ==> !(#[trigger] g[b].children.contains(c)),
    decreases g.len() - from,
{
    if from < g.len() {
        lemma_claimant_none(g, c, from + 1);
    }
}

/// Inverse symmetry: after inference, a node depends on another exactly when
/// the other blocks it, likewise for the soft pair, and an inferred parent
/// lists the node among its children. In particular a `depends_on`,
/// `soft_depends_on` or `parent` that a document declares is mirrored on its
/// target.
pub proof fn lemma_inverse_symmetry(g: Seq<LinkSets>, a: usize, b: usize)
    requires
        g.len() <= usize::MAX,
        a < g.len(),
        b < g.len(),
    ensures
        inferred(g)[a as int].depends_on.contains(b) <==> inferred(g)[b as int].blocks.contains(a),
        inferred(g)[a as int].soft_depends_on.contains(b) <==> inferred(
            g,
        )[b as int].soft_blocks.contains(a),
        inferred(g)[a as int].parent == Some(b) ==> inferred(g)[b as int].children.contains(a),
        g[a as int].depends_on.contains(b) ==> inferred(g)[b as int].blocks.contains(a),
        g[a as int].soft_depends_on.contains(b) ==> inferred(g)[b as int].soft_blocks.contains(a),
        g[a as int].parent == Some(b) ==> inferred(g)[b as int].children.contains(a),
{
    lemma_claimant_below(g, a, 0);
    assert(sources_toward(g, Relation::DependsOn, b).contains(a) <==> g[a as int].depends_on.contains(b));
    assert(sources_toward(g, Relation::Blocks, a).contains(b) <==> g[b as int].blocks.contains(a));
    assert(sources_toward(g, Relation::SoftDependsOn, b).contains(a) <==> g[a as int].soft_depends_on.contains(b));
    assert(sources_toward(g, Relation::SoftBlocks, a).contains(b) <==> g[b as int].soft_blocks.contains(a));
    assert(g[a as int].parent == Some(b) ==> children_by_parent(g, b).contains(a));
}

/// Leaf consistency: after inference a node is a leaf exactly when it has no
/// children, whatever leaf flag it carried before.
pub proof fn lemma_leaf_consistency(g: Seq<LinkSets>, i: int)
    requires
        0 <= i < g.len(),
    ensures
        inferred(g)[i].leaf == inferred(g)[i].children.is_empty(),
{
}

/// Idempotence: inference applied to its own output changes nothing.
pub proof fn lemma_inference_idempotent(g: Seq<LinkSets>)
    requires
        g.len() <= usize::MAX,
    ensures
        inferred(inferred(g)) == inferred(g),
{
    let h = inferred(g);
    assert forall|i: int| 0 <= i < h.len() implies #[trigger] inferred_node(h, i) == h[i] by {
        let e = inferred_node(h, i);
        assert forall|a: usize| children_by_parent(h, i as usize).contains(a) implies h[i].children.contains(a) by {
            lemma_claimant_below(g, a, 0);
            if g[a as int].parent is None {
                assert(g[i].children.contains(a));
            } else {
                assert(children_by_parent(g, i as usize).contains(a));
            }
        }
        assert(e.children =~= h[i].children);
        assert(e.depends_on =~= h[i].depends_on);
        assert(e.blocks =~= h[i].blocks);
        assert(e.soft_depends_on =~= h[i].soft_depends_on);
        assert(e.soft_blocks =~= h[i].soft_blocks);
        if g[i].parent is None {
            if first_claimant(g, i as usize, 0) is None {
                lemma_claimant_none(g, i as usize, 0);
                lemma_claimant_none(h, i as usize, 0);
                assert forall|b: int| 0 <= b < h.len() implies !(#[trigger] h[b].children.contains(i as usize)) by {
                    assert(!g[b].children.contains(i as usize));
                    assert(!children_by_parent(g, b as usize).contains(i as usize));
                }
            }
        }
        assert(e.parent == h[i].parent);
    }
    assert(inferred(h) =~= h);
}

} // verus!

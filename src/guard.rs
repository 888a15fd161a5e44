//! The duplicate identity guard: two documents that share an id cannot be
//! told apart downstream, so every such id is reported and no graph is built.

use vstd::prelude::*;
use crate::graph::Record;

verus! {

broadcast use vstd::seq_lib::lemma_seq_contains_after_push;

/// An id that more than one document carries, with the positions of all of
/// them in ascending order and their paths.
pub struct DuplicateId {
    pub id: String,
    pub members: Vec<usize>,
    pub paths: Vec<String>,
}

/// No two documents carry the same id.
pub open spec fn ids_unique(rs: Seq<Record>) -> bool {
    forall|i: int, j: int| 0 <= i < j < rs.len() ==> rs[i].id@ != rs[j].id@
}

/// Document `i` is the first one that carries its id.
pub open spec fn first_with_id(rs: Seq<Record>, i: int) -> bool {
    forall|j: int| 0 <= j < i ==> rs[j].id@ != rs[i].id@
}

/// Another document carries the id of document `i`.
pub open spec fn id_repeated(rs: Seq<Record>, i: int) -> bool {
    exists|j: int| 0 <= j < rs.len() && j != i && rs[j].id@ == rs[i].id@
}

/// `d` reports exactly the documents that carry its id, and there are at
/// least two of them.
pub open spec fn reports_group(rs: Seq<Record>, d: DuplicateId) -> bool {
    &&& d.members@.len() >= 2
    &&& forall|a: int, b: int| 0 <= a < b < d.members@.len() ==> d.members@[a] < d.members@[b]
    &&& forall|k: usize| #[trigger]
        d.members@.contains(k) <==> (k < rs.len() && rs[k as int].id@ == d.id@)
    &&& first_with_id(rs, d.members@[0] as int)
    &&& d.paths@.len() == d.members@.len()
    &&& forall|k: int|
        0 <= k < d.paths@.len() ==> (#[trigger] d.paths@[k])@ == rs[d.members@[k] as int].path@
}

/// `d` reports every id that more than one document carries, each once, in
/// the order of the first document that carries it.
pub open spec fn reports_duplicates(rs: Seq<Record>, d: Seq<DuplicateId>) -> bool {
    &&& forall|q: int| 0 <= q < d.len() ==> reports_group(rs, #[trigger] d[q])
    &&& forall|q1: int, q2: int|
        0 <= q1 < q2 < d.len() ==> d[q1].members@[0] < d[q2].members@[0] && d[q1].id@ != d[q2].id@
    &&& forall|i: int|
        0 <= i < rs.len() && #[trigger] id_repeated(rs, i) ==> exists|q: int|
            0 <= q < d.len() && d[q].id@ == rs[i].id@
}

/// The paths of the documents at `members`.
fn paths_of(records: &Vec<Record>, members: &Vec<usize>) -> (p: Vec<String>)
    requires
        forall|k: int| 0 <= k < members@.len() ==> #[trigger] members@[k] < records.len(),
    ensures
        p@.len() == members@.len(),
        forall|k: int|
            0 <= k < p@.len() ==> (#[trigger] p@[k])@ == records@[members@[k] as int].path@,
{
    let mut p: Vec<String> = Vec::new();
    let mut k: usize = 0;
    while k < members.len()
        invariant
            k <= members.len(),
            forall|q: int| 0 <= q < members@.len() ==> #[trigger] members@[q] < records.len(),
            p@.len() == k,
            forall|q: int|
                0 <= q < k ==> (#[trigger] p@[q])@ == records@[members@[q] as int].path@,
        decreases members.len() - k,
    {
        p.push(records[members[k]].path.clone());
        k = k + 1;
    }
    p
}

fn first_of_its_id(records: &Vec<Record>, i: usize) -> (r: bool)
    requires
        i < records.len(),
    ensures
        r == first_with_id(records@, i as int),
{
    let mut j: usize = 0;
    while j < i
        invariant
            i < records.len(),
            j <= i,
            forall|q: int| 0 <= q < j ==> records@[q].id@ != records@[i as int].id@,
        decreases i - j,
    {
        if records[j].id == records[i].id {
            return false;
        }
        j = j + 1;
    }
    true
}

/// The positions of every document whose id is `id`, ascending.
fn carriers(records: &Vec<Record>, id: &String) -> (m: Vec<usize>)
    ensures
        forall|a: int, b: int| 0 <= a < b < m@.len() ==> m@[a] < m@[b],
        forall|k: usize| #[trigger]
            m@.contains(k) <==> (k < records.len() && records@[k as int].id@ == id@),
{
    let mut m: Vec<usize> = Vec::new();
    let mut k: usize = 0;
    while k < records.len()
        invariant
            k <= records.len(),
            forall|a: int, b: int| 0 <= a < b < m@.len() ==> m@[a] < m@[b],
            forall|q: int| 0 <= q < m@.len() ==> #[trigger] m@[q] < k,
            forall|x: usize| #[trigger]
                m@.contains(x) <==> (x < k && records@[x as int].id@ == id@),
        decreases records.len() - k,
    {
        if records[k].id == *id {
            m.push(k);
        }
        k = k + 1;
    }
    m
}

/// Every id that more than one document carries, once, in the order of the
/// first document that carries it. The list is empty exactly when all ids
/// are distinct.
pub fn find_duplicate_ids(records: &Vec<Record>) -> (r: Vec<DuplicateId>)
    ensures
        r@.len() == 0 <==> ids_unique(records@),
        reports_duplicates(records@, r@),
{
    let ghost rs = records@;
    let mut out: Vec<DuplicateId> = Vec::new();
    let mut i: usize = 0;
    while i < records.len()
        invariant
            rs == records@,
            i <= records.len(),
            forall|q: int| 0 <= q < out@.len() ==> reports_group(rs, #[trigger] out@[q]),
            forall|q: int| 0 <= q < out@.len() ==> #[trigger] out@[q].members@[0] < i,
            forall|q1: int, q2: int|
                0 <= q1 < q2 < out@.len() ==> out@[q1].members@[0] < out@[q2].members@[0],
            forall|j: int|
                0 <= j < i && #[trigger] id_repeated(rs, j) ==> exists|q: int|
                    0 <= q < out@.len() && out@[q].id@ == rs[j].id@,
        decreases records.len() - i,
    {
        if first_of_its_id(records, i) {
            let id = records[i].id.clone();
            let members = carriers(records, &id);
            assert(members@.contains(i));
            if members.len() >= 2 {
                proof {
                    assert(members@.contains(members@[0]));
                    assert(members@[0] <= i) by {
                        if members@[0] > i {
                            let k = choose|k: int| 0 <= k < members@.len() && members@[k] == i;
                            assert(members@[k] >= members@[0]);
                        }
                    }
                    assert(members@[0] == i);
                }
                proof {
                    assert forall|k: int| 0 <= k < members@.len() implies #[trigger] members@[k]
                        < records.len() by {
                        assert(members@.contains(members@[k]));
                    }
                }
                let paths = paths_of(records, &members);
                let ghost before = out@;
                out.push(DuplicateId { id, members, paths });
                proof {
                    assert forall|j: int|
                        0 <= j < i + 1 && #[trigger] id_repeated(rs, j) implies exists|q: int|
                        0 <= q < out@.len() && out@[q].id@ == rs[j].id@ by {
                        if j < i {
                            let q = choose|q: int| 0 <= q < before.len() && before[q].id@ == rs[j].id@;
                            assert(out@[q] == before[q]);
                        } else {
                            assert(out@[before.len() as int].id@ == rs[j].id@);
                        }
                    }
                }
            } else {
                proof {
                    assert forall|j: int|
                        0 <= j < i + 1 && #[trigger] id_repeated(rs, j) implies exists|q: int|
                        0 <= q < out@.len() && out@[q].id@ == rs[j].id@ by {
                        if j == i {
                            let k = choose|k: int| 0 <= k < rs.len() && k != i && rs[k].id@ == rs[i as int].id@;
                            assert(members@.contains(k as usize));
                            let a = choose|a: int| 0 <= a < members@.len() && members@[a] == k as usize;
                            let b = choose|b: int| 0 <= b < members@.len() && members@[b] == i;
                            assert(a != b);
                        }
                    }
                }
            }
        } else {
            proof {
                let k = choose|k: int| 0 <= k < i && rs[k].id@ == rs[i as int].id@;
                assert(id_repeated(rs, k));
                assert(id_repeated(rs, i as int));
            }
        }
        i = i + 1;
    }
    proof {
        assert forall|q1: int, q2: int| 0 <= q1 < q2 < out@.len() implies out@[q1].id@ != out@[q2].id@ by {
            let f1 = out@[q1].members@[0];
            let f2 = out@[q2].members@[0];
            assert(out@[q1].members@.contains(f1));
            assert(out@[q2].members@.contains(f2));
        }
        if !ids_unique(rs) {
            let (a, b) = choose|a: int, b: int| 0 <= a < b < rs.len() && rs[a].id@ == rs[b].id@;
            assert(id_repeated(rs, a));
        }
        if out@.len() > 0 {
            let d = out@[0];
            assert(d.members@.contains(d.members@[0]));
            assert(d.members@.contains(d.members@[1]));
            assert(id_repeated(rs, d.members@[0] as int));
            assert(!ids_unique(rs)) by {
                let x = d.members@[0] as int;
                let y = d.members@[1] as int;
                assert(x < y);
            }
        }
    }
    out
}

} // verus!

//! Narrowing the working set by kind, status and priority. Filters apply to
//! the documents before any reference is resolved, so no inferred relation
//! can point at a document that was filtered out.

use vstd::prelude::*;
use crate::graph::Record;
use crate::resolve::{lower_of, lowercase};
use crate::status::text_eq;

verus! {

/// The values a document must have to stay; an absent filter keeps all.
/// Kinds and statuses are compared without regard to case.
pub struct Filters {
    pub kinds: Option<Vec<String>>,
    pub statuses: Option<Vec<String>>,
    pub priorities: Option<Vec<i32>>,
}

pub open spec fn lowered(v: Seq<String>) -> Seq<Seq<char>> {
    v.map_values(|s: String| lower_of(s@))
}

pub open spec fn passes_text(filter: Option<Vec<String>>, value: Option<String>) -> bool {
    match filter {
        None => true,
        Some(f) => match value {
            None => false,
            Some(v) => lowered(f@).contains(lower_of(v@)),
        },
    }
}

pub open spec fn passes_priority(filter: Option<Vec<i32>>, value: Option<i32>) -> bool {
    match filter {
        None => true,
        Some(f) => match value {
            None => false,
            Some(p) => f@.contains(p),
        },
    }
}

/// Document `r` stays under the filters `f`.
pub open spec fn passes(f: Filters, r: Record) -> bool {
    passes_text(f.kinds, r.kind) && passes_text(f.statuses, r.status) && passes_priority(
        f.priorities,
        r.priority,
    )
}

fn text_passes(filter: &Option<Vec<String>>, value: &Option<String>) -> (r: bool)
    ensures
        r == passes_text(*filter, *value),
{
    match filter {
        None => true,
        Some(f) => match value {
            None => false,
            Some(v) => {
                let lv = lowercase(v.as_str());
                let mut k: usize = 0;
                while k < f.len()
                    invariant
                        *filter == Some(*f),
                        *value == Some(*v),
                        k <= f.len(),
                        lv@ == lower_of(v@),
                        forall|q: int| 0 <= q < k ==> lowered(f@)[q] != lower_of(v@),
                    decreases f.len() - k,
                {
                    let lf = lowercase(f[k].as_str());
                    if text_eq(lf.as_str(), lv.as_str()) {
                        assert(lowered(f@)[k as int] == lower_of(v@));
                        assert(lowered(f@).contains(lower_of(v@)));
                        return true;
                    }
                    k = k + 1;
                }
                false
            },
        },
    }
}

fn priority_passes(filter: &Option<Vec<i32>>, value: Option<i32>) -> (r: bool)
    ensures
        r == passes_priority(*filter, value),
{
    match filter {
        None => true,
        Some(f) => match value {
            None => false,
            Some(p) => {
                let mut k: usize = 0;
                while k < f.len()
                    invariant
                        *filter == Some(*f),
                        value == Some(p),
                        k <= f.len(),
                        forall|q: int| 0 <= q < k ==> f@[q] != p,
                    decreases f.len() - k,
                {
                    if f[k] == p {
                        assert(f@.contains(p));
                        return true;
                    }
                    k = k + 1;
                }
                false
            },
        },
    }
}

/// The documents that pass every filter, in the order given.
pub fn apply_filters(records: Vec<Record>, f: &Filters) -> (r: Vec<Record>)
    ensures
        r@ == records@.filter(|x: Record| passes(*f, x)),
{
    let ghost all = records@;
    let ghost keep = |x: Record| passes(*f, x);
    let n = records.len();
    let mut rest = records;
    let mut out: Vec<Record> = Vec::new();
    let mut k: usize = 0;
    assert(all.take(0) =~= Seq::<Record>::empty());
    proof {
        reveal(Seq::filter);
    }
    assert(rest@ =~= all.skip(0));
    while k < n
        invariant
            keep == (|x: Record| passes(*f, x)),
            n == all.len(),
            k <= n,
            rest@ == all.skip(k as int),
            out@ == all.take(k as int).filter(keep),
        decreases n - k,
    {
        let x = rest.remove(0);
        assert(rest@ =~= all.skip(k as int + 1));
        assert(all.take(k as int + 1).drop_last() =~= all.take(k as int));
        assert(all.take(k as int + 1).last() == x);
        let stays = text_passes(&f.kinds, &x.kind) && text_passes(&f.statuses, &x.status)
            && priority_passes(&f.priorities, x.priority);
        let ghost before = out@;
        let ghost xv = x;
        assert(stays == passes(*f, xv));
        assert(stays == keep(xv));
        if stays {
            out.push(x);
        }
        proof {
            let t = all.take(k as int + 1);
            reveal(Seq::filter);
            assert(t.len() > 0);
            assert(t.filter(keep) == (if keep(t.last()) {
                t.drop_last().filter(keep).push(t.last())
            } else {
                t.drop_last().filter(keep)
            }));
        }
        k = k + 1;
    }
    assert(all.take(n as int) =~= all);
    out
}

} // verus!

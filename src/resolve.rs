//! The identity resolver: an alias index built once from every document, and
//! the resolution of a free-text reference to the document it names.
//!
//! Each alias is registered lower-cased. When two documents register the same
//! key, the document that comes first in the working set keeps it, whatever
//! order the keys were met in.

use vstd::prelude::*;
use crate::graph::Record;
use crate::status::text_eq;

verus! {

broadcast use vstd::seq_lib::lemma_seq_contains_after_push;

/// What `str::to_lowercase` makes of a text.
pub uninterp spec fn lower_of(s: Seq<char>) -> Seq<char>;

/// What `Path::parent` gives for a path: its containing directory, if any.
pub uninterp spec fn parent_dir_of(p: Seq<char>) -> Option<Seq<char>>;

/// What `Path::join` gives for a directory and a path relative to it.
pub uninterp spec fn joined_of(dir: Seq<char>, rel: Seq<char>) -> Seq<char>;

/// Relies on `str::to_lowercase`: the result depends on the text alone.
#[verifier::external_body]
pub(crate) fn lowercase(s: &str) -> (r: String)
    ensures
        r@ == lower_of(s@),
{
    s.to_lowercase()
}

/// Relies on `std::path::Path::parent`: the containing directory, or none
/// for a root or an empty path; the result depends on the path alone.
#[verifier::external_body]
fn parent_dir(p: &str) -> (r: Option<String>)
    ensures
        parent_dir_of(p@) == (match r {
            Some(d) => Some(d@),
            None => None,
        }),
{
    std::path::Path::new(p).parent().map(|d| d.to_string_lossy().into_owned())
}

/// Relies on `std::path::Path::join`: the path `rel` taken from `dir`; the
/// result depends on the two paths alone.
#[verifier::external_body]
fn join_path(dir: &str, rel: &str) -> (r: String)
    ensures
        r@ == joined_of(dir@, rel@),
{
    std::path::Path::new(dir).join(rel).to_string_lossy().into_owned()
}

/// Document `i` registers the key `k`: one of its aliases lower-cases to `k`.
pub open spec fn registers(rs: Seq<Record>, i: int, k: Seq<char>) -> bool {
    exists|j: int| 0 <= j < rs[i].aliases.len() && lower_of(#[trigger] rs[i].aliases@[j]@) == k
}

/// Document `t` is the first of the working set to register `k`.
pub open spec fn first_registrant(rs: Seq<Record>, t: usize, k: Seq<char>) -> bool {
    &&& t < rs.len()
    &&& registers(rs, t as int, k)
    &&& forall|i: int| 0 <= i < t ==> !registers(rs, i, k)
}

/// The document that the key `k` names, if any document registers it.
pub open spec fn alias_owner(rs: Seq<Record>, k: Seq<char>) -> Option<usize> {
    if exists|t: usize| first_registrant(rs, t, k) {
        Some(choose|t: usize| first_registrant(rs, t, k))
    } else {
        None
    }
}

/// The first document, from position `from` on, whose path is `p`.
pub open spec fn first_with_path(rs: Seq<Record>, p: Seq<char>, from: int) -> Option<usize>
    decreases rs.len() - from,
{
    if from < 0 || from >= rs.len() {
        None
    } else if rs[from].path@ == p {
        Some(from as usize)
    } else {
        first_with_path(rs, p, from + 1)
    }
}

/// Where a reference made by the document at `doc_path` leads: an alias
/// written exactly as registered, else its lower-cased form, else the path
/// that the reference names relative to the document's directory.
pub open spec fn resolution(rs: Seq<Record>, doc_path: Seq<char>, reference: Seq<char>) -> Option<
    usize,
> {
    match alias_owner(rs, reference) {
        Some(t) => Some(t),
        None => match alias_owner(rs, lower_of(reference)) {
            Some(t) => Some(t),
            None => match parent_dir_of(doc_path) {
                Some(d) => first_with_path(rs, joined_of(d, reference), 0),
                None => None,
            },
        },
    }
}

/// The documents that a list of references leads to, in the order of the
/// references; a reference that leads nowhere is dropped.
pub open spec fn resolved_refs(rs: Seq<Record>, doc_path: Seq<char>, refs: Seq<String>) -> Seq<
    usize,
>
    decreases refs.len(),
{
    if refs.len() == 0 {
        Seq::empty()
    } else {
        let before = resolved_refs(rs, doc_path, refs.drop_last());
        match resolution(rs, doc_path, refs.last()@) {
            Some(t) => before.push(t),
            None => before,
        }
    }
}

/// A frozen map from lower-cased alias keys to documents.
pub struct AliasIndex {
    pub keys: Vec<String>,
    pub targets: Vec<usize>,
}

impl AliasIndex {
    pub open spec fn has_key_at(&self, k: Seq<char>, q: int) -> bool {
        0 <= q < self.keys.len() && self.keys@[q]@ == k
    }

    pub open spec fn wf(&self) -> bool {
        &&& self.keys.len() == self.targets.len()
        &&& forall|a: int, b: int|
            0 <= a < b < self.keys.len() ==> self.keys@[a]@ != self.keys@[b]@
    }

    /// The document that key `k` maps to.
    pub open spec fn get(&self, k: Seq<char>) -> Option<usize> {
        if exists|q: int| self.has_key_at(k, q) {
            Some(self.targets@[choose|q: int| self.has_key_at(k, q)])
        } else {
            None
        }
    }

    /// The index maps every key exactly to the first document that
    /// registers it.
    pub open spec fn indexes(&self, rs: Seq<Record>) -> bool {
        &&& self.wf()
        &&& forall|k: Seq<char>| #[trigger] self.get(k) == alias_owner(rs, k)
    }

    pub fn lookup(&self, k: &str) -> (r: Option<usize>)
        requires
            self.wf(),
        ensures
            r == self.get(k@),
    {
        let mut q: usize = 0;
        while q < self.keys.len()
            invariant
                self.wf(),
                q <= self.keys.len(),
                forall|p: int| 0 <= p < q ==> self.keys@[p]@ != k@,
            decreases self.keys.len() - q,
        {
            if text_eq(self.keys[q].as_str(), k) {
                proof {
                    assert(self.has_key_at(k@, q as int));
                    let c = choose|c: int| self.has_key_at(k@, c);
                    assert(self.has_key_at(k@, c));
                    assert(c == q);
                }
                return Some(self.targets[q]);
            }
            q = q + 1;
        }
        None
    }

    /// Builds the index from every document; no reference may be resolved
    /// before it is complete.
    pub fn build(records: &Vec<Record>) -> (ix: AliasIndex)
        ensures
            ix.indexes(records@),
    {
        let ghost rs = records@;
        let mut ix = AliasIndex { keys: Vec::new(), targets: Vec::new() };
        let mut i: usize = 0;
        while i < records.len()
            invariant
                rs == records@,
                i <= records.len(),
                ix.wf(),
                forall|k: Seq<char>|
                    match #[trigger] ix.get(k) {
                        Some(t) => first_registrant(rs, t, k),
                        None => forall|i2: int| 0 <= i2 < i ==> !registers(rs, i2, k),
                    },
            decreases records.len() - i,
        {
            let aliases = &records[i].aliases;
            let mut j: usize = 0;
            while j < aliases.len()
                invariant
                    rs == records@,
                    i < records.len(),
                    aliases@ == rs[i as int].aliases@,
                    j <= aliases.len(),
                    ix.wf(),
                    forall|k: Seq<char>|
                        match #[trigger] ix.get(k) {
                            Some(t) => first_registrant(rs, t, k),
                            None => (forall|i2: int| 0 <= i2 < i ==> !registers(rs, i2, k)) && (
                            forall|j2: int|
                                0 <= j2 < j ==> lower_of(#[trigger] aliases@[j2]@) != k),
                        },
                decreases aliases.len() - j,
            {
                let key = lowercase(aliases[j].as_str());
                assert(key@ == lower_of(aliases@[j as int]@));
                if ix.lookup(key.as_str()).is_none() {
                    let ghost old_ix = ix;
                    assert(old_ix.get(key@) is None);
                    proof {
                        assert forall|q: int| 0 <= q < ix.keys.len() implies ix.keys@[q]@
                            != key@ by {
                            if ix.keys@[q]@ == key@ {
                                assert(ix.has_key_at(key@, q));
                            }
                        }
                    }
                    ix.keys.push(key);
                    ix.targets.push(i);
                    proof {
                        assert forall|k: Seq<char>|
                            match #[trigger] ix.get(k) {
                                Some(t) => first_registrant(rs, t, k),
                                None => (forall|i2: int| 0 <= i2 < i ==> !registers(rs, i2, k))
                                    && (forall|j2: int|
                                    0 <= j2 < j + 1 ==> lower_of(#[trigger] aliases@[j2]@) != k),
                            } by {
                            let last = old_ix.keys.len() as int;
                            assert(ix.keys@ == old_ix.keys@.push(key));
                            assert(ix.targets@ == old_ix.targets@.push(i));
                            if k == key@ {
                                assert(ix.has_key_at(k, last));
                                let c = choose|c: int| ix.has_key_at(k, c);
                                assert(c == last);
                                assert(registers(rs, i as int, k)) by {
                                    assert(lower_of(rs[i as int].aliases@[j as int]@) == k);
                                }
                            } else {
                                if exists|q: int| old_ix.has_key_at(k, q) {
                                    let c = choose|c: int| old_ix.has_key_at(k, c);
                                    assert(ix.has_key_at(k, c));
                                    let c2 = choose|c2: int| ix.has_key_at(k, c2);
                                    assert(c2 == c);
                                    assert(ix.targets@[c] == old_ix.targets@[c]);
                                    assert(ix.get(k) == old_ix.get(k));
                                } else {
                                    assert forall|q: int| !ix.has_key_at(k, q) by {
                                        if ix.has_key_at(k, q) && q < last {
                                            assert(old_ix.has_key_at(k, q));
                                        }
                                    }
                                    assert(ix.get(k) is None);
                                    assert(old_ix.get(k) is None);
                                }
                            }
                        }
                    }
                } else {
                    proof {
                        assert forall|k: Seq<char>|
                            match #[trigger] ix.get(k) {
                                Some(t) => first_registrant(rs, t, k),
                                None => (forall|i2: int| 0 <= i2 < i ==> !registers(rs, i2, k))
                                    && (forall|j2: int|
                                    0 <= j2 < j + 1 ==> lower_of(#[trigger] aliases@[j2]@) != k),
                            } by {
                            if ix.get(k) is None {
                                assert(k != key@);
                            }
                        }
                    }
                }
                j = j + 1;
            }
            proof {
                assert forall|k: Seq<char>|
                    match #[trigger] ix.get(k) {
                        Some(t) => first_registrant(rs, t, k),
                        None => forall|i2: int| 0 <= i2 < i + 1 ==> !registers(rs, i2, k),
                    } by {
                    if ix.get(k) is None {
                        assert forall|i2: int| 0 <= i2 < i + 1 implies !registers(rs, i2, k) by {
                            if i2 == i && registers(rs, i2, k) {
                                let j2 = choose|j2: int|
                                    0 <= j2 < rs[i2].aliases.len() && lower_of(
                                        #[trigger] rs[i2].aliases@[j2]@,
                                    ) == k;
                                assert(lower_of(aliases@[j2]@) != k);
                            }
                        }
                    }
                }
            }
            i = i + 1;
        }
        proof {
            assert forall|k: Seq<char>| #[trigger] ix.get(k) == alias_owner(rs, k) by {
                match ix.get(k) {
                    Some(t) => {
                        assert(first_registrant(rs, t, k));
                        let c = choose|c: usize| first_registrant(rs, c, k);
                        assert(first_registrant(rs, c, k));
                        assert(c == t) by {
                            if c < t {
                                assert(!registers(rs, c as int, k));
                            } else if t < c {
                                assert(!registers(rs, t as int, k));
                            }
                        }
                    },
                    None => {
                        assert(!exists|t: usize| first_registrant(rs, t, k));
                    },
                }
            }
        }
        ix
    }

    /// Resolves a reference made by the document at `doc_path`.
    pub fn resolve(&self, records: &Vec<Record>, doc_path: &str, reference: &str) -> (r: Option<
        usize,
    >)
        requires
            self.indexes(records@),
        ensures
            r == resolution(records@, doc_path@, reference@),
            r matches Some(t) ==> t < records.len(),
    {
        proof {
            lemma_owner_in_range(records@, reference@);
            lemma_owner_in_range(records@, lower_of(reference@));
        }
        let exact = self.lookup(reference);
        if exact.is_some() {
            return exact;
        }
        let lower = lowercase(reference);
        let folded = self.lookup(lower.as_str());
        if folded.is_some() {
            return folded;
        }
        match parent_dir(doc_path) {
            Some(dir) => {
                let joined = join_path(dir.as_str(), reference);
                position_of_path(records, joined.as_str())
            },
            None => None,
        }
    }

    /// Resolves a list of references made by the document at `doc_path`,
    /// dropping those that lead nowhere.
    pub fn resolve_all(&self, records: &Vec<Record>, doc_path: &str, refs: &Vec<String>) -> (r:
        Vec<usize>)
        requires
            self.indexes(records@),
        ensures
            r@ == resolved_refs(records@, doc_path@, refs@),
            forall|k: int| 0 <= k < r@.len() ==> #[trigger] r@[k] < records.len(),
    {
        let mut out: Vec<usize> = Vec::new();
        let mut k: usize = 0;
        assert(refs@.take(0).len() == 0);
        while k < refs.len()
            invariant
                self.indexes(records@),
                k <= refs.len(),
                out@ == resolved_refs(records@, doc_path@, refs@.take(k as int)),
                forall|q: int| 0 <= q < out@.len() ==> #[trigger] out@[q] < records.len(),
            decreases refs.len() - k,
        {
            assert(refs@.take(k as int + 1).drop_last() =~= refs@.take(k as int));
            assert(refs@.take(k as int + 1).last() == refs@[k as int]);
            if let Some(t) = self.resolve(records, doc_path, refs[k].as_str()) {
                out.push(t);
            }
            k = k + 1;
        }
        assert(refs@.take(refs@.len() as int) =~= refs@);
        out
    }
}

proof fn lemma_owner_in_range(rs: Seq<Record>, k: Seq<char>)
    ensures
        alias_owner(rs, k) matches Some(t) ==> t < rs.len(),
{
    if exists|t: usize| first_registrant(rs, t, k) {
        let t = choose|t: usize| first_registrant(rs, t, k);
        assert(first_registrant(rs, t, k));
    }
}

/// The first document whose path is `p`.
fn position_of_path(records: &Vec<Record>, p: &str) -> (r: Option<usize>)
    ensures
        r == first_with_path(records@, p@, 0),
        r matches Some(t) ==> t < records.len(),
{
    let mut i: usize = 0;
    while i < records.len()
        invariant
            i <= records.len(),
            first_with_path(records@, p@, 0) == first_with_path(records@, p@, i as int),
        decreases records.len() - i,
    {
        if text_eq(records[i].path.as_str(), p) {
            return Some(i);
        }
        i = i + 1;
    }
    None
}

} // verus!

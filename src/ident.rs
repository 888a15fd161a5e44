//! A document's identity: its canonical id and the alias keys by which other
//! documents may name it.

use vstd::prelude::*;
use vstd::string::*;

verus! {

/// The lower-case hexadecimal MD5 digest of the UTF-8 encoding of a text.
pub uninterp spec fn md5_hex_of(s: Seq<char>) -> Seq<char>;

/// What `Path::with_extension("")` makes of a path: the path without the
/// extension of its last component.
pub uninterp spec fn without_extension_of(p: Seq<char>) -> Seq<char>;

/// What `str::trim` makes of a text: the text without leading and trailing
/// whitespace.
pub uninterp spec fn trimmed_of(s: Seq<char>) -> Seq<char>;

pub open spec fn is_hex_lower(c: char) -> bool {
    ('0' <= c && c <= '9') || ('a' <= c && c <= 'f')
}

/// Relies on `md5::compute` and the `LowerHex` format of its 16-byte
/// digest, which writes every byte as two lower-case hex digits.
#[verifier::external_body]
fn md5_hex(s: &str) -> (r: String)
    ensures
        r@ == md5_hex_of(s@),
        r@.len() == 32,
        forall|k: int| 0 <= k < 32 ==> is_hex_lower(#[trigger] r@[k]),
{
    format!("{:x}", md5::compute(s.as_bytes()))
}

/// Relies on `std::path::Path::with_extension` with an empty extension;
/// the result depends on the path alone.
#[verifier::external_body]
fn without_extension(p: &str) -> (r: String)
    ensures
        r@ == without_extension_of(p@),
{
    std::path::Path::new(p).with_extension("").to_string_lossy().into_owned()
}

/// Relies on `str::trim`; the result depends on the text alone.
#[verifier::external_body]
pub(crate) fn trim_text(s: &str) -> (r: String)
    ensures
        r@ == trimmed_of(s@),
{
    s.trim().to_owned()
}

/// The id derived from a document's path: the MD5 digest of the path
/// without its extension, so the same path gives the same id on every run.
pub fn compute_id(path: &str) -> (r: String)
    ensures
        r@ == md5_hex_of(without_extension_of(path@)),
        r@.len() == 32,
{
    let key = without_extension(path);
    md5_hex(key.as_str())
}

/// The canonical id of a document: the id its metadata declares, or else the
/// one derived from its path.
pub fn canonical_id(declared: &Option<String>, path: &str) -> (r: String)
    ensures
        r@ == (match declared {
            Some(d) => d@,
            None => md5_hex_of(without_extension_of(path@)),
        }),
{
    match declared {
        Some(d) => d.clone(),
        None => compute_id(path),
    }
}

pub open spec fn is_lower_letter(c: char) -> bool {
    'a' <= c && c <= 'z'
}

/// The number of characters from position `from` on that are lower-case
/// letters, or, with `digits`, lower-case letters or digits.
pub open spec fn run_len(s: Seq<char>, from: int, digits: bool) -> nat
    decreases s.len() - from,
{
    if from < 0 || from >= s.len() {
        0
    } else if is_lower_letter(s[from]) || (digits && '0' <= s[from] && s[from] <= '9') {
        1 + run_len(s, from + 1, digits)
    } else {
        0
    }
}

/// The short task key at the start of a file stem such as `ab-12x-title`:
/// one to four lower-case letters, a hyphen, and a run of lower-case letters
/// and digits that a second hyphen ends. The key leaves out that hyphen.
pub open spec fn task_prefix_of(s: Seq<char>) -> Option<Seq<char>> {
    let k = run_len(s, 0, false) as int;
    let m = run_len(s, k + 1, true) as int;
    if 1 <= k <= 4 && k < s.len() && s[k] == '-' && m >= 1 && k + 1 + m < s.len() && s[k + 1
        + m] == '-' {
        Some(s.take(k + 1 + m))
    } else {
        None
    }
}

/// Counts the run that `run_len` describes, from position `from`.
fn count_run(s: &str, n: usize, from: usize, digits: bool) -> (r: usize)
    requires
        n == s@.len(),
        from <= n,
    ensures
        r == run_len(s@, from as int, digits),
        from + r <= n,
{
    let mut i: usize = from;
    while i < n
        invariant
            n == s@.len(),
            from <= i <= n,
            run_len(s@, from as int, digits) == (i - from) + run_len(s@, i as int, digits),
        decreases n - i,
    {
        let c = s.get_char(i);
        if !(('a' <= c && c <= 'z') || (digits && '0' <= c && c <= '9')) {
            return i - from;
        }
        i = i + 1;
    }
    i - from
}

/// The short task key at the start of a file stem, if it has one.
pub fn task_prefix(stem: &str) -> (r: Option<String>)
    ensures
        match r {
            Some(p) => task_prefix_of(stem@) == Some(p@),
            None => task_prefix_of(stem@) is None,
        },
{
    let n = stem.unicode_len();
    let k = count_run(stem, n, 0, false);
    if k < 1 || k > 4 || k >= n || stem.get_char(k) != '-' {
        return None;
    }
    let m = count_run(stem, n, k + 1, true);
    if m < 1 || k + 1 + m >= n || stem.get_char(k + 1 + m) != '-' {
        return None;
    }
    let p = stem.substring_char(0, k + 1 + m);
    assert(p@ =~= stem@.take(k + 1 + m));
    Some(p.to_owned())
}

/// The alias keys of a document: its file stem, the permalink and the id
/// that its metadata declares, both trimmed, and the short task key of the
/// stem. The alias index lower-cases every key.
pub fn document_aliases(stem: &str, permalink: &Option<String>, declared_id: &Option<String>) -> (r:
    Vec<String>)
    ensures
        r@.len() >= 1,
        r@[0]@ == stem@,
        r@.map_values(|a: String| a@) == seq![stem@] + (match permalink {
            Some(p) => seq![trimmed_of(p@)],
            None => Seq::empty(),
        }) + (match declared_id {
            Some(d) => seq![trimmed_of(d@)],
            None => Seq::empty(),
        }) + (match task_prefix_of(stem@) {
            Some(t) => seq![t],
            None => Seq::empty(),
        }),
{
    let mut r: Vec<String> = Vec::new();
    r.push(stem.to_owned());
    let ghost a = seq![stem@];
    assert(r@.map_values(|a: String| a@) =~= a);
    if let Some(p) = permalink {
        r.push(trim_text(p.as_str()));
    }
    let ghost b = a + (match permalink {
        Some(p) => seq![trimmed_of(p@)],
        None => Seq::<Seq<char>>::empty(),
    });
    assert(r@.map_values(|a: String| a@) =~= b);
    if let Some(d) = declared_id {
        r.push(trim_text(d.as_str()));
    }
    let ghost c = b + (match declared_id {
        Some(d) => seq![trimmed_of(d@)],
        None => Seq::<Seq<char>>::empty(),
    });
    assert(r@.map_values(|a: String| a@) =~= c);
    if let Some(t) = task_prefix(stem) {
        r.push(t);
    }
    assert(r@.map_values(|a: String| a@) =~= c + (match task_prefix_of(stem@) {
        Some(t) => seq![t],
        None => Seq::<Seq<char>>::empty(),
    }));
    r
}

} // verus!

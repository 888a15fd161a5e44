//! Status values: the alias table that folds legacy spellings into canonical
//! values, and the statuses that the classifier treats as terminal.

use vstd::prelude::*;

verus! {

/// Whether two pieces of text hold the same characters.
pub fn text_eq(a: &str, b: &str) -> (r: bool)
    ensures
        r == (a@ == b@),
{
    let x: String = a.to_owned();
    let y: String = b.to_owned();
    x == y
}

/// The canonical value of a status as written in a document.
pub open spec fn canonical_status(s: Seq<char>) -> Seq<char> {
    if s == "inbox"@ || s == "todo"@ || s == "open"@ {
        "active"@
    } else if s == "in-progress"@ {
        "in_progress"@
    } else if s == "in_review"@ || s == "in-review"@ {
        "review"@
    } else if s == "complete"@ || s == "completed"@ || s == "closed"@ {
        "done"@
    } else {
        s
    }
}

/// Folds a legacy status spelling into its canonical value; any other value
/// is kept as it is.
pub fn resolve_status_alias(status: &str) -> (r: String)
    ensures
        r@ == canonical_status(status@),
{
    if text_eq(status, "inbox") || text_eq(status, "todo") || text_eq(status, "open") {
        "active".to_owned()
    } else if text_eq(status, "in-progress") {
        "in_progress".to_owned()
    } else if text_eq(status, "in_review") || text_eq(status, "in-review") {
        "review".to_owned()
    } else if text_eq(status, "complete") || text_eq(status, "completed") || text_eq(status, "closed") {
        "done".to_owned()
    } else {
        status.to_owned()
    }
}

/// A terminal status: a node with it is neither ready nor blocked.
pub open spec fn is_completed_status(s: Seq<char>) -> bool {
    s == "done"@ || s == "cancelled"@
}

pub fn is_completed(status: &str) -> (r: bool)
    ensures
        r == is_completed_status(status@),
{
    text_eq(status, "done") || text_eq(status, "cancelled")
}

} // verus!

//! The documents that enter the engine and the nodes that leave it.

use vstd::prelude::*;
use crate::links::Links;

verus! {

/// One document as the extractor hands it over: its metadata, and every
/// relation still written as the raw reference strings the author used.
pub struct Record {
    /// The canonical identifier: the id that the metadata declares, or a
    /// hash of the document's path.
    pub id: String,
    pub path: String,
    /// Keys by which other documents may name this one: the file stem, a
    /// declared permalink, the declared id, a short prefix of the stem.
    pub aliases: Vec<String>,
    pub title: String,
    pub kind: Option<String>,
    pub status: Option<String>,
    pub priority: Option<i32>,
    pub order: i32,
    pub project: Option<String>,
    pub due: Option<String>,
    pub tags: Vec<String>,
    pub depth: i32,
    pub leaf: bool,
    /// References found in the document's body.
    pub raw_links: Vec<String>,
    pub parent: Option<String>,
    pub depends_on: Vec<String>,
    pub soft_depends_on: Vec<String>,
    pub children: Vec<String>,
    pub blocks: Vec<String>,
    pub soft_blocks: Vec<String>,
    pub assignee: Option<String>,
    pub complexity: Option<String>,
}

/// A document in the resolved graph. Every relation names other nodes by
/// their position in the graph; references that named no document are gone.
pub struct Node {
    pub id: String,
    pub path: String,
    pub title: String,
    pub kind: String,
    pub status: String,
    pub priority: i32,
    pub order: i32,
    pub depth: i32,
    pub project: Option<String>,
    pub due: Option<String>,
    pub tags: Vec<String>,
    pub assignee: Option<String>,
    pub complexity: Option<String>,
    pub links: Links,
    /// The documents that the body's references resolved to.
    pub link_targets: Vec<usize>,
    /// The document that the `project` field resolved to, if any.
    pub project_target: Option<usize>,
}

/// An empty list as nothing, any other as itself.
pub fn vec_to_option<T>(v: Vec<T>) -> (r: Option<Vec<T>>)
    ensures
        v@.len() == 0 ==> r is None,
        v@.len() > 0 ==> r == Some(v),
{
    if v.len() == 0 {
        None
    } else {
        Some(v)
    }
}

} // verus!

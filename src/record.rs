//! Assembling a document's record from its decoded metadata and its body.

use vstd::prelude::*;
use crate::extract::{
    captured, declared_tag_texts, extract_links, extract_tags, found, hashtag_pattern, link_texts,
    markdown_link_pattern, texts, wiki_link_pattern, DeclaredTags,
};
use crate::graph::Record;
use crate::ident::{canonical_id, document_aliases, md5_hex_of, without_extension_of};
use crate::status::{canonical_status, resolve_status_alias};

verus! {

/// The metadata of a document, decoded from its frontmatter; a field that is
/// missing or of the wrong type is absent.
pub struct FrontMatter {
    pub id: Option<String>,
    pub title: Option<String>,
    pub kind: Option<String>,
    pub status: Option<String>,
    pub priority: Option<i64>,
    pub order: Option<i64>,
    pub depth: Option<i64>,
    pub leaf: Option<bool>,
    pub permalink: Option<String>,
    pub parent: Option<String>,
    pub project: Option<String>,
    pub due: Option<String>,
    pub assignee: Option<String>,
    pub complexity: Option<String>,
    pub tags: DeclaredTags,
    pub depends_on: Vec<String>,
    pub soft_depends_on: Vec<String>,
    pub children: Vec<String>,
    pub blocks: Vec<String>,
    pub soft_blocks: Vec<String>,
}

pub open spec fn text_of(o: Option<String>) -> Option<Seq<char>> {
    match o {
        Some(s) => Some(s@),
        None => None,
    }
}

/// An integer of the metadata as the record holds it: its low 32 bits.
pub open spec fn narrow(o: Option<i64>) -> Option<i32> {
    match o {
        Some(v) => Some(v as i32),
        None => None,
    }
}

/// The record of the document at `path` whose file stem is `stem`.
pub fn make_record(fm: FrontMatter, path: &str, stem: &str, content: &str) -> (r: Record)
    ensures
        r.id@ == (match fm.id {
            Some(d) => d@,
            None => md5_hex_of(without_extension_of(path@)),
        }),
        r.path@ == path@,
        r.title@ == (match fm.title {
            Some(t) => t@,
            None => stem@,
        }),
        text_of(r.kind) == text_of(fm.kind),
        text_of(r.status) == (match fm.status {
            Some(s) => Some(canonical_status(s@)),
            None => None,
        }),
        r.priority == narrow(fm.priority),
        r.order == (match fm.order {
            Some(v) => v as i32,
            None => 0i32,
        }),
        r.depth == (match fm.depth {
            Some(v) => v as i32,
            None => 0i32,
        }),
        r.leaf == (match fm.leaf {
            Some(b) => b,
            None => true,
        }),
        r.aliases@[0]@ == stem@,
        texts(r.aliases@).len() >= 1,
        texts(r.raw_links@) == link_texts(found(wiki_link_pattern(), content@, 1), false)
            + link_texts(found(markdown_link_pattern(), content@, 2), true),
        texts(r.tags@).no_duplicates(),
        forall|t: Seq<char>| #[trigger]
            texts(r.tags@).contains(t) <==> (declared_tag_texts(fm.tags).contains(t) || captured(
                found(hashtag_pattern(), content@, 1),
            ).contains(t)),
        r.parent == fm.parent,
        r.project == fm.project,
        r.due == fm.due,
        r.assignee == fm.assignee,
        r.complexity == fm.complexity,
        r.depends_on == fm.depends_on,
        r.soft_depends_on == fm.soft_depends_on,
        r.children == fm.children,
        r.blocks == fm.blocks,
        r.soft_blocks == fm.soft_blocks,
{
    let id = canonical_id(&fm.id, path);
    let aliases = document_aliases(stem, &fm.permalink, &fm.id);
    let title = match fm.title {
        Some(t) => t,
        None => stem.to_owned(),
    };
    let status = match &fm.status {
        Some(s) => Some(resolve_status_alias(s.as_str())),
        None => None,
    };
    let priority = match fm.priority {
        Some(v) => Some(v as i32),
        None => None,
    };
    let order = match fm.order {
        Some(v) => v as i32,
        None => 0,
    };
    let depth = match fm.depth {
        Some(v) => v as i32,
        None => 0,
    };
    let leaf = match fm.leaf {
        Some(b) => b,
        None => true,
    };
    let tags = extract_tags(&fm.tags, content);
    let raw_links = extract_links(content);
    assert(texts(aliases@) == aliases@.map_values(|a: String| a@));
    Record {
        id,
        path: path.to_owned(),
        aliases,
        title,
        kind: fm.kind,
        status,
        priority,
        order,
        project: fm.project,
        due: fm.due,
        tags,
        depth,
        leaf,
        raw_links,
        parent: fm.parent,
        depends_on: fm.depends_on,
        soft_depends_on: fm.soft_depends_on,
        children: fm.children,
        blocks: fm.blocks,
        soft_blocks: fm.soft_blocks,
        assignee: fm.assignee,
        complexity: fm.complexity,
    }
}

} // verus!

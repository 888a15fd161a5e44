//! What a document's text contributes to its record: the references of its
//! body and its tags. The regex crate finds the matches; what is kept of
//! them, and how, is decided here.

use vstd::prelude::*;
use vstd::string::*;
use crate::ident::{trim_text, trimmed_of};

verus! {

broadcast use vstd::seq_lib::lemma_seq_contains_after_push;

/// Whether the regex crate accepts a pattern.
pub uninterp spec fn regex_accepts(pattern: Seq<char>) -> bool;

/// What the regex crate finds: for every successive non-overlapping match of
/// `pattern` in `text`, the text of capture group `group` if it took part.
pub uninterp spec fn captures_of(pattern: Seq<char>, text: Seq<char>, group: usize) -> Seq<
    Option<Seq<char>>,
>;

pub open spec fn texts(v: Seq<String>) -> Seq<Seq<char>> {
    v.map_values(|s: String| s@)
}

pub open spec fn opt_texts(v: Seq<Option<String>>) -> Seq<Option<Seq<char>>> {
    v.map_values(
        |o: Option<String>|
            match o {
                Some(s) => Some(s@),
                None => None,
            },
    )
}

/// Relies on `regex::Regex::new` and `Regex::captures_iter`: `None` when the
/// pattern is refused, else group `group` of every match, in order.
#[verifier::external_body]
fn capture_group(pattern: &str, text: &str, group: usize) -> (r: Option<Vec<Option<String>>>)
    ensures
        r is Some <==> regex_accepts(pattern@),
        r matches Some(v) ==> opt_texts(v@) == captures_of(pattern@, text@, group),
{
    match regex::Regex::new(pattern) {
        Ok(re) => Some(
            re.captures_iter(text).map(|c| c.get(group).map(|m| m.as_str().to_string())).collect(),
        ),
        Err(_) => None,
    }
}

/// Wiki links: `[[target]]` or `[[target|label]]`.
pub open spec fn wiki_link_pattern() -> Seq<char> {
    "\\[\\[([^\\]\\|]+)(?:\\|[^\\]]+)?\\]\\]"@
}

/// Markdown links: `[label](target)`.
pub open spec fn markdown_link_pattern() -> Seq<char> {
    "\\[([^\\]]+)\\]\\(([^)]+)\\)"@
}

/// Inline tags: `#tag` at the start of the text or after whitespace.
pub open spec fn hashtag_pattern() -> Seq<char> {
    "(?:^|\\s)#([a-zA-Z0-9_\\-]+)"@
}

/// The captures of a pattern, or none if the regex crate refuses it.
pub open spec fn found(pattern: Seq<char>, text: Seq<char>, group: usize) -> Seq<Option<Seq<char>>> {
    if regex_accepts(pattern) {
        captures_of(pattern, text, group)
    } else {
        Seq::empty()
    }
}

pub open spec fn starts_with(s: Seq<char>, p: Seq<char>) -> bool {
    p.len() <= s.len() && s.take(p.len() as int) == p
}

/// A markdown link target is kept unless it is a web address or an anchor.
pub open spec fn kept_target(t: Seq<char>) -> bool {
    !starts_with(t, "http"@) && !starts_with(t, "#"@)
}

/// The captured texts, trimmed; with `only_kept`, those that `kept_target`
/// accepts once trimmed.
pub open spec fn link_texts(c: Seq<Option<Seq<char>>>, only_kept: bool) -> Seq<Seq<char>>
    decreases c.len(),
{
    if c.len() == 0 {
        Seq::empty()
    } else {
        let before = link_texts(c.drop_last(), only_kept);
        match c.last() {
            Some(t) => if !only_kept || kept_target(trimmed_of(t)) {
                before.push(trimmed_of(t))
            } else {
                before
            },
            None => before,
        }
    }
}

/// The captured texts as they are.
pub open spec fn captured(c: Seq<Option<Seq<char>>>) -> Seq<Seq<char>>
    decreases c.len(),
{
    if c.len() == 0 {
        Seq::empty()
    } else {
        let before = captured(c.drop_last());
        match c.last() {
            Some(t) => before.push(t),
            None => before,
        }
    }
}

/// The pieces of `s` between commas.
pub open spec fn comma_parts(s: Seq<char>) -> Seq<Seq<char>>
    decreases s.len(),
{
    if s.len() == 0 {
        seq![Seq::empty()]
    } else {
        let p = comma_parts(s.drop_last());
        if s.last() == ',' {
            p.push(Seq::empty())
        } else {
            p.update(p.len() - 1, p.last().push(s.last()))
        }
    }
}

pub fn has_prefix(s: &str, p: &str) -> (r: bool)
    ensures
        r == starts_with(s@, p@),
{
    let n = s.unicode_len();
    let m = p.unicode_len();
    if m > n {
        return false;
    }
    let mut i: usize = 0;
    while i < m
        invariant
            n == s@.len(),
            m == p@.len(),
            m <= n,
            i <= m,
            forall|k: int| 0 <= k < i ==> s@[k] == p@[k],
        decreases m - i,
    {
        if s.get_char(i) != p.get_char(i) {
            assert(s@.take(m as int)[i as int] != p@[i as int]);
            return false;
        }
        i = i + 1;
    }
    assert(s@.take(m as int) =~= p@);
    true
}

/// Splits a text at every comma.
pub fn split_commas(s: &str) -> (r: Vec<String>)
    ensures
        texts(r@) == comma_parts(s@),
{
    let n = s.unicode_len();
    let mut parts: Vec<String> = Vec::new();
    let mut start: usize = 0;
    let mut i: usize = 0;
    assert(s@.take(0) =~= Seq::<char>::empty());
    assert(texts(parts@).push(s@.subrange(0, 0)) =~= comma_parts(s@.take(0)));
    while i < n
        invariant
            n == s@.len(),
            start <= i <= n,
            texts(parts@).push(s@.subrange(start as int, i as int)) == comma_parts(
                s@.take(i as int),
            ),
        decreases n - i,
    {
        let ghost before = parts@;
        assert(s@.take(i as int + 1).drop_last() =~= s@.take(i as int));
        assert(s@.take(i as int + 1).last() == s@[i as int]);
        if s.get_char(i) == ',' {
            let ghost old_start = start as int;
            let piece = s.substring_char(start, i).to_owned();
            parts.push(piece);
            start = i + 1;
            assert(texts(parts@) =~= texts(before).push(s@.subrange(old_start, i as int)));
            assert(s@.subrange(start as int, i as int + 1) =~= Seq::<char>::empty());
            assert(texts(parts@).push(s@.subrange(start as int, i as int + 1)) =~= comma_parts(
                s@.take(i as int + 1),
            ));
        } else {
            assert(s@.subrange(start as int, i as int + 1) =~= s@.subrange(
                start as int,
                i as int,
            ).push(s@[i as int]));
            assert(texts(parts@).push(s@.subrange(start as int, i as int + 1)) =~= comma_parts(
                s@.take(i as int + 1),
            ));
        }
        i = i + 1;
    }
    let last = s.substring_char(start, n).to_owned();
    parts.push(last);
    assert(s@.take(n as int) =~= s@);
    assert(texts(parts@) =~= comma_parts(s@));
    parts
}

/// The texts that a list of captures holds, trimmed, in order; with
/// `only_kept`, web addresses and anchors are left out.
pub fn links_from_captures(c: &Vec<Option<String>>, only_kept: bool) -> (r: Vec<String>)
    ensures
        texts(r@) == link_texts(opt_texts(c@), only_kept),
{
    let mut r: Vec<String> = Vec::new();
    let mut k: usize = 0;
    while k < c.len()
        invariant
            k <= c.len(),
            texts(r@) == link_texts(opt_texts(c@).take(k as int), only_kept),
        decreases c.len() - k,
    {
        let ghost before = r@;
        assert(opt_texts(c@).take(k as int + 1).drop_last() =~= opt_texts(c@).take(k as int));
        assert(opt_texts(c@).take(k as int + 1).last() == opt_texts(c@)[k as int]);
        if let Some(t) = &c[k] {
            let trimmed = trim_text(t.as_str());
            if !only_kept || (!has_prefix(trimmed.as_str(), "http") && !has_prefix(
                trimmed.as_str(),
                "#",
            )) {
                r.push(trimmed);
                assert(texts(r@) =~= texts(before).push(trimmed@));
            }
        }
        k = k + 1;
    }
    assert(opt_texts(c@).take(c@.len() as int) =~= opt_texts(c@));
    r
}

/// The references in a document's body: the targets of its wiki links, then
/// those of its markdown links that are neither web addresses nor anchors,
/// each trimmed.
pub fn extract_links(content: &str) -> (r: Vec<String>)
    ensures
        texts(r@) == link_texts(found(wiki_link_pattern(), content@, 1), false) + link_texts(
            found(markdown_link_pattern(), content@, 2),
            true,
        ),
{
    let wiki = match capture_group("\\[\\[([^\\]\\|]+)(?:\\|[^\\]]+)?\\]\\]", content, 1) {
        Some(c) => c,
        None => Vec::new(),
    };
    let md = match capture_group("\\[([^\\]]+)\\]\\(([^)]+)\\)", content, 2) {
        Some(c) => c,
        None => Vec::new(),
    };
    assert(opt_texts(wiki@) == found(wiki_link_pattern(), content@, 1)) by {
        if !regex_accepts(wiki_link_pattern()) {
            assert(opt_texts(wiki@) =~= Seq::empty());
        }
    }
    assert(opt_texts(md@) == found(markdown_link_pattern(), content@, 2)) by {
        if !regex_accepts(markdown_link_pattern()) {
            assert(opt_texts(md@) =~= Seq::empty());
        }
    }
    let mut r = links_from_captures(&wiki, false);
    let mut rest = links_from_captures(&md, true);
    let ghost a = r@;
    let ghost b = rest@;
    r.append(&mut rest);
    assert(texts(r@) =~= texts(a) + texts(b));
    r
}

/// The tags that a document's metadata declares: none, a list, or one text
/// of comma-separated tags.
pub enum DeclaredTags {
    Absent,
    List(Vec<String>),
    Text(String),
}

pub open spec fn declared_tag_texts(t: DeclaredTags) -> Seq<Seq<char>> {
    match t {
        DeclaredTags::Absent => Seq::empty(),
        DeclaredTags::List(v) => texts(v@),
        DeclaredTags::Text(s) => comma_parts(s@).map_values(|p: Seq<char>| trimmed_of(p)),
    }
}

fn push_text_unique(v: &mut Vec<String>, s: String)
    requires
        texts(old(v)@).no_duplicates(),
    ensures
        texts(final(v)@).no_duplicates(),
        forall|t: Seq<char>| #[trigger]
            texts(final(v)@).contains(t) <==> (texts(old(v)@).contains(t) || t == s@),
{
    let mut k: usize = 0;
    while k < v.len()
        invariant
            v@ == old(v)@,
            texts(old(v)@).no_duplicates(),
            k <= v.len(),
            forall|q: int| 0 <= q < k ==> v@[q]@ != s@,
        decreases v.len() - k,
    {
        if v[k] == s {
            assert(texts(v@)[k as int] == s@);
            return;
        }
        k = k + 1;
    }
    let ghost sv = s@;
    v.push(s);
    assert(texts(v@) =~= texts(old(v)@).push(sv));
}

/// Adds every text of `items` that `r` does not hold yet.
fn add_texts(r: &mut Vec<String>, items: &Vec<String>)
    requires
        texts(old(r)@).no_duplicates(),
    ensures
        texts(final(r)@).no_duplicates(),
        forall|t: Seq<char>| #[trigger]
            texts(final(r)@).contains(t) <==> (texts(old(r)@).contains(t) || texts(items@).contains(
                t,
            )),
{
    let ghost start = texts(r@);
    let mut k: usize = 0;
    while k < items.len()
        invariant
            k <= items.len(),
            texts(r@).no_duplicates(),
            forall|t: Seq<char>| #[trigger]
                texts(r@).contains(t) <==> (start.contains(t) || texts(items@).take(
                    k as int,
                ).contains(t)),
        decreases items.len() - k,
    {
        assert(texts(items@).take(k as int + 1) =~= texts(items@).take(k as int).push(
            items@[k as int]@,
        ));
        push_text_unique(r, items[k].clone());
        k = k + 1;
    }
    assert(texts(items@).take(items@.len() as int) =~= texts(items@));
}

/// The texts that a list of captures holds, as they are.
fn captured_texts(c: &Vec<Option<String>>) -> (r: Vec<String>)
    ensures
        texts(r@) == captured(opt_texts(c@)),
{
    let mut r: Vec<String> = Vec::new();
    let mut k: usize = 0;
    while k < c.len()
        invariant
            k <= c.len(),
            texts(r@) == captured(opt_texts(c@).take(k as int)),
        decreases c.len() - k,
    {
        assert(opt_texts(c@).take(k as int + 1).drop_last() =~= opt_texts(c@).take(k as int));
        assert(opt_texts(c@).take(k as int + 1).last() == opt_texts(c@)[k as int]);
        if let Some(t) = &c[k] {
            let ghost before = r@;
            r.push(t.clone());
            assert(texts(r@) =~= texts(before).push(t@));
        }
        k = k + 1;
    }
    assert(opt_texts(c@).take(c@.len() as int) =~= opt_texts(c@));
    r
}

/// A document's tags: those its metadata declares, each piece of a
/// comma-separated text trimmed, and the inline `#tags` of its body; each
/// tag once.
pub fn extract_tags(declared: &DeclaredTags, content: &str) -> (r: Vec<String>)
    ensures
        texts(r@).no_duplicates(),
        forall|t: Seq<char>| #[trigger]
            texts(r@).contains(t) <==> (declared_tag_texts(*declared).contains(t) || captured(
                found(hashtag_pattern(), content@, 1),
            ).contains(t)),
{
    let mut r: Vec<String> = Vec::new();
    assert(texts(r@) =~= Seq::<Seq<char>>::empty());
    match declared {
        DeclaredTags::Absent => {},
        DeclaredTags::List(v) => {
            add_texts(&mut r, v);
        },
        DeclaredTags::Text(s) => {
            let parts = split_commas(s.as_str());
            let mut trimmed: Vec<String> = Vec::new();
            let mut k: usize = 0;
            while k < parts.len()
                invariant
                    k <= parts.len(),
                    texts(parts@) == comma_parts(s@),
                    texts(trimmed@) == comma_parts(s@).take(k as int).map_values(
                        |p: Seq<char>| trimmed_of(p),
                    ),
                decreases parts.len() - k,
            {
                let ghost before = trimmed@;
                let t = trim_text(parts[k].as_str());
                let ghost tv = t@;
                trimmed.push(t);
                proof {
                    let f = |p: Seq<char>| trimmed_of(p);
                    assert(texts(parts@)[k as int] == parts@[k as int]@);
                    assert(comma_parts(s@)[k as int] == parts@[k as int]@);
                    assert(texts(trimmed@) =~= texts(before).push(tv));
                    assert(comma_parts(s@).take(k as int + 1).map_values(f) =~= comma_parts(
                        s@,
                    ).take(k as int).map_values(f).push(trimmed_of(comma_parts(s@)[k as int])));
                }
                k = k + 1;
            }
            assert(comma_parts(s@).take(parts@.len() as int) =~= comma_parts(s@));
            add_texts(&mut r, &trimmed);
        },
    }
    let ghost after_declared = texts(r@);
    let found_tags = match capture_group("(?:^|\\s)#([a-zA-Z0-9_\\-]+)", content, 1) {
        Some(c) => c,
        None => Vec::new(),
    };
    assert(opt_texts(found_tags@) == found(hashtag_pattern(), content@, 1)) by {
        if !regex_accepts(hashtag_pattern()) {
            assert(opt_texts(found_tags@) =~= Seq::empty());
        }
    }
    let hashtags = captured_texts(&found_tags);
    add_texts(&mut r, &hashtags);
    r
}

} // verus!

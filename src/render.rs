//! The graph as text: the Graphviz description and the GraphML document.
//! Nodes and edges are written by id; the other wire formats are serde's.

use vstd::prelude::*;
use vstd::string::*;
use crate::edges::{Edge, EdgeType};
use crate::graph::Node;

verus! {

pub open spec fn digit(d: int) -> char {
    if d == 0 {
        '0'
    } else if d == 1 {
        '1'
    } else if d == 2 {
        '2'
    } else if d == 3 {
        '3'
    } else if d == 4 {
        '4'
    } else if d == 5 {
        '5'
    } else if d == 6 {
        '6'
    } else if d == 7 {
        '7'
    } else if d == 8 {
        '8'
    } else {
        '9'
    }
}

/// The decimal digits of `n`, most significant first, without leading zeros.
pub open spec fn decimal(n: nat) -> Seq<char>
    decreases n,
{
    if n < 10 {
        seq![digit(n as int)]
    } else {
        decimal(n / 10).push(digit((n % 10) as int))
    }
}

/// The decimal text of an integer, with a minus sign when it is negative.
pub open spec fn signed_decimal(n: int) -> Seq<char> {
    if n < 0 {
        seq!['-'] + decimal((-n) as nat)
    } else {
        decimal(n as nat)
    }
}

/// `s` with every character `c` written as `esc(c)`.
pub open spec fn escaped(s: Seq<char>, xml: bool) -> Seq<char>
    decreases s.len(),
{
    if s.len() == 0 {
        Seq::empty()
    } else {
        escaped(s.drop_last(), xml) + escape_char(s.last(), xml)
    }
}

/// For XML, `&`, `<`, `>` and `"` become entities; for Graphviz, `"` is
/// preceded by a backslash.
pub open spec fn escape_char(c: char, xml: bool) -> Seq<char> {
    if xml {
        if c == '&' {
            "&amp;"@
        } else if c == '<' {
            "&lt;"@
        } else if c == '>' {
            "&gt;"@
        } else if c == '"' {
            "&quot;"@
        } else {
            seq![c]
        }
    } else if c == '"' {
        "\\\""@
    } else {
        seq![c]
    }
}

/// The id of node `k`, or nothing for a position outside the graph.
pub open spec fn id_at(ns: Seq<Node>, k: int) -> Seq<char> {
    if 0 <= k < ns.len() {
        ns[k].id@
    } else {
        Seq::empty()
    }
}

/// The ids of the nodes at `ps`, separated by commas.
pub open spec fn joined_ids(ns: Seq<Node>, ps: Seq<usize>) -> Seq<char>
    decreases ps.len(),
{
    if ps.len() == 0 {
        Seq::empty()
    } else if ps.len() == 1 {
        id_at(ns, ps[0] as int)
    } else {
        joined_ids(ns, ps.drop_last()) + ","@ + id_at(ns, ps.last() as int)
    }
}

/// The texts of `ts`, separated by commas.
pub open spec fn joined_texts(ts: Seq<String>) -> Seq<char>
    decreases ts.len(),
{
    if ts.len() == 0 {
        Seq::empty()
    } else if ts.len() == 1 {
        ts[0]@
    } else {
        joined_texts(ts.drop_last()) + ","@ + ts.last()@
    }
}

/// A GraphML data element, left out when the value is empty.
pub open spec fn data_line(key: Seq<char>, value: Seq<char>) -> Seq<char> {
    if value.len() == 0 {
        Seq::empty()
    } else {
        "      <data key=\""@ + key + "\">"@ + value + "</data>\n"@
    }
}

fn digit_text(d: u64) -> (r: &'static str)
    requires
        d < 10,
    ensures
        r@ == seq![digit(d as int)],
{
    proof {
        reveal_strlit("0");
        reveal_strlit("1");
        reveal_strlit("2");
        reveal_strlit("3");
        reveal_strlit("4");
        reveal_strlit("5");
        reveal_strlit("6");
        reveal_strlit("7");
        reveal_strlit("8");
        reveal_strlit("9");
    }
    if d == 0 {
        "0"
    } else if d == 1 {
        "1"
    } else if d == 2 {
        "2"
    } else if d == 3 {
        "3"
    } else if d == 4 {
        "4"
    } else if d == 5 {
        "5"
    } else if d == 6 {
        "6"
    } else if d == 7 {
        "7"
    } else if d == 8 {
        "8"
    } else {
        "9"
    }
}

/// Appends the decimal digits of `n`.
fn push_decimal(s: &mut String, n: u64)
    ensures
        final(s)@ == old(s)@ + decimal(n as nat),
    decreases n,
{
    if n < 10 {
        s.append(digit_text(n));
    } else {
        push_decimal(s, n / 10);
        s.append(digit_text(n % 10));
        assert(decimal(n as nat) == decimal((n / 10) as nat).push(digit((n % 10) as int)));
        assert(s@ =~= old(s)@ + decimal(n as nat));
    }
}

/// The decimal text of an integer.
pub fn decimal_text(n: i64) -> (r: String)
    ensures
        r@ == signed_decimal(n as int),
{
    let mut s = String::new();
    if n < 0 {
        s.append("-");
        proof {
            reveal_strlit("-");
        }
        let m: u64 = if n == i64::MIN {
            9223372036854775808u64
        } else {
            (-n) as u64
        };
        push_decimal(&mut s, m);
    } else {
        push_decimal(&mut s, n as u64);
    }
    assert(s@ =~= signed_decimal(n as int));
    s
}

/// Appends `t` escaped for XML, or for Graphviz.
fn push_escaped(s: &mut String, t: &str, xml: bool)
    ensures
        final(s)@ == old(s)@ + escaped(t@, xml),
{
    let n = t.unicode_len();
    let mut i: usize = 0;
    assert(t@.take(0) =~= Seq::<char>::empty());
    assert(s@ =~= old(s)@ + escaped(t@.take(0), xml));
    while i < n
        invariant
            n == t@.len(),
            i <= n,
            s@ == old(s)@ + escaped(t@.take(i as int), xml),
        decreases n - i,
    {
        let ghost before = s@;
        assert(t@.take(i as int + 1).drop_last() =~= t@.take(i as int));
        assert(t@.take(i as int + 1).last() == t@[i as int]);
        let c = t.get_char(i);
        if xml && c == '&' {
            s.append("&amp;");
        } else if xml && c == '<' {
            s.append("&lt;");
        } else if xml && c == '>' {
            s.append("&gt;");
        } else if xml && c == '"' {
            s.append("&quot;");
        } else if !xml && c == '"' {
            s.append("\\\"");
        } else {
            let one = t.substring_char(i, i + 1);
            assert(one@ =~= seq![c]);
            s.append(one);
        }
        assert(s@ =~= old(s)@ + escaped(t@.take(i as int + 1), xml));
        i = i + 1;
    }
    assert(t@.take(n as int) =~= t@);
}

/// Appends the ids of the nodes at `ps`, separated by commas.
fn push_joined_ids(s: &mut String, ns: &Vec<Node>, ps: &Vec<usize>)
    ensures
        final(s)@ == old(s)@ + joined_ids(ns@, ps@),
{
    let mut k: usize = 0;
    assert(ps@.take(0) =~= Seq::<usize>::empty());
    assert(s@ =~= old(s)@ + joined_ids(ns@, ps@.take(0)));
    while k < ps.len()
        invariant
            k <= ps.len(),
            s@ == old(s)@ + joined_ids(ns@, ps@.take(k as int)),
        decreases ps.len() - k,
    {
        assert(ps@.take(k as int + 1).drop_last() =~= ps@.take(k as int));
        assert(ps@.take(k as int + 1).last() == ps@[k as int]);
        if k > 0 {
            s.append(",");
        }
        let p = ps[k];
        if p < ns.len() {
            s.append(ns[p].id.as_str());
        }
        assert(s@ =~= old(s)@ + joined_ids(ns@, ps@.take(k as int + 1)));
        k = k + 1;
    }
    assert(ps@.take(ps@.len() as int) =~= ps@);
}

/// Appends the texts of `ts`, separated by commas.
fn push_joined_texts(s: &mut String, ts: &Vec<String>)
    ensures
        final(s)@ == old(s)@ + joined_texts(ts@),
{
    let mut k: usize = 0;
    assert(ts@.take(0) =~= Seq::<String>::empty());
    assert(s@ =~= old(s)@ + joined_texts(ts@.take(0)));
    while k < ts.len()
        invariant
            k <= ts.len(),
            s@ == old(s)@ + joined_texts(ts@.take(k as int)),
        decreases ts.len() - k,
    {
        assert(ts@.take(k as int + 1).drop_last() =~= ts@.take(k as int));
        assert(ts@.take(k as int + 1).last() == ts@[k as int]);
        if k > 0 {
            s.append(",");
        }
        s.append(ts[k].as_str());
        assert(s@ =~= old(s)@ + joined_texts(ts@.take(k as int + 1)));
        k = k + 1;
    }
    assert(ts@.take(ts@.len() as int) =~= ts@);
}

/// Appends a GraphML data element for a non-empty value.
fn push_data(s: &mut String, key: &str, value: &str)
    ensures
        final(s)@ == old(s)@ + data_line(key@, value@),
{
    if value.unicode_len() > 0 {
        s.append("      <data key=\"");
        s.append(key);
        s.append("\">");
        s.append(value);
        s.append("</data>\n");
    }
    assert(s@ =~= old(s)@ + data_line(key@, value@));
}

pub open spec fn dot_header() -> Seq<char> {
    "digraph G {\n    rankdir=TB;\n    node [shape=box, style=filled, fillcolor=\"#e9ecef\"];\n\n"@
}

/// How Graphviz draws each type of edge.
pub open spec fn edge_style(k: EdgeType) -> Seq<char> {
    match k {
        EdgeType::DependsOn => "style=bold, color=\"#dc3545\", penwidth=2"@,
        EdgeType::SoftDependsOn => "style=dashed, color=\"#6c757d\", penwidth=1.5"@,
        EdgeType::Parent => "style=solid, color=\"#0d6efd\", penwidth=3"@,
        EdgeType::Link => "style=dotted, color=\"#adb5bd\", penwidth=1"@,
    }
}

pub open spec fn edge_name(k: EdgeType) -> Seq<char> {
    match k {
        EdgeType::DependsOn => "depends_on"@,
        EdgeType::SoftDependsOn => "soft_depends_on"@,
        EdgeType::Parent => "parent"@,
        EdgeType::Link => "link"@,
    }
}

pub open spec fn dot_node_line(n: Node) -> Seq<char> {
    "    \""@ + n.id@ + "\" [label=\""@ + escaped(n.title@, false) + "\"];\n"@
}

pub open spec fn dot_edge_line(ns: Seq<Node>, e: Edge) -> Seq<char> {
    "    \""@ + id_at(ns, e.source as int) + "\" -> \""@ + id_at(ns, e.target as int) + "\" ["@
        + edge_style(e.kind) + "];\n"@
}

pub open spec fn dot_nodes(ns: Seq<Node>, k: int) -> Seq<char>
    decreases k,
{
    if k <= 0 {
        Seq::empty()
    } else {
        dot_nodes(ns, k - 1) + dot_node_line(ns[k - 1])
    }
}

pub open spec fn dot_edges(ns: Seq<Node>, es: Seq<Edge>, k: int) -> Seq<char>
    decreases k,
{
    if k <= 0 {
        Seq::empty()
    } else {
        dot_edges(ns, es, k - 1) + dot_edge_line(ns, es[k - 1])
    }
}

/// The Graphviz description: a line per node, labelled with its title, and
/// a line per edge, styled by its type.
pub open spec fn dot_text_of(ns: Seq<Node>, es: Seq<Edge>) -> Seq<char> {
    dot_header() + dot_nodes(ns, ns.len() as int) + "\n"@ + dot_edges(ns, es, es.len() as int)
        + "}\n"@
}

fn style_text(k: EdgeType) -> (r: &'static str)
    ensures
        r@ == edge_style(k),
{
    match k {
        EdgeType::DependsOn => "style=bold, color=\"#dc3545\", penwidth=2",
        EdgeType::SoftDependsOn => "style=dashed, color=\"#6c757d\", penwidth=1.5",
        EdgeType::Parent => "style=solid, color=\"#0d6efd\", penwidth=3",
        EdgeType::Link => "style=dotted, color=\"#adb5bd\", penwidth=1",
    }
}

fn name_text(k: EdgeType) -> (r: &'static str)
    ensures
        r@ == edge_name(k),
{
    match k {
        EdgeType::DependsOn => "depends_on",
        EdgeType::SoftDependsOn => "soft_depends_on",
        EdgeType::Parent => "parent",
        EdgeType::Link => "link",
    }
}

fn push_id(s: &mut String, ns: &Vec<Node>, k: usize)
    ensures
        final(s)@ == old(s)@ + id_at(ns@, k as int),
{
    if k < ns.len() {
        s.append(ns[k].id.as_str());
    } else {
        assert(s@ =~= old(s)@ + id_at(ns@, k as int));
    }
}

pub fn dot_text(ns: &Vec<Node>, es: &Vec<Edge>) -> (r: String)
    ensures
        r@ == dot_text_of(ns@, es@),
{
    let mut s = String::new();
    s.append("digraph G {\n    rankdir=TB;\n    node [shape=box, style=filled, fillcolor=\"#e9ecef\"];\n\n");
    let ghost head = s@;
    let mut k: usize = 0;
    assert(s@ =~= head + dot_nodes(ns@, 0));
    while k < ns.len()
        invariant
            k <= ns.len(),
            s@ == head + dot_nodes(ns@, k as int),
        decreases ns.len() - k,
    {
        let ghost before = s@;
        s.append("    \"");
        s.append(ns[k].id.as_str());
        s.append("\" [label=\"");
        push_escaped(&mut s, ns[k].title.as_str(), false);
        s.append("\"];\n");
        assert(s@ =~= before + dot_node_line(ns@[k as int]));
        k = k + 1;
    }
    s.append("\n");
    let ghost mid = s@;
    let mut q: usize = 0;
    assert(s@ =~= mid + dot_edges(ns@, es@, 0));
    while q < es.len()
        invariant
            q <= es.len(),
            s@ == mid + dot_edges(ns@, es@, q as int),
        decreases es.len() - q,
    {
        let ghost before = s@;
        let e = es[q];
        s.append("    \"");
        push_id(&mut s, ns, e.source);
        s.append("\" -> \"");
        push_id(&mut s, ns, e.target);
        s.append("\" [");
        s.append(style_text(e.kind));
        s.append("];\n");
        assert(s@ =~= before + dot_edge_line(ns@, es@[q as int]));
        q = q + 1;
    }
    s.append("}\n");
    assert(s@ =~= dot_text_of(ns@, es@));
    s
}


/// The GraphML preamble: the attribute keys and the opening of the graph.
pub open spec fn graphml_header() -> Seq<char> {
    r#"<?xml version="1.0" encoding="UTF-8"?>
<graphml xmlns="http://graphml.graphdrawing.org/xmlns"
         xmlns:xsi="http://www.w3.org/2001/XMLSchema-instance"
         xsi:schemaLocation="http://graphml.graphdrawing.org/xmlns http://graphml.graphdrawing.org/xmlns/1.0/graphml.xsd">
  <key id="d0" for="node" attr.name="label" attr.type="string"/>
  <key id="d1" for="node" attr.name="path" attr.type="string"/>
  <key id="d2" for="node" attr.name="tags" attr.type="string"/>
  <key id="d3" for="node" attr.name="type" attr.type="string"/>
  <key id="d4" for="node" attr.name="status" attr.type="string"/>
  <key id="d5" for="node" attr.name="priority" attr.type="int"/>
  <key id="d6" for="node" attr.name="project" attr.type="string"/>
  <key id="d7" for="node" attr.name="assignee" attr.type="string"/>
  <key id="d8" for="node" attr.name="complexity" attr.type="string"/>
  <key id="d9" for="node" attr.name="depends_on" attr.type="string"/>
  <key id="d10" for="node" attr.name="soft_depends_on" attr.type="string"/>
  <key id="d11" for="node" attr.name="blocks" attr.type="string"/>
  <key id="d12" for="node" attr.name="soft_blocks" attr.type="string"/>
  <key id="d13" for="node" attr.name="parent" attr.type="string"/>
  <key id="d14" for="node" attr.name="children" attr.type="string"/>
  <key id="d15" for="node" attr.name="due" attr.type="string"/>
  <key id="e0" for="edge" attr.name="type" attr.type="string"/>
  <graph id="G" edgedefault="directed">
"#@
}

fn header_text() -> (r: &'static str)
    ensures
        r@ == graphml_header(),
{
    r#"<?xml version="1.0" encoding="UTF-8"?>
<graphml xmlns="http://graphml.graphdrawing.org/xmlns"
         xmlns:xsi="http://www.w3.org/2001/XMLSchema-instance"
         xsi:schemaLocation="http://graphml.graphdrawing.org/xmlns http://graphml.graphdrawing.org/xmlns/1.0/graphml.xsd">
  <key id="d0" for="node" attr.name="label" attr.type="string"/>
  <key id="d1" for="node" attr.name="path" attr.type="string"/>
  <key id="d2" for="node" attr.name="tags" attr.type="string"/>
  <key id="d3" for="node" attr.name="type" attr.type="string"/>
  <key id="d4" for="node" attr.name="status" attr.type="string"/>
  <key id="d5" for="node" attr.name="priority" attr.type="int"/>
  <key id="d6" for="node" attr.name="project" attr.type="string"/>
  <key id="d7" for="node" attr.name="assignee" attr.type="string"/>
  <key id="d8" for="node" attr.name="complexity" attr.type="string"/>
  <key id="d9" for="node" attr.name="depends_on" attr.type="string"/>
  <key id="d10" for="node" attr.name="soft_depends_on" attr.type="string"/>
  <key id="d11" for="node" attr.name="blocks" attr.type="string"/>
  <key id="d12" for="node" attr.name="soft_blocks" attr.type="string"/>
  <key id="d13" for="node" attr.name="parent" attr.type="string"/>
  <key id="d14" for="node" attr.name="children" attr.type="string"/>
  <key id="d15" for="node" attr.name="due" attr.type="string"/>
  <key id="e0" for="edge" attr.name="type" attr.type="string"/>
  <graph id="G" edgedefault="directed">
"#
}

pub open spec fn opt_text(o: Option<String>) -> Seq<char> {
    match o {
        Some(s) => s@,
        None => Seq::empty(),
    }
}

pub open spec fn parent_id(ns: Seq<Node>, n: Node) -> Seq<char> {
    match n.links.parent {
        Some(p) => id_at(ns, p as int),
        None => Seq::empty(),
    }
}

/// The opening of a node element with its label, path and tags.
pub open spec fn node_head(n: Node) -> Seq<char> {
    "    <node id=\""@ + n.id@ + "\">\n      <data key=\"d0\">"@ + escaped(n.title@, true)
        + "</data>\n      <data key=\"d1\">"@ + escaped(n.path@, true)
        + "</data>\n      <data key=\"d2\">"@ + joined_texts(n.tags@) + "</data>\n"@
}

/// The attributes of a node's own metadata that have a value.
pub open spec fn node_fields(n: Node) -> Seq<char> {
    data_line("d3"@, n.kind@) + data_line("d4"@, n.status@) + data_line(
        "d5"@,
        signed_decimal(n.priority as int),
    ) + data_line("d6"@, opt_text(n.project)) + data_line("d7"@, opt_text(n.assignee))
        + data_line("d8"@, opt_text(n.complexity))
}

/// The attributes of a node's relations that have a value, and its due date.
pub open spec fn node_relations(ns: Seq<Node>, n: Node) -> Seq<char> {
    data_line("d9"@, joined_ids(ns, n.links.depends_on@)) + data_line(
        "d10"@,
        joined_ids(ns, n.links.soft_depends_on@),
    ) + data_line("d11"@, joined_ids(ns, n.links.blocks@)) + data_line(
        "d12"@,
        joined_ids(ns, n.links.soft_blocks@),
    ) + data_line("d13"@, parent_id(ns, n)) + data_line("d14"@, joined_ids(ns, n.links.children@))
        + data_line("d15"@, opt_text(n.due))
}

/// The node element: label, path and tags always; every other attribute
/// only when it has a value.
pub open spec fn graphml_node(ns: Seq<Node>, n: Node) -> Seq<char> {
    node_head(n) + node_fields(n) + node_relations(ns, n) + "    </node>\n"@
}

pub open spec fn graphml_edge(ns: Seq<Node>, e: Edge, i: int) -> Seq<char> {
    "    <edge id=\"e"@ + decimal(i as nat) + "\" source=\""@ + id_at(ns, e.source as int)
        + "\" target=\""@ + id_at(ns, e.target as int) + "\">\n      <data key=\"e0\">"@
        + edge_name(e.kind) + "</data>\n    </edge>\n"@
}

pub open spec fn graphml_nodes(ns: Seq<Node>, k: int) -> Seq<char>
    decreases k,
{
    if k <= 0 {
        Seq::empty()
    } else {
        graphml_nodes(ns, k - 1) + graphml_node(ns, ns[k - 1])
    }
}

pub open spec fn graphml_edges(ns: Seq<Node>, es: Seq<Edge>, k: int) -> Seq<char>
    decreases k,
{
    if k <= 0 {
        Seq::empty()
    } else {
        graphml_edges(ns, es, k - 1) + graphml_edge(ns, es[k - 1], k - 1)
    }
}

/// The GraphML document: the preamble, a node element per node, an edge
/// element per edge numbered from zero, and the closing tags.
pub open spec fn graphml_text_of(ns: Seq<Node>, es: Seq<Edge>) -> Seq<char> {
    graphml_header() + graphml_nodes(ns, ns.len() as int) + graphml_edges(ns, es, es.len() as int)
        + "  </graph>\n</graphml>\n"@
}

fn push_optional_data(s: &mut String, key: &str, value: &Option<String>)
    ensures
        final(s)@ == old(s)@ + data_line(key@, opt_text(*value)),
{
    match value {
        Some(v) => push_data(s, key, v.as_str()),
        None => {
            assert(s@ =~= old(s)@ + data_line(key@, opt_text(*value)));
        },
    }
}

fn push_ids_data(s: &mut String, key: &str, ns: &Vec<Node>, ps: &Vec<usize>)
    ensures
        final(s)@ == old(s)@ + data_line(key@, joined_ids(ns@, ps@)),
{
    let mut t = String::new();
    push_joined_ids(&mut t, ns, ps);
    assert(t@ =~= joined_ids(ns@, ps@));
    push_data(s, key, t.as_str());
}

fn push_node_head(s: &mut String, n: &Node)
    ensures
        final(s)@ == old(s)@ + node_head(*n),
{
    s.append("    <node id=\"");
    s.append(n.id.as_str());
    s.append("\">\n      <data key=\"d0\">");
    push_escaped(s, n.title.as_str(), true);
    s.append("</data>\n      <data key=\"d1\">");
    push_escaped(s, n.path.as_str(), true);
    s.append("</data>\n      <data key=\"d2\">");
    push_joined_texts(s, &n.tags);
    s.append("</data>\n");
    assert(s@ =~= old(s)@ + node_head(*n));
}

fn push_node_fields(s: &mut String, n: &Node)
    ensures
        final(s)@ == old(s)@ + node_fields(*n),
{
    push_data(s, "d3", n.kind.as_str());
    push_data(s, "d4", n.status.as_str());
    let priority = decimal_text(n.priority as i64);
    push_data(s, "d5", priority.as_str());
    push_optional_data(s, "d6", &n.project);
    push_optional_data(s, "d7", &n.assignee);
    push_optional_data(s, "d8", &n.complexity);
    assert(s@ =~= old(s)@ + node_fields(*n));
}

fn push_node_relations(s: &mut String, ns: &Vec<Node>, n: &Node)
    ensures
        final(s)@ == old(s)@ + node_relations(ns@, *n),
{
    push_ids_data(s, "d9", ns, &n.links.depends_on);
    push_ids_data(s, "d10", ns, &n.links.soft_depends_on);
    push_ids_data(s, "d11", ns, &n.links.blocks);
    push_ids_data(s, "d12", ns, &n.links.soft_blocks);
    let mut parent = String::new();
    if let Some(p) = n.links.parent {
        push_id(&mut parent, ns, p);
    }
    assert(parent@ =~= parent_id(ns@, *n));
    push_data(s, "d13", parent.as_str());
    push_ids_data(s, "d14", ns, &n.links.children);
    push_optional_data(s, "d15", &n.due);
    assert(s@ =~= old(s)@ + node_relations(ns@, *n));
}

fn push_graphml_node(s: &mut String, ns: &Vec<Node>, k: usize)
    requires
        k < ns.len(),
    ensures
        final(s)@ == old(s)@ + graphml_node(ns@, ns@[k as int]),
{
    let n = &ns[k];
    push_node_head(s, n);
    push_node_fields(s, n);
    push_node_relations(s, ns, n);
    s.append("    </node>\n");
    assert(s@ =~= old(s)@ + graphml_node(ns@, ns@[k as int]));
}

pub fn graphml_text(ns: &Vec<Node>, es: &Vec<Edge>) -> (r: String)
    ensures
        r@ == graphml_text_of(ns@, es@),
{
    let mut s = String::new();
    s.append(header_text());
    let ghost head = s@;
    let mut k: usize = 0;
    assert(s@ =~= head + graphml_nodes(ns@, 0));
    while k < ns.len()
        invariant
            k <= ns.len(),
            s@ == head + graphml_nodes(ns@, k as int),
        decreases ns.len() - k,
    {
        let ghost before = s@;
        push_graphml_node(&mut s, ns, k);
        assert(s@ =~= head + graphml_nodes(ns@, k as int + 1));
        k = k + 1;
    }
    let ghost mid = s@;
    let mut q: usize = 0;
    assert(s@ =~= mid + graphml_edges(ns@, es@, 0));
    while q < es.len()
        invariant
            q <= es.len(),
            s@ == mid + graphml_edges(ns@, es@, q as int),
        decreases es.len() - q,
    {
        let ghost before = s@;
        let e = es[q];
        s.append("    <edge id=\"e");
        push_decimal(&mut s, q as u64);
        s.append("\" source=\"");
        push_id(&mut s, ns, e.source);
        s.append("\" target=\"");
        push_id(&mut s, ns, e.target);
        s.append("\">\n      <data key=\"e0\">");
        s.append(name_text(e.kind));
        s.append("</data>\n    </edge>\n");
        assert(s@ =~= before + graphml_edge(ns@, es@[q as int], q as int));
        q = q + 1;
    }
    s.append("  </graph>\n</graphml>\n");
    assert(s@ =~= graphml_text_of(ns@, es@));
    s
}

} // verus!

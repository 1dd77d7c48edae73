//! The graph as a Graphviz text. Datasets are boxes, coloured by platform;
//! edges with something inferred are dashed.

use vstd::prelude::*;

use crate::export::{ExportConfig, ExportReport, ExportReportView};
use crate::graph::topo_edges;
use crate::model::{
    edge_has_inferred, Dataset, DatasetView, DocumentView, Edge, EdgeView, WeaveDocument,
};
use crate::text::{
    ascii_lower, chars_of, decimal, decimal_of, group_views, last_piece, last_piece_of, str_eq,
    to_lower, views,
};

verus! {

/// A character as it stands between quotes.
pub open spec fn escaped_char(c: char) -> Seq<char> {
    if c == '"' {
        seq!['\\', '"']
    } else if c == '\\' {
        seq!['\\', '\\']
    } else if c == '\n' {
        seq!['\\', 'n']
    } else {
        seq![c]
    }
}

/// The first `n` characters as they stand between quotes.
pub open spec fn escaped_upto(s: Seq<char>, n: int) -> Seq<char>
    decreases n,
{
    if n <= 0 {
        Seq::empty()
    } else {
        escaped_upto(s, n - 1) + escaped_char(s[n - 1])
    }
}

/// A text as it stands between quotes.
pub open spec fn escaped(s: Seq<char>) -> Seq<char> {
    escaped_upto(s, s.len() as int)
}

pub fn dot_escape(s: &str) -> (r: String)
    ensures
        r@ == escaped(s@),
{
    let v = chars_of(s);
    let mut out = String::new();
    let mut i: usize = 0;
    while i < v.len()
        invariant
            i <= v@.len(),
            v@ == s@,
            out@ == escaped_upto(s@, i as int),
        decreases v@.len() - i,
    {
        let c = v[i];
        let ghost before = out@;
        if c == '"' {
            out.push('\\');
            out.push('"');
        } else if c == '\\' {
            out.push('\\');
            out.push('\\');
        } else if c == '\n' {
            out.push('\\');
            out.push('n');
        } else {
            out.push(c);
        }
        assert(out@ =~= before + escaped_char(c));
        i = i + 1;
    }
    out
}

/// The identifier of a node.
pub open spec fn node_name(name: Seq<char>) -> Seq<char> {
    "\""@ + escaped(name) + "\""@
}

fn node_id(name: &str) -> (r: String)
    ensures
        r@ == node_name(name@),
{
    let mut s = "\"".to_owned();
    s.append(dot_escape(name).as_str());
    s.append("\"");
    s
}

/// The fill colour of a dataset.
pub open spec fn fill_of(platform: Option<Seq<char>>) -> Seq<char> {
    match platform {
        Some(p) => {
            let w = ascii_lower(p);
            if w == "postgres"@ || w == "postgresql"@ {
                "#cfe2f3"@
            } else if w == "delta"@ || w == "deltalake"@ {
                "#d9ead3"@
            } else if w == "s3"@ {
                "#fff2cc"@
            } else if w == "kafka"@ {
                "#f4cccc"@
            } else if w == "snowflake"@ {
                "#d0e0e3"@
            } else if w == "mysql"@ {
                "#fce5cd"@
            } else {
                "#eeeeee"@
            }
        },
        None => "#ffffff"@,
    }
}

fn platform_colour(platform: &Option<String>) -> (r: &'static str)
    ensures
        r@ == fill_of(crate::text::opt_text(*platform)),
{
    match platform {
        Some(p) => {
            let lower = to_lower(p.as_str());
            let w = lower.as_str();
            if str_eq(w, "postgres") || str_eq(w, "postgresql") {
                "#cfe2f3"
            } else if str_eq(w, "delta") || str_eq(w, "deltalake") {
                "#d9ead3"
            } else if str_eq(w, "s3") {
                "#fff2cc"
            } else if str_eq(w, "kafka") {
                "#f4cccc"
            } else if str_eq(w, "snowflake") {
                "#d0e0e3"
            } else if str_eq(w, "mysql") {
                "#fce5cd"
            } else {
                "#eeeeee"
            }
        },
        None => "#ffffff",
    }
}

/// The line of a dataset: its label is the last part of its name.
pub open spec fn node_line(d: DatasetView) -> Seq<char> {
    "  "@ + node_name(d.name) + " [label=\""@ + escaped(last_piece(d.name, '.'))
        + "\", tooltip=\""@ + escaped(d.name) + "\", fillcolor=\""@ + fill_of(d.platform) + "\"];\n"@
}

/// The line of an edge: its label is the kind of transformation.
pub open spec fn edge_line(e: EdgeView) -> Seq<char> {
    let label = match e.transform.kind {
        Some(k) => k,
        None => ""@,
    };
    "  "@ + node_name(e.from) + " -> "@ + node_name(e.to) + " [label=\""@ + escaped(label) + "\", "@
        + (if edge_has_inferred(e) {
        "style=dashed, color=orange"@
    } else {
        "style=solid, color=black"@
    }) + "];\n"@
}

/// What stands in front of the first line.
pub open spec fn dot_head() -> Seq<char> {
    "digraph lineage {\n"@ + "  rankdir=LR;\n"@
        + "  node [shape=box, style=\"rounded,filled\", fontname=\"Helvetica\"];\n"@
        + "  edge [fontname=\"Helvetica\"];\n"@
}

/// The text up to the lines of the first `n` datasets.
pub open spec fn with_nodes(ds: Seq<DatasetView>, n: int) -> Seq<char>
    decreases n,
{
    if n <= 0 {
        dot_head()
    } else {
        with_nodes(ds, n - 1) + node_line(ds[n - 1])
    }
}

/// The text up to the lines of the first `n` edges.
pub open spec fn with_edge_lines(s: Seq<char>, es: Seq<EdgeView>, n: int) -> Seq<char>
    decreases n,
{
    if n <= 0 {
        s
    } else {
        with_edge_lines(s, es, n - 1) + edge_line(es[n - 1])
    }
}

/// The graph of a document, its edges in dependency order.
pub open spec fn dot_text(d: DocumentView) -> Seq<char> {
    let es = topo_edges(d.edges);
    with_edge_lines(with_nodes(d.datasets, d.datasets.len() as int), es, es.len() as int) + "}\n"@
}

pub open spec fn dot_report(d: DocumentView) -> ExportReportView {
    ExportReportView {
        target: "dot"@,
        artifact: dot_text(d),
        actions: seq![
            "wrote "@ + decimal(d.datasets.len()) + " nodes, "@ + decimal(
                topo_edges(d.edges).len(),
            ) + " edges"@,
        ],
        sent: 0,
        failed: 0,
    }
}

fn write_node(s: &mut String, d: &Dataset)
    ensures
        final(s)@ == old(s)@ + node_line(d@),
{
    let ghost start = s@;
    let label = last_piece_of(d.name.as_str(), '.');
    s.append("  ");
    s.append(node_id(d.name.as_str()).as_str());
    s.append(" [label=\"");
    s.append(dot_escape(label.as_str()).as_str());
    s.append("\", tooltip=\"");
    s.append(dot_escape(d.name.as_str()).as_str());
    s.append("\", fillcolor=\"");
    s.append(platform_colour(&d.platform));
    s.append("\"];\n");
    assert(s@ =~= start + node_line(d@));
}

fn write_edge(s: &mut String, e: &Edge)
    ensures
        final(s)@ == old(s)@ + edge_line(e@),
{
    let ghost start = s@;
    s.append("  ");
    s.append(node_id(e.from.as_str()).as_str());
    s.append(" -> ");
    s.append(node_id(e.to.as_str()).as_str());
    s.append(" [label=\"");
    let label = match &e.transform.kind {
        Some(k) => dot_escape(k.as_str()),
        None => dot_escape(""),
    };
    s.append(label.as_str());
    s.append("\", ");
    if e.has_inferred() {
        s.append("style=dashed, color=orange");
    } else {
        s.append("style=solid, color=black");
    }
    s.append("];\n");
    assert(s@ =~= start + edge_line(e@));
}

/// The graph of a document as a Graphviz text.
pub fn export(doc: &WeaveDocument, cfg: &ExportConfig) -> (r: Result<ExportReport, String>)
    ensures
        r matches Ok(x) && x@ == dot_report(doc@),
{
    broadcast use group_views;

    let mut s = "digraph lineage {\n".to_owned();
    s.append("  rankdir=LR;\n");
    s.append("  node [shape=box, style=\"rounded,filled\", fontname=\"Helvetica\"];\n");
    s.append("  edge [fontname=\"Helvetica\"];\n");
    let mut i: usize = 0;
    while i < doc.datasets.len()
        invariant
            i <= doc.datasets@.len(),
            s@ == with_nodes(doc@.datasets, i as int),
        decreases doc.datasets@.len() - i,
    {
        assert(doc@.datasets[i as int] == doc.datasets@[i as int]@);
        write_node(&mut s, &doc.datasets[i]);
        i = i + 1;
    }
    let edges = doc.edges_in_topo_order();
    let ghost ev = views(edges@);
    let ghost start = s@;
    let mut k: usize = 0;
    while k < edges.len()
        invariant
            k <= edges@.len(),
            ev == views(edges@),
            s@ == with_edge_lines(start, ev, k as int),
        decreases edges@.len() - k,
    {
        assert(ev[k as int] == edges@[k as int]@);
        write_edge(&mut s, edges[k]);
        k = k + 1;
    }
    s.append("}\n");
    let mut action = "wrote ".to_owned();
    action.append(decimal_of(doc.datasets.len() as u128).as_str());
    action.append(" nodes, ");
    action.append(decimal_of(edges.len() as u128).as_str());
    action.append(" edges");
    let ghost said = action@;
    let mut actions: Vec<String> = Vec::new();
    actions.push(action);
    assert(views(actions@) =~= seq![said]);
    Ok(ExportReport { target: "dot".to_owned(), artifact: s, actions, sent: 0, failed: 0 })
}

// ──────────────────────────────── laws ────────────────────────────────

proof fn escaped_front_upto(s: Seq<char>, n: int)
    requires
        0 < n <= s.len(),
    ensures
        escaped_upto(s, n) == escaped_char(s[0]) + escaped_upto(s.drop_first(), n - 1),
    decreases n,
{
    let t = s.drop_first();
    if n == 1 {
        assert(escaped_upto(s, 0) =~= Seq::<char>::empty());
        assert(escaped_upto(t, 0) =~= Seq::<char>::empty());
        assert(escaped_upto(s, 1) =~= escaped_char(s[0]));
        assert(escaped_char(s[0]) + escaped_upto(t, 0) =~= escaped_char(s[0]));
    } else {
        escaped_front_upto(s, n - 1);
        assert(t[n - 2] == s[n - 1]);
        assert(escaped_upto(s, n) =~= escaped_char(s[0]) + (escaped_upto(t, n - 2)
            + escaped_char(s[n - 1])));
    }
}

/// Different texts stay different between quotes, so different datasets get
/// different nodes.
pub proof fn escape_is_injective(a: Seq<char>, b: Seq<char>)
    requires
        escaped(a) == escaped(b),
    ensures
        a == b,
    decreases a.len(),
{
    if a.len() > 0 {
        escaped_front_upto(a, a.len() as int);
    }
    if b.len() > 0 {
        escaped_front_upto(b, b.len() as int);
    }
    if a.len() == 0 {
        assert(escaped(a).len() == 0);
        if b.len() > 0 {
            assert(escaped(b).len() > 0);
        }
        assert(a =~= b);
    } else if b.len() == 0 {
        assert(escaped(b).len() == 0);
        assert(escaped(a).len() > 0);
    } else {
        let x = escaped_char(a[0]);
        let y = escaped_char(b[0]);
        let ea = escaped(a);
        let eb = escaped(b);
        assert(ea[0] == x[0] && eb[0] == y[0]);
        if x.len() == 2 && y.len() == 2 {
            assert(ea[1] == x[1] && eb[1] == y[1]);
        }
        assert(a[0] == b[0]);
        let ra = escaped(a.drop_first());
        let rb = escaped(b.drop_first());
        assert(ea.subrange(x.len() as int, ea.len() as int) =~= ra);
        assert(eb.subrange(y.len() as int, eb.len() as int) =~= rb);
        escape_is_injective(a.drop_first(), b.drop_first());
        assert(a =~= seq![a[0]] + a.drop_first());
        assert(b =~= seq![b[0]] + b.drop_first());
    }
}

} // verus!

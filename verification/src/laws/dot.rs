//! The graph as a text, and the lines that it has to have.

use vstd::prelude::*;

use crate::dot::{
    dot_head, dot_text, edge_line, escaped, fill_of, node_line, with_edge_lines, with_nodes,
};
use crate::graph::{topo_edges, topo_order_is_sorted_permutation};
use crate::laws::columns::{dotted, last_piece_is_last_part};
use crate::model::{DatasetView, DocumentView, EdgeView};
use crate::origin::OriginSource;
use crate::text::{first_pieces, last_piece};

verus! {

/// A name between quotes.
pub open spec fn quoted(name: Seq<char>) -> Seq<char> {
    seq!['"'] + escaped(name) + seq!['"']
}

/// True when the line shows the dataset: its name, the last part of it as the
/// label, the whole as the tooltip, and the colour of its platform.
pub open spec fn shows_dataset(line: Seq<char>, d: DatasetView) -> bool {
    exists|label: Seq<char>|
        {
            &&& !d.name.contains('.') ==> label == d.name
            &&& d.name.contains('.') ==> exists|front: Seq<char>| #[trigger]
                dotted(d.name, front, label)
            &&& line == #[trigger] ("  "@ + quoted(d.name) + " [label=\""@ + escaped(label)
                + "\", tooltip=\""@ + escaped(d.name) + "\", fillcolor=\""@ + fill_of(d.platform)
                + "\"];\n"@)
        }
}

/// True when the line shows the edge: its two ends, its kind, and whether
/// anything on it was inferred.
pub open spec fn shows_edge(line: Seq<char>, e: EdgeView) -> bool {
    line == "  "@ + quoted(e.from) + " -> "@ + quoted(e.to) + " [label=\""@ + escaped(
        if e.transform.kind is Some {
            e.transform.kind->0
        } else {
            Seq::empty()
        },
    ) + "\", "@ + (if e.origin.source != OriginSource::Declared || exists|i: int|
        0 <= i < e.column_lineage.len() && (#[trigger] e.column_lineage[i]).origin.source
            != OriginSource::Declared {
        "style=dashed, color=orange"@
    } else {
        "style=solid, color=black"@
    }) + "];\n"@
}

proof fn quotes_are_characters()
    ensures
        "\""@ == seq!['"'],
        ""@ == Seq::<char>::empty(),
{
    reveal_strlit("\"");
    reveal_strlit("");
    assert("\""@ =~= seq!['"']);
    assert(""@ =~= Seq::<char>::empty());
}

proof fn line_shows_dataset(d: DatasetView)
    ensures
        shows_dataset(node_line(d), d),
{
    quotes_are_characters();
    last_piece_is_last_part(d.name);
    let label = last_piece(d.name, '.');
    if d.name.contains('.') {
        assert(dotted(d.name, first_pieces(d.name, '.'), label));
    }
    assert(node_line(d) == "  "@ + quoted(d.name) + " [label=\""@ + escaped(label)
        + "\", tooltip=\""@ + escaped(d.name) + "\", fillcolor=\""@ + fill_of(d.platform)
        + "\"];\n"@);
}

proof fn line_shows_edge(e: EdgeView)
    ensures
        shows_edge(edge_line(e), e),
{
    quotes_are_characters();
    let inferred = e.origin.source != OriginSource::Declared || exists|i: int|
        0 <= i < e.column_lineage.len() && (#[trigger] e.column_lineage[i]).origin.source
            != OriginSource::Declared;
    assert(inferred == crate::model::edge_has_inferred(e)) by {
        if crate::model::edge_has_inferred(e) && !e.origin.inferred() {
            let i = choose|i: int|
                0 <= i < e.column_lineage.len()
                    && (#[trigger] e.column_lineage[i]).origin.inferred();
            assert(e.column_lineage[i].origin.source != OriginSource::Declared);
        }
        if inferred && e.origin.source == OriginSource::Declared {
            let i = choose|i: int|
                0 <= i < e.column_lineage.len() && (#[trigger] e.column_lineage[i]).origin.source
                    != OriginSource::Declared;
            assert(e.column_lineage[i].origin.inferred());
        }
    }
}

/// The lines one behind the other.
pub open spec fn all_lines(lines: Seq<Seq<char>>) -> Seq<char>
    decreases lines.len(),
{
    if lines.len() == 0 {
        Seq::empty()
    } else {
        all_lines(lines.drop_last()) + lines.last()
    }
}

proof fn nodes_are_lines(ds: Seq<DatasetView>, n: int)
    requires
        0 <= n <= ds.len(),
    ensures
        with_nodes(ds, n) == dot_head() + all_lines(Seq::new(n as nat, |i: int| node_line(ds[i]))),
    decreases n,
{
    let lines = Seq::new(n as nat, |i: int| node_line(ds[i]));
    if n > 0 {
        nodes_are_lines(ds, n - 1);
        assert(lines.drop_last() =~= Seq::new((n - 1) as nat, |i: int| node_line(ds[i])));
        assert(with_nodes(ds, n) =~= dot_head() + all_lines(lines));
    } else {
        assert(with_nodes(ds, n) =~= dot_head() + all_lines(lines));
    }
}

proof fn edges_are_lines(s: Seq<char>, es: Seq<EdgeView>, n: int)
    requires
        0 <= n <= es.len(),
    ensures
        with_edge_lines(s, es, n) == s + all_lines(Seq::new(n as nat, |i: int| edge_line(es[i]))),
    decreases n,
{
    let lines = Seq::new(n as nat, |i: int| edge_line(es[i]));
    if n > 0 {
        edges_are_lines(s, es, n - 1);
        assert(lines.drop_last() =~= Seq::new((n - 1) as nat, |i: int| edge_line(es[i])));
        assert(with_edge_lines(s, es, n) =~= s + all_lines(lines));
    } else {
        assert(with_edge_lines(s, es, n) =~= s + all_lines(lines));
    }
}

/// The text of a graph is its head, one line for each dataset in the order of
/// the document, one line for each edge in dependency order, and its foot.
pub proof fn graph_has_a_line_for_each(d: DocumentView)
    ensures
        exists|nodes: Seq<Seq<char>>, edges: Seq<Seq<char>>|
            {
                &&& #[trigger] show_datasets(nodes, d.datasets)
                &&& #[trigger] show_edges(edges, topo_edges(d.edges))
                &&& dot_text(d) == dot_head() + all_lines(nodes) + all_lines(edges) + "}\n"@
            },
        topo_edges(d.edges).to_multiset() == d.edges.to_multiset(),
{
    let es = topo_edges(d.edges);
    let ds = d.datasets;
    let nodes = Seq::new(ds.len(), |i: int| node_line(ds[i]));
    let edges = Seq::new(es.len(), |i: int| edge_line(es[i]));
    topo_order_is_sorted_permutation(d.edges);
    nodes_are_lines(ds, ds.len() as int);
    edges_are_lines(with_nodes(ds, ds.len() as int), es, es.len() as int);
    assert forall|i: int| 0 <= i < ds.len() implies shows_dataset(#[trigger] nodes[i], ds[i]) by {
        line_shows_dataset(ds[i]);
    }
    assert forall|i: int| 0 <= i < es.len() implies shows_edge(#[trigger] edges[i], es[i]) by {
        line_shows_edge(es[i]);
    }
    assert(show_datasets(nodes, ds) && show_edges(edges, es));
}

/// True when each line shows the dataset at its place.
pub open spec fn show_datasets(lines: Seq<Seq<char>>, ds: Seq<DatasetView>) -> bool {
    &&& lines.len() == ds.len()
    &&& forall|i: int| 0 <= i < ds.len() ==> shows_dataset(#[trigger] lines[i], ds[i])
}

/// True when each line shows the edge at its place.
pub open spec fn show_edges(lines: Seq<Seq<char>>, es: Seq<EdgeView>) -> bool {
    &&& lines.len() == es.len()
    &&& forall|i: int| 0 <= i < es.len() ==> shows_edge(#[trigger] lines[i], es[i])
}

} // verus!

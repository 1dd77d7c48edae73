//! The requests for OpenMetadata and the edges that they carry, read by the
//! members of the requests.

use vstd::arithmetic::power2::{lemma2_to64, lemma_pow2_unfold};
use vstd::prelude::*;

use crate::graph::{topo_edges, topo_order_is_sorted_permutation};
use crate::json::{object_of, JsonTree};
use crate::laws::reading::{
    first_dataset_is_found, is_dataset, items, lacks_dataset, last_with_key, lists, lists_those,
    member, object_is_read_back, one_more, says, says_if_any,
};
use crate::laws::text::four_parts_are_read;
use crate::model::{
    column_fqn, dataset_index, fqn_parts, parts_plain, table_fqn, ColumnEdgeView, DatasetView,
    DocumentView, EdgeView, FqnPartsView,
};
use crate::openmetadata::{
    body_tree, described, details_tree, dry_bodies, lineage_url, mapping_tree, mapping_trees,
    may_pass, resolved_fqn, retry_delay, step_of, steps_of, table_tree, without_slashes, Failure,
    LiveActionView, LiveView, StepView, INFERRED_NOTE,
};
use crate::origin::OriginSource;

verus! {

// ──────────────────────────────── mappings ────────────────────────────

/// The four parts of a name with dots between them.
pub open spec fn full_name(p: FqnPartsView) -> Seq<char> {
    p.service + seq!['.'] + p.database + seq!['.'] + p.schema + seq!['.'] + p.table
}

/// The word that stands for how a mapping was come by; none for a declared one.
pub open spec fn provenance(s: OriginSource) -> Option<Seq<char>> {
    match s {
        OriginSource::Declared => None,
        OriginSource::InferredSql => Some("inferred from SQL"@),
        OriginSource::InferredCode => Some("inferred from code"@),
    }
}

/// True when the label is that of the mapping: its function, with the word for
/// how it was come by in brackets behind it where it was not declared.
pub open spec fn labels(label: Option<Seq<char>>, c: ColumnEdgeView) -> bool {
    match (provenance(c.origin.source), c.function) {
        (None, f) => label == f,
        (Some(tag), None) => label == Some("("@ + tag + ")"@),
        (Some(tag), Some(f)) => if f.len() == 0 {
            label == Some("("@ + tag + ")"@)
        } else {
            label == Some(f + " ("@ + tag + ")"@)
        },
    }
}

/// True when the object carries the mapping between two tables: every source,
/// the target and the label.
pub open spec fn carries_mapping(
    t: JsonTree,
    c: ColumnEdgeView,
    from: Seq<char>,
    to: Seq<char>,
) -> bool {
    &&& lists(t, "fromColumns"@)
    &&& items(t, "fromColumns"@).len() == c.from_columns.len()
    &&& forall|i: int|
        0 <= i < c.from_columns.len() ==> #[trigger] items(t, "fromColumns"@)[i] == JsonTree::Text(
            from + seq!['.'] + c.from_columns[i].column,
        )
    &&& says(t, "toColumn"@, to + seq!['.'] + c.to_column.column)
    &&& exists|label: Option<Seq<char>>| #[trigger]
        labels(label, c) && says_if_any(t, "function"@, label)
    &&& forall|k: Seq<char>| #[trigger]
        member(t, k) is Some ==> k == "fromColumns"@ || k == "toColumn"@ || k == "function"@
}

proof fn mapping_keys()
    ensures
        "fromColumns"@ != "toColumn"@,
        "fromColumns"@ != "function"@,
        "toColumn"@ != "function"@,
        "."@ == seq!['.'],
{
    reveal_strlit("fromColumns");
    reveal_strlit("toColumn");
    reveal_strlit("function");
    reveal_strlit(".");
    assert("fromColumns"@.len() == 11);
    assert("toColumn"@[0] == 't');
    assert("function"@[0] == 'f');
    assert("function"@.len() == 8);
    assert("."@ =~= seq!['.']);
}

pub(crate) proof fn shown_is_labelled(c: ColumnEdgeView)
    ensures
        labels(crate::model::shown_function(c), c),
        crate::origin::tag_of(c.origin.source) is None <==> c.origin.source
            == OriginSource::Declared,
{
}

/// A request carries every source of a mapping: member `i` of its source
/// columns is the name of the source table, a dot, and source column `i`; so
/// with its target, its label, and nothing else.
pub proof fn request_carries_every_source(c: ColumnEdgeView, from: FqnPartsView, to: FqnPartsView)
    ensures
        carries_mapping(mapping_tree(c, from, to), c, full_name(from), full_name(to)),
{
    mapping_keys();
    shown_is_labelled(c);
    let list = Seq::new(
        c.from_columns.len(),
        |i: int| JsonTree::Text(column_fqn(from, c.from_columns[i].column)),
    );
    let base = seq![
        ("fromColumns"@, JsonTree::List(list)),
        ("toColumn"@, JsonTree::Text(column_fqn(to, c.to_column.column))),
    ];
    let label = crate::model::shown_function(c);
    let all = match label {
        Some(f) => base.push(("function"@, JsonTree::Text(f))),
        None => base,
    };
    let t = mapping_tree(c, from, to);
    assert(t == object_of(all));
    object_is_read_back(all);
    assert(all[0] == base[0] && all[1] == base[1]);
    assert(last_with_key(all, 0) && last_with_key(all, 1));
    assert(member(t, all[0].0) == Some(all[0].1));
    assert(member(t, all[1].0) == Some(all[1].1));
    if label is Some {
        assert(last_with_key(all, 2));
        assert(member(t, all[2].0) == Some(all[2].1));
    } else if member(t, "function"@) is Some {
        let i = choose|i: int| 0 <= i < all.len() && (#[trigger] all[i]).0 == "function"@;
        assert(i == 0 || i == 1);
    }
    assert(labels(label, c) && says_if_any(t, "function"@, label));
    assert forall|k: Seq<char>| #[trigger] member(t, k) is Some implies k == "fromColumns"@ || k
        == "toColumn"@ || k == "function"@ by {
        let i = choose|i: int| 0 <= i < all.len() && (#[trigger] all[i]).0 == k;
        assert(i == 0 || i == 1 || i == 2);
    }
}

/// Two mappings between the same tables with different source columns have
/// different lists of source columns in their requests.
pub proof fn different_sources_show(
    a: ColumnEdgeView,
    b: ColumnEdgeView,
    from: FqnPartsView,
    to: FqnPartsView,
)
    requires
        a.from_columns.len() != b.from_columns.len() || exists|i: int|
            0 <= i < a.from_columns.len() && (#[trigger] a.from_columns[i]).column
                != b.from_columns[i].column,
    ensures
        items(mapping_tree(a, from, to), "fromColumns"@) != items(
            mapping_tree(b, from, to),
            "fromColumns"@,
        ),
{
    request_carries_every_source(a, from, to);
    request_carries_every_source(b, from, to);
    let x = items(mapping_tree(a, from, to), "fromColumns"@);
    let y = items(mapping_tree(b, from, to), "fromColumns"@);
    if x == y {
        let i = choose|i: int|
            0 <= i < a.from_columns.len() && (#[trigger] a.from_columns[i]).column
                != b.from_columns[i].column;
        let front = full_name(from) + seq!['.'];
        let p = front + a.from_columns[i].column;
        let q = front + b.from_columns[i].column;
        assert(x[i] == JsonTree::Text(p));
        assert(y[i] == JsonTree::Text(q));
        assert(p == q);
        assert(p.subrange(front.len() as int, p.len() as int) =~= a.from_columns[i].column);
        assert(q.subrange(front.len() as int, q.len() as int) =~= b.from_columns[i].column);
    }
}

// ──────────────────────────────── details ─────────────────────────────

pub open spec fn has_sources(e: EdgeView) -> spec_fn(int) -> bool {
    |i: int| e.column_lineage[i].from_columns.len() > 0
}

/// True when the list carries, in order, the mappings of the edge that have
/// sources.
pub open spec fn carries_mappings(
    l: Seq<JsonTree>,
    e: EdgeView,
    from: Seq<char>,
    to: Seq<char>,
) -> bool {
    exists|chosen: Seq<int>|
        {
            &&& #[trigger] lists_those(chosen, e.column_lineage.len() as int, has_sources(e))
            &&& l.len() == chosen.len()
            &&& forall|k: int|
                0 <= k < chosen.len() ==> carries_mapping(
                    #[trigger] l[k],
                    e.column_lineage[chosen[k]],
                    from,
                    to,
                )
        }
}

/// True when the object carries the details of the edge.
pub open spec fn carries_details(
    t: JsonTree,
    e: EdgeView,
    from: Seq<char>,
    to: Seq<char>,
) -> bool {
    &&& lists(t, "columnsLineage"@)
    &&& carries_mappings(items(t, "columnsLineage"@), e, from, to)
    &&& says_if_any(
        t,
        "description"@,
        if e.origin.source != OriginSource::Declared || exists|i: int|
            0 <= i < e.column_lineage.len() && (#[trigger] e.column_lineage[i]).origin.source
                != OriginSource::Declared {
            match e.transform.description {
                Some(d) => Some(INFERRED_NOTE@ + seq!['\n', '\n'] + d),
                None => Some(INFERRED_NOTE@),
            }
        } else {
            e.transform.description
        },
    )
    &&& says_if_any(t, "sqlQuery"@, e.transform.sql)
    &&& forall|k: Seq<char>| #[trigger]
        member(t, k) is Some ==> k == "columnsLineage"@ || k == "description"@ || k == "sqlQuery"@
}

proof fn mappings_are_carried(e: EdgeView, from: FqnPartsView, to: FqnPartsView, n: int) -> (chosen:
    Seq<int>)
    requires
        0 <= n <= e.column_lineage.len(),
    ensures
        lists_those(chosen, n, has_sources(e)),
        mapping_trees(e, from, to, n).len() == chosen.len(),
        forall|k: int|
            0 <= k < chosen.len() ==> carries_mapping(
                #[trigger] mapping_trees(e, from, to, n)[k],
                e.column_lineage[chosen[k]],
                full_name(from),
                full_name(to),
            ),
    decreases n,
{
    if n > 0 {
        let before = mappings_are_carried(e, from, to, n - 1);
        request_carries_every_source(e.column_lineage[n - 1], from, to);
        one_more(before, n, has_sources(e))
    } else {
        Seq::empty()
    }
}

proof fn details_keys()
    ensures
        "columnsLineage"@ != "description"@,
        "columnsLineage"@ != "sqlQuery"@,
        "description"@ != "sqlQuery"@,
        "\n\n"@ == seq!['\n', '\n'],
{
    reveal_strlit("columnsLineage");
    reveal_strlit("description");
    reveal_strlit("sqlQuery");
    reveal_strlit("\n\n");
    assert("columnsLineage"@.len() == 14);
    assert("description"@.len() == 11);
    assert("sqlQuery"@.len() == 8);
    assert("\n\n"@ =~= seq!['\n', '\n']);
}

/// The details of a request carry the mappings of the edge that have sources,
/// its description with a warning where anything was inferred, and its query.
pub proof fn request_carries_the_details(e: EdgeView, from: FqnPartsView, to: FqnPartsView)
    ensures
        carries_details(details_tree(e, from, to), e, full_name(from), full_name(to)),
{
    details_keys();
    let n = e.column_lineage.len() as int;
    let chosen = mappings_are_carried(e, from, to, n);
    let l = mapping_trees(e, from, to, n);
    assert(carries_mappings(l, e, full_name(from), full_name(to)));
    let a = seq![("columnsLineage"@, JsonTree::List(l))];
    let b = match described(e) {
        Some(d) => a.push(("description"@, JsonTree::Text(d))),
        None => a,
    };
    let c = match e.transform.sql {
        Some(q) => b.push(("sqlQuery"@, JsonTree::Text(q))),
        None => b,
    };
    let t = details_tree(e, from, to);
    assert(t == object_of(c));
    object_is_read_back(c);
    assert(c[0] == a[0]);
    assert(last_with_key(c, 0));
    assert(member(t, c[0].0) == Some(c[0].1));
    if described(e) is Some {
        assert(c[1].0 == "description"@);
        assert(last_with_key(c, 1));
        assert(member(t, c[1].0) == Some(c[1].1));
    } else if member(t, "description"@) is Some {
        let i = choose|i: int| 0 <= i < c.len() && (#[trigger] c[i]).0 == "description"@;
        assert(i == 0 || i == 1);
    }
    if e.transform.sql is Some {
        let m = c.len() - 1;
        assert(c[m].0 == "sqlQuery"@);
        assert(last_with_key(c, m));
        assert(member(t, c[m].0) == Some(c[m].1));
    } else if member(t, "sqlQuery"@) is Some {
        let i = choose|i: int| 0 <= i < c.len() && (#[trigger] c[i]).0 == "sqlQuery"@;
        assert(i == 0 || i == 1);
    }
    assert forall|k: Seq<char>| #[trigger] member(t, k) is Some implies k == "columnsLineage"@ || k
        == "description"@ || k == "sqlQuery"@ by {
        let i = choose|i: int| 0 <= i < c.len() && (#[trigger] c[i]).0 == k;
        assert(i == 0 || i == 1 || i == 2);
    }
    let inferred = e.origin.source != OriginSource::Declared || exists|i: int|
        0 <= i < e.column_lineage.len() && (#[trigger] e.column_lineage[i]).origin.source
            != OriginSource::Declared;
    assert(inferred == crate::model::edge_has_inferred(e)) by {
        if crate::model::edge_has_inferred(e) && !e.origin.inferred() {
            let i = choose|i: int|
                0 <= i < e.column_lineage.len()
                    && (#[trigger] e.column_lineage[i]).origin.inferred();
            assert(e.column_lineage[i].origin.source != OriginSource::Declared);
        }
        if inferred && e.origin.source == OriginSource::Declared {
            let i = choose|i: int|
                0 <= i < e.column_lineage.len() && (#[trigger] e.column_lineage[i]).origin.source
                    != OriginSource::Declared;
            assert(e.column_lineage[i].origin.inferred());
        }
    }
}

// ───────────────────────────────── steps ──────────────────────────────

/// True when the parts are those of the name of a dataset: those that are
/// known of it, or else the four that its name is made of; with the service
/// that is given in place of its own.
pub open spec fn is_named(d: DatasetView, service: Option<Seq<char>>, p: FqnPartsView) -> bool {
    exists|q: FqnPartsView|
        {
            &&& match d.fqn {
                Some(known) => q == known,
                None => #[trigger] parts_plain(q) && full_name(q) == d.name,
            }
            &&& p.service == match service {
                Some(s) => s,
                None => q.service,
            }
            &&& p.database == q.database
            &&& p.schema == q.schema
            &&& p.table == q.table
        }
}

proof fn full_is_table_fqn(p: FqnPartsView)
    ensures
        full_name(p) == table_fqn(p),
{
    mapping_keys();
}

/// A dataset is sent under its name in four parts exactly when it has one.
pub proof fn names_are_resolved(d: DatasetView, service: Option<Seq<char>>)
    ensures
        forall|p: FqnPartsView| #[trigger]
            is_named(d, service, p) <==> resolved_fqn(d, service) == Some(p),
{
    assert forall|p: FqnPartsView| #[trigger]
        is_named(d, service, p) <==> resolved_fqn(d, service) == Some(p) by {
        if is_named(d, service, p) {
            let q = choose|q: FqnPartsView|
                {
                    &&& match d.fqn {
                        Some(known) => q == known,
                        None => #[trigger] parts_plain(q) && full_name(q) == d.name,
                    }
                    &&& p.service == match service {
                        Some(s) => s,
                        None => q.service,
                    }
                    &&& p.database == q.database
                    &&& p.schema == q.schema
                    &&& p.table == q.table
                };
            full_is_table_fqn(q);
            four_parts_are_read(d.name, q);
        }
        if resolved_fqn(d, service) == Some(p) {
            let q = match d.fqn {
                Some(known) => known,
                None => fqn_parts(d.name)->0,
            };
            full_is_table_fqn(q);
            four_parts_are_read(d.name, q);
            let plain = parts_plain(q);
            assert(is_named(d, service, p));
        }
    }
}

/// True when the dataset of that name has parts.
pub open spec fn is_sent_as(
    d: DocumentView,
    name: Seq<char>,
    service: Option<Seq<char>>,
    p: FqnPartsView,
) -> bool {
    exists|i: int| #[trigger]
        is_dataset(d.datasets, i, name) && is_named(d.datasets[i], service, p)
}

/// True when the step is that of the edge: it is sent between the names of its
/// datasets, with its details, where both have one; otherwise it is skipped,
/// and the line names the edge and the reason.
pub open spec fn is_step_of(
    step: StepView,
    d: DocumentView,
    e: EdgeView,
    service: Option<Seq<char>>,
) -> bool {
    match step {
        StepView::Push { from_table, to_table, details } => exists|p: FqnPartsView, q: FqnPartsView|
            {
                &&& #[trigger] is_sent_as(d, e.from, service, p)
                &&& #[trigger] is_sent_as(d, e.to, service, q)
                &&& from_table == full_name(p)
                &&& to_table == full_name(q)
                &&& carries_details(details, e, from_table, to_table)
            },
        StepView::Skip(said) => {
            let lacking = lacks_dataset(d.datasets, e.from) || lacks_dataset(d.datasets, e.to);
            &&& said == "skip "@ + e.from + " -> "@ + e.to + " : "@ + if lacking {
                "dataset not found in document"@
            } else {
                "could not resolve a 4-part FQN"@
            }
            &&& (forall|p: FqnPartsView| !#[trigger] is_sent_as(d, e.from, service, p)) || (forall|
                p: FqnPartsView,
            |
                !#[trigger] is_sent_as(d, e.to, service, p))
        },
    }
}

proof fn edge_has_its_step(d: DocumentView, e: EdgeView, service: Option<Seq<char>>)
    ensures
        is_step_of(step_of(d, e, service), d, e, service),
{
    first_dataset_is_found(d.datasets, e.from);
    first_dataset_is_found(d.datasets, e.to);
    let i = dataset_index(d.datasets, e.from, 0);
    let j = dataset_index(d.datasets, e.to, 0);
    if !lacks_dataset(d.datasets, e.from) {
        names_are_resolved(d.datasets[i], service);
    }
    if !lacks_dataset(d.datasets, e.to) {
        names_are_resolved(d.datasets[j], service);
    }
    match step_of(d, e, service) {
        StepView::Push { from_table, to_table, details } => {
            let p = resolved_fqn(d.datasets[i], service)->0;
            let q = resolved_fqn(d.datasets[j], service)->0;
            full_is_table_fqn(p);
            full_is_table_fqn(q);
            request_carries_the_details(e, p, q);
            assert(is_dataset(d.datasets, i, e.from) && is_named(d.datasets[i], service, p));
            assert(is_dataset(d.datasets, j, e.to) && is_named(d.datasets[j], service, q));
            assert(is_sent_as(d, e.from, service, p) && is_sent_as(d, e.to, service, q));
        },
        StepView::Skip(_) => {
            if lacks_dataset(d.datasets, e.from) {
                assert(forall|p: FqnPartsView| !#[trigger] is_sent_as(d, e.from, service, p));
            } else if lacks_dataset(d.datasets, e.to) {
                assert(forall|p: FqnPartsView| !#[trigger] is_sent_as(d, e.to, service, p));
            } else if resolved_fqn(d.datasets[i], service) is None {
                assert(forall|p: FqnPartsView| !#[trigger] is_sent_as(d, e.from, service, p));
            } else {
                assert(forall|p: FqnPartsView| !#[trigger] is_sent_as(d, e.to, service, p));
            }
        },
    }
}

/// A plan has one step for each edge of the document, in dependency order.
pub proof fn each_edge_has_its_step(d: DocumentView, service: Option<Seq<char>>, i: int)
    requires
        0 <= i < d.edges.len(),
    ensures
        steps_of(d, service).len() == d.edges.len(),
        is_step_of(steps_of(d, service)[i], d, topo_edges(d.edges)[i], service),
{
    topo_order_is_sorted_permutation(d.edges);
    topo_edges(d.edges).to_multiset_ensures();
    d.edges.to_multiset_ensures();
    edge_has_its_step(d, topo_edges(d.edges)[i], service);
}

// ──────────────────────────────── requests ────────────────────────────

/// The member behind two keys.
pub open spec fn member_of(t: JsonTree, a: Seq<char>, b: Seq<char>) -> JsonTree {
    match member(t, a) {
        Some(x) => match member(x, b) {
            Some(y) => y,
            None => JsonTree::Null,
        },
        None => JsonTree::Null,
    }
}

/// True when the object stands for a table, by its id and its name where those
/// are given.
pub open spec fn is_table(t: JsonTree, id: Option<Seq<char>>, name: Option<Seq<char>>) -> bool {
    &&& says(t, "type"@, "table"@)
    &&& says_if_any(t, "id"@, id)
    &&& says_if_any(t, "fullyQualifiedName"@, name)
}

/// True when the request carries an edge between two tables with its details.
pub open spec fn is_request(
    t: JsonTree,
    from_id: Option<Seq<char>>,
    from_name: Option<Seq<char>>,
    to_id: Option<Seq<char>>,
    to_name: Option<Seq<char>>,
    details: JsonTree,
) -> bool {
    &&& is_table(member_of(t, "edge"@, "fromEntity"@), from_id, from_name)
    &&& is_table(member_of(t, "edge"@, "toEntity"@), to_id, to_name)
    &&& member_of(t, "edge"@, "lineageDetails"@) == details
}

proof fn request_keys()
    ensures
        "id"@.len() == 2,
        "type"@.len() == 4,
        "fullyQualifiedName"@.len() == 18,
        "fromEntity"@.len() == 10,
        "toEntity"@.len() == 8,
        "lineageDetails"@.len() == 14,
{
    reveal_strlit("id");
    reveal_strlit("type");
    reveal_strlit("fullyQualifiedName");
    reveal_strlit("fromEntity");
    reveal_strlit("toEntity");
    reveal_strlit("lineageDetails");
}

proof fn table_is_told(id: Option<Seq<char>>, name: Option<Seq<char>>)
    ensures
        is_table(table_tree(id, name), id, name),
{
    request_keys();
    let a = match id {
        Some(i) => seq![("id"@, JsonTree::Text(i))],
        None => Seq::empty(),
    };
    let b = a.push(("type"@, JsonTree::Text("table"@)));
    let all = match name {
        Some(n) => b.push(("fullyQualifiedName"@, JsonTree::Text(n))),
        None => b,
    };
    let t = table_tree(id, name);
    assert(t == object_of(all));
    object_is_read_back(all);
    let k = a.len() as int;
    assert(all[k] == ("type"@, JsonTree::Text("table"@)));
    assert(last_with_key(all, k));
    assert(member(t, all[k].0) == Some(all[k].1));
    if id is Some {
        assert(all[0] == ("id"@, JsonTree::Text(id->0)));
        assert(last_with_key(all, 0));
        assert(member(t, all[0].0) == Some(all[0].1));
    } else if member(t, "id"@) is Some {
        let i = choose|i: int| 0 <= i < all.len() && (#[trigger] all[i]).0 == "id"@;
        assert(i == 0 || i == 1);
    }
    if name is Some {
        assert(last_with_key(all, k + 1));
        assert(member(t, all[k + 1].0) == Some(all[k + 1].1));
    } else if member(t, "fullyQualifiedName"@) is Some {
        let i = choose|i: int|
            0 <= i < all.len() && (#[trigger] all[i]).0 == "fullyQualifiedName"@;
        assert(i == 0 || i == 1);
    }
}

proof fn request_is_told(
    from_id: Option<Seq<char>>,
    from_name: Option<Seq<char>>,
    to_id: Option<Seq<char>>,
    to_name: Option<Seq<char>>,
    details: JsonTree,
)
    ensures
        is_request(
            body_tree(table_tree(from_id, from_name), table_tree(to_id, to_name), details),
            from_id,
            from_name,
            to_id,
            to_name,
            details,
        ),
{
    request_keys();
    let from = table_tree(from_id, from_name);
    let to = table_tree(to_id, to_name);
    table_is_told(from_id, from_name);
    table_is_told(to_id, to_name);
    let inner = seq![("fromEntity"@, from), ("toEntity"@, to), ("lineageDetails"@, details)];
    let outer = seq![("edge"@, object_of(inner))];
    let t = body_tree(from, to, details);
    assert(t == object_of(outer));
    object_is_read_back(outer);
    object_is_read_back(inner);
    assert(last_with_key(outer, 0));
    assert(member(t, outer[0].0) == Some(outer[0].1));
    assert(last_with_key(inner, 0) && last_with_key(inner, 1) && last_with_key(inner, 2));
    assert(member(object_of(inner), inner[0].0) == Some(inner[0].1));
    assert(member(object_of(inner), inner[1].0) == Some(inner[1].1));
    assert(member(object_of(inner), inner[2].0) == Some(inner[2].1));
}

pub open spec fn is_push(steps: Seq<StepView>) -> spec_fn(int) -> bool {
    |i: int| steps[i] is Push
}

/// True when the request carries what the step sends, with the tables by name.
pub open spec fn carries_step(t: JsonTree, s: StepView) -> bool {
    s matches StepView::Push { from_table, to_table, details } && is_request(
        t,
        None,
        Some(from_table),
        None,
        Some(to_table),
        details,
    )
}

proof fn bodies_in_turn(steps: Seq<StepView>, n: int) -> (chosen: Seq<int>)
    requires
        0 <= n <= steps.len(),
    ensures
        lists_those(chosen, n, is_push(steps)),
        dry_bodies(steps, n).len() == chosen.len(),
        forall|k: int|
            0 <= k < chosen.len() ==> carries_step(
                #[trigger] dry_bodies(steps, n)[k],
                steps[chosen[k]],
            ),
    decreases n,
{
    if n > 0 {
        let before = bodies_in_turn(steps, n - 1);
        if let StepView::Push { from_table, to_table, details } = steps[n - 1] {
            request_is_told(None, Some(from_table), None, Some(to_table), details);
        }
        one_more(before, n, is_push(steps))
    } else {
        Seq::empty()
    }
}

/// A dry run makes one request for each step that sends, in order, with both
/// tables by name and the details of the step.
pub proof fn each_push_has_its_request(steps: Seq<StepView>)
    ensures
        exists|chosen: Seq<int>|
            {
                &&& #[trigger] lists_those(chosen, steps.len() as int, is_push(steps))
                &&& dry_bodies(steps, steps.len() as int).len() == chosen.len()
                &&& forall|k: int|
                    0 <= k < chosen.len() ==> carries_step(
                        #[trigger] dry_bodies(steps, steps.len() as int)[k],
                        steps[chosen[k]],
                    )
            },
{
    let chosen = bodies_in_turn(steps, steps.len() as int);
}

/// A live run looks both tables of a step up, the source first, and then puts
/// a request with the two ids that it was told and the details of the step.
/// What it records of an accepted request has the names beside the ids.
pub proof fn live_step_sends_what_was_found(
    v: LiveView,
    from: Seq<char>,
    to: Seq<char>,
    status: Seq<char>,
)
    requires
        0 <= v.at < v.steps.len(),
        v.steps[v.at] is Push,
        v.from_id is None,
        v.to_id is None,
    ensures
        v.steps[v.at] matches StepView::Push { from_table, to_table, details } && {
            let a = v.after_find(Ok(from));
            let b = a.after_find(Ok(to));
            let c = b.after_put(Ok(status));
            &&& v.next() == LiveActionView::Find(from_table)
            &&& a.next() == LiveActionView::Find(to_table)
            &&& b.next() matches LiveActionView::Put(t) && is_request(
                t,
                Some(from),
                None,
                Some(to),
                None,
                details,
            )
            &&& c.bodies.len() == v.bodies.len() + 1
            &&& is_request(
                c.bodies[v.bodies.len() as int],
                Some(from),
                Some(from_table),
                Some(to),
                Some(to_table),
                details,
            )
            &&& forall|i: int| 0 <= i < v.bodies.len() ==> #[trigger] c.bodies[i] == v.bodies[i]
            &&& c.at > v.at
            &&& c.actions.len() > v.actions.len()
            &&& c.actions[v.actions.len() as int] == "PUT "@ + v.url + " ["@ + status + "] : "@ + (
            from_table + " -> "@ + to_table)
        },
{
    if let StepView::Push { from_table, to_table, details } = v.steps[v.at] {
        request_is_told(Some(from), None, Some(to), None, details);
        request_is_told(Some(from), Some(from_table), Some(to), Some(to_table), details);
        let b = v.after_find(Ok(from)).after_find(Ok(to));
        let said = "PUT "@ + v.url + " ["@ + status + "] : "@ + (from_table + " -> "@ + to_table);
        let d = b.with_body(Some(b.recorded())).dealt(said);
        skipping_keeps(d);
        assert(d.bodies[v.bodies.len() as int] == b.recorded());
        assert(d.actions[v.actions.len() as int] == said);
    }
}

proof fn skipping_keeps(v: LiveView)
    ensures
        v.skipping().bodies == v.bodies,
        v.skipping().at >= v.at,
        v.skipping().actions.len() >= v.actions.len(),
        forall|i: int|
            0 <= i < v.actions.len() ==> #[trigger] v.skipping().actions[i] == v.actions[i],
    decreases v.steps.len() - v.at,
{
    if 0 <= v.at < v.steps.len() {
        if let StepView::Skip(said) = v.steps[v.at] {
            skipping_keeps(v.dealt(said));
        }
    }
}

// ───────────────────────────────── retries ────────────────────────────

/// A request that may pass is tried again after 400 milliseconds, and then
/// after twice as long as the last time, up to 8000, as often as there are
/// retries; another is not.
pub proof fn delays_double(attempt: u32, retries: u32, f: Failure)
    ensures
        retry_delay(attempt, retries, f) is Some <==> attempt < retries && may_pass(f),
        0 < retries && may_pass(f) ==> retry_delay(0, retries, f) == Some(400u64),
        attempt + 1 < retries && may_pass(f) ==> {
            let a = retry_delay(attempt, retries, f)->0;
            let b = retry_delay((attempt + 1) as u32, retries, f)->0;
            a <= 8000 && b == if 2 * a < 8000 {
                (2 * a) as u64
            } else {
                8000
            }
        },
{
    lemma2_to64();
    lemma_pow2_unfold((attempt + 2) as nat);
}

proof fn slashes_at_the_end(s: Seq<char>)
    ensures
        without_slashes(s).len() <= s.len(),
        s.subrange(0, without_slashes(s).len() as int) == without_slashes(s),
        forall|i: int| without_slashes(s).len() <= i < s.len() ==> #[trigger] s[i] == '/',
        without_slashes(s).len() > 0 ==> without_slashes(s).last() != '/',
    decreases s.len(),
{
    if s.len() > 0 && s.last() == '/' {
        let t = s.drop_last();
        slashes_at_the_end(t);
        let n = without_slashes(t).len() as int;
        assert(s.subrange(0, n) =~= t.subrange(0, n));
        assert forall|i: int| n <= i < s.len() implies #[trigger] s[i] == '/' by {
            if i < t.len() {
                assert(t[i] == s[i]);
            }
        }
    } else {
        assert(s.subrange(0, s.len() as int) =~= s);
    }
}

/// Lineage is put below the host, whose slashes at the end are dropped and
/// nothing else of it.
pub proof fn address_is_below_the_host(host: Seq<char>)
    ensures
        exists|n: int|
            {
                &&& 0 <= n <= host.len()
                &&& lineage_url(host) == #[trigger] host.subrange(0, n) + "/v1/lineage"@
                &&& n > 0 ==> host[n - 1] != '/'
                &&& only_slashes_from(host, n)
            },
{
    slashes_at_the_end(host);
    let n = without_slashes(host).len() as int;
    assert(lineage_url(host) == host.subrange(0, n) + "/v1/lineage"@);
    if n > 0 {
        assert(host.subrange(0, n)[n - 1] == host[n - 1]);
    }
}

/// True when nothing but slashes follows from the position on.
pub open spec fn only_slashes_from(s: Seq<char>, n: int) -> bool {
    forall|i: int| n <= i < s.len() ==> #[trigger] s[i] == '/'
}

} // verus!

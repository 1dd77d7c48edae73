//! The events for OpenLineage and the lineage that they carry, read by the
//! members of the events.

use vstd::prelude::*;

use crate::export::ExportConfigView;
use crate::graph::topo_edges;
use crate::json::{object_of, JsonTree};
use crate::laws::openmetadata::{labels, shown_is_labelled};
use crate::laws::reading::{
    first_dataset_is_found, is_dataset, items, lacks_dataset, last_with_key, lists, lists_those,
    member, object_is_read_back, one_more, says, says_if_any,
};
use crate::model::{
    dataset_index, edge_has_inferred, shown_function, ColumnEdgeView, ColumnRefView, DocumentView,
    EdgeView, JobView, TransformType,
};
use crate::openlineage::{
    any_inferred, dataset_entries, edge_fields, event_tree, event_trees, input_field, input_fields,
    inputs_tree, job_edges, job_facet, job_tree, kind_words, lineage_facet, namespace_of,
    output_fields, output_tree, outputs_tree, producer_of, run_id, run_tree, time_of,
    transformation_tree, COLUMN_LINEAGE_SCHEMA_URL,
};

verus! {

// ─────────────────────────────── sources ──────────────────────────────

/// True when the namespace is that of the name: that of the first dataset
/// called so, or that of the document where there is none or it has none.
pub open spec fn is_namespace(d: DocumentView, name: Seq<char>, ns: Seq<char>) -> bool {
    if lacks_dataset(d.datasets, name) {
        ns == d.namespace
    } else {
        exists|i: int| #[trigger]
            is_dataset(d.datasets, i, name) && ns == match d.datasets[i].namespace {
                Some(n) => n,
                None => d.namespace,
            }
    }
}

/// A name has one namespace, the one that the events give it.
pub proof fn namespace_is_found(d: DocumentView, name: Seq<char>)
    ensures
        is_namespace(d, name, namespace_of(d, name)),
        forall|ns: Seq<char>| #[trigger] is_namespace(d, name, ns) ==> ns == namespace_of(d, name),
{
    first_dataset_is_found(d.datasets, name);
    let i = dataset_index(d.datasets, name, 0);
    if !lacks_dataset(d.datasets, name) {
        assert(is_dataset(d.datasets, i, name));
    }
}

/// True when the object tells the kind of a mapping and its label.
pub open spec fn tells_kind(t: JsonTree, c: ColumnEdgeView) -> bool {
    &&& says(
        t,
        "type"@,
        if c.transform_type is Indirect {
            "INDIRECT"@
        } else {
            "DIRECT"@
        },
    )
    &&& says(
        t,
        "subtype"@,
        match c.transform_type {
            TransformType::Identity => "IDENTITY"@,
            TransformType::Transformation => "TRANSFORMATION"@,
            TransformType::Aggregation => "AGGREGATION"@,
            TransformType::Indirect => "GROUP_BY"@,
        },
    )
    &&& member(t, "masking"@) == Some(JsonTree::Bool(false))
    &&& exists|label: Option<Seq<char>>| #[trigger]
        labels(label, c) && says_if_any(t, "description"@, label)
}

/// True when the object carries a source of the mapping.
pub open spec fn carries_source(
    t: JsonTree,
    d: DocumentView,
    c: ColumnEdgeView,
    s: ColumnRefView,
) -> bool {
    &&& says(t, "name"@, s.dataset)
    &&& says(t, "field"@, s.column)
    &&& exists|ns: Seq<char>| #[trigger]
        is_namespace(d, s.dataset, ns) && says(t, "namespace"@, ns)
    &&& lists(t, "transformations"@)
    &&& items(t, "transformations"@).len() == 1
    &&& tells_kind(items(t, "transformations"@)[0], c)
}

/// True when the object carries every source of the mapping, in order, and
/// nothing else.
pub open spec fn carries_sources(t: JsonTree, d: DocumentView, c: ColumnEdgeView) -> bool {
    &&& lists(t, "inputFields"@)
    &&& items(t, "inputFields"@).len() == c.from_columns.len()
    &&& forall|i: int|
        0 <= i < c.from_columns.len() ==> carries_source(
            #[trigger] items(t, "inputFields"@)[i],
            d,
            c,
            c.from_columns[i],
        )
}

proof fn kind_is_carried(c: ColumnEdgeView)
    ensures
        tells_kind(transformation_tree(c), c),
{
    shown_is_labelled(c);
    reveal_strlit("type");
    reveal_strlit("subtype");
    reveal_strlit("masking");
    reveal_strlit("description");
    let base = seq![
        ("type"@, JsonTree::Text(kind_words(c.transform_type).0)),
        ("subtype"@, JsonTree::Text(kind_words(c.transform_type).1)),
        ("masking"@, JsonTree::Bool(false)),
    ];
    let label = shown_function(c);
    let all = match label {
        Some(f) => base.push(("description"@, JsonTree::Text(f))),
        None => base,
    };
    let t = transformation_tree(c);
    assert(t == object_of(all));
    object_is_read_back(all);
    assert("type"@.len() == 4 && "subtype"@.len() == 7 && "masking"@.len() == 7
        && "description"@.len() == 11);
    assert("subtype"@[0] == 's' && "masking"@[0] == 'm');
    assert(all[0] == base[0] && all[1] == base[1] && all[2] == base[2]);
    assert(last_with_key(all, 0) && last_with_key(all, 1) && last_with_key(all, 2));
    assert(member(t, all[0].0) == Some(all[0].1));
    assert(member(t, all[1].0) == Some(all[1].1));
    assert(member(t, all[2].0) == Some(all[2].1));
    if label is Some {
        assert(last_with_key(all, 3));
        assert(member(t, all[3].0) == Some(all[3].1));
    } else if member(t, "description"@) is Some {
        let i = choose|i: int| 0 <= i < all.len() && (#[trigger] all[i]).0 == "description"@;
        assert(i == 0 || i == 1 || i == 2);
    }
    assert(labels(label, c) && says_if_any(t, "description"@, label));
}

proof fn source_keys()
    ensures
        "namespace"@.len() == 9,
        "name"@.len() == 4,
        "field"@.len() == 5,
        "transformations"@.len() == 15,
        "facets"@.len() == 6,
{
    reveal_strlit("namespace");
    reveal_strlit("name");
    reveal_strlit("field");
    reveal_strlit("transformations");
    reveal_strlit("facets");
}

proof fn source_is_carried(d: DocumentView, c: ColumnEdgeView, i: int)
    requires
        0 <= i < c.from_columns.len(),
    ensures
        carries_source(input_field(d, c, i), d, c, c.from_columns[i]),
{
    source_keys();
    kind_is_carried(c);
    let s = c.from_columns[i];
    namespace_is_found(d, s.dataset);
    let all = seq![
        ("namespace"@, JsonTree::Text(namespace_of(d, s.dataset))),
        ("name"@, JsonTree::Text(s.dataset)),
        ("field"@, JsonTree::Text(s.column)),
        ("transformations"@, JsonTree::List(seq![transformation_tree(c)])),
    ];
    let t = input_field(d, c, i);
    assert(t == object_of(all));
    object_is_read_back(all);
    assert(last_with_key(all, 0) && last_with_key(all, 1) && last_with_key(all, 2)
        && last_with_key(all, 3));
    assert(member(t, all[0].0) == Some(all[0].1));
    assert(member(t, all[1].0) == Some(all[1].1));
    assert(member(t, all[2].0) == Some(all[2].1));
    assert(member(t, all[3].0) == Some(all[3].1));
    assert(is_namespace(d, s.dataset, namespace_of(d, s.dataset)) && says(
        t,
        "namespace"@,
        namespace_of(d, s.dataset),
    ));
}

/// The fields of a mapping carry every source of it: entry `i` names the
/// dataset, the column and the namespace of source `i`, and there is no other
/// entry.
pub proof fn event_carries_every_source(d: DocumentView, c: ColumnEdgeView)
    ensures
        carries_sources(input_fields(d, c), d, c),
{
    let list = Seq::new(c.from_columns.len(), |i: int| input_field(d, c, i));
    let all = seq![("inputFields"@, JsonTree::List(list))];
    let t = input_fields(d, c);
    assert(t == object_of(all));
    object_is_read_back(all);
    assert(last_with_key(all, 0));
    assert(member(t, all[0].0) == Some(all[0].1));
    assert forall|i: int| 0 <= i < c.from_columns.len() implies carries_source(
        #[trigger] items(t, "inputFields"@)[i],
        d,
        c,
        c.from_columns[i],
    ) by {
        source_is_carried(d, c, i);
        assert(list[i] == input_field(d, c, i));
    }
}

/// Each source of a mapping has an entry among the fields.
pub proof fn each_source_has_an_entry(d: DocumentView, c: ColumnEdgeView, i: int)
    requires
        0 <= i < c.from_columns.len(),
    ensures
        exists|k: int|
            0 <= k < items(input_fields(d, c), "inputFields"@).len() && carries_source(
                #[trigger] items(input_fields(d, c), "inputFields"@)[k],
                d,
                c,
                c.from_columns[i],
            ),
{
    event_carries_every_source(d, c);
    assert(carries_source(
        items(input_fields(d, c), "inputFields"@)[i],
        d,
        c,
        c.from_columns[i],
    ));
}

/// Each entry among the fields names a source of the mapping.
pub proof fn each_entry_names_a_source(d: DocumentView, c: ColumnEdgeView, k: int)
    requires
        0 <= k < items(input_fields(d, c), "inputFields"@).len(),
    ensures
        exists|i: int|
            0 <= i < c.from_columns.len() && carries_source(
                items(input_fields(d, c), "inputFields"@)[k],
                d,
                c,
                #[trigger] c.from_columns[i],
            ),
{
    event_carries_every_source(d, c);
    assert(carries_source(
        items(input_fields(d, c), "inputFields"@)[k],
        d,
        c,
        c.from_columns[k],
    ));
}

/// Mappings with different sources have different fields.
pub proof fn different_sources_show(d: DocumentView, a: ColumnEdgeView, b: ColumnEdgeView)
    requires
        a.from_columns != b.from_columns,
    ensures
        items(input_fields(d, a), "inputFields"@) != items(input_fields(d, b), "inputFields"@),
{
    event_carries_every_source(d, a);
    event_carries_every_source(d, b);
    let x = items(input_fields(d, a), "inputFields"@);
    let y = items(input_fields(d, b), "inputFields"@);
    if x == y {
        assert forall|i: int| 0 <= i < a.from_columns.len() implies a.from_columns[i]
            == b.from_columns[i] by {
            assert(carries_source(x[i], d, a, a.from_columns[i]));
            assert(carries_source(y[i], d, b, b.from_columns[i]));
        }
        assert(a.from_columns =~= b.from_columns);
    }
}

// ──────────────────────────────── outputs ─────────────────────────────

/// The mapping at position `b` of edge `a`, where it leads to the output and
/// has sources.
pub open spec fn output_mapping(es: Seq<EdgeView>, name: Seq<char>, a: int, b: int) -> Option<
    ColumnEdgeView,
> {
    if 0 <= a < es.len() && es[a].to == name && 0 <= b < es[a].column_lineage.len()
        && es[a].column_lineage[b].to_column.dataset == name
        && es[a].column_lineage[b].from_columns.len() > 0 {
        Some(es[a].column_lineage[b])
    } else {
        None
    }
}

/// True when no mapping behind that one leads to the same column of the
/// output.
pub open spec fn is_last_mapping(es: Seq<EdgeView>, name: Seq<char>, a: int, b: int) -> bool {
    &&& output_mapping(es, name, a, b) is Some
    &&& forall|k: int, l: int|
        a < k || (a == k && b < l) ==> ((#[trigger] output_mapping(es, name, k, l)) matches Some(c)
            ==> c.to_column.column != es[a].column_lineage[b].to_column.column)
}

/// The fields come from mappings: each entry, and in the order of those.
spec fn fields_come_from(
    d: DocumentView,
    es: Seq<EdgeView>,
    name: Seq<char>,
    fields: Seq<(Seq<char>, JsonTree)>,
    place: Seq<(int, int)>,
) -> bool {
    &&& place.len() == fields.len()
    &&& forall|i: int|
        0 <= i < fields.len() ==> ((output_mapping(
            es,
            name,
            (#[trigger] place[i]).0,
            place[i].1,
        ) matches Some(c) && fields[i] == (c.to_column.column, input_fields(d, c))))
    &&& forall|i: int, j: int|
        0 <= i < j < fields.len() ==> (#[trigger] place[i]).0 < (#[trigger] place[j]).0 || (
        place[i].0 == place[j].0 && place[i].1 < place[j].1)
}

proof fn edge_fields_come_from(
    d: DocumentView,
    es: Seq<EdgeView>,
    name: Seq<char>,
    a: int,
    acc: Seq<(Seq<char>, JsonTree)>,
    before: Seq<(int, int)>,
    n: int,
) -> (place: Seq<(int, int)>)
    requires
        0 <= a < es.len(),
        es[a].to == name,
        0 <= n <= es[a].column_lineage.len(),
        fields_come_from(d, es, name, acc, before),
        forall|i: int| 0 <= i < before.len() ==> (#[trigger] before[i]).0 < a,
    ensures
        fields_come_from(d, es, name, edge_fields(d, name, es[a], acc, n), place),
        forall|i: int|
            0 <= i < place.len() ==> (#[trigger] place[i]).0 < a || (place[i].0 == a && place[i].1
                < n),
        forall|i: int| 0 <= i < before.len() ==> #[trigger] place.contains(before[i]),
        forall|b: int|
            b < n && (#[trigger] output_mapping(es, name, a, b)) is Some ==> place.contains((a, b)),
    decreases n,
{
    if n > 0 {
        let p = edge_fields_come_from(d, es, name, a, acc, before, n - 1);
        let s = edge_fields(d, name, es[a], acc, n - 1);
        let c = es[a].column_lineage[n - 1];
        if c.to_column.dataset == name && c.from_columns.len() > 0 {
            let r = p.push((a, n - 1));
            let now = s.push((c.to_column.column, input_fields(d, c)));
            assert(edge_fields(d, name, es[a], acc, n) == now);
            assert(output_mapping(es, name, a, n - 1) == Some(c));
            assert forall|i: int| 0 <= i < now.len() implies ((output_mapping(
                es,
                name,
                (#[trigger] r[i]).0,
                r[i].1,
            ) matches Some(x) && now[i] == (x.to_column.column, input_fields(d, x)))) by {
                if i < s.len() {
                    assert(r[i] == p[i] && now[i] == s[i]);
                }
            }
            assert(fields_come_from(d, es, name, now, r));
            assert forall|i: int| 0 <= i < before.len() implies #[trigger] r.contains(before[i]) by {
                assert(p.contains(before[i]));
                let k = choose|k: int| 0 <= k < p.len() && p[k] == before[i];
                assert(r[k] == before[i]);
            }
            assert forall|b: int|
                b < n && (#[trigger] output_mapping(es, name, a, b)) is Some implies r.contains(
                (a, b),
            ) by {
                if b == n - 1 {
                    assert(r[p.len() as int] == (a, b));
                } else {
                    assert(p.contains((a, b)));
                    let k = choose|k: int| 0 <= k < p.len() && p[k] == (a, b);
                    assert(r[k] == (a, b));
                }
            }
            r
        } else {
            assert(output_mapping(es, name, a, n - 1) is None);
            p
        }
    } else {
        assert forall|i: int| 0 <= i < before.len() implies #[trigger] before.contains(
            before[i],
        ) by {}
        before
    }
}

proof fn output_fields_come_from(d: DocumentView, es: Seq<EdgeView>, name: Seq<char>, n: int) -> (place:
    Seq<(int, int)>)
    requires
        0 <= n <= es.len(),
    ensures
        fields_come_from(d, es, name, output_fields(d, name, es, n), place),
        forall|i: int| 0 <= i < place.len() ==> (#[trigger] place[i]).0 < n,
        forall|a: int, b: int|
            a < n && (#[trigger] output_mapping(es, name, a, b)) is Some ==> place.contains((a, b)),
    decreases n,
{
    if n > 0 {
        let p = output_fields_come_from(d, es, name, n - 1);
        let s = output_fields(d, name, es, n - 1);
        let e = es[n - 1];
        if e.to == name {
            let r = edge_fields_come_from(
                d,
                es,
                name,
                n - 1,
                s,
                p,
                e.column_lineage.len() as int,
            );
            assert forall|a: int, b: int|
                a < n && (#[trigger] output_mapping(es, name, a, b)) is Some implies r.contains(
                (a, b),
            ) by {
                if a < n - 1 {
                    assert(p.contains((a, b)));
                    let k = choose|k: int| 0 <= k < p.len() && p[k] == (a, b);
                    assert(r.contains(p[k]));
                }
            }
            r
        } else {
            assert forall|a: int, b: int|
                a < n && (#[trigger] output_mapping(es, name, a, b)) is Some implies p.contains(
                (a, b),
            ) by {
                assert(a < n - 1);
            }
            p
        }
    } else {
        Seq::empty()
    }
}

/// The fields of an output: each column that a mapping with sources leads to
/// has a field, which carries the sources of the last such mapping, and no
/// other column has one.
pub proof fn output_has_a_field_per_column(
    d: DocumentView,
    name: Seq<char>,
    es: Seq<EdgeView>,
)
    ensures
        forall|a: int, b: int| #[trigger]
            is_last_mapping(es, name, a, b) ==> (member(
                object_of(output_fields(d, name, es, es.len() as int)),
                es[a].column_lineage[b].to_column.column,
            ) matches Some(t) && carries_sources(t, d, es[a].column_lineage[b])),
        forall|k: Seq<char>| #[trigger]
            member(object_of(output_fields(d, name, es, es.len() as int)), k) is Some ==> exists|
                a: int,
                b: int,
            | (#[trigger] output_mapping(es, name, a, b)) matches Some(c) && c.to_column.column
                == k,
{
    let n = es.len() as int;
    let fields = output_fields(d, name, es, n);
    let place = output_fields_come_from(d, es, name, n);
    object_is_read_back(fields);
    assert forall|a: int, b: int| #[trigger] is_last_mapping(es, name, a, b) implies (member(
        object_of(fields),
        es[a].column_lineage[b].to_column.column,
    ) matches Some(t) && carries_sources(t, d, es[a].column_lineage[b])) by {
        let c = es[a].column_lineage[b];
        assert(output_mapping(es, name, a, b) == Some(c));
        assert(place.contains((a, b)));
        let i = choose|i: int| 0 <= i < place.len() && place[i] == (a, b);
        assert(fields[i] == (c.to_column.column, input_fields(d, c)));
        assert forall|j: int| i < j < fields.len() implies (#[trigger] fields[j]).0
            != fields[i].0 by {
            let x = output_mapping(es, name, place[j].0, place[j].1);
            assert(x is Some && fields[j].0 == x->0.to_column.column);
        }
        assert(last_with_key(fields, i));
        event_carries_every_source(d, c);
    }
    assert forall|k: Seq<char>| #[trigger] member(object_of(fields), k) is Some implies exists|
        a: int,
        b: int,
    | (#[trigger] output_mapping(es, name, a, b)) matches Some(c) && c.to_column.column == k by {
        let i = choose|i: int| 0 <= i < fields.len() && (#[trigger] fields[i]).0 == k;
        assert(output_mapping(es, name, place[i].0, place[i].1) is Some);
    }
}

// ──────────────────────────────── events ──────────────────────────────

/// The member under a key; null where there is none.
pub open spec fn at(t: JsonTree, key: Seq<char>) -> JsonTree {
    match member(t, key) {
        Some(x) => x,
        None => JsonTree::Null,
    }
}

/// True when the object stands for the dataset.
pub open spec fn is_dataset_entry(t: JsonTree, d: DocumentView, name: Seq<char>) -> bool {
    &&& says(t, "name"@, name)
    &&& exists|ns: Seq<char>| #[trigger] is_namespace(d, name, ns) && says(t, "namespace"@, ns)
}

/// True when the facet of an output has a field for each column that a mapping
/// with sources leads to, with the sources of the last such mapping, and none
/// for another column.
pub open spec fn carries_fields(
    fields: JsonTree,
    d: DocumentView,
    name: Seq<char>,
    es: Seq<EdgeView>,
) -> bool {
    &&& forall|a: int, b: int| #[trigger]
        is_last_mapping(es, name, a, b) ==> (member(
            fields,
            es[a].column_lineage[b].to_column.column,
        ) matches Some(t) && carries_sources(t, d, es[a].column_lineage[b]))
    &&& forall|k: Seq<char>| #[trigger]
        member(fields, k) is Some ==> exists|a: int, b: int|
            (#[trigger] output_mapping(es, name, a, b)) matches Some(c) && c.to_column.column == k
}

/// True when the object stands for an output, with the lineage of its columns
/// where there is any.
pub open spec fn is_output(
    t: JsonTree,
    d: DocumentView,
    producer: Seq<char>,
    name: Seq<char>,
    es: Seq<EdgeView>,
) -> bool {
    let facet = at(at(t, "facets"@), "columnLineage"@);
    &&& is_dataset_entry(t, d, name)
    &&& member(t, "facets"@) is Some <==> exists|a: int, b: int|
        (#[trigger] output_mapping(es, name, a, b)) is Some
    &&& member(t, "facets"@) is Some ==> {
        &&& says(facet, "_producer"@, producer)
        &&& carries_fields(at(facet, "fields"@), d, name, es)
    }
}

proof fn dataset_is_told(d: DocumentView, name: Seq<char>, more: Seq<(Seq<char>, JsonTree)>)
    requires
        more.len() <= 1,
        more.len() == 1 ==> more[0].0 == "facets"@,
    ensures
        is_dataset_entry(object_of(dataset_entries(d, name) + more), d, name),
        more.len() == 0 ==> member(object_of(dataset_entries(d, name) + more), "facets"@) is None,
        more.len() == 1 ==> member(object_of(dataset_entries(d, name) + more), "facets"@) == Some(
            more[0].1,
        ),
{
    source_keys();
    namespace_is_found(d, name);
    let all = dataset_entries(d, name) + more;
    let t = object_of(all);
    object_is_read_back(all);
    assert(all[0] == ("namespace"@, JsonTree::Text(namespace_of(d, name))));
    assert(all[1] == ("name"@, JsonTree::Text(name)));
    assert(last_with_key(all, 0) && last_with_key(all, 1));
    assert(member(t, all[0].0) == Some(all[0].1));
    assert(member(t, all[1].0) == Some(all[1].1));
    assert(is_namespace(d, name, namespace_of(d, name)) && says(
        t,
        "namespace"@,
        namespace_of(d, name),
    ));
    if more.len() == 1 {
        assert(all[2] == more[0]);
        assert(last_with_key(all, 2));
        assert(member(t, all[2].0) == Some(all[2].1));
    } else if member(t, "facets"@) is Some {
        let i = choose|i: int| 0 <= i < all.len() && (#[trigger] all[i]).0 == "facets"@;
        assert(i == 0 || i == 1);
    }
}

proof fn facet_is_told(producer: Seq<char>, fields: Seq<(Seq<char>, JsonTree)>)
    ensures
        says(at(lineage_facet(producer, fields), "columnLineage"@), "_producer"@, producer),
        at(at(lineage_facet(producer, fields), "columnLineage"@), "fields"@) == object_of(fields),
{
    reveal_strlit("_producer");
    reveal_strlit("_schemaURL");
    reveal_strlit("fields");
    let inner = seq![
        ("_producer"@, JsonTree::Text(producer)),
        ("_schemaURL"@, JsonTree::Text(COLUMN_LINEAGE_SCHEMA_URL@)),
        ("fields"@, object_of(fields)),
    ];
    let outer = seq![("columnLineage"@, object_of(inner))];
    let t = lineage_facet(producer, fields);
    assert(t == object_of(outer));
    object_is_read_back(outer);
    object_is_read_back(inner);
    assert("_producer"@.len() == 9 && "_schemaURL"@.len() == 10 && "fields"@.len() == 6);
    assert(last_with_key(outer, 0));
    assert(member(t, outer[0].0) == Some(outer[0].1));
    assert(last_with_key(inner, 0) && last_with_key(inner, 2));
    assert(member(object_of(inner), inner[0].0) == Some(inner[0].1));
    assert(member(object_of(inner), inner[2].0) == Some(inner[2].1));
}

/// An output is told by its name and its namespace, and its facet carries
/// every source of the mappings that lead to it.
pub proof fn output_is_told(
    d: DocumentView,
    producer: Seq<char>,
    name: Seq<char>,
    es: Seq<EdgeView>,
)
    ensures
        is_output(output_tree(d, producer, name, es), d, producer, name, es),
{
    let n = es.len() as int;
    let fields = output_fields(d, name, es, n);
    let base = dataset_entries(d, name);
    let t = output_tree(d, producer, name, es);
    let place = output_fields_come_from(d, es, name, n);
    output_has_a_field_per_column(d, name, es);
    if fields.len() == 0 {
        dataset_is_told(d, name, Seq::empty());
        assert(base + Seq::empty() =~= base);
        assert forall|a: int, b: int| (#[trigger] output_mapping(es, name, a, b)) is None by {
            if output_mapping(es, name, a, b) is Some {
                assert(place.contains((a, b)));
            }
        }
    } else {
        let more = seq![("facets"@, lineage_facet(producer, fields))];
        dataset_is_told(d, name, more);
        assert(base + more =~= base.push(more[0]));
        facet_is_told(producer, fields);
        assert(output_mapping(es, name, place[0].0, place[0].1) is Some);
        assert(carries_fields(object_of(fields), d, name, es));
    }
}

/// True when the object stands for the job; one with inferred lineage has a
/// facet that says so.
pub open spec fn is_job(t: JsonTree, d: DocumentView, j: JobView, es: Seq<EdgeView>) -> bool {
    &&& says(t, "name"@, j.id)
    &&& says(
        t,
        "namespace"@,
        match j.namespace {
            Some(n) => n,
            None => d.namespace,
        },
    )
    &&& member(t, "facets"@) is Some <==> exists|i: int|
        0 <= i < es.len() && edge_has_inferred(#[trigger] es[i])
}

proof fn job_is_told(d: DocumentView, producer: Seq<char>, j: JobView, es: Seq<EdgeView>)
    ensures
        is_job(job_tree(d, producer, j, es), d, j, es),
{
    source_keys();
    let ns = match j.namespace {
        Some(n) => n,
        None => d.namespace,
    };
    let base = seq![("namespace"@, JsonTree::Text(ns)), ("name"@, JsonTree::Text(j.id))];
    let all = if any_inferred(es) {
        base.push(("facets"@, job_facet(producer)))
    } else {
        base
    };
    let t = job_tree(d, producer, j, es);
    assert(t == object_of(all));
    object_is_read_back(all);
    assert(all[0] == base[0] && all[1] == base[1]);
    assert(last_with_key(all, 0) && last_with_key(all, 1));
    assert(member(t, all[0].0) == Some(all[0].1));
    assert(member(t, all[1].0) == Some(all[1].1));
    if any_inferred(es) {
        assert(last_with_key(all, 2));
        assert(member(t, all[2].0) == Some(all[2].1));
    } else if member(t, "facets"@) is Some {
        let i = choose|i: int| 0 <= i < all.len() && (#[trigger] all[i]).0 == "facets"@;
        assert(i == 0 || i == 1);
    }
}

/// True when the event is that of the job: its run, its name, each of its
/// inputs and each of its outputs, in order.
pub open spec fn is_event(
    t: JsonTree,
    d: DocumentView,
    producer: Seq<char>,
    time: Seq<char>,
    j: JobView,
    es: Seq<EdgeView>,
) -> bool {
    &&& says(t, "eventType"@, "COMPLETE"@)
    &&& says(t, "eventTime"@, time)
    &&& says(t, "producer"@, producer)
    &&& says(at(t, "run"@), "runId"@, run_id(j.id))
    &&& is_job(at(t, "job"@), d, j, es)
    &&& lists(t, "inputs"@)
    &&& items(t, "inputs"@).len() == j.inputs.len()
    &&& forall|i: int|
        0 <= i < j.inputs.len() ==> is_dataset_entry(
            #[trigger] items(t, "inputs"@)[i],
            d,
            j.inputs[i],
        )
    &&& lists(t, "outputs"@)
    &&& items(t, "outputs"@).len() == j.outputs.len()
    &&& forall|i: int|
        0 <= i < j.outputs.len() ==> is_output(
            #[trigger] items(t, "outputs"@)[i],
            d,
            producer,
            j.outputs[i],
            es,
        )
}

proof fn event_keys()
    ensures
        "eventType"@.len() == 9 && "eventType"@[5] == 'T' && "eventType"@[6] == 'y',
        "eventTime"@.len() == 9 && "eventTime"@[5] == 'T' && "eventTime"@[6] == 'i',
        "schemaURL"@.len() == 9 && "schemaURL"@[5] == 'a',
        "producer"@.len() == 8,
        "run"@.len() == 3 && "run"@[0] == 'r',
        "job"@.len() == 3 && "job"@[0] == 'j',
        "inputs"@.len() == 6,
        "outputs"@.len() == 7,
{
    reveal_strlit("eventType");
    reveal_strlit("eventTime");
    reveal_strlit("schemaURL");
    reveal_strlit("producer");
    reveal_strlit("run");
    reveal_strlit("job");
    reveal_strlit("inputs");
    reveal_strlit("outputs");
}

proof fn event_is_told(
    d: DocumentView,
    producer: Seq<char>,
    time: Seq<char>,
    j: JobView,
    es: Seq<EdgeView>,
)
    ensures
        is_event(event_tree(d, producer, time, j, es), d, producer, time, j, es),
{
    event_keys();
    let all = seq![
        ("eventType"@, JsonTree::Text("COMPLETE"@)),
        ("eventTime"@, JsonTree::Text(time)),
        ("schemaURL"@, JsonTree::Text(crate::openlineage::RUN_EVENT_SCHEMA_URL@)),
        ("producer"@, JsonTree::Text(producer)),
        ("run"@, run_tree(j.id)),
        ("job"@, job_tree(d, producer, j, es)),
        ("inputs"@, inputs_tree(d, j)),
        ("outputs"@, outputs_tree(d, producer, j, es)),
    ];
    let t = event_tree(d, producer, time, j, es);
    assert(t == object_of(all));
    object_is_read_back(all);
    assert(last_with_key(all, 0) && last_with_key(all, 1) && last_with_key(all, 3));
    assert(last_with_key(all, 4) && last_with_key(all, 5) && last_with_key(all, 6)
        && last_with_key(all, 7));
    assert(member(t, all[0].0) == Some(all[0].1));
    assert(member(t, all[1].0) == Some(all[1].1));
    assert(member(t, all[3].0) == Some(all[3].1));
    assert(member(t, all[4].0) == Some(all[4].1));
    assert(member(t, all[5].0) == Some(all[5].1));
    assert(member(t, all[6].0) == Some(all[6].1));
    assert(member(t, all[7].0) == Some(all[7].1));
    let run = seq![("runId"@, JsonTree::Text(run_id(j.id)))];
    object_is_read_back(run);
    assert(last_with_key(run, 0));
    assert(member(run_tree(j.id), run[0].0) == Some(run[0].1));
    job_is_told(d, producer, j, es);
    assert forall|i: int| 0 <= i < j.inputs.len() implies is_dataset_entry(
        #[trigger] items(t, "inputs"@)[i],
        d,
        j.inputs[i],
    ) by {
        dataset_is_told(d, j.inputs[i], Seq::empty());
        let base = dataset_entries(d, j.inputs[i]);
        assert(base + Seq::empty() =~= base);
    }
    assert forall|i: int| 0 <= i < j.outputs.len() implies is_output(
        #[trigger] items(t, "outputs"@)[i],
        d,
        producer,
        j.outputs[i],
        es,
    ) by {
        output_is_told(d, producer, j.outputs[i], es);
    }
}

pub open spec fn is_made_by(es: Seq<EdgeView>, id: Seq<char>) -> spec_fn(int) -> bool {
    |i: int| es[i].job == Some(id)
}

/// True when `own` holds, in order, the edges that the job makes.
pub open spec fn are_edges_of(own: Seq<EdgeView>, es: Seq<EdgeView>, id: Seq<char>) -> bool {
    exists|chosen: Seq<int>|
        {
            &&& #[trigger] lists_those(chosen, es.len() as int, is_made_by(es, id))
            &&& own.len() == chosen.len()
            &&& forall|k: int| 0 <= k < chosen.len() ==> #[trigger] own[k] == es[chosen[k]]
        }
}

proof fn edges_in_turn(es: Seq<EdgeView>, id: Seq<char>, n: int) -> (chosen: Seq<int>)
    requires
        0 <= n <= es.len(),
    ensures
        lists_those(chosen, n, is_made_by(es, id)),
        job_edges(es, id, n).len() == chosen.len(),
        forall|k: int|
            0 <= k < chosen.len() ==> #[trigger] job_edges(es, id, n)[k] == es[chosen[k]],
    decreases n,
{
    if n > 0 {
        let before = edges_in_turn(es, id, n - 1);
        one_more(before, n, is_made_by(es, id))
    } else {
        Seq::empty()
    }
}

/// A document has one event for each job, in order, which carries the lineage
/// of the edges that the job makes.
pub proof fn each_job_has_its_event(d: DocumentView, c: ExportConfigView, i: int)
    requires
        0 <= i < d.jobs.len(),
    ensures
        event_trees(d, c).len() == d.jobs.len(),
        exists|own: Seq<EdgeView>|
            {
                &&& #[trigger] are_edges_of(own, topo_edges(d.edges), d.jobs[i].id)
                &&& is_event(
                    event_trees(d, c)[i],
                    d,
                    if c.ol_producer is Some {
                        c.ol_producer->0
                    } else {
                        d.producer
                    },
                    if d.generated_at is Some {
                        d.generated_at->0
                    } else {
                        "1970-01-01T00:00:00Z"@
                    },
                    d.jobs[i],
                    own,
                )
            },
{
    let es = topo_edges(d.edges);
    let id = d.jobs[i].id;
    let own = job_edges(es, id, es.len() as int);
    let chosen = edges_in_turn(es, id, es.len() as int);
    assert(are_edges_of(own, es, id));
    event_is_told(d, producer_of(d, c), time_of(d), d.jobs[i], own);
}

} // verus!

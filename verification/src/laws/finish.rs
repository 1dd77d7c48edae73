//! The pass over a finished document: which columns a schema is completed
//! with, which gaps are filled, and which edges are warned about.

use vstd::prelude::*;

use crate::finish::{
    backfilled, column_warnings, dataset_level, job_location, with_column, with_edges,
    with_mappings, with_sources,
};
use crate::infer::{identity_fill, source_with_field};
use crate::laws::reading::{
    first_dataset_is_found, is_dataset, lists_those, one_more,
};
use crate::model::{
    add_field, dataset_index, has_field, plain_field, ColumnEdgeView, ColumnRefView, DatasetView,
    DiagLevel, DiagnosticView, DocumentView, EdgeView, FieldView, JobView, TransformType,
};
use crate::origin::OriginSource;
use crate::text::contains_text;

verus! {

// ──────────────────────────────── schemas ─────────────────────────────

/// True when a mapping names the column: as its target, or as any of its
/// sources.
pub open spec fn mapping_names(c: ColumnEdgeView, dataset: Seq<char>, column: Seq<char>) -> bool {
    ||| c.to_column.dataset == dataset && c.to_column.column == column
    ||| exists|s: int|
        0 <= s < c.from_columns.len() && (#[trigger] c.from_columns[s]).dataset == dataset
            && c.from_columns[s].column == column
}

/// True when a mapping of an edge that was not found for columns alone names
/// the column.
pub open spec fn edge_names(e: EdgeView, dataset: Seq<char>, column: Seq<char>) -> bool {
    !e.column_discovery && exists|m: int|
        0 <= m < e.column_lineage.len() && mapping_names(
            #[trigger] e.column_lineage[m],
            dataset,
            column,
        )
}

/// True when one of the edges names the column.
pub open spec fn edges_name(es: Seq<EdgeView>, dataset: Seq<char>, column: Seq<char>) -> bool {
    exists|i: int| 0 <= i < es.len() && edge_names(#[trigger] es[i], dataset, column)
}

/// True when the schema `b` has the fields of `a` in front, and behind them
/// fields that only have a name, each new.
pub open spec fn only_adds_names(a: Seq<FieldView>, b: Seq<FieldView>) -> bool {
    &&& a.len() <= b.len()
    &&& forall|i: int| 0 <= i < a.len() ==> #[trigger] b[i] == a[i]
    &&& forall|i: int|
        a.len() <= i < b.len() ==> #[trigger] b[i] == plain_field(b[i].name) && is_new_name(b, i)
}

/// True when no field in front of field `i` has its name.
pub open spec fn is_new_name(s: Seq<FieldView>, i: int) -> bool {
    forall|j: int| 0 <= j < i ==> (#[trigger] s[j]).name != s[i].name
}

proof fn field_added(base: Seq<FieldView>, s: Seq<FieldView>, name: Seq<char>, x: Seq<char>)
    requires
        only_adds_names(base, s),
    ensures
        only_adds_names(base, add_field(s, plain_field(name))),
        has_field(add_field(s, plain_field(name)), x) <==> has_field(s, x) || x == name,
{
    let f = plain_field(name);
    let r = add_field(s, f);
    if !has_field(s, name) {
        assert(r[s.len() as int] == f);
        assert forall|i: int| base.len() <= i < r.len() implies #[trigger] r[i] == plain_field(
            r[i].name,
        ) && is_new_name(r, i) by {
            if i < s.len() {
                assert(r[i] == s[i]);
                assert(is_new_name(s, i));
                assert forall|j: int| 0 <= j < i implies (#[trigger] r[j]).name != r[i].name by {
                    assert(r[j] == s[j]);
                }
            } else {
                assert forall|j: int| 0 <= j < i implies (#[trigger] r[j]).name != r[i].name by {
                    assert(r[j] == s[j]);
                }
            }
        }
        assert forall|i: int| 0 <= i < base.len() implies #[trigger] r[i] == base[i] by {
            assert(r[i] == s[i]);
        }
    }
    if has_field(s, x) {
        let k = choose|k: int| 0 <= k < s.len() && (#[trigger] s[k]).name == x;
        assert(r[k].name == x);
    }
    if x == name && !has_field(s, x) {
        assert(r[s.len() as int].name == x);
    }
    if has_field(r, x) && x != name {
        let k = choose|k: int| 0 <= k < r.len() && (#[trigger] r[k]).name == x;
        assert(s[k].name == x);
    }
}

proof fn column_added(
    base: Seq<FieldView>,
    s: Seq<FieldView>,
    name: Seq<char>,
    c: ColumnRefView,
    x: Seq<char>,
)
    requires
        only_adds_names(base, s),
    ensures
        only_adds_names(base, with_column(s, name, c)),
        has_field(with_column(s, name, c), x) <==> has_field(s, x) || (c.dataset == name
            && c.column == x),
{
    field_added(base, s, c.column, x);
}

spec fn sources_name(c: ColumnEdgeView, n: int, dataset: Seq<char>, column: Seq<char>) -> bool {
    exists|s: int|
        0 <= s < n && (#[trigger] c.from_columns[s]).dataset == dataset && c.from_columns[s].column
            == column
}

proof fn sources_added(
    base: Seq<FieldView>,
    s: Seq<FieldView>,
    name: Seq<char>,
    c: ColumnEdgeView,
    n: int,
    x: Seq<char>,
)
    requires
        only_adds_names(base, s),
        0 <= n <= c.from_columns.len(),
    ensures
        only_adds_names(base, with_sources(s, name, c, n)),
        has_field(with_sources(s, name, c, n), x) <==> has_field(s, x) || sources_name(
            c,
            n,
            name,
            x,
        ),
    decreases n,
{
    if n > 0 {
        sources_added(base, s, name, c, n - 1, x);
        column_added(base, with_sources(s, name, c, n - 1), name, c.from_columns[n - 1], x);
        assert(sources_name(c, n, name, x) <==> sources_name(c, n - 1, name, x) || (c.from_columns[n
            - 1].dataset == name && c.from_columns[n - 1].column == x));
    }
}

spec fn mappings_name(e: EdgeView, n: int, dataset: Seq<char>, column: Seq<char>) -> bool {
    exists|m: int|
        0 <= m < n && mapping_names(#[trigger] e.column_lineage[m], dataset, column)
}

proof fn mappings_added(
    base: Seq<FieldView>,
    s: Seq<FieldView>,
    name: Seq<char>,
    e: EdgeView,
    n: int,
    x: Seq<char>,
)
    requires
        only_adds_names(base, s),
        0 <= n <= e.column_lineage.len(),
    ensures
        only_adds_names(base, with_mappings(s, name, e, n)),
        has_field(with_mappings(s, name, e, n), x) <==> has_field(s, x) || mappings_name(
            e,
            n,
            name,
            x,
        ),
    decreases n,
{
    if n > 0 {
        mappings_added(base, s, name, e, n - 1, x);
        let c = e.column_lineage[n - 1];
        let prev = with_mappings(s, name, e, n - 1);
        column_added(base, prev, name, c.to_column, x);
        sources_added(
            base,
            with_column(prev, name, c.to_column),
            name,
            c,
            c.from_columns.len() as int,
            x,
        );
        assert(mapping_names(c, name, x) <==> (c.to_column.dataset == name && c.to_column.column
            == x) || sources_name(c, c.from_columns.len() as int, name, x));
        assert(mappings_name(e, n, name, x) <==> mappings_name(e, n - 1, name, x) || mapping_names(
            e.column_lineage[n - 1],
            name,
            x,
        ));
    }
}

spec fn edges_name_upto(es: Seq<EdgeView>, n: int, dataset: Seq<char>, column: Seq<char>) -> bool {
    exists|i: int| 0 <= i < n && edge_names(#[trigger] es[i], dataset, column)
}

proof fn edges_added(s: Seq<FieldView>, name: Seq<char>, es: Seq<EdgeView>, n: int, x: Seq<char>)
    requires
        0 <= n <= es.len(),
    ensures
        only_adds_names(s, with_edges(s, name, es, n)),
        has_field(with_edges(s, name, es, n), x) <==> has_field(s, x) || edges_name_upto(
            es,
            n,
            name,
            x,
        ),
    decreases n,
{
    if n > 0 {
        edges_added(s, name, es, n - 1, x);
        let e = es[n - 1];
        let prev = with_edges(s, name, es, n - 1);
        mappings_added(s, prev, name, e, e.column_lineage.len() as int, x);
        assert(edge_names(e, name, x) <==> !e.column_discovery && mappings_name(
            e,
            e.column_lineage.len() as int,
            name,
            x,
        ));
        assert(edges_name_upto(es, n, name, x) <==> edges_name_upto(es, n - 1, name, x)
            || edge_names(es[n - 1], name, x));
    }
}

/// The schema of a dataset is completed with every column that a mapping of an
/// edge names on it, be it a target or any source, and with no other; what it
/// had stays as it was, in front. Of datasets with one name the first is
/// completed.
pub proof fn schemas_have_every_named_column(
    ds: Seq<DatasetView>,
    es: Seq<EdgeView>,
    i: int,
    column: Seq<char>,
)
    requires
        0 <= i < ds.len(),
    ensures
        backfilled(ds, es).len() == ds.len(),
        backfilled(ds, es)[i] == (DatasetView { schema: backfilled(ds, es)[i].schema, ..ds[i] }),
        is_dataset(ds, i, ds[i].name) ==> {
            &&& only_adds_names(ds[i].schema, backfilled(ds, es)[i].schema)
            &&& has_field(backfilled(ds, es)[i].schema, column) <==> (has_field(
                ds[i].schema,
                column,
            ) || edges_name(es, ds[i].name, column))
        },
        !is_dataset(ds, i, ds[i].name) ==> backfilled(ds, es)[i] == ds[i],
{
    first_dataset_is_found(ds, ds[i].name);
    edges_added(ds[i].schema, ds[i].name, es, es.len() as int, column);
    if dataset_index(ds, ds[i].name, 0) == i {
        assert(!crate::laws::reading::lacks_dataset(ds, ds[i].name)) by {
            assert(ds[i].name == ds[i].name);
        }
    }
}

// ───────────────────────────── same-name gaps ─────────────────────────

/// The columns of the target that are not mapped and that the source has.
pub open spec fn is_gap(
    sources: Seq<DatasetView>,
    target: DatasetView,
    mapped: Seq<Seq<char>>,
) -> spec_fn(int) -> bool {
    |i: int|
        !mapped.contains(target.schema[i].name) && exists|k: int| #[trigger]
            is_first_with(sources, target.schema[i].name, k)
}

/// True when source `k` is the first whose schema has the column.
pub open spec fn is_first_with(sources: Seq<DatasetView>, name: Seq<char>, k: int) -> bool {
    &&& 0 <= k < sources.len()
    &&& has_field(sources[k].schema, name)
    &&& forall|j: int| 0 <= j < k ==> !has_field((#[trigger] sources[j]).schema, name)
}

/// True when the mapping copies the column from the first source that has it.
pub open spec fn copies(
    c: ColumnEdgeView,
    sources: Seq<DatasetView>,
    target: DatasetView,
    name: Seq<char>,
) -> bool {
    &&& c.to_column.dataset == target.name
    &&& c.to_column.column == name
    &&& c.from_columns.len() == 1
    &&& c.from_columns[0].column == name
    &&& exists|k: int| #[trigger]
        is_first_with(sources, name, k) && c.from_columns[0].dataset == sources[k].name
    &&& c.transform_type == TransformType::Identity
    &&& c.function == Some("direct copy"@)
    &&& c.origin.source == OriginSource::InferredCode
    &&& c.origin.confidence is Some
}

proof fn first_source(sources: Seq<DatasetView>, name: Seq<char>, k: int)
    requires
        0 <= k <= sources.len(),
        forall|j: int| 0 <= j < k ==> !has_field((#[trigger] sources[j]).schema, name),
    ensures
        match source_with_field(sources, name, k) {
            Some(d) => exists|m: int| #[trigger] is_first_with(sources, name, m) && sources[m] == d,
            None => forall|m: int| !#[trigger] is_first_with(sources, name, m),
        },
    decreases sources.len() - k,
{
    if k < sources.len() {
        if has_field(sources[k].schema, name) {
            assert(is_first_with(sources, name, k));
        } else {
            first_source(sources, name, k + 1);
        }
    }
}

proof fn fills_in_turn(
    sources: Seq<DatasetView>,
    target: DatasetView,
    mapped: Seq<Seq<char>>,
    n: int,
) -> (chosen: Seq<int>)
    requires
        0 <= n <= target.schema.len(),
    ensures
        lists_those(chosen, n, is_gap(sources, target, mapped)),
        identity_fill(sources, target, mapped, n).len() == chosen.len(),
        forall|k: int|
            0 <= k < chosen.len() ==> copies(
                #[trigger] identity_fill(sources, target, mapped, n)[k],
                sources,
                target,
                target.schema[chosen[k]].name,
            ),
    decreases n,
{
    if n > 0 {
        let before = fills_in_turn(sources, target, mapped, n - 1);
        first_source(sources, target.schema[n - 1].name, 0);
        one_more(before, n, is_gap(sources, target, mapped))
    } else {
        Seq::empty()
    }
}

/// Each column of the target that is not mapped, and that a source has under
/// the same name, is copied from the first source that has it; no other is.
pub proof fn each_gap_is_copied(
    sources: Seq<DatasetView>,
    target: DatasetView,
    mapped: Seq<Seq<char>>,
)
    ensures
        exists|chosen: Seq<int>|
            {
                let n = target.schema.len() as int;
                &&& #[trigger] lists_those(
                    chosen,
                    target.schema.len() as int,
                    is_gap(sources, target, mapped),
                )
                &&& identity_fill(sources, target, mapped, n).len() == chosen.len()
                &&& forall|k: int|
                    0 <= k < chosen.len() ==> copies(
                        #[trigger] identity_fill(
                            sources,
                            target,
                            mapped,
                            target.schema.len() as int,
                        )[k],
                        sources,
                        target,
                        target.schema[chosen[k]].name,
                    )
            },
{
    let chosen = fills_in_turn(sources, target, mapped, target.schema.len() as int);
}

// ──────────────────────────────── warnings ────────────────────────────

/// The edges that carry no mapping, though they are not meant for datasets
/// alone.
pub open spec fn is_bare(d: DocumentView) -> spec_fn(int) -> bool {
    |i: int|
        d.edges[i].column_lineage.len() == 0 && !(d.edges[i].origin.note matches Some(n)
            && contains_text(n, "@lineage"@))
}

/// True when the finding warns of the edge, at the place of its job.
pub open spec fn warns_of(x: DiagnosticView, d: DocumentView, e: EdgeView) -> bool {
    &&& x.level == DiagLevel::Warn
    &&& x.code == "W_NO_COLUMN_LINEAGE"@
    &&& match e.job {
        None => x.location is None,
        Some(id) => {
            &&& forall|k: int| #[trigger]
                is_job(d.jobs, k, id) ==> x.location == d.jobs[k].location
            &&& (forall|k: int| !#[trigger] is_job(d.jobs, k, id)) ==> x.location is None
        },
    }
}

/// True when job `k` is the first with the id.
pub open spec fn is_job(jobs: Seq<JobView>, k: int, id: Seq<char>) -> bool {
    &&& 0 <= k < jobs.len()
    &&& jobs[k].id == id
    &&& forall|j: int| 0 <= j < k ==> (#[trigger] jobs[j]).id != id
}

proof fn location_is_of_first(jobs: Seq<JobView>, id: Seq<char>, k: int)
    requires
        0 <= k <= jobs.len(),
        forall|j: int| 0 <= j < k ==> (#[trigger] jobs[j]).id != id,
    ensures
        forall|m: int| #[trigger]
            is_job(jobs, m, id) ==> job_location(jobs, id, k) == jobs[m].location,
        (forall|m: int| !#[trigger] is_job(jobs, m, id)) ==> job_location(jobs, id, k) is None,
    decreases jobs.len() - k,
{
    if k < jobs.len() {
        if jobs[k].id == id {
            assert(is_job(jobs, k, id));
            assert forall|m: int| #[trigger] is_job(jobs, m, id) implies m == k by {
                if k < m {
                    assert(jobs[k].id != id);
                }
            }
        } else {
            location_is_of_first(jobs, id, k + 1);
        }
    }
}

proof fn warnings_in_turn(d: DocumentView, n: int) -> (chosen: Seq<int>)
    requires
        0 <= n <= d.edges.len(),
    ensures
        lists_those(chosen, n, is_bare(d)),
        column_warnings(d, n).len() == chosen.len(),
        forall|k: int|
            0 <= k < chosen.len() ==> warns_of(
                #[trigger] column_warnings(d, n)[k],
                d,
                d.edges[chosen[k]],
            ),
    decreases n,
{
    if n > 0 {
        let before = warnings_in_turn(d, n - 1);
        if let Some(id) = d.edges[n - 1].job {
            location_is_of_first(d.jobs, id, 0);
        }
        assert(is_bare(d)(n - 1) <==> d.edges[n - 1].column_lineage.len() == 0 && !dataset_level(
            d.edges[n - 1],
        ));
        one_more(before, n, is_bare(d))
    } else {
        Seq::empty()
    }
}

/// Each edge without mappings is warned of, at the place of its job, unless it
/// is meant for datasets alone; no other edge is.
pub proof fn each_bare_edge_is_warned_of(d: DocumentView)
    ensures
        exists|chosen: Seq<int>|
            {
                &&& #[trigger] lists_those(chosen, d.edges.len() as int, is_bare(d))
                &&& column_warnings(d, d.edges.len() as int).len() == chosen.len()
                &&& forall|k: int|
                    0 <= k < chosen.len() ==> warns_of(
                        #[trigger] column_warnings(d, d.edges.len() as int)[k],
                        d,
                        d.edges[chosen[k]],
                    )
            },
{
    let chosen = warnings_in_turn(d, d.edges.len() as int);
}

} // verus!

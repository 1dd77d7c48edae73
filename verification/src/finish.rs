//! The pass over a whole document once every file was scanned: schemas are
//! completed from the columns that edges name, same-name gaps are filled, and
//! edges without columns are reported.

use vstd::prelude::*;

use crate::infer::{identity_fill, identity_fill_only_fills, infer_identity_gap_fill};
use crate::model::{
    add_field, dataset_index, finding, plain_field, schema_add, ColumnEdge, ColumnEdgeView,
    ColumnRef, ColumnRefView, Dataset, DatasetView, DiagLevel, Diagnostic, DiagnosticView,
    DocumentView, Edge, EdgeView, Field, FieldView, Job, JobView, SourceLoc, SourceLocView,
    WeaveDocument,
};
use crate::text::{
    contains_str, contains_text, group_views, last_piece, last_piece_of, opt_view, replicate_opt,
    str_eq, views,
};
use crate::validate::same_contents;

verus! {

// ──────────────────────────── observed columns ────────────────────────

/// The schema of a dataset after a column was named on an edge.
pub open spec fn with_column(schema: Seq<FieldView>, name: Seq<char>, c: ColumnRefView) -> Seq<
    FieldView,
> {
    if c.dataset == name {
        add_field(schema, plain_field(c.column))
    } else {
        schema
    }
}

/// The schema after the first `n` sources of a mapping.
pub open spec fn with_sources(
    schema: Seq<FieldView>,
    name: Seq<char>,
    c: ColumnEdgeView,
    n: int,
) -> Seq<FieldView>
    decreases n,
{
    if n <= 0 {
        schema
    } else {
        with_column(with_sources(schema, name, c, n - 1), name, c.from_columns[n - 1])
    }
}

/// The schema after the first `n` mappings of an edge.
pub open spec fn with_mappings(schema: Seq<FieldView>, name: Seq<char>, e: EdgeView, n: int) -> Seq<
    FieldView,
>
    decreases n,
{
    if n <= 0 {
        schema
    } else {
        let c = e.column_lineage[n - 1];
        with_sources(
            with_column(with_mappings(schema, name, e, n - 1), name, c.to_column),
            name,
            c,
            c.from_columns.len() as int,
        )
    }
}

/// The schema after the first `n` edges. Edges of column discovery do not
/// count: their frame names are not unique.
pub open spec fn with_edges(
    schema: Seq<FieldView>,
    name: Seq<char>,
    es: Seq<EdgeView>,
    n: int,
) -> Seq<FieldView>
    decreases n,
{
    if n <= 0 {
        schema
    } else {
        let s = with_edges(schema, name, es, n - 1);
        let e = es[n - 1];
        if e.column_discovery {
            s
        } else {
            with_mappings(s, name, e, e.column_lineage.len() as int)
        }
    }
}

/// A dataset with its schema completed.
pub open spec fn completed(d: DatasetView, es: Seq<EdgeView>) -> DatasetView {
    DatasetView { schema: with_edges(d.schema, d.name, es, es.len() as int), ..d }
}

/// The datasets with their schemas completed; of those that share a name the
/// first.
pub open spec fn backfilled(ds: Seq<DatasetView>, es: Seq<EdgeView>) -> Seq<DatasetView> {
    Seq::new(
        ds.len(),
        |i: int|
            if dataset_index(ds, ds[i].name, 0) == i {
                completed(ds[i], es)
            } else {
                ds[i]
            },
    )
}

fn note_column(schema: &mut Vec<Field>, name: &str, c: &ColumnRef)
    ensures
        views(final(schema)@) == with_column(views(old(schema)@), name@, c@),
{
    if str_eq(c.dataset.as_str(), name) {
        schema_add(schema, Field::new(c.column.as_str()));
    }
}

fn note_mapping(schema: &mut Vec<Field>, name: &str, c: &ColumnEdge)
    ensures
        views(final(schema)@) == with_sources(
            with_column(views(old(schema)@), name@, c@.to_column),
            name@,
            c@,
            c@.from_columns.len() as int,
        ),
{
    note_column(schema, name, &c.to_column);
    let ghost start = views(schema@);
    let mut i: usize = 0;
    while i < c.from_columns.len()
        invariant
            i <= c.from_columns@.len(),
            views(schema@) == with_sources(start, name@, c@, i as int),
        decreases c.from_columns@.len() - i,
    {
        assert(c@.from_columns[i as int] == c.from_columns@[i as int]@);
        note_column(schema, name, &c.from_columns[i]);
        i = i + 1;
    }
}

fn note_edge(schema: &mut Vec<Field>, name: &str, e: &Edge)
    ensures
        views(final(schema)@) == with_mappings(
            views(old(schema)@),
            name@,
            e@,
            e@.column_lineage.len() as int,
        ),
{
    let ghost start = views(schema@);
    let mut i: usize = 0;
    while i < e.column_lineage.len()
        invariant
            i <= e.column_lineage@.len(),
            views(schema@) == with_mappings(start, name@, e@, i as int),
        decreases e.column_lineage@.len() - i,
    {
        assert(e@.column_lineage[i as int] == e.column_lineage@[i as int]@);
        note_mapping(schema, name, &e.column_lineage[i]);
        i = i + 1;
    }
}

fn complete_schema(ds: &mut Dataset, es: &Vec<Edge>)
    ensures
        final(ds)@ == completed(old(ds)@, views(es@)),
{
    let ghost before = ds@;
    let ghost ev = views(es@);
    let name = ds.name.clone();
    let mut i: usize = 0;
    while i < es.len()
        invariant
            i <= es@.len(),
            ev == views(es@),
            name@ == before.name,
            ds@ == (DatasetView {
                schema: with_edges(before.schema, before.name, ev, i as int),
                ..before
            }),
        decreases es@.len() - i,
    {
        assert(ev[i as int] == es@[i as int]@);
        if !es[i].column_discovery {
            note_edge(&mut ds.schema, name.as_str(), &es[i]);
        }
        i = i + 1;
    }
}

/// Completing the schema of the dataset at `i` changes no name.
proof fn index_after_update(ds: Seq<DatasetView>, i: int, d: DatasetView, name: Seq<char>, k: int)
    requires
        0 <= i < ds.len(),
        d.name == ds[i].name,
        0 <= k,
    ensures
        dataset_index(ds.update(i, d), name, k) == dataset_index(ds, name, k),
    decreases ds.len() - k,
{
    if k < ds.len() {
        index_after_update(ds, i, d, name, k + 1);
    }
}

fn backfill_schemas(doc: &mut WeaveDocument)
    ensures
        final(doc)@ == (DocumentView {
            datasets: backfilled(old(doc)@.datasets, old(doc)@.edges),
            ..old(doc)@
        }),
{
    let ghost before = doc@;
    let ghost ds = doc@.datasets;
    let n: usize = doc.datasets.len();
    let mut i: usize = 0;
    while i < n
        invariant
            i <= n,
            n == ds.len(),
            ds == before.datasets,
            doc@.datasets.len() == n,
            doc@ == (DocumentView { datasets: doc@.datasets, ..before }),
            forall|k: int| 0 <= k < i ==> #[trigger] doc@.datasets[k] == backfilled(ds, before.edges)[k],
            forall|k: int| i <= k < n ==> #[trigger] doc@.datasets[k] == ds[k],
            forall|name: Seq<char>| #[trigger]
                dataset_index(doc@.datasets, name, 0) == dataset_index(ds, name, 0),
        decreases n - i,
    {
        let ghost now = doc@.datasets;
        assert(now[i as int] == ds[i as int]);
        let name = doc.datasets[i].name.clone();
        let first: usize = doc.find_dataset(name.as_str());
        assert(first == dataset_index(ds, ds[i as int].name, 0));
        if first == i {
            complete_schema(&mut doc.datasets[i], &doc.edges);
            assert(doc@.datasets =~= now.update(i as int, completed(ds[i as int], before.edges)));
            proof {
                assert forall|name: Seq<char>| #[trigger]
                    dataset_index(doc@.datasets, name, 0) == dataset_index(ds, name, 0) by {
                    index_after_update(
                        now,
                        i as int,
                        completed(ds[i as int], before.edges),
                        name,
                        0,
                    );
                }
            }
        }
        i = i + 1;
    }
    assert(doc@.datasets =~= backfilled(ds, before.edges));
}

// ───────────────────────────── same-name gaps ─────────────────────────

/// The last of the first `n` datasets that has the name.
pub open spec fn last_named(ds: Seq<DatasetView>, name: Seq<char>, n: int) -> Option<DatasetView>
    decreases n,
{
    if n <= 0 {
        None
    } else if ds[n - 1].name == name {
        Some(ds[n - 1])
    } else {
        last_named(ds, name, n - 1)
    }
}

/// The target columns of mappings.
pub open spec fn mapped_columns(ces: Seq<ColumnEdgeView>) -> Seq<Seq<char>> {
    Seq::new(ces.len(), |i: int| ces[i].to_column.column)
}

/// An edge with its same-name gaps filled. One of column discovery stays as
/// it is.
pub open spec fn gaps_filled(e: EdgeView, ds: Seq<DatasetView>) -> EdgeView {
    let src = last_named(ds, e.from, ds.len() as int);
    let tgt = last_named(ds, e.to, ds.len() as int);
    if e.column_discovery || src is None || tgt is None {
        e
    } else {
        EdgeView {
            column_lineage: e.column_lineage + identity_fill(
                seq![src->0],
                tgt->0,
                mapped_columns(e.column_lineage),
                tgt->0.schema.len() as int,
            ),
            ..e
        }
    }
}

pub open spec fn all_gaps_filled(es: Seq<EdgeView>, ds: Seq<DatasetView>) -> Seq<EdgeView> {
    Seq::new(es.len(), |i: int| gaps_filled(es[i], ds))
}

fn dataset_named<'a>(ds: &'a Vec<Dataset>, name: &str) -> (r: Option<&'a Dataset>)
    ensures
        opt_view(r) == last_named(views(ds@), name@, ds@.len() as int),
{
    let ghost dv = views(ds@);
    let mut i: usize = ds.len();
    while i > 0
        invariant
            i <= ds@.len(),
            dv == views(ds@),
            last_named(dv, name@, dv.len() as int) == last_named(dv, name@, i as int),
        decreases i,
    {
        assert(dv[i - 1] == ds@[i - 1]@);
        if str_eq(ds[i - 1].name.as_str(), name) {
            return Some(&ds[i - 1]);
        }
        i = i - 1;
    }
    None
}

fn fill_gaps(e: &mut Edge, ds: &Vec<Dataset>)
    ensures
        final(e)@ == gaps_filled(old(e)@, views(ds@)),
{
    broadcast use group_views;

    if e.column_discovery {
        return;
    }
    let mut already: Vec<String> = Vec::new();
    let mut i: usize = 0;
    while i < e.column_lineage.len()
        invariant
            i <= e.column_lineage@.len(),
            already@.len() == i,
            forall|k: int|
                0 <= k < i ==> (#[trigger] already@[k])@ == e@.column_lineage[k].to_column.column,
        decreases e.column_lineage@.len() - i,
    {
        assert(e@.column_lineage[i as int] == e.column_lineage@[i as int]@);
        already.push(e.column_lineage[i].to_column.column.clone());
        i = i + 1;
    }
    assert(views(already@) =~= mapped_columns(e@.column_lineage));
    if let (Some(src), Some(tgt)) = (
        dataset_named(ds, e.from.as_str()),
        dataset_named(ds, e.to.as_str()),
    ) {
        let sources = [src];
        assert(views(sources@) =~= seq![src@]);
        let mut more = infer_identity_gap_fill(&sources, tgt, already.as_slice());
        e.column_lineage.append(&mut more);
    }
}

fn code_inference_pass(doc: &mut WeaveDocument)
    ensures
        final(doc)@ == (DocumentView {
            edges: all_gaps_filled(old(doc)@.edges, old(doc)@.datasets),
            ..old(doc)@
        }),
{
    let ghost before = doc@;
    let n: usize = doc.edges.len();
    let mut i: usize = 0;
    while i < n
        invariant
            i <= n,
            n == before.edges.len(),
            doc@.edges.len() == n,
            doc@ == (DocumentView { edges: doc@.edges, ..before }),
            forall|k: int|
                0 <= k < i ==> #[trigger] doc@.edges[k] == gaps_filled(
                    before.edges[k],
                    before.datasets,
                ),
            forall|k: int| i <= k < n ==> #[trigger] doc@.edges[k] == before.edges[k],
        decreases n - i,
    {
        let ghost now = doc@.edges;
        assert(now[i as int] == before.edges[i as int]);
        fill_gaps(&mut doc.edges[i], &doc.datasets);
        assert(doc@.edges =~= now.update(
            i as int,
            gaps_filled(before.edges[i as int], before.datasets),
        ));
        i = i + 1;
    }
    assert(doc@.edges =~= all_gaps_filled(before.edges, before.datasets));
}

// ─────────────────────────── edges without columns ────────────────────

/// The location of the first job from `k` on that has the id.
pub open spec fn job_location(jobs: Seq<JobView>, id: Seq<char>, k: int) -> Option<SourceLocView>
    decreases jobs.len() - k,
{
    if k >= jobs.len() {
        None
    } else if jobs[k].id == id {
        jobs[k].location
    } else {
        job_location(jobs, id, k + 1)
    }
}

/// True when the edge is dataset-level lineage by design.
pub open spec fn dataset_level(e: EdgeView) -> bool {
    match e.origin.note {
        Some(n) => contains_text(n, "@lineage"@),
        None => false,
    }
}

/// The warning about an edge that carries no column.
pub open spec fn no_columns(d: DocumentView, e: EdgeView) -> DiagnosticView {
    DiagnosticView {
        location: match e.job {
            Some(id) => job_location(d.jobs, id, 0),
            None => None,
        },
        ..finding(
            DiagLevel::Warn,
            "W_NO_COLUMN_LINEAGE"@,
            "edge "@ + last_piece(e.from, '.') + " -> "@ + last_piece(e.to, '.')
                + " has no column-level lineage; declare a column_map (only SQL transforms are auto-extracted)"@,
        )
    }
}

/// The warnings about the first `n` edges.
pub open spec fn column_warnings(d: DocumentView, n: int) -> Seq<DiagnosticView>
    decreases n,
{
    if n <= 0 {
        Seq::empty()
    } else {
        let s = column_warnings(d, n - 1);
        let e = d.edges[n - 1];
        if e.column_lineage.len() == 0 && !dataset_level(e) {
            s.push(no_columns(d, e))
        } else {
            s
        }
    }
}

fn location_of(jobs: &Vec<Job>, id: &str) -> (r: Option<SourceLoc>)
    ensures
        opt_view(r) == job_location(views(jobs@), id@, 0),
{
    let ghost jv = views(jobs@);
    let mut i: usize = 0;
    while i < jobs.len()
        invariant
            i <= jobs@.len(),
            jv == views(jobs@),
            job_location(jv, id@, 0) == job_location(jv, id@, i as int),
        decreases jobs@.len() - i,
    {
        assert(jv[i as int] == jobs@[i as int]@);
        if str_eq(jobs[i].id.as_str(), id) {
            return replicate_opt(&jobs[i].location);
        }
        i = i + 1;
    }
    None
}

fn warn_no_columns(doc: &WeaveDocument, e: &Edge) -> (r: Diagnostic)
    ensures
        r@ == no_columns(doc@, e@),
{
    let from = last_piece_of(e.from.as_str(), '.');
    let to = last_piece_of(e.to.as_str(), '.');
    let mut m = "edge ".to_owned();
    m.append(from.as_str());
    m.append(" -> ");
    m.append(to.as_str());
    m.append(
        " has no column-level lineage; declare a column_map (only SQL transforms are auto-extracted)",
    );
    let mut d = Diagnostic::warn("W_NO_COLUMN_LINEAGE", m.as_str());
    d.location = match &e.job {
        Some(id) => location_of(&doc.jobs, id.as_str()),
        None => None,
    };
    d
}

fn warn_columns(doc: &WeaveDocument) -> (r: Vec<Diagnostic>)
    ensures
        views(r@) == column_warnings(doc@, doc@.edges.len() as int),
{
    broadcast use group_views;

    let mut out: Vec<Diagnostic> = Vec::new();
    let mut i: usize = 0;
    while i < doc.edges.len()
        invariant
            i <= doc.edges@.len(),
            views(out@) == column_warnings(doc@, i as int),
        decreases doc.edges@.len() - i,
    {
        broadcast use group_views;

        let e = &doc.edges[i];
        assert(doc@.edges[i as int] == e@);
        let by_design = match &e.origin.note {
            Some(n) => contains_str(n.as_str(), "@lineage"),
            None => false,
        };
        if e.column_lineage.len() == 0 && !by_design {
            out.push(warn_no_columns(doc, e));
        }
        i = i + 1;
    }
    out
}

// ──────────────────────────────── the pass ────────────────────────────

/// A document after the pass.
pub open spec fn finished_document(d: DocumentView, code: bool) -> DocumentView {
    let a = DocumentView { datasets: backfilled(d.datasets, d.edges), ..d };
    let b = if code {
        DocumentView { edges: all_gaps_filled(a.edges, a.datasets), ..a }
    } else {
        a
    };
    DocumentView {
        diagnostics: b.diagnostics + column_warnings(b, b.edges.len() as int),
        ..b
    }
}

/// Completes a document whose files were all scanned.
pub fn finalize(doc: &mut WeaveDocument, code_inference: bool)
    ensures
        final(doc)@ == finished_document(old(doc)@, code_inference),
{
    broadcast use group_views;

    backfill_schemas(doc);
    if code_inference {
        code_inference_pass(doc);
    }
    let mut warnings = warn_columns(doc);
    doc.diagnostics.append(&mut warnings);
}

// ──────────────────────────────── laws ────────────────────────────────

/// The warnings about columns do not depend on what a document reports.
pub proof fn warnings_rest_on_contents(a: DocumentView, b: DocumentView, n: int)
    requires
        same_contents(a, b),
    ensures
        column_warnings(a, n) == column_warnings(b, n),
    decreases n,
{
    if n > 0 {
        warnings_rest_on_contents(a, b, n - 1);
    }
}

/// True when `b` is the edge `a` with inferred mappings added behind those it
/// has, for columns that it did not map.
pub open spec fn only_adds_inferred(a: EdgeView, b: EdgeView) -> bool {
    let n = a.column_lineage.len();
    &&& b == EdgeView { column_lineage: b.column_lineage, ..a }
    &&& n <= b.column_lineage.len()
    &&& b.column_lineage.subrange(0, n as int) == a.column_lineage
    &&& forall|i: int|
        n <= i < b.column_lineage.len() ==> (#[trigger] b.column_lineage[i]).origin.inferred()
            && !mapped_columns(a.column_lineage).contains(b.column_lineage[i].to_column.column)
}

/// The pass over a document keeps every edge and every mapping, and adds only
/// inferred mappings, for columns that had none.
pub proof fn finishing_keeps_edges(d: DocumentView, code: bool, k: int)
    requires
        0 <= k < d.edges.len(),
    ensures
        finished_document(d, code).edges.len() == d.edges.len(),
        only_adds_inferred(d.edges[k], finished_document(d, code).edges[k]),
{
    let a = d.edges[k];
    let ds = backfilled(d.datasets, d.edges);
    let b = gaps_filled(a, ds);
    assert(a.column_lineage.subrange(0, a.column_lineage.len() as int) =~= a.column_lineage);
    let src = last_named(ds, a.from, ds.len() as int);
    let tgt = last_named(ds, a.to, ds.len() as int);
    if !(a.column_discovery || src is None || tgt is None) {
        let n = tgt->0.schema.len() as int;
        let mapped = mapped_columns(a.column_lineage);
        let more = identity_fill(seq![src->0], tgt->0, mapped, n);
        assert(b.column_lineage.subrange(0, a.column_lineage.len() as int) =~= a.column_lineage);
        assert forall|i: int| a.column_lineage.len() <= i < b.column_lineage.len() implies (
        #[trigger] b.column_lineage[i]).origin.inferred() && !mapped.contains(
            b.column_lineage[i].to_column.column,
        ) by {
            identity_fill_only_fills(
                seq![src->0],
                tgt->0,
                mapped,
                n,
                i - a.column_lineage.len(),
            );
        }
    }
}

/// Edges of column discovery are left alone by the pass, and contribute to no
/// schema: only the other edges decide how a schema is completed.
pub proof fn discovery_edges_are_inert(
    schema: Seq<FieldView>,
    name: Seq<char>,
    a: Seq<EdgeView>,
    b: Seq<EdgeView>,
    n: int,
)
    requires
        n <= a.len(),
        n <= b.len(),
        forall|i: int|
            0 <= i < n ==> #[trigger] a[i] == #[trigger] b[i] || (a[i].column_discovery
                && b[i].column_discovery),
    ensures
        with_edges(schema, name, a, n) == with_edges(schema, name, b, n),
        forall|ds: Seq<DatasetView>, i: int|
            0 <= i < n && a[i].column_discovery ==> #[trigger] gaps_filled(a[i], ds) == a[i],
    decreases n,
{
    if n > 0 {
        discovery_edges_are_inert(schema, name, a, b, n - 1);
        assert(a[n - 1] == b[n - 1] || (a[n - 1].column_discovery && b[n - 1].column_discovery));
    }
}

} // verus!

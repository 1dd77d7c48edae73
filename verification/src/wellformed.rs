//! What every scan keeps: dataset names stay unique, nothing refers to a
//! dataset that the document does not have, and mappings belong to their edges.

use vstd::prelude::*;

use crate::columns::{code_filled, declared_mappings, output_mappings, sql_applies, sql_filled};
use crate::decls::{ModuleConfigView, TaskDeclView};
use crate::finish::{backfilled, finished_document, last_named, mapped_columns};
use crate::graph::{add_inputs, add_outputs, derived_edges, with_job_edges};
use crate::infer::{identity_fill, identity_mapping, source_with_field};
use crate::model::{
    dataset_index, dataset_index_bounds, has_dataset, upserted, ColumnEdgeView, DatasetView,
    DocumentView, EdgeView, JobView,
};
use crate::origin::OriginView;
use crate::python::scanned_source;
use crate::scan::{
    all_attributed, caller_wiring, collected, constants_upto, discovery_edge, discovery_edges,
    discovery_edges_into, discovery_wiring, goes_to, repository, started, with_attributed,
    with_decls, with_discovery, with_file, with_files, with_frames, ConstMap, SourceFileView,
    UnreadFileView,
};
use crate::tasks::{
    attached, dataset_named, edges_into, endpoint_origin, loop_left_out, reads_from, task_edge,
    task_edges, task_query, wiring, with_datasets, with_endpoints, with_task, ScanOptionsView,
    WiringView,
};
use crate::validate::{
    any_error, ends_known, errors_are_duplicates_or_dangling_edges, findings, names_unique,
};

verus! {

/// True when the document has every dataset that the job names.
pub open spec fn job_known(d: DocumentView, j: JobView) -> bool {
    &&& forall|i: int|
        0 <= i < j.inputs.len() ==> has_dataset(d.datasets, #[trigger] j.inputs[i])
    &&& forall|i: int|
        0 <= i < j.outputs.len() ==> has_dataset(d.datasets, #[trigger] j.outputs[i])
}

/// True when dataset names are unique and all edges and jobs refer to datasets
/// of the document.
pub open spec fn well_formed(d: DocumentView) -> bool {
    &&& names_unique(d.datasets)
    &&& forall|i: int| 0 <= i < d.edges.len() ==> ends_known(d, #[trigger] d.edges[i])
    &&& forall|i: int| 0 <= i < d.jobs.len() ==> job_known(d, #[trigger] d.jobs[i])
}

// ──────────────────────────────── datasets ────────────────────────────

proof fn has_dataset_at(ds: Seq<DatasetView>, name: Seq<char>)
    ensures
        has_dataset(ds, name) == exists|i: int| 0 <= i < ds.len() && (#[trigger] ds[i]).name == name,
{
    dataset_index_bounds(ds, name, 0);
    if has_dataset(ds, name) {
        assert(ds[dataset_index(ds, name, 0)].name == name);
    }
}

/// Merging a dataset into a document, or adding it, keeps the names of the
/// document unique, keeps every dataset, and leaves one with its name.
pub proof fn upsert_keeps_names(ds: Seq<DatasetView>, d: DatasetView)
    ensures
        names_unique(ds) ==> names_unique(upserted(ds, d)),
        has_dataset(upserted(ds, d), d.name),
        forall|n: Seq<char>| #[trigger] has_dataset(ds, n) ==> has_dataset(upserted(ds, d), n),
        has_dataset(ds, d.name) ==> upserted(ds, d).len() == ds.len(),
{
    let r = upserted(ds, d);
    let k = dataset_index(ds, d.name, 0);
    dataset_index_bounds(ds, d.name, 0);
    has_dataset_at(r, d.name);
    if k < ds.len() {
        assert(r[k].name == d.name);
    } else {
        assert(r[ds.len() as int].name == d.name);
    }
    assert forall|i: int| 0 <= i < ds.len() implies (#[trigger] r[i]).name == ds[i].name by {}
    assert forall|n: Seq<char>| #[trigger] has_dataset(ds, n) implies has_dataset(r, n) by {
        has_dataset_at(ds, n);
        has_dataset_at(r, n);
        let i = choose|i: int| 0 <= i < ds.len() && (#[trigger] ds[i]).name == n;
        assert(r[i].name == n);
    }
    if names_unique(ds) {
        assert forall|i: int, j: int| 0 <= i < j < r.len() implies (#[trigger] r[i]).name != (
        #[trigger] r[j]).name by {
            if j < ds.len() {
                assert(ds[i].name != ds[j].name);
            } else {
                assert(ds[i].name != d.name);
            }
        }
    }
}

/// What adding datasets keeps.
spec fn grows(a: Seq<DatasetView>, b: Seq<DatasetView>) -> bool {
    &&& names_unique(a) ==> names_unique(b)
    &&& forall|n: Seq<char>| #[trigger] has_dataset(a, n) ==> has_dataset(b, n)
}

proof fn datasets_added(ds: Seq<DatasetView>, w: WiringView, names: Seq<Seq<char>>, n: int)
    requires
        n <= names.len(),
    ensures
        grows(ds, with_datasets(ds, w, names, n)),
        forall|i: int|
            0 <= i < n ==> has_dataset(with_datasets(ds, w, names, n), #[trigger] names[i]),
    decreases n,
{
    if n > 0 {
        datasets_added(ds, w, names, n - 1);
        upsert_keeps_names(
            with_datasets(ds, w, names, n - 1),
            dataset_named(names[n - 1], endpoint_origin(w, names[n - 1])),
        );
    }
}

proof fn endpoints_added(ds: Seq<DatasetView>, w: WiringView)
    ensures
        grows(ds, with_endpoints(ds, w)),
        forall|i: int|
            0 <= i < w.inputs.len() ==> has_dataset(with_endpoints(ds, w), #[trigger] w.inputs[i]),
        forall|i: int|
            0 <= i < w.outputs.len() ==> has_dataset(
                with_endpoints(ds, w),
                #[trigger] w.outputs[i],
            ),
{
    datasets_added(ds, w, w.inputs, w.inputs.len() as int);
    let a = with_datasets(ds, w, w.inputs, w.inputs.len() as int);
    datasets_added(a, w, w.outputs, w.outputs.len() as int);
    assert forall|i: int| 0 <= i < w.inputs.len() implies has_dataset(
        with_endpoints(ds, w),
        #[trigger] w.inputs[i],
    ) by {
        assert(has_dataset(a, w.inputs[i]));
    }
}

/// A well-formed document stays so when its datasets grow.
proof fn stays_well_formed(d: DocumentView, ds: Seq<DatasetView>)
    requires
        well_formed(d),
        grows(d.datasets, ds),
    ensures
        well_formed(DocumentView { datasets: ds, ..d }),
{
    let r = DocumentView { datasets: ds, ..d };
    assert forall|i: int| 0 <= i < r.edges.len() implies ends_known(r, #[trigger] r.edges[i]) by {
        assert(ends_known(d, d.edges[i]));
    }
    assert forall|i: int| 0 <= i < r.jobs.len() implies job_known(r, #[trigger] r.jobs[i]) by {
        assert(job_known(d, d.jobs[i]));
    }
}

// ───────────────────────────────── tasks ──────────────────────────────

/// True when an edge leads from one of the names to one of the others.
spec fn within(e: EdgeView, from: Seq<Seq<char>>, to: Seq<Seq<char>>) -> bool {
    from.contains(e.from) && to.contains(e.to)
}

proof fn edges_into_within(
    d: TaskDeclView,
    w: WiringView,
    output: Seq<char>,
    ces: Seq<ColumnEdgeView>,
    n: int,
)
    requires
        n <= w.inputs.len(),
        w.outputs.contains(output),
    ensures
        forall|i: int|
            0 <= i < edges_into(d, w, output, ces, n).len() ==> within(
                #[trigger] edges_into(d, w, output, ces, n)[i],
                w.inputs,
                w.outputs,
            ),
    decreases n,
{
    if n > 0 {
        edges_into_within(d, w, output, ces, n - 1);
        assert(w.inputs.contains(w.inputs[n - 1]));
        let s = edges_into(d, w, output, ces, n - 1);
        let r = edges_into(d, w, output, ces, n);
        assert forall|i: int| 0 <= i < r.len() implies within(
            #[trigger] r[i],
            w.inputs,
            w.outputs,
        ) by {
            if i < s.len() {
                assert(r[i] == s[i]);
            }
        }
    }
}

proof fn task_edges_within(
    d: TaskDeclView,
    w: WiringView,
    sql: Option<crate::sql::SqlColumnLineageView>,
    code: bool,
    n: int,
)
    requires
        n <= w.outputs.len(),
    ensures
        forall|i: int|
            0 <= i < task_edges(d, w, sql, code, n).len() ==> within(
                #[trigger] task_edges(d, w, sql, code, n)[i],
                w.inputs,
                w.outputs,
            ),
    decreases n,
{
    if n > 0 {
        task_edges_within(d, w, sql, code, n - 1);
        let output = w.outputs[n - 1];
        assert(w.outputs.contains(output));
        let ces = output_mappings(d, output, w.inputs, sql, code, w.outputs.len() == 1);
        edges_into_within(d, w, output, ces, w.inputs.len() as int);
        let s = task_edges(d, w, sql, code, n - 1);
        let more = edges_into(d, w, output, ces, w.inputs.len() as int);
        let r = task_edges(d, w, sql, code, n);
        assert(r =~= s + more);
        assert forall|i: int| 0 <= i < r.len() implies within(
            #[trigger] r[i],
            w.inputs,
            w.outputs,
        ) by {
            if i < s.len() {
                assert(r[i] == s[i]);
            } else {
                assert(r[i] == more[i - s.len()]);
            }
        }
    }
}

proof fn edges_added(d: DocumentView, more: Seq<EdgeView>, from: Seq<Seq<char>>, to: Seq<Seq<char>>)
    requires
        well_formed(d),
        forall|i: int| 0 <= i < more.len() ==> within(#[trigger] more[i], from, to),
        forall|i: int| 0 <= i < from.len() ==> has_dataset(d.datasets, #[trigger] from[i]),
        forall|i: int| 0 <= i < to.len() ==> has_dataset(d.datasets, #[trigger] to[i]),
    ensures
        well_formed(DocumentView { edges: d.edges + more, ..d }),
{
    let r = DocumentView { edges: d.edges + more, ..d };
    assert forall|i: int| 0 <= i < r.edges.len() implies ends_known(r, #[trigger] r.edges[i]) by {
        if i < d.edges.len() {
            assert(ends_known(d, d.edges[i]));
        } else {
            let e = more[i - d.edges.len()];
            assert(r.edges[i] == e);
            assert(within(e, from, to));
            let a = choose|a: int| 0 <= a < from.len() && from[a] == e.from;
            let b = choose|b: int| 0 <= b < to.len() && to[b] == e.to;
            assert(has_dataset(d.datasets, from[a]));
            assert(has_dataset(d.datasets, to[b]));
        }
    }
    assert forall|i: int| 0 <= i < r.jobs.len() implies job_known(r, #[trigger] r.jobs[i]) by {
        assert(job_known(d, d.jobs[i]));
    }
}

/// A task keeps a document well-formed.
pub proof fn task_keeps_well_formed(
    path: Seq<char>,
    d: TaskDeclView,
    c: ModuleConfigView,
    o: ScanOptionsView,
    doc: DocumentView,
)
    requires
        well_formed(doc),
    ensures
        well_formed(with_task(path, d, c, o, doc)),
{
    let w = wiring(path, d, c);
    let q = task_query(d, w, o.enable_sql_inference);
    let more = task_edges(d, w, q, o.enable_code_inference, w.outputs.len() as int);
    endpoints_added(doc.datasets, w);
    let a = DocumentView { datasets: with_endpoints(doc.datasets, w), ..doc };
    stays_well_formed(doc, a.datasets);
    task_edges_within(d, w, q, o.enable_code_inference, w.outputs.len() as int);
    edges_added(a, more, w.inputs, w.outputs);
    let b = DocumentView { edges: a.edges + more, ..a };
    let r = with_task(path, d, c, o, doc);
    assert forall|i: int| 0 <= i < r.edges.len() implies ends_known(r, #[trigger] r.edges[i]) by {
        assert(ends_known(b, b.edges[i]));
    }
    assert forall|i: int| 0 <= i < r.jobs.len() implies job_known(r, #[trigger] r.jobs[i]) by {
        if i < b.jobs.len() {
            assert(job_known(b, b.jobs[i]));
        }
    }
}

// ──────────────────────────── column discovery ────────────────────────

proof fn discovery_into_within(
    d: TaskDeclView,
    w: WiringView,
    job: Option<Seq<char>>,
    output: Seq<char>,
    ces: Seq<ColumnEdgeView>,
    n: int,
)
    requires
        n <= w.inputs.len(),
        w.outputs.contains(output),
    ensures
        forall|i: int|
            0 <= i < discovery_edges_into(d, w, job, output, ces, n).len() ==> within(
                #[trigger] discovery_edges_into(d, w, job, output, ces, n)[i],
                w.inputs,
                w.outputs,
            ) && discovery_edges_into(d, w, job, output, ces, n)[i].column_discovery
                && discovery_edges_into(d, w, job, output, ces, n)[i].column_lineage.len() > 0
                && discovery_edges_into(d, w, job, output, ces, n)[i].origin == w.origin,
    decreases n,
{
    if n > 0 {
        discovery_into_within(d, w, job, output, ces, n - 1);
        assert(w.inputs.contains(w.inputs[n - 1]));
    }
}

proof fn discovery_within(d: TaskDeclView, w: WiringView, job: Option<Seq<char>>, n: int)
    requires
        n <= w.outputs.len(),
    ensures
        forall|i: int|
            0 <= i < discovery_edges(d, w, job, n).len() ==> within(
                #[trigger] discovery_edges(d, w, job, n)[i],
                w.inputs,
                w.outputs,
            ) && discovery_edges(d, w, job, n)[i].column_discovery && discovery_edges(
                d,
                w,
                job,
                n,
            )[i].column_lineage.len() > 0 && discovery_edges(d, w, job, n)[i].origin == w.origin,
    decreases n,
{
    if n > 0 {
        discovery_within(d, w, job, n - 1);
        let output = w.outputs[n - 1];
        assert(w.outputs.contains(output));
        discovery_into_within(
            d,
            w,
            job,
            output,
            output_mappings(d, output, w.inputs, None, true, w.outputs.len() == 1),
            w.inputs.len() as int,
        );
    }
}

/// True when the edges are the same but for the mappings that they carry.
pub open spec fn same_frame(a: Seq<EdgeView>, b: Seq<EdgeView>) -> bool {
    a.len() == b.len() && forall|i: int|
        0 <= i < a.len() ==> #[trigger] b[i] == (EdgeView {
            column_lineage: b[i].column_lineage,
            ..a[i]
        })
}

proof fn attribution_keeps_frame(
    es: Seq<EdgeView>,
    job: Seq<char>,
    ces: Seq<ColumnEdgeView>,
    n: int,
)
    ensures
        same_frame(es, all_attributed(es, job, ces, n)),
    decreases n,
{
    if n > 0 {
        attribution_keeps_frame(es, job, ces, n - 1);
        let s = all_attributed(es, job, ces, n - 1);
        let r = with_attributed(s, job, ces[n - 1]);
        assert forall|i: int| 0 <= i < es.len() implies #[trigger] r[i] == (EdgeView {
            column_lineage: r[i].column_lineage,
            ..es[i]
        }) by {
            assert(s[i] == (EdgeView { column_lineage: s[i].column_lineage, ..es[i] }));
        }
    }
}

proof fn reframed(d: DocumentView, es: Seq<EdgeView>)
    requires
        well_formed(d),
        same_frame(d.edges, es),
    ensures
        well_formed(DocumentView { edges: es, ..d }),
{
    let r = DocumentView { edges: es, ..d };
    assert forall|i: int| 0 <= i < r.edges.len() implies ends_known(r, #[trigger] r.edges[i]) by {
        assert(ends_known(d, d.edges[i]));
        assert(es[i] == (EdgeView { column_lineage: es[i].column_lineage, ..d.edges[i] }));
    }
    assert forall|i: int| 0 <= i < r.jobs.len() implies job_known(r, #[trigger] r.jobs[i]) by {
        assert(job_known(d, d.jobs[i]));
    }
}

proof fn frames_keep_well_formed(
    d: TaskDeclView,
    w: WiringView,
    job: Option<Seq<char>>,
    doc: DocumentView,
)
    requires
        well_formed(doc),
    ensures
        well_formed(with_frames(d, w, job, doc)),
{
    endpoints_added(doc.datasets, w);
    let a = DocumentView { datasets: with_endpoints(doc.datasets, w), ..doc };
    stays_well_formed(doc, a.datasets);
    discovery_within(d, w, job, w.outputs.len() as int);
    edges_added(a, discovery_edges(d, w, job, w.outputs.len() as int), w.inputs, w.outputs);
}

proof fn discovery_keeps_well_formed(
    path: Seq<char>,
    d: TaskDeclView,
    tasks: Seq<TaskDeclView>,
    c: ModuleConfigView,
    o: ScanOptionsView,
    doc: DocumentView,
)
    requires
        well_formed(doc),
    ensures
        well_formed(with_discovery(path, d, tasks, c, o, doc)),
{
    let loc = crate::model::SourceLocView { file: path, line: d.line };
    let w = discovery_wiring(path, d, c);
    match caller_wiring(path, d, tasks, c) {
        Some(caller) => {
            let ces = crate::scan::attributed_mappings(d, caller, loc);
            attribution_keeps_frame(
                doc.edges,
                caller.job,
                ces,
                d.inferred_columns.len() as int,
            );
            reframed(
                doc,
                all_attributed(doc.edges, caller.job, ces, d.inferred_columns.len() as int),
            );
            frames_keep_well_formed(d, w, Some(caller.job), doc);
        },
        None => {
            frames_keep_well_formed(d, w, None, doc);
        },
    }
}

/// Column discovery adds no job and no finding. The edges that were there keep
/// everything but their mappings, and every edge that it adds is inferred, is
/// marked as column discovery, and carries a column.
pub proof fn discovery_adds_no_job(
    path: Seq<char>,
    d: TaskDeclView,
    tasks: Seq<TaskDeclView>,
    c: ModuleConfigView,
    o: ScanOptionsView,
    doc: DocumentView,
)
    ensures
        ({
            let r = with_discovery(path, d, tasks, c, o, doc);
            &&& r.jobs == doc.jobs
            &&& r.diagnostics == doc.diagnostics
            &&& doc.edges.len() <= r.edges.len()
            &&& same_frame(doc.edges, r.edges.subrange(0, doc.edges.len() as int))
            &&& forall|i: int|
                doc.edges.len() <= i < r.edges.len() ==> (#[trigger] r.edges[i]).column_discovery
                    && r.edges[i].origin.inferred() && r.edges[i].column_lineage.len() > 0
        }),
{
    let r = with_discovery(path, d, tasks, c, o, doc);
    let n = doc.edges.len() as int;
    let loc = crate::model::SourceLocView { file: path, line: d.line };
    let w = discovery_wiring(path, d, c);
    match caller_wiring(path, d, tasks, c) {
        Some(caller) => {
            attribution_keeps_frame(
                doc.edges,
                caller.job,
                crate::scan::attributed_mappings(d, caller, loc),
                d.inferred_columns.len() as int,
            );
            discovery_within(d, w, Some(caller.job), w.outputs.len() as int);
        },
        None => {
            discovery_within(d, w, None, w.outputs.len() as int);
        },
    }
    if r.edges.len() == n {
        assert(r.edges.subrange(0, n) =~= r.edges);
        if r.edges =~= doc.edges {
            assert(same_frame(doc.edges, r.edges));
        }
    } else {
        assert(r.edges.subrange(0, n) =~= doc.edges);
        assert(same_frame(doc.edges, doc.edges));
    }
}

// ─────────────────────────────── the whole ────────────────────────────

proof fn decls_keep_well_formed(
    path: Seq<char>,
    tasks: Seq<TaskDeclView>,
    c: ModuleConfigView,
    o: ScanOptionsView,
    doc: DocumentView,
    n: int,
)
    requires
        well_formed(doc),
        n <= tasks.len(),
    ensures
        well_formed(with_decls(path, tasks, c, o, doc, n)),
    decreases n,
{
    if n > 0 {
        decls_keep_well_formed(path, tasks, c, o, doc, n - 1);
        let s = with_decls(path, tasks, c, o, doc, n - 1);
        task_keeps_well_formed(path, tasks[n - 1], c, o, s);
        discovery_keeps_well_formed(path, tasks[n - 1], tasks, c, o, s);
    }
}

proof fn files_keep_well_formed(
    fs: Seq<SourceFileView>,
    table: ConstMap,
    o: ScanOptionsView,
    doc: DocumentView,
    n: int,
)
    requires
        well_formed(doc),
        n <= fs.len(),
    ensures
        well_formed(with_files(fs, table, o, doc, n)),
    decreases n,
{
    if n > 0 {
        files_keep_well_formed(fs, table, o, doc, n - 1);
        let s = with_files(fs, table, o, doc, n - 1);
        let f = fs[n - 1];
        match scanned_source(f.source, f.module, table) {
            Ok(m) => {
                decls_keep_well_formed(
                    f.path,
                    m.tasks,
                    crate::scan::defaulted(m.config, o),
                    o,
                    s,
                    m.tasks.len() as int,
                );
            },
            Err(e) => {
                let r = with_file(f, table, o, s);
                assert forall|i: int| 0 <= i < r.edges.len() implies ends_known(
                    r,
                    #[trigger] r.edges[i],
                ) by {
                    assert(ends_known(s, s.edges[i]));
                }
                assert forall|i: int| 0 <= i < r.jobs.len() implies job_known(
                    r,
                    #[trigger] r.jobs[i],
                ) by {
                    assert(job_known(s, s.jobs[i]));
                }
            },
        }
    }
}

/// True when every edge ends at datasets of the document.
spec fn all_ends_known(d: DocumentView, es: Seq<EdgeView>) -> bool {
    forall|i: int| 0 <= i < es.len() ==> ends_known(d, #[trigger] es[i])
}

proof fn outputs_ends_known(d: DocumentView, es: Seq<EdgeView>, j: JobView, from: Seq<char>, n: int)
    requires
        all_ends_known(d, es),
        job_known(d, j),
        has_dataset(d.datasets, from),
        n <= j.outputs.len(),
    ensures
        all_ends_known(d, add_outputs(es, j, from, n)),
    decreases n,
{
    if n > 0 {
        outputs_ends_known(d, es, j, from, n - 1);
        assert(has_dataset(d.datasets, j.outputs[n - 1]));
    }
}

proof fn inputs_ends_known(d: DocumentView, es: Seq<EdgeView>, j: JobView, n: int)
    requires
        all_ends_known(d, es),
        job_known(d, j),
        n <= j.inputs.len(),
    ensures
        all_ends_known(d, add_inputs(es, j, n)),
    decreases n,
{
    if n > 0 {
        inputs_ends_known(d, es, j, n - 1);
        assert(has_dataset(d.datasets, j.inputs[n - 1]));
        outputs_ends_known(
            d,
            add_inputs(es, j, n - 1),
            j,
            j.inputs[n - 1],
            j.outputs.len() as int,
        );
    }
}

proof fn jobs_ends_known(d: DocumentView, n: int)
    requires
        well_formed(d),
        n <= d.jobs.len(),
    ensures
        all_ends_known(d, derived_edges(d.edges, d.jobs, n)),
    decreases n,
{
    if n > 0 {
        jobs_ends_known(d, n - 1);
        assert(job_known(d, d.jobs[n - 1]));
        inputs_ends_known(
            d,
            derived_edges(d.edges, d.jobs, n - 1),
            d.jobs[n - 1],
            d.jobs[n - 1].inputs.len() as int,
        );
    }
}

proof fn finishing_keeps_well_formed(d: DocumentView, code: bool)
    requires
        well_formed(d),
    ensures
        well_formed(finished_document(d, code)),
{
    let r = finished_document(d, code);
    let ds = backfilled(d.datasets, d.edges);
    assert forall|i: int| 0 <= i < ds.len() implies (#[trigger] ds[i]).name == d.datasets[i].name by {}
    assert forall|i: int, j: int| 0 <= i < j < ds.len() implies (#[trigger] ds[i]).name != (
    #[trigger] ds[j]).name by {
        assert(d.datasets[i].name != d.datasets[j].name);
    }
    assert forall|n: Seq<char>| #[trigger] has_dataset(d.datasets, n) implies has_dataset(ds, n) by {
        has_dataset_at(d.datasets, n);
        has_dataset_at(ds, n);
        let i = choose|i: int| 0 <= i < d.datasets.len() && (#[trigger] d.datasets[i]).name == n;
        assert(ds[i].name == n);
    }
    assert forall|i: int| 0 <= i < r.edges.len() implies ends_known(r, #[trigger] r.edges[i]) by {
        assert(ends_known(d, d.edges[i]));
        assert(r.edges[i].from == d.edges[i].from && r.edges[i].to == d.edges[i].to);
    }
    assert forall|i: int| 0 <= i < r.jobs.len() implies job_known(r, #[trigger] r.jobs[i]) by {
        assert(job_known(d, d.jobs[i]));
    }
}

/// Whatever the sources, the document of a scan has unique dataset names, and
/// its edges and jobs refer to its own datasets; so validation finds no error
/// in it.
pub proof fn scans_are_well_formed(
    fs: Seq<SourceFileView>,
    unread: Seq<UnreadFileView>,
    o: ScanOptionsView,
)
    ensures
        well_formed(repository(fs, unread, o)),
        !any_error(findings(repository(fs, unread, o))),
{
    let n = fs.len() as int;
    let a = collected(fs, unread, o);
    files_keep_well_formed(fs, constants_upto(fs, n), o, started(unread, o), n);
    let b = DocumentView { edges: with_job_edges(a), ..a };
    jobs_ends_known(a, a.jobs.len() as int);
    assert forall|i: int| 0 <= i < b.edges.len() implies ends_known(b, #[trigger] b.edges[i]) by {
        assert(ends_known(a, b.edges[i]));
    }
    assert forall|i: int| 0 <= i < b.jobs.len() implies job_known(b, #[trigger] b.jobs[i]) by {
        assert(job_known(a, a.jobs[i]));
    }
    let c = finished_document(b, o.enable_code_inference);
    finishing_keeps_well_formed(b, o.enable_code_inference);
    let r = repository(fs, unread, o);
    assert forall|i: int| 0 <= i < r.edges.len() implies ends_known(r, #[trigger] r.edges[i]) by {
        assert(ends_known(c, c.edges[i]));
    }
    assert forall|i: int| 0 <= i < r.jobs.len() implies job_known(r, #[trigger] r.jobs[i]) by {
        assert(job_known(c, c.jobs[i]));
    }
    errors_are_duplicates_or_dangling_edges(r);
}

// ─────────────────────────────── soundness ────────────────────────────

/// True when a mapping belongs to an edge: it ends at the target, and one of
/// its sources, if it has any, lies on the source.
pub open spec fn belongs(e: EdgeView, c: ColumnEdgeView) -> bool {
    c.to_column.dataset == e.to && (c.from_columns.len() == 0 || reads_from(c, e.from))
}

/// True when an origin has a confidence exactly when it is inferred.
pub open spec fn origin_sound(o: OriginView) -> bool {
    o.inferred() <==> o.confidence is Some
}

/// True when a loop is declared, column discovery is inferred with its place
/// and carries a column, all mappings belong to the edge, and all origins are
/// sound.
pub open spec fn edge_sound(e: EdgeView) -> bool {
    &&& origin_sound(e.origin)
    &&& e.from == e.to ==> !e.origin.inferred()
    &&& e.column_discovery ==> e.origin.inferred() && e.origin.location is Some
        && e.column_lineage.len() > 0
    &&& forall|k: int|
        0 <= k < e.column_lineage.len() ==> belongs(e, #[trigger] e.column_lineage[k])
            && origin_sound(e.column_lineage[k].origin)
}

pub open spec fn edges_sound(es: Seq<EdgeView>) -> bool {
    forall|i: int| 0 <= i < es.len() ==> edge_sound(#[trigger] es[i])
}

/// True when the origins of the jobs are sound.
pub open spec fn jobs_sound(js: Seq<JobView>) -> bool {
    forall|i: int| 0 <= i < js.len() ==> origin_sound((#[trigger] js[i]).origin)
}

/// True when the origins of the datasets are sound.
pub open spec fn datasets_sound(ds: Seq<DatasetView>) -> bool {
    forall|i: int| 0 <= i < ds.len() ==> origin_sound((#[trigger] ds[i]).origin)
}

/// True when edges, jobs and datasets are sound.
pub open spec fn document_sound(d: DocumentView) -> bool {
    edges_sound(d.edges) && jobs_sound(d.jobs) && datasets_sound(d.datasets)
}

proof fn datasets_sound_after(ds: Seq<DatasetView>, w: WiringView, names: Seq<Seq<char>>, n: int)
    requires
        datasets_sound(ds),
        origin_sound(w.origin),
    ensures
        datasets_sound(with_datasets(ds, w, names, n)),
    decreases n,
{
    if n > 0 {
        datasets_sound_after(ds, w, names, n - 1);
        let s = with_datasets(ds, w, names, n - 1);
        let d = dataset_named(names[n - 1], endpoint_origin(w, names[n - 1]));
        dataset_index_bounds(s, d.name, 0);
        assert(origin_sound(d.origin));
    }
}

proof fn endpoints_sound(ds: Seq<DatasetView>, w: WiringView)
    requires
        datasets_sound(ds),
        origin_sound(w.origin),
    ensures
        datasets_sound(with_endpoints(ds, w)),
{
    datasets_sound_after(ds, w, w.inputs, w.inputs.len() as int);
    datasets_sound_after(
        with_datasets(ds, w, w.inputs, w.inputs.len() as int),
        w,
        w.outputs,
        w.outputs.len() as int,
    );
}

/// True when all mappings end at a dataset and have sound origins.
spec fn all_end_at(ces: Seq<ColumnEdgeView>, output: Seq<char>) -> bool {
    forall|k: int|
        0 <= k < ces.len() ==> (#[trigger] ces[k]).to_column.dataset == output && origin_sound(
            ces[k].origin,
        )
}

proof fn declared_end(
    d: TaskDeclView,
    input: Seq<char>,
    output: Seq<char>,
    inputs: Seq<Seq<char>>,
    n: int,
)
    ensures
        all_end_at(declared_mappings(d, input, output, inputs, n), output),
    decreases n,
{
    if n > 0 {
        declared_end(d, input, output, inputs, n - 1);
    }
}

proof fn sql_end(
    ces: Seq<ColumnEdgeView>,
    l: crate::sql::SqlColumnLineageView,
    input: Seq<char>,
    output: Seq<char>,
    inputs: Seq<Seq<char>>,
    n: int,
)
    requires
        all_end_at(ces, output),
    ensures
        all_end_at(sql_filled(ces, l, input, output, inputs, n), output),
    decreases n,
{
    if n > 0 {
        sql_end(ces, l, input, output, inputs, n - 1);
    }
}

proof fn code_end(
    ces: Seq<ColumnEdgeView>,
    d: TaskDeclView,
    input: Seq<char>,
    output: Seq<char>,
    inputs: Seq<Seq<char>>,
    single: bool,
    n: int,
)
    requires
        all_end_at(ces, output),
    ensures
        all_end_at(code_filled(ces, d, input, output, inputs, single, n), output),
    decreases n,
{
    if n > 0 {
        code_end(ces, d, input, output, inputs, single, n - 1);
    }
}

proof fn mappings_end(
    d: TaskDeclView,
    output: Seq<char>,
    inputs: Seq<Seq<char>>,
    sql: Option<crate::sql::SqlColumnLineageView>,
    code: bool,
    single: bool,
)
    ensures
        all_end_at(output_mappings(d, output, inputs, sql, code, single), output),
{
    if inputs.len() > 0 {
        let a = declared_mappings(d, inputs[0], output, inputs, d.column_map.len() as int);
        declared_end(d, inputs[0], output, inputs, d.column_map.len() as int);
        let b = match sql {
            Some(l) => if sql_applies(l, output) {
                sql_end(a, l, inputs[0], output, inputs, l.mappings.len() as int);
                sql_filled(a, l, inputs[0], output, inputs, l.mappings.len() as int)
            } else {
                a
            },
            None => a,
        };
        code_end(b, d, inputs[0], output, inputs, single, d.inferred_columns.len() as int);
    }
}

proof fn attached_belong(
    ces: Seq<ColumnEdgeView>,
    input: Seq<char>,
    output: Seq<char>,
    first: bool,
    n: int,
)
    requires
        all_end_at(ces, output),
        n <= ces.len(),
    ensures
        forall|k: int|
            0 <= k < attached(ces, input, first, n).len() ==> {
                let c = #[trigger] attached(ces, input, first, n)[k];
                &&& c.to_column.dataset == output
                &&& c.from_columns.len() == 0 || reads_from(c, input)
                &&& origin_sound(c.origin)
            },
    decreases n,
{
    if n > 0 {
        attached_belong(ces, input, output, first, n - 1);
    }
}

proof fn edges_into_sound(
    d: TaskDeclView,
    w: WiringView,
    output: Seq<char>,
    ces: Seq<ColumnEdgeView>,
    n: int,
)
    requires
        all_end_at(ces, output),
        origin_sound(w.origin),
    ensures
        edges_sound(edges_into(d, w, output, ces, n)),
    decreases n,
{
    if n > 0 {
        edges_into_sound(d, w, output, ces, n - 1);
        let s = edges_into(d, w, output, ces, n - 1);
        let input = w.inputs[n - 1];
        let columns = attached(ces, input, s.len() == 0, ces.len() as int);
        attached_belong(ces, input, output, s.len() == 0, ces.len() as int);
        if !loop_left_out(w, input, output) {
            assert(edge_sound(task_edge(d, w, input, output, columns)));
        }
    }
}

proof fn sound_together(a: Seq<EdgeView>, b: Seq<EdgeView>)
    requires
        edges_sound(a),
        edges_sound(b),
    ensures
        edges_sound(a + b),
{
    assert forall|i: int| 0 <= i < (a + b).len() implies edge_sound(#[trigger] (a + b)[i]) by {
        if i < a.len() {
            assert(edge_sound(a[i]));
        } else {
            assert(edge_sound(b[i - a.len()]));
        }
    }
}

proof fn task_edges_sound(
    d: TaskDeclView,
    w: WiringView,
    sql: Option<crate::sql::SqlColumnLineageView>,
    code: bool,
    n: int,
)
    requires
        origin_sound(w.origin),
    ensures
        edges_sound(task_edges(d, w, sql, code, n)),
    decreases n,
{
    if n > 0 {
        task_edges_sound(d, w, sql, code, n - 1);
        let output = w.outputs[n - 1];
        let ces = output_mappings(d, output, w.inputs, sql, code, w.outputs.len() == 1);
        mappings_end(d, output, w.inputs, sql, code, w.outputs.len() == 1);
        edges_into_sound(d, w, output, ces, w.inputs.len() as int);
        sound_together(
            task_edges(d, w, sql, code, n - 1),
            edges_into(d, w, output, ces, w.inputs.len() as int),
        );
    }
}

proof fn discovery_into_sound(
    d: TaskDeclView,
    w: WiringView,
    job: Option<Seq<char>>,
    output: Seq<char>,
    ces: Seq<ColumnEdgeView>,
    n: int,
)
    requires
        all_end_at(ces, output),
        origin_sound(w.origin),
        w.origin.inferred(),
        w.origin.location is Some,
    ensures
        edges_sound(discovery_edges_into(d, w, job, output, ces, n)),
    decreases n,
{
    if n > 0 {
        discovery_into_sound(d, w, job, output, ces, n - 1);
        let input = w.inputs[n - 1];
        let columns = attached(ces, input, false, ces.len() as int);
        attached_belong(ces, input, output, false, ces.len() as int);
        if input != output && columns.len() > 0 {
            assert(edge_sound(discovery_edge(d, w, job, input, output, columns)));
        }
    }
}

proof fn discovery_sound(d: TaskDeclView, w: WiringView, job: Option<Seq<char>>, n: int)
    requires
        origin_sound(w.origin),
        w.origin.inferred(),
        w.origin.location is Some,
    ensures
        edges_sound(discovery_edges(d, w, job, n)),
    decreases n,
{
    if n > 0 {
        discovery_sound(d, w, job, n - 1);
        let output = w.outputs[n - 1];
        let ces = output_mappings(d, output, w.inputs, None, true, w.outputs.len() == 1);
        mappings_end(d, output, w.inputs, None, true, w.outputs.len() == 1);
        discovery_into_sound(d, w, job, output, ces, w.inputs.len() as int);
        sound_together(
            discovery_edges(d, w, job, n - 1),
            discovery_edges_into(d, w, job, output, ces, w.inputs.len() as int),
        );
    }
}

proof fn attribution_sound(
    es: Seq<EdgeView>,
    job: Seq<char>,
    ces: Seq<ColumnEdgeView>,
    n: int,
)
    requires
        edges_sound(es),
        n <= ces.len(),
        forall|k: int| 0 <= k < ces.len() ==> origin_sound((#[trigger] ces[k]).origin),
    ensures
        edges_sound(all_attributed(es, job, ces, n)),
    decreases n,
{
    if n > 0 {
        attribution_sound(es, job, ces, n - 1);
        let s = all_attributed(es, job, ces, n - 1);
        let r = with_attributed(s, job, ces[n - 1]);
        assert forall|i: int| 0 <= i < r.len() implies edge_sound(#[trigger] r[i]) by {
            assert(edge_sound(s[i]));
            if goes_to(s, job, ces[n - 1], i) {
                assert(belongs(r[i], ces[n - 1]));
                assert forall|k: int| 0 <= k < r[i].column_lineage.len() implies belongs(
                    r[i],
                    #[trigger] r[i].column_lineage[k],
                ) && origin_sound(r[i].column_lineage[k].origin) by {
                    if k < s[i].column_lineage.len() {
                        assert(belongs(s[i], s[i].column_lineage[k]));
                    }
                }
            }
        }
    }
}

proof fn discovery_stays_sound(
    path: Seq<char>,
    d: TaskDeclView,
    tasks: Seq<TaskDeclView>,
    c: ModuleConfigView,
    o: ScanOptionsView,
    doc: DocumentView,
)
    requires
        document_sound(doc),
    ensures
        document_sound(with_discovery(path, d, tasks, c, o, doc)),
{
    let loc = crate::model::SourceLocView { file: path, line: d.line };
    let w = discovery_wiring(path, d, c);
    let n = w.outputs.len() as int;
    endpoints_sound(doc.datasets, w);
    match caller_wiring(path, d, tasks, c) {
        Some(caller) => {
            attribution_sound(
                doc.edges,
                caller.job,
                crate::scan::attributed_mappings(d, caller, loc),
                d.inferred_columns.len() as int,
            );
            discovery_sound(d, w, Some(caller.job), n);
            sound_together(doc.edges, discovery_edges(d, w, Some(caller.job), n));
        },
        None => {
            discovery_sound(d, w, None, n);
            sound_together(doc.edges, discovery_edges(d, w, None, n));
        },
    }
}

proof fn decls_stay_sound(
    path: Seq<char>,
    tasks: Seq<TaskDeclView>,
    c: ModuleConfigView,
    o: ScanOptionsView,
    doc: DocumentView,
    n: int,
)
    requires
        document_sound(doc),
    ensures
        document_sound(with_decls(path, tasks, c, o, doc, n)),
    decreases n,
{
    if n > 0 {
        decls_stay_sound(path, tasks, c, o, doc, n - 1);
        let s = with_decls(path, tasks, c, o, doc, n - 1);
        let d = tasks[n - 1];
        let w = wiring(path, d, c);
        let q = task_query(d, w, o.enable_sql_inference);
        let code = o.enable_code_inference;
        task_edges_sound(d, w, q, code, w.outputs.len() as int);
        sound_together(s.edges, task_edges(d, w, q, code, w.outputs.len() as int));
        endpoints_sound(s.datasets, w);
        let r = with_task(path, d, c, o, s);
        assert forall|i: int| 0 <= i < r.jobs.len() implies origin_sound(
            (#[trigger] r.jobs[i]).origin,
        ) by {
            if i < s.jobs.len() {
                assert(r.jobs[i] == s.jobs[i]);
            }
        }
        discovery_stays_sound(path, d, tasks, c, o, s);
    }
}

proof fn files_stay_sound(
    fs: Seq<SourceFileView>,
    table: ConstMap,
    o: ScanOptionsView,
    doc: DocumentView,
    n: int,
)
    requires
        document_sound(doc),
    ensures
        document_sound(with_files(fs, table, o, doc, n)),
    decreases n,
{
    if n > 0 {
        files_stay_sound(fs, table, o, doc, n - 1);
        let f = fs[n - 1];
        if let Ok(m) = scanned_source(f.source, f.module, table) {
            decls_stay_sound(
                f.path,
                m.tasks,
                crate::scan::defaulted(m.config, o),
                o,
                with_files(fs, table, o, doc, n - 1),
                m.tasks.len() as int,
            );
        }
    }
}

proof fn output_edges_sound(es: Seq<EdgeView>, j: JobView, from: Seq<char>, n: int)
    requires
        edges_sound(es),
        origin_sound(j.origin),
    ensures
        edges_sound(add_outputs(es, j, from, n)),
    decreases n,
{
    if n > 0 {
        output_edges_sound(es, j, from, n - 1);
    }
}

proof fn input_edges_sound(es: Seq<EdgeView>, j: JobView, n: int)
    requires
        edges_sound(es),
        origin_sound(j.origin),
    ensures
        edges_sound(add_inputs(es, j, n)),
    decreases n,
{
    if n > 0 {
        input_edges_sound(es, j, n - 1);
        output_edges_sound(
            add_inputs(es, j, n - 1),
            j,
            j.inputs[n - 1],
            j.outputs.len() as int,
        );
    }
}

proof fn job_edges_sound(es: Seq<EdgeView>, jobs: Seq<JobView>, n: int)
    requires
        edges_sound(es),
        jobs_sound(jobs),
        n <= jobs.len(),
    ensures
        edges_sound(derived_edges(es, jobs, n)),
    decreases n,
{
    if n > 0 {
        job_edges_sound(es, jobs, n - 1);
        input_edges_sound(
            derived_edges(es, jobs, n - 1),
            jobs[n - 1],
            jobs[n - 1].inputs.len() as int,
        );
    }
}

proof fn last_named_has_name(ds: Seq<DatasetView>, name: Seq<char>, n: int)
    ensures
        last_named(ds, name, n) matches Some(d) ==> d.name == name,
    decreases n,
{
    if n > 0 {
        last_named_has_name(ds, name, n - 1);
    }
}

proof fn fill_belongs(
    source: DatasetView,
    target: DatasetView,
    mapped: Seq<Seq<char>>,
    n: int,
)
    ensures
        forall|k: int|
            0 <= k < identity_fill(seq![source], target, mapped, n).len() ==> {
                let c = #[trigger] identity_fill(seq![source], target, mapped, n)[k];
                &&& c.to_column.dataset == target.name
                &&& reads_from(c, source.name)
                &&& origin_sound(c.origin)
            },
    decreases n,
{
    if n > 0 {
        fill_belongs(source, target, mapped, n - 1);
        let name = target.schema[n - 1].name;
        reveal_with_fuel(source_with_field, 2);
        let c = identity_mapping(source.name, target.name, name);
        assert(c.from_columns[0].dataset == source.name);
    }
}

proof fn finishing_stays_sound(d: DocumentView, code: bool)
    requires
        document_sound(d),
    ensures
        document_sound(finished_document(d, code)),
{
    let ds = backfilled(d.datasets, d.edges);
    let r = finished_document(d, code).edges;
    assert forall|i: int| 0 <= i < r.len() implies edge_sound(#[trigger] r[i]) by {
        let e = d.edges[i];
        assert(edge_sound(e));
        if code && r[i] != e {
            last_named_has_name(ds, e.from, ds.len() as int);
            last_named_has_name(ds, e.to, ds.len() as int);
            let src = last_named(ds, e.from, ds.len() as int)->0;
            let tgt = last_named(ds, e.to, ds.len() as int)->0;
            let m = mapped_columns(e.column_lineage);
            let more = identity_fill(seq![src], tgt, m, tgt.schema.len() as int);
            fill_belongs(src, tgt, m, tgt.schema.len() as int);
            assert(r[i].column_lineage == e.column_lineage + more);
            assert forall|k: int| 0 <= k < r[i].column_lineage.len() implies belongs(
                r[i],
                #[trigger] r[i].column_lineage[k],
            ) && origin_sound(r[i].column_lineage[k].origin) by {
                if k < e.column_lineage.len() {
                    assert(belongs(e, e.column_lineage[k]));
                } else {
                    assert(r[i].column_lineage[k] == more[k - e.column_lineage.len()]);
                }
            }
        }
    }
}

/// Whatever the sources, in the document of a scan every mapping ends at the
/// target of its edge and has, if any, a source on the edge's own source; an
/// edge from a dataset to itself is declared; an edge of column discovery is
/// inferred, says where in the sources it comes from, and carries a column;
/// and a dataset, a job, an edge or a mapping has a confidence exactly when it
/// is inferred.
pub proof fn scans_are_sound(
    fs: Seq<SourceFileView>,
    unread: Seq<UnreadFileView>,
    o: ScanOptionsView,
)
    ensures
        document_sound(repository(fs, unread, o)),
{
    let n = fs.len() as int;
    let a = collected(fs, unread, o);
    files_stay_sound(fs, constants_upto(fs, n), o, started(unread, o), n);
    job_edges_sound(a.edges, a.jobs, a.jobs.len() as int);
    let b = DocumentView { edges: with_job_edges(a), ..a };
    finishing_stays_sound(b, o.enable_code_inference);
}

} // verus!

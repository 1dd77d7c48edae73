//! A scan and the declarations that it finds: the jobs and the edges of a
//! document, and the tasks that they come from.

use vstd::prelude::*;

use crate::columns::{expanded_name, gap_filled, has_target, input_of_table, names_table, output_mappings};
use crate::decls::{ModuleConfigView, TaskDeclView};
use crate::finish::{finished_document, finishing_keeps_edges};
use crate::flow::InferredColumnView;
use crate::graph::{derivation_covers_jobs, with_job_edges};
use crate::laws::columns::{
    attached_are_own, belongs, dotted, holds_own, input_is_first, is_input, is_no_input,
    last_piece_is_last_part, names_table_is_stands_for, stands_for,
};
use crate::laws::openmetadata::full_name;
use crate::laws::reading::{lists_those, one_more};
use crate::model::{
    ColumnEdgeView, DocumentView, EdgeView, FqnPartsView, JobView, SourceLocView,
};
use crate::origin::OriginSource;
use crate::python::scanned_source;
use crate::scan::{
    all_attributed, attributed_mapping, collected, completed, constants_in, constants_upto,
    defaulted, discovery_edges, discovery_edges_into, ends_known, matches_upto, meant_end,
    repository, started, table_in, with_attributed, with_decl, with_decls, with_discovery,
    with_file, with_files, ConstMap, SourceFileView, UnreadFileView,
};
use crate::tasks::{
    attached, reads_from, task_edges, task_query, wiring, with_task, ScanOptionsView, WiringView,
};
use crate::text::{first_pieces, last_piece};

verus! {

// ────────────────────────────────── jobs ──────────────────────────────

/// True when the name is the full name of a dataset: itself where it has a dot,
/// with the configured parts in front where all of them are known, and itself
/// otherwise.
pub open spec fn is_full(name: Seq<char>, c: ModuleConfigView, full: Seq<char>) -> bool {
    if name.contains('.') || c.service is None || c.database is None || c.schema is None {
        full == name
    } else {
        full == full_name(
            FqnPartsView {
                service: c.service->0,
                database: c.database->0,
                schema: c.schema->0,
                table: name,
            },
        )
    }
}

proof fn names_are_expanded(name: Seq<char>, c: ModuleConfigView)
    ensures
        is_full(name, c, expanded_name(name, c)),
{
    reveal_strlit(".");
    assert("."@ =~= seq!['.']);
}

/// True when the names are the full names of datasets, in order.
pub open spec fn are_full(
    names: Seq<Seq<char>>,
    c: ModuleConfigView,
    full: Seq<Seq<char>>,
) -> bool {
    &&& full.len() == names.len()
    &&& forall|i: int| 0 <= i < names.len() ==> is_full(#[trigger] names[i], c, full[i])
}

/// The DAG of a task: its own, or that of its module, or the default one.
pub open spec fn dag_of(d: TaskDeclView, c: ModuleConfigView) -> Seq<char> {
    if d.dag is Some {
        d.dag->0
    } else if c.dag is Some {
        c.dag->0
    } else {
        "default"@
    }
}

/// True when the job is that of the task.
pub open spec fn is_job_of(
    j: JobView,
    path: Seq<char>,
    d: TaskDeclView,
    c: ModuleConfigView,
) -> bool {
    &&& j.id == dag_of(d, c) + seq!['.'] + d.task_name
    &&& j.name == d.task_name
    &&& j.dag == Some(dag_of(d, c))
    &&& j.location matches Some(l) && l.file == path && l.line == d.line
    &&& j.description == d.description
    &&& j.sql == d.sql
    &&& are_full(d.inputs, c, j.inputs)
    &&& are_full(d.outputs, c, j.outputs)
    &&& j.origin.source == OriginSource::Declared <==> !d.discovered
}

proof fn task_has_its_job(
    path: Seq<char>,
    d: TaskDeclView,
    c: ModuleConfigView,
    o: ScanOptionsView,
    doc: DocumentView,
)
    ensures
        with_task(path, d, c, o, doc).jobs.len() == doc.jobs.len() + 1,
        with_task(path, d, c, o, doc).jobs.drop_last() == doc.jobs,
        is_job_of(with_task(path, d, c, o, doc).jobs.last(), path, d, c),
{
    reveal_strlit(".");
    assert("."@ =~= seq!['.']);
    let r = with_task(path, d, c, o, doc);
    let j = r.jobs.last();
    assert(r.jobs.drop_last() =~= doc.jobs);
    assert forall|i: int| 0 <= i < d.inputs.len() implies is_full(
        #[trigger] d.inputs[i],
        c,
        j.inputs[i],
    ) by {
        names_are_expanded(d.inputs[i], c);
    }
    assert forall|i: int| 0 <= i < d.outputs.len() implies is_full(
        #[trigger] d.outputs[i],
        c,
        j.outputs[i],
    ) by {
        names_are_expanded(d.outputs[i], c);
    }
}

proof fn discovery_keeps_jobs(
    path: Seq<char>,
    d: TaskDeclView,
    tasks: Seq<TaskDeclView>,
    c: ModuleConfigView,
    o: ScanOptionsView,
    doc: DocumentView,
)
    ensures
        with_discovery(path, d, tasks, c, o, doc).jobs == doc.jobs,
        with_discovery(path, d, tasks, c, o, doc).diagnostics == doc.diagnostics,
{
}

pub open spec fn has_job(tasks: Seq<TaskDeclView>) -> spec_fn(int) -> bool {
    |i: int| !tasks[i].column_only
}

proof fn jobs_in_turn(
    path: Seq<char>,
    tasks: Seq<TaskDeclView>,
    c: ModuleConfigView,
    o: ScanOptionsView,
    doc: DocumentView,
    n: int,
) -> (chosen: Seq<int>)
    requires
        0 <= n <= tasks.len(),
    ensures
        lists_those(chosen, n, has_job(tasks)),
        with_decls(path, tasks, c, o, doc, n).jobs.len() == doc.jobs.len() + chosen.len(),
        forall|i: int|
            0 <= i < doc.jobs.len() ==> #[trigger] with_decls(path, tasks, c, o, doc, n).jobs[i]
                == doc.jobs[i],
        forall|k: int|
            0 <= k < chosen.len() ==> is_job_of(
                #[trigger] with_decls(path, tasks, c, o, doc, n).jobs[doc.jobs.len() + k],
                path,
                tasks[chosen[k]],
                c,
            ),
    decreases n,
{
    if n > 0 {
        let before = jobs_in_turn(path, tasks, c, o, doc, n - 1);
        let prev = with_decls(path, tasks, c, o, doc, n - 1);
        let now = with_decls(path, tasks, c, o, doc, n);
        let d = tasks[n - 1];
        let r = one_more(before, n, has_job(tasks));
        if d.column_only {
            discovery_keeps_jobs(path, d, tasks, c, o, prev);
        } else {
            task_has_its_job(path, d, c, o, prev);
            assert forall|i: int| 0 <= i < prev.jobs.len() implies #[trigger] now.jobs[i]
                == prev.jobs[i] by {
                assert(now.jobs.drop_last()[i] == now.jobs[i]);
            }
        }
        assert forall|k: int| 0 <= k < r.len() implies is_job_of(
            #[trigger] now.jobs[doc.jobs.len() + k],
            path,
            tasks[r[k]],
            c,
        ) by {
            if k < before.len() {
                assert(now.jobs[doc.jobs.len() + k] == prev.jobs[doc.jobs.len() + k]);
            }
        }
        r
    } else {
        Seq::empty()
    }
}

/// A module adds one job for each of its tasks, in order, behind those that
/// were there: all but those that columns alone were found in.
pub proof fn each_task_has_its_job(
    path: Seq<char>,
    tasks: Seq<TaskDeclView>,
    c: ModuleConfigView,
    o: ScanOptionsView,
    doc: DocumentView,
)
    ensures
        ({
            let r = with_decls(path, tasks, c, o, doc, tasks.len() as int);
            &&& r.jobs.len() >= doc.jobs.len()
            &&& forall|i: int| 0 <= i < doc.jobs.len() ==> #[trigger] r.jobs[i] == doc.jobs[i]
            &&& are_jobs_of(
                r.jobs.subrange(doc.jobs.len() as int, r.jobs.len() as int),
                path,
                tasks,
                c,
            )
        }),
{
    let r = with_decls(path, tasks, c, o, doc, tasks.len() as int);
    let chosen = jobs_in_turn(path, tasks, c, o, doc, tasks.len() as int);
    let own = r.jobs.subrange(doc.jobs.len() as int, r.jobs.len() as int);
    assert forall|k: int| 0 <= k < chosen.len() implies is_job_of(
        #[trigger] own[k],
        path,
        tasks[chosen[k]],
        c,
    ) by {
        assert(own[k] == r.jobs[doc.jobs.len() + k]);
    }
}

/// True when the jobs are those of the tasks that have one, in order.
pub open spec fn are_jobs_of(
    own: Seq<JobView>,
    path: Seq<char>,
    tasks: Seq<TaskDeclView>,
    c: ModuleConfigView,
) -> bool {
    exists|chosen: Seq<int>|
        {
            &&& #[trigger] lists_those(chosen, tasks.len() as int, has_job(tasks))
            &&& own.len() == chosen.len()
            &&& forall|k: int|
                0 <= k < chosen.len() ==> is_job_of(
                    #[trigger] own[k],
                    path,
                    tasks[chosen[k]],
                    c,
                )
        }
}

// ──────────────────────────────── growth ──────────────────────────────

/// True when edge `b` is edge `a`, with nothing but mappings added behind its
/// own.
pub open spec fn edge_grows(a: EdgeView, b: EdgeView) -> bool {
    &&& b.from == a.from
    &&& b.to == a.to
    &&& b.job == a.job
    &&& b.transform == a.transform
    &&& b.origin == a.origin
    &&& b.column_discovery == a.column_discovery
    &&& a.column_lineage.len() <= b.column_lineage.len()
    &&& forall|i: int|
        0 <= i < a.column_lineage.len() ==> #[trigger] b.column_lineage[i] == a.column_lineage[i]
}

/// True when each edge is still there, in its place.
pub open spec fn edges_grow(a: Seq<EdgeView>, b: Seq<EdgeView>) -> bool {
    &&& a.len() <= b.len()
    &&& forall|k: int| 0 <= k < a.len() ==> edge_grows(a[k], #[trigger] b[k])
}

proof fn growth_chains(a: Seq<EdgeView>, b: Seq<EdgeView>, c: Seq<EdgeView>)
    requires
        edges_grow(a, b),
        edges_grow(b, c),
    ensures
        edges_grow(a, c),
{
    assert forall|k: int| 0 <= k < a.len() implies edge_grows(a[k], #[trigger] c[k]) by {
        assert(edge_grows(a[k], b[k]));
        assert(edge_grows(b[k], c[k]));
    }
}

proof fn attributing_grows(es: Seq<EdgeView>, job: Seq<char>, ces: Seq<ColumnEdgeView>, n: int)
    requires
        n <= ces.len(),
    ensures
        edges_grow(es, all_attributed(es, job, ces, n)),
    decreases n,
{
    if n > 0 {
        attributing_grows(es, job, ces, n - 1);
        let prev = all_attributed(es, job, ces, n - 1);
        let now = with_attributed(prev, job, ces[n - 1]);
        assert forall|k: int| 0 <= k < prev.len() implies edge_grows(prev[k], #[trigger] now[k]) by {
            let g = gap_filled(prev[k].column_lineage, ces[n - 1]);
        }
        growth_chains(es, prev, now);
    }
}

proof fn declaration_grows(
    path: Seq<char>,
    d: TaskDeclView,
    tasks: Seq<TaskDeclView>,
    c: ModuleConfigView,
    o: ScanOptionsView,
    doc: DocumentView,
)
    ensures
        edges_grow(doc.edges, with_decl(path, d, tasks, c, o, doc).edges),
{
    let r = with_decl(path, d, tasks, c, o, doc);
    if d.column_only {
        if let Some(caller) = crate::scan::caller_wiring(path, d, tasks, c) {
            let loc = crate::model::SourceLocView { file: path, line: d.line };
            attributing_grows(
                doc.edges,
                caller.job,
                crate::scan::attributed_mappings(d, caller, loc),
                d.inferred_columns.len() as int,
            );
        }
    }
}

proof fn declarations_grow(
    path: Seq<char>,
    tasks: Seq<TaskDeclView>,
    c: ModuleConfigView,
    o: ScanOptionsView,
    doc: DocumentView,
    m: int,
    n: int,
)
    requires
        0 <= m <= n <= tasks.len(),
    ensures
        edges_grow(
            with_decls(path, tasks, c, o, doc, m).edges,
            with_decls(path, tasks, c, o, doc, n).edges,
        ),
    decreases n - m,
{
    if m < n {
        declarations_grow(path, tasks, c, o, doc, m, n - 1);
        let prev = with_decls(path, tasks, c, o, doc, n - 1);
        declaration_grows(path, tasks[n - 1], tasks, c, o, prev);
        growth_chains(
            with_decls(path, tasks, c, o, doc, m).edges,
            prev.edges,
            with_decls(path, tasks, c, o, doc, n).edges,
        );
    }
}

proof fn file_grows(f: SourceFileView, table: ConstMap, o: ScanOptionsView, doc: DocumentView)
    ensures
        edges_grow(doc.edges, with_file(f, table, o, doc).edges),
{
    if let Ok(m) = scanned_source(f.source, f.module, table) {
        declarations_grow(
            f.path,
            m.tasks,
            defaulted(m.config, o),
            o,
            doc,
            0,
            m.tasks.len() as int,
        );
    }
}

proof fn files_grow(
    fs: Seq<SourceFileView>,
    table: ConstMap,
    o: ScanOptionsView,
    doc: DocumentView,
    m: int,
    n: int,
)
    requires
        0 <= m <= n <= fs.len(),
    ensures
        edges_grow(
            with_files(fs, table, o, doc, m).edges,
            with_files(fs, table, o, doc, n).edges,
        ),
    decreases n - m,
{
    if m < n {
        files_grow(fs, table, o, doc, m, n - 1);
        let prev = with_files(fs, table, o, doc, n - 1);
        file_grows(fs[n - 1], table, o, prev);
        growth_chains(
            with_files(fs, table, o, doc, m).edges,
            prev.edges,
            with_files(fs, table, o, doc, n).edges,
        );
    }
}

proof fn completion_grows(a: DocumentView, o: ScanOptionsView)
    ensures
        edges_grow(a.edges, completed(a, o).edges),
{
    let b = DocumentView { edges: with_job_edges(a), ..a };
    derivation_covers_jobs(a.edges, a.jobs, a.jobs.len() as int);
    assert forall|k: int| 0 <= k < a.edges.len() implies edge_grows(
        a.edges[k],
        #[trigger] b.edges[k],
    ) by {
        assert(b.edges.subrange(0, a.edges.len() as int)[k] == a.edges[k]);
    }
    let c = finished_document(b, o.enable_code_inference);
    assert(c.edges.len() == b.edges.len()) by {
        if b.edges.len() > 0 {
            finishing_keeps_edges(b, o.enable_code_inference, 0);
        }
    }
    assert forall|k: int| 0 <= k < b.edges.len() implies edge_grows(
        b.edges[k],
        #[trigger] c.edges[k],
    ) by {
        finishing_keeps_edges(b, o.enable_code_inference, k);
        let x = b.edges[k].column_lineage;
        let y = c.edges[k].column_lineage;
        assert forall|i: int| 0 <= i < x.len() implies #[trigger] y[i] == x[i] by {
            assert(y.subrange(0, x.len() as int)[i] == y[i]);
        }
    }
    growth_chains(a.edges, b.edges, c.edges);
}

/// Every edge that a task makes is in the document of the repository, with all
/// of its mappings in front of any others.
pub proof fn task_edges_reach_the_document(
    fs: Seq<SourceFileView>,
    unread: Seq<UnreadFileView>,
    o: ScanOptionsView,
    i: int,
    t: int,
    e: int,
)
    requires
        0 <= i < fs.len(),
        scanned_source(fs[i].source, fs[i].module, constants_upto(fs, fs.len() as int)) is Ok,
        ({
            let m = scanned_source(
                fs[i].source,
                fs[i].module,
                constants_upto(fs, fs.len() as int),
            )->Ok_0;
            let w = wiring(fs[i].path, m.tasks[t], defaulted(m.config, o));
            &&& 0 <= t < m.tasks.len()
            &&& !m.tasks[t].column_only
            &&& 0 <= e < task_edges(
                m.tasks[t],
                w,
                task_query(m.tasks[t], w, o.enable_sql_inference),
                o.enable_code_inference,
                w.outputs.len() as int,
            ).len()
        }),
    ensures
        ({
            let m = scanned_source(
                fs[i].source,
                fs[i].module,
                constants_upto(fs, fs.len() as int),
            )->Ok_0;
            let w = wiring(fs[i].path, m.tasks[t], defaulted(m.config, o));
            has_grown(
                task_edges(
                    m.tasks[t],
                    w,
                    task_query(m.tasks[t], w, o.enable_sql_inference),
                    o.enable_code_inference,
                    w.outputs.len() as int,
                )[e],
                repository(fs, unread, o).edges,
            )
        }),
{
    let n = fs.len() as int;
    let table = constants_upto(fs, n);
    let start = started(unread, o);
    let m = scanned_source(fs[i].source, fs[i].module, table)->Ok_0;
    let c = defaulted(m.config, o);
    let d = m.tasks[t];
    let w = wiring(fs[i].path, d, c);
    let own = task_edges(
        d,
        w,
        task_query(d, w, o.enable_sql_inference),
        o.enable_code_inference,
        w.outputs.len() as int,
    );
    let before = with_files(fs, table, o, start, i);
    let a = with_decls(fs[i].path, m.tasks, c, o, before, t);
    let b = with_decls(fs[i].path, m.tasks, c, o, before, t + 1);
    assert(b.edges == a.edges + own);
    let k = a.edges.len() + e;
    assert(b.edges[k] == own[e]);
    let after = with_files(fs, table, o, start, i + 1);
    declarations_grow(fs[i].path, m.tasks, c, o, before, t + 1, m.tasks.len() as int);
    assert(after == with_decls(fs[i].path, m.tasks, c, o, before, m.tasks.len() as int));
    files_grow(fs, table, o, start, i + 1, n);
    let all = collected(fs, unread, o);
    growth_chains(b.edges, after.edges, all.edges);
    completion_grows(all, o);
    growth_chains(b.edges, all.edges, repository(fs, unread, o).edges);
    assert(edge_grows(own[e], repository(fs, unread, o).edges[k]));
}

/// True when the edge is among the edges, perhaps with more mappings.
pub open spec fn has_grown(e: EdgeView, es: Seq<EdgeView>) -> bool {
    exists|k: int| 0 <= k < es.len() && edge_grows(e, #[trigger] es[k])
}

// ──────────────────────────── column discovery ────────────────────────

/// True when end `i` is the only one that the table name stands for.
pub open spec fn is_only(ends: Seq<Seq<char>>, table: Seq<char>, i: int) -> bool {
    &&& 0 <= i < ends.len()
    &&& stands_for(table, ends[i])
    &&& forall|j: int| 0 <= j < ends.len() && j != i ==> !stands_for(table, #[trigger] ends[j])
}

spec fn none_upto(ends: Seq<Seq<char>>, table: Seq<char>, n: int) -> bool {
    forall|j: int| 0 <= j < n ==> !stands_for(table, #[trigger] ends[j])
}

spec fn only_upto(ends: Seq<Seq<char>>, table: Seq<char>, i: int, n: int) -> bool {
    &&& 0 <= i < n
    &&& stands_for(table, ends[i])
    &&& forall|j: int| 0 <= j < n && j != i ==> !stands_for(table, #[trigger] ends[j])
}

proof fn none_is_counted(ends: Seq<Seq<char>>, table: Seq<char>, n: int)
    requires
        0 <= n <= ends.len(),
    ensures
        matches_upto(ends, table, n) == 0 <==> none_upto(ends, table, n),
    decreases n,
{
    if n > 0 {
        none_is_counted(ends, table, n - 1);
        names_table_is_stands_for(ends[n - 1], table);
        assert(none_upto(ends, table, n) <==> none_upto(ends, table, n - 1) && !stands_for(
            table,
            ends[n - 1],
        ));
    }
}

proof fn one_is_only(ends: Seq<Seq<char>>, table: Seq<char>, n: int) -> (i: int)
    requires
        0 <= n <= ends.len(),
        matches_upto(ends, table, n) == 1,
    ensures
        only_upto(ends, table, i, n),
    decreases n,
{
    names_table_is_stands_for(ends[n - 1], table);
    if names_table(ends[n - 1], table) {
        none_is_counted(ends, table, n - 1);
        n - 1
    } else {
        one_is_only(ends, table, n - 1)
    }
}

proof fn only_is_one(ends: Seq<Seq<char>>, table: Seq<char>, i: int, n: int)
    requires
        0 <= n <= ends.len(),
        only_upto(ends, table, i, n),
    ensures
        matches_upto(ends, table, n) == 1,
    decreases n,
{
    names_table_is_stands_for(ends[n - 1], table);
    if i == n - 1 {
        assert(none_upto(ends, table, n - 1));
        none_is_counted(ends, table, n - 1);
    } else {
        assert(!stands_for(table, ends[n - 1]));
        assert(only_upto(ends, table, i, n - 1));
        only_is_one(ends, table, i, n - 1);
    }
}

/// A table name means an end of a task exactly when it is the only end there
/// is, or the only one that the name stands for; and it means that end.
pub proof fn only_end_is_meant(ends: Seq<Seq<char>>, table: Option<Seq<char>>)
    ensures
        ends.len() == 1 ==> meant_end(ends, table) == Some(ends[0]),
        ends.len() != 1 && table is None ==> meant_end(ends, table) is None,
        ends.len() != 1 && table is Some ==> {
            &&& forall|i: int| #[trigger]
                is_only(ends, table->0, i) ==> meant_end(ends, table) == Some(ends[i])
            &&& (forall|i: int| !#[trigger] is_only(ends, table->0, i)) ==> meant_end(
                ends,
                table,
            ) is None
        },
{
    if ends.len() != 1 {
        if let Some(t) = table {
            let n = ends.len() as int;
            input_is_first(t, ends, 0);
            assert forall|i: int| #[trigger] is_only(ends, t, i) implies meant_end(ends, table)
                == Some(ends[i]) by {
                assert(stands_for(t, ends[i]));
                only_is_one(ends, t, i, n);
                assert(!is_no_input(ends, t));
                let k = choose|k: int| #[trigger]
                    is_input(ends, t, k) && ends[k] == input_of_table(t, ends, 0)->0;
                if k != i {
                    assert(!stands_for(t, ends[k]));
                }
            }
            if forall|i: int| !#[trigger] is_only(ends, t, i) {
                if matches_upto(ends, t, n) == 1 {
                    let i = one_is_only(ends, t, n);
                    assert(is_only(ends, t, i));
                }
            }
        }
    }
}

/// True when the edge carries columns from input `i` to output `o`: at least
/// one mapping, and exactly those of the output that read the input.
pub open spec fn is_column_edge(
    e: EdgeView,
    d: TaskDeclView,
    w: WiringView,
    job: Option<Seq<char>>,
    i: int,
    o: int,
) -> bool {
    &&& 0 <= i < w.inputs.len()
    &&& 0 <= o < w.outputs.len()
    &&& w.inputs[i] != w.outputs[o]
    &&& e.from == w.inputs[i]
    &&& e.to == w.outputs[o]
    &&& e.job == job
    &&& e.column_discovery
    &&& e.origin == w.origin
    &&& e.column_lineage.len() > 0
    &&& holds_own(
        e.column_lineage,
        output_mappings(d, w.outputs[o], w.inputs, None, true, w.outputs.len() == 1),
        w.inputs[i],
        false,
    )
}

proof fn column_edge_is_from_input(
    d: TaskDeclView,
    w: WiringView,
    job: Option<Seq<char>>,
    o: int,
    n: int,
    k: int,
) -> (i: int)
    requires
        0 <= n <= w.inputs.len(),
        0 <= o < w.outputs.len(),
        0 <= k < discovery_edges_into(
            d,
            w,
            job,
            w.outputs[o],
            output_mappings(d, w.outputs[o], w.inputs, None, true, w.outputs.len() == 1),
            n,
        ).len(),
    ensures
        is_column_edge(
            discovery_edges_into(
                d,
                w,
                job,
                w.outputs[o],
                output_mappings(d, w.outputs[o], w.inputs, None, true, w.outputs.len() == 1),
                n,
            )[k],
            d,
            w,
            job,
            i,
            o,
        ),
    decreases n,
{
    let ms = output_mappings(d, w.outputs[o], w.inputs, None, true, w.outputs.len() == 1);
    let prev = discovery_edges_into(d, w, job, w.outputs[o], ms, n - 1);
    if k < prev.len() {
        column_edge_is_from_input(d, w, job, o, n - 1, k)
    } else {
        let chosen = attached_are_own(ms, w.inputs[n - 1], false, ms.len() as int);
        assert(holds_own(
            attached(ms, w.inputs[n - 1], false, ms.len() as int),
            ms,
            w.inputs[n - 1],
            false,
        ));
        n - 1
    }
}

proof fn column_edge_is_to_output(
    d: TaskDeclView,
    w: WiringView,
    job: Option<Seq<char>>,
    n: int,
    k: int,
) -> (r: (int, int))
    requires
        0 <= n <= w.outputs.len(),
        0 <= k < discovery_edges(d, w, job, n).len(),
    ensures
        is_column_edge(discovery_edges(d, w, job, n)[k], d, w, job, r.0, r.1),
    decreases n,
{
    let prev = discovery_edges(d, w, job, n - 1);
    if k < prev.len() {
        column_edge_is_to_output(d, w, job, n - 1, k)
    } else {
        let i = column_edge_is_from_input(
            d,
            w,
            job,
            n - 1,
            w.inputs.len() as int,
            k - prev.len(),
        );
        (i, n - 1)
    }
}

/// Each edge that is made for columns alone leads from an input to another
/// output and carries the mappings of the output that read the input.
pub proof fn each_column_edge_is_told(
    d: TaskDeclView,
    w: WiringView,
    job: Option<Seq<char>>,
    k: int,
)
    requires
        0 <= k < discovery_edges(d, w, job, w.outputs.len() as int).len(),
    ensures
        exists|i: int, o: int| #[trigger]
            is_column_edge(
                discovery_edges(d, w, job, w.outputs.len() as int)[k],
                d,
                w,
                job,
                i,
                o,
            ),
{
    let r = column_edge_is_to_output(d, w, job, w.outputs.len() as int, k);
}


proof fn input_has_column_edge(
    d: TaskDeclView,
    w: WiringView,
    job: Option<Seq<char>>,
    o: int,
    n: int,
    i: int,
) -> (k: int)
    requires
        0 <= i < n <= w.inputs.len(),
        0 <= o < w.outputs.len(),
        w.inputs[i] != w.outputs[o],
        has_mapping_from(
            output_mappings(d, w.outputs[o], w.inputs, None, true, w.outputs.len() == 1),
            w.inputs[i],
        ),
    ensures
        0 <= k < discovery_edges_into(
            d,
            w,
            job,
            w.outputs[o],
            output_mappings(d, w.outputs[o], w.inputs, None, true, w.outputs.len() == 1),
            n,
        ).len(),
        is_column_edge(
            discovery_edges_into(
                d,
                w,
                job,
                w.outputs[o],
                output_mappings(d, w.outputs[o], w.inputs, None, true, w.outputs.len() == 1),
                n,
            )[k],
            d,
            w,
            job,
            i,
            o,
        ),
    decreases n,
{
    let ms = output_mappings(d, w.outputs[o], w.inputs, None, true, w.outputs.len() == 1);
    let prev = discovery_edges_into(d, w, job, w.outputs[o], ms, n - 1);
    if i == n - 1 {
        let input = w.inputs[i];
        let own = attached(ms, input, false, ms.len() as int);
        let chosen = attached_are_own(ms, input, false, ms.len() as int);
        let keep = belongs(ms, input, false);
        let m = choose|m: int| 0 <= m < ms.len() && reads_from(#[trigger] ms[m], input);
        assert(keep(m));
        assert(chosen.contains(m));
        assert(own.len() > 0);
        assert(holds_own(own, ms, input, false));
        prev.len() as int
    } else {
        input_has_column_edge(d, w, job, o, n - 1, i)
    }
}

/// True when one of the mappings has a source on the dataset.
pub open spec fn has_mapping_from(ms: Seq<ColumnEdgeView>, dataset: Seq<char>) -> bool {
    exists|m: int| 0 <= m < ms.len() && reads_from(#[trigger] ms[m], dataset)
}

proof fn output_has_column_edge(
    d: TaskDeclView,
    w: WiringView,
    job: Option<Seq<char>>,
    n: int,
    i: int,
    o: int,
) -> (k: int)
    requires
        0 <= i < w.inputs.len(),
        0 <= o < n <= w.outputs.len(),
        w.inputs[i] != w.outputs[o],
        has_mapping_from(
            output_mappings(d, w.outputs[o], w.inputs, None, true, w.outputs.len() == 1),
            w.inputs[i],
        ),
    ensures
        0 <= k < discovery_edges(d, w, job, n).len(),
        is_column_edge(discovery_edges(d, w, job, n)[k], d, w, job, i, o),
    decreases n,
{
    let prev = discovery_edges(d, w, job, n - 1);
    if o == n - 1 {
        let k = input_has_column_edge(d, w, job, o, w.inputs.len() as int, i);
        prev.len() + k
    } else {
        output_has_column_edge(d, w, job, n - 1, i, o)
    }
}

/// Each input that a mapping of another output reads has an edge to it that
/// carries the mapping.
pub proof fn each_read_input_has_a_column_edge(
    d: TaskDeclView,
    w: WiringView,
    job: Option<Seq<char>>,
    i: int,
    o: int,
)
    requires
        0 <= i < w.inputs.len(),
        0 <= o < w.outputs.len(),
        w.inputs[i] != w.outputs[o],
        has_mapping_from(
            output_mappings(d, w.outputs[o], w.inputs, None, true, w.outputs.len() == 1),
            w.inputs[i],
        ),
    ensures
        exists|k: int|
            0 <= k < discovery_edges(d, w, job, w.outputs.len() as int).len() && is_column_edge(
                #[trigger] discovery_edges(d, w, job, w.outputs.len() as int)[k],
                d,
                w,
                job,
                i,
                o,
            ),
{
    let k = output_has_column_edge(d, w, job, w.outputs.len() as int, i, o);
}

/// True when a column is the end of a source text: the whole of it, or what
/// follows its last dot.
pub open spec fn is_column_of(src: Seq<char>, column: Seq<char>) -> bool {
    if src.contains('.') {
        exists|front: Seq<char>| #[trigger] dotted(src, front, column)
    } else {
        column == src
    }
}

/// True when a table is what stands before the last dot of a source text;
/// none where it has no dot.
pub open spec fn is_table_of(src: Seq<char>, table: Option<Seq<char>>) -> bool {
    match table {
        Some(t) => exists|column: Seq<char>| #[trigger] dotted(src, t, column),
        None => !src.contains('.'),
    }
}

/// A mapping between the ends of a caller has every source of the column, each
/// on the input that its table means, and its target on the output that its
/// table means.
pub proof fn attributed_mapping_has_every_source(
    c: InferredColumnView,
    w: WiringView,
    loc: SourceLocView,
    i: int,
)
    requires
        ends_known(c, w),
        0 <= i < c.sources.len(),
    ensures
        ({
            let m = attributed_mapping(c, w, loc);
            &&& m.from_columns.len() == c.sources.len()
            &&& is_column_of(c.sources[i], m.from_columns[i].column)
            &&& exists|table: Option<Seq<char>>| #[trigger]
                is_table_of(c.sources[i], table) && meant_end(w.inputs, table) == Some(
                    m.from_columns[i].dataset,
                )
            &&& meant_end(w.outputs, c.output_table) == Some(m.to_column.dataset)
            &&& m.to_column.column == c.target
            &&& m.function == c.function
            &&& m.transform_type == c.transform_type
            &&& m.origin.source == OriginSource::InferredCode
            &&& m.origin.location == Some(loc)
        }),
{
    let src = c.sources[i];
    last_piece_is_last_part(src);
    assert(is_table_of(src, table_in(src))) by {
        if src.contains('.') {
            assert(dotted(src, first_pieces(src, '.'), last_piece(src, '.')));
        }
    }
    assert(meant_end(w.inputs, table_in(c.sources[i])) is Some);
}

/// True when the mapping belongs to the edge: the job makes it, it leads to the
/// target, and a source of the mapping is on its source.
pub open spec fn is_home(e: EdgeView, job: Seq<char>, c: ColumnEdgeView) -> bool {
    &&& e.job == Some(job)
    &&& e.to == c.to_column.dataset
    &&& exists|s: int| 0 <= s < c.from_columns.len() && (#[trigger] c.from_columns[s]).dataset == e.from
}

/// True when a mapping of the edge has the target.
pub open spec fn is_mapped_on(e: EdgeView, column: Seq<char>) -> bool {
    exists|k: int|
        0 <= k < e.column_lineage.len() && (#[trigger] e.column_lineage[k]).to_column.column
            == column
}

/// A mapping with sources goes to each edge that it belongs to, behind the
/// others, unless the edge maps its column; no other edge changes.
pub proof fn mapping_goes_home(es: Seq<EdgeView>, job: Seq<char>, c: ColumnEdgeView, i: int)
    requires
        0 <= i < es.len(),
        c.from_columns.len() > 0,
    ensures
        ({
            let r = with_attributed(es, job, c);
            &&& r.len() == es.len()
            &&& is_home(es[i], job, c) && !is_mapped_on(es[i], c.to_column.column)
                ==> r[i].column_lineage == es[i].column_lineage.push(c) && edge_grows(es[i], r[i])
            &&& !is_home(es[i], job, c) || is_mapped_on(es[i], c.to_column.column) ==> r[i]
                == es[i]
        }),
{
    let r = with_attributed(es, job, c);
    assert(reads_from(c, es[i].from) == exists|s: int|
        0 <= s < c.from_columns.len() && (#[trigger] c.from_columns[s]).dataset == es[i].from);
    assert(has_target(es[i].column_lineage, c.to_column.column) == is_mapped_on(
        es[i],
        c.to_column.column,
    ));
}


/// True when the file is one of the module and has constants.
pub open spec fn has_constants(f: SourceFileView, module: Seq<char>) -> bool {
    f.module == module && constants_in(f.source) != Map::<Seq<char>, Seq<char>>::empty()
}

proof fn last_file_counts_upto(fs: Seq<SourceFileView>, n: int, i: int, module: Seq<char>)
    requires
        0 <= i < n <= fs.len(),
        has_constants(fs[i], module),
        forall|j: int| i < j < n ==> !has_constants(#[trigger] fs[j], module),
    ensures
        constants_upto(fs, n).contains_key(module),
        constants_upto(fs, n)[module] == constants_in(fs[i].source),
    decreases n,
{
    if i < n - 1 {
        assert(!has_constants(fs[n - 1], module));
        last_file_counts_upto(fs, n - 1, i, module);
    }
}

/// The constants of a module are all those of its file, the last where there
/// is more than one with constants.
pub proof fn module_has_the_constants_of_its_file(
    fs: Seq<SourceFileView>,
    i: int,
    module: Seq<char>,
)
    requires
        0 <= i < fs.len(),
        has_constants(fs[i], module),
        forall|j: int| i < j < fs.len() ==> !has_constants(#[trigger] fs[j], module),
    ensures
        constants_upto(fs, fs.len() as int).contains_key(module),
        constants_upto(fs, fs.len() as int)[module] == constants_in(fs[i].source),
{
    last_file_counts_upto(fs, fs.len() as int, i, module);
}

} // verus!

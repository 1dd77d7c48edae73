//! Scanning: from the sources of a repository to a document.

use vstd::prelude::*;

use crate::columns::{
    build_output_column_edges, code_fact, gap_filled, gap_filled_fills, input_of_table, is_mapped,
    is_table, names_table, only_fills_gaps, output_mappings,
};
use crate::collections::StrSet;
use crate::decls::{
    constants_of, ModuleConfig, ModuleConfigView, ScannedModule, ScannedModuleView, TaskDecl,
    TaskDeclView,
};
use crate::finish::{column_warnings, finalize, finished_document, warnings_rest_on_contents};
use crate::flow::{InferredColumn, InferredColumnView};
use crate::graph::with_job_edges;
use crate::model::{
    either, engine_named, finding, new_edge, ColumnEdge, ColumnEdgeView, ColumnRef, ColumnRefView,
    DiagLevel, Diagnostic, DiagnosticView, DocumentView, Edge, EdgeView, Engine, SourceLoc,
    SourceLocView, Transform, TransformView, WeaveDocument,
};
use crate::origin::{Confidence, Origin, OriginView, CODE_DATAFLOW_CONFIDENCE};
use crate::pyast::python_parse;
use crate::python::{collect_module_constants, extract_task_decls_with, scanned_source, ConstTable};
use crate::source::fits;
use crate::sql::SqlColumnLineage;
use crate::tasks::{
    at, attach, attached, discovered_fact, discovered_origin, add_endpoints, is_read_from,
    reads_from, scan_task, wire, wiring, with_endpoints, with_task, ScanOptions, ScanOptionsView,
    Wiring, WiringView,
};
use crate::text::{
    first_pieces, group_views, last_piece, last_piece_of, opt_text, opt_view, replicate_opt,
    split_last, str_eq, views, Replicate,
};
use crate::validate::{findings, findings_rest_on_contents, validate};

verus! {

// ────────────────────────────── attribution ───────────────────────────

/// How many of the first `n` datasets the table name stands for.
pub open spec fn matches_upto(ends: Seq<Seq<char>>, table: Seq<char>, n: int) -> nat
    decreases n,
{
    if n <= 0 {
        0
    } else {
        matches_upto(ends, table, n - 1) + if names_table(ends[n - 1], table) {
            1nat
        } else {
            0nat
        }
    }
}

/// The end of a task that a table name means: the only end there is, or else
/// the only one that the name stands for.
pub open spec fn meant_end(ends: Seq<Seq<char>>, table: Option<Seq<char>>) -> Option<Seq<char>> {
    if ends.len() == 1 {
        Some(ends[0])
    } else {
        match table {
            Some(t) => if matches_upto(ends, t, ends.len() as int) == 1 {
                input_of_table(t, ends, 0)
            } else {
                None
            },
            None => None,
        }
    }
}

/// The table in front of a source column.
pub open spec fn table_in(src: Seq<char>) -> Option<Seq<char>> {
    if src.contains('.') {
        Some(first_pieces(src, '.'))
    } else {
        None
    }
}

/// True when the ends of a column are known: each source means an input, and
/// its table means an output.
pub open spec fn ends_known(c: InferredColumnView, w: WiringView) -> bool {
    meant_end(w.outputs, c.output_table) is Some && forall|i: int|
        0 <= i < c.sources.len() ==> meant_end(w.inputs, table_in(#[trigger] c.sources[i])) is Some
}

/// The mapping of a column between the ends that it means.
pub open spec fn attributed_mapping(c: InferredColumnView, w: WiringView, loc: SourceLocView) -> ColumnEdgeView {
    ColumnEdgeView {
        from_columns: Seq::new(
            c.sources.len(),
            |i: int|
                ColumnRefView {
                    dataset: meant_end(w.inputs, table_in(c.sources[i]))->0,
                    column: last_piece(c.sources[i], '.'),
                },
        ),
        to_column: ColumnRefView {
            dataset: meant_end(w.outputs, c.output_table)->0,
            column: c.target,
        },
        function: c.function,
        transform_type: c.transform_type,
        origin: OriginView { location: Some(loc), ..code_fact() },
    }
}

/// True when a mapping belongs to the edge of a job.
pub open spec fn edge_takes(e: EdgeView, job: Seq<char>, c: ColumnEdgeView) -> bool {
    e.job == Some(job) && e.to == c.to_column.dataset && (c.from_columns.len() == 0 || reads_from(
        c,
        e.from,
    ))
}

/// True when an edge of the job takes the mapping.
pub open spec fn has_home(es: Seq<EdgeView>, job: Seq<char>, c: ColumnEdgeView) -> bool {
    exists|i: int| 0 <= i < es.len() && edge_takes(#[trigger] es[i], job, c)
}

/// True when a mapping goes to the edge at `i`; one without sources goes to
/// the first edge only.
pub open spec fn goes_to(es: Seq<EdgeView>, job: Seq<char>, c: ColumnEdgeView, i: int) -> bool {
    edge_takes(es[i], job, c) && (c.from_columns.len() > 0 || forall|k: int|
        0 <= k < i ==> !edge_takes(#[trigger] es[k], job, c))
}

/// An edge after a mapping went to it, unless it maps the column.
pub open spec fn edge_with(e: EdgeView, c: ColumnEdgeView) -> EdgeView {
    EdgeView { column_lineage: gap_filled(e.column_lineage, c), ..e }
}

/// The edges after a mapping went to those that take it.
pub open spec fn with_attributed(es: Seq<EdgeView>, job: Seq<char>, c: ColumnEdgeView) -> Seq<EdgeView> {
    Seq::new(
        es.len(),
        |i: int|
            if goes_to(es, job, c, i) {
                edge_with(es[i], c)
            } else {
                es[i]
            },
    )
}

/// The edges after the first `n` mappings.
pub open spec fn all_attributed(
    es: Seq<EdgeView>,
    job: Seq<char>,
    ces: Seq<ColumnEdgeView>,
    n: int,
) -> Seq<EdgeView>
    decreases n,
{
    if n <= 0 {
        es
    } else {
        with_attributed(all_attributed(es, job, ces, n - 1), job, ces[n - 1])
    }
}

/// The mappings of the columns of a function between the ends of its caller.
pub open spec fn attributed_mappings(d: TaskDeclView, w: WiringView, loc: SourceLocView) -> Seq<
    ColumnEdgeView,
> {
    Seq::new(d.inferred_columns.len(), |i: int| attributed_mapping(d.inferred_columns[i], w, loc))
}

/// True when every column found in a function can go to an edge of its caller.
pub open spec fn attributable(
    d: TaskDeclView,
    w: WiringView,
    loc: SourceLocView,
    es: Seq<EdgeView>,
) -> bool {
    d.inferred_columns.len() > 0 && forall|i: int|
        0 <= i < d.inferred_columns.len() ==> ends_known(#[trigger] d.inferred_columns[i], w)
            && has_home(es, w.job, attributed_mapping(d.inferred_columns[i], w, loc))
}

fn count_matches(ends: &Vec<String>, table: &str) -> (r: usize)
    ensures
        r == matches_upto(views(ends@), table@, ends@.len() as int),
{
    let ghost ev = views(ends@);
    let mut n: usize = 0;
    let mut i: usize = 0;
    while i < ends.len()
        invariant
            i <= ends@.len(),
            n <= i,
            ev == views(ends@),
            n == matches_upto(ev, table@, i as int),
        decreases ends@.len() - i,
    {
        assert(ev[i as int] == ends@[i as int]@);
        if is_table(ends[i].as_str(), table) {
            n = n + 1;
        }
        i = i + 1;
    }
    n
}

fn first_match(ends: &Vec<String>, table: &str) -> (r: Option<String>)
    ensures
        opt_text(r) == input_of_table(table@, views(ends@), 0),
{
    let ghost ev = views(ends@);
    let mut i: usize = 0;
    while i < ends.len()
        invariant
            i <= ends@.len(),
            ev == views(ends@),
            input_of_table(table@, ev, 0) == input_of_table(table@, ev, i as int),
        decreases ends@.len() - i,
    {
        assert(ev[i as int] == ends@[i as int]@);
        if is_table(ends[i].as_str(), table) {
            return Some(ends[i].clone());
        }
        i = i + 1;
    }
    None
}

fn end_of(ends: &Vec<String>, table: &Option<String>) -> (r: Option<String>)
    ensures
        opt_text(r) == meant_end(views(ends@), opt_text(*table)),
{
    if ends.len() == 1 {
        assert(views(ends@)[0] == ends@[0]@);
        return Some(ends[0].clone());
    }
    match table {
        Some(t) => if count_matches(ends, t.as_str()) == 1 {
            first_match(ends, t.as_str())
        } else {
            None
        },
        None => None,
    }
}

fn resolve_column(c: &InferredColumn, w: &Wiring, loc: &SourceLoc) -> (r: Option<ColumnEdge>)
    ensures
        match r {
            Some(e) => ends_known(c@, w@) && e@ == attributed_mapping(c@, w@, loc@),
            None => !ends_known(c@, w@),
        },
{
    let to = match end_of(&w.outputs, &c.output_table) {
        Some(t) => t,
        None => {
            return None;
        },
    };
    let mut from: Vec<ColumnRef> = Vec::new();
    let mut i: usize = 0;
    while i < c.sources.len()
        invariant
            i <= c.sources@.len(),
            from@.len() == i,
            forall|k: int|
                0 <= k < i ==> meant_end(w@.inputs, table_in(#[trigger] c@.sources[k])) is Some,
            forall|k: int|
                0 <= k < i ==> (#[trigger] from@[k])@ == (ColumnRefView {
                    dataset: meant_end(w@.inputs, table_in(c@.sources[k]))->0,
                    column: last_piece(c@.sources[k], '.'),
                }),
        decreases c.sources@.len() - i,
    {
        let src = c.sources[i].as_str();
        assert(c@.sources[i as int] == src@);
        let table = match split_last(src, '.') {
            Some((t, _)) => Some(t),
            None => None,
        };
        let column = last_piece_of(src, '.');
        match end_of(&w.inputs, &table) {
            Some(d) => {
                from.push(ColumnRef::new(d.as_str(), column.as_str()));
            },
            None => {
                assert(meant_end(w@.inputs, table_in(c@.sources[i as int])) is None);
                return None;
            },
        }
        i = i + 1;
    }
    let mut e = ColumnEdge::new(from, ColumnRef::new(to.as_str(), c.target.as_str()));
    e.function = replicate_opt(&c.function);
    e.transform_type = c.transform_type;
    e.origin = Origin::inferred_code(Confidence { bits: CODE_DATAFLOW_CONFIDENCE }).with_note(
        "pandas/Spark dataflow",
    ).with_location(loc.replicate());
    assert(e@ == attributed_mapping(c@, w@, loc@));
    Some(e)
}

fn takes(e: &Edge, job: &str, c: &ColumnEdge) -> (r: bool)
    ensures
        r == edge_takes(e@, job@, c@),
{
    let own = match &e.job {
        Some(j) => str_eq(j.as_str(), job),
        None => false,
    };
    own && str_eq(e.to.as_str(), c.to_column.dataset.as_str()) && (c.from_columns.len() == 0
        || is_read_from(c, e.from.as_str()))
}

fn find_home(es: &Vec<Edge>, job: &str, c: &ColumnEdge) -> (r: bool)
    ensures
        r == has_home(views(es@), job@, c@),
{
    let ghost ev = views(es@);
    let mut i: usize = 0;
    while i < es.len()
        invariant
            i <= es@.len(),
            ev == views(es@),
            forall|k: int| 0 <= k < i ==> !edge_takes(#[trigger] ev[k], job@, c@),
        decreases es@.len() - i,
    {
        assert(ev[i as int] == es@[i as int]@);
        if takes(&es[i], job, c) {
            return true;
        }
        i = i + 1;
    }
    false
}

/// The mappings of a function's columns, when all of them can go to edges of
/// the caller.
fn attribute(decl: &TaskDecl, w: &Wiring, loc: &SourceLoc, es: &Vec<Edge>) -> (r: Option<
    Vec<ColumnEdge>,
>)
    ensures
        match r {
            Some(ces) => attributable(decl@, w@, loc@, views(es@)) && views(ces@)
                == attributed_mappings(decl@, w@, loc@),
            None => !attributable(decl@, w@, loc@, views(es@)),
        },
{
    if decl.inferred_columns.len() == 0 {
        return None;
    }
    let ghost ev = views(es@);
    let mut out: Vec<ColumnEdge> = Vec::new();
    let mut i: usize = 0;
    while i < decl.inferred_columns.len()
        invariant
            i <= decl.inferred_columns@.len(),
            out@.len() == i,
            ev == views(es@),
            forall|k: int|
                0 <= k < i ==> ends_known(#[trigger] decl@.inferred_columns[k], w@) && has_home(
                    ev,
                    w@.job,
                    attributed_mapping(decl@.inferred_columns[k], w@, loc@),
                ),
            forall|k: int|
                0 <= k < i ==> (#[trigger] out@[k])@ == attributed_mapping(
                    decl@.inferred_columns[k],
                    w@,
                    loc@,
                ),
        decreases decl.inferred_columns@.len() - i,
    {
        let ghost c = decl@.inferred_columns[i as int];
        assert(c == decl.inferred_columns@[i as int]@);
        match resolve_column(&decl.inferred_columns[i], w, loc) {
            Some(e) => {
                if !find_home(es, w.job.as_str(), &e) {
                    assert(!has_home(ev, w@.job, attributed_mapping(c, w@, loc@)));
                    return None;
                }
                out.push(e);
            },
            None => {
                assert(!ends_known(c, w@));
                return None;
            },
        }
        i = i + 1;
    }
    assert(views(out@) =~= attributed_mappings(decl@, w@, loc@));
    Some(out)
}

fn place_mapping(es: &mut Vec<Edge>, job: &str, c: &ColumnEdge)
    ensures
        views(final(es)@) == with_attributed(views(old(es)@), job@, c@),
{
    broadcast use group_views;

    let ghost before = views(es@);
    let n: usize = es.len();
    let mut taken = false;
    let mut i: usize = 0;
    while i < n
        invariant
            i <= n,
            n == before.len(),
            es@.len() == n,
            taken == (exists|k: int| 0 <= k < i && edge_takes(#[trigger] before[k], job@, c@)),
            forall|k: int|
                0 <= k < i ==> #[trigger] views(es@)[k] == with_attributed(before, job@, c@)[k],
            forall|k: int| i <= k < n ==> #[trigger] views(es@)[k] == before[k],
        decreases n - i,
    {
        broadcast use group_views;

        let ghost now = views(es@);
        assert(now[i as int] == before[i as int]);
        if takes(&es[i], job, c) {
            if c.from_columns.len() > 0 || !taken {
                assert(goes_to(before, job@, c@, i as int));
                if !is_mapped(&es[i].column_lineage, c.to_column.column.as_str()) {
                    es[i].column_lineage.push(c.replicate());
                }
                assert(views(es@) =~= now.update(i as int, edge_with(before[i as int], c@)));
            } else {
                assert(!goes_to(before, job@, c@, i as int));
            }
            taken = true;
        } else {
            assert(!goes_to(before, job@, c@, i as int));
        }
        i = i + 1;
    }
    assert(views(es@) =~= with_attributed(before, job@, c@));
}

fn place_mappings(es: &mut Vec<Edge>, job: &str, ces: &Vec<ColumnEdge>)
    ensures
        views(final(es)@) == all_attributed(
            views(old(es)@),
            job@,
            views(ces@),
            ces@.len() as int,
        ),
{
    let ghost before = views(es@);
    let ghost cv = views(ces@);
    let mut i: usize = 0;
    while i < ces.len()
        invariant
            i <= ces@.len(),
            cv == views(ces@),
            views(es@) == all_attributed(before, job@, cv, i as int),
        decreases ces@.len() - i,
    {
        assert(cv[i as int] == ces@[i as int]@);
        place_mapping(es, job, &ces[i]);
        i = i + 1;
    }
}

// ──────────────────────────── column discovery ────────────────────────

/// How a function that only columns were found in is wired.
pub open spec fn discovery_wiring(path: Seq<char>, d: TaskDeclView, c: ModuleConfigView) -> WiringView {
    let engine = match d.engine {
        Some(e) => engine_named(e),
        None => Engine::Python,
    };
    let w = wiring(path, d, c);
    WiringView { engine, origin: discovered_fact(engine, w.loc), unsure: Set::empty(), ..w }
}

/// An edge that only carries columns.
pub open spec fn discovery_edge(
    d: TaskDeclView,
    w: WiringView,
    job: Option<Seq<char>>,
    input: Seq<char>,
    output: Seq<char>,
    columns: Seq<ColumnEdgeView>,
) -> EdgeView {
    EdgeView {
        job,
        transform: TransformView { kind: d.transform, description: d.description, sql: None },
        column_lineage: columns,
        origin: w.origin,
        column_discovery: true,
        ..new_edge(input, output)
    }
}

/// The edges that carry columns from the first `n` inputs to an output.
pub open spec fn discovery_edges_into(
    d: TaskDeclView,
    w: WiringView,
    job: Option<Seq<char>>,
    output: Seq<char>,
    ces: Seq<ColumnEdgeView>,
    n: int,
) -> Seq<EdgeView>
    decreases n,
{
    if n <= 0 {
        Seq::empty()
    } else {
        let s = discovery_edges_into(d, w, job, output, ces, n - 1);
        let input = w.inputs[n - 1];
        let columns = attached(ces, input, false, ces.len() as int);
        if input == output || columns.len() == 0 {
            s
        } else {
            s.push(discovery_edge(d, w, job, input, output, columns))
        }
    }
}

/// The edges that carry columns to the first `n` outputs.
pub open spec fn discovery_edges(d: TaskDeclView, w: WiringView, job: Option<Seq<char>>, n: int) -> Seq<
    EdgeView,
>
    decreases n,
{
    if n <= 0 {
        Seq::empty()
    } else {
        let output = w.outputs[n - 1];
        discovery_edges(d, w, job, n - 1) + discovery_edges_into(
            d,
            w,
            job,
            output,
            output_mappings(d, output, w.inputs, None, true, w.outputs.len() == 1),
            w.inputs.len() as int,
        )
    }
}

/// The first declared task from `k` on that has the name.
pub open spec fn declared_named(tasks: Seq<TaskDeclView>, name: Seq<char>, k: int) -> Option<TaskDeclView>
    decreases tasks.len() - k,
{
    if k >= tasks.len() {
        None
    } else if tasks[k].task_name == name && !tasks[k].discovered && !tasks[k].column_only {
        Some(tasks[k])
    } else {
        declared_named(tasks, name, k + 1)
    }
}

/// How the declared task that calls a function is wired.
pub open spec fn caller_wiring(
    path: Seq<char>,
    d: TaskDeclView,
    tasks: Seq<TaskDeclView>,
    c: ModuleConfigView,
) -> Option<WiringView> {
    match d.caller {
        Some(name) => match declared_named(tasks, name, 0) {
            Some(t) => Some(wiring(path, t, c)),
            None => None,
        },
        None => None,
    }
}

/// The document after columns that go to no edge of a caller: they get
/// datasets and edges of their own, and no job.
pub open spec fn with_frames(
    d: TaskDeclView,
    w: WiringView,
    job: Option<Seq<char>>,
    doc: DocumentView,
) -> DocumentView {
    if w.inputs.len() == 0 || w.outputs.len() == 0 {
        doc
    } else {
        DocumentView {
            datasets: with_endpoints(doc.datasets, w),
            edges: doc.edges + discovery_edges(d, w, job, w.outputs.len() as int),
            ..doc
        }
    }
}

/// The document after the columns of a function.
pub open spec fn with_discovery(
    path: Seq<char>,
    d: TaskDeclView,
    tasks: Seq<TaskDeclView>,
    c: ModuleConfigView,
    o: ScanOptionsView,
    doc: DocumentView,
) -> DocumentView {
    let loc = SourceLocView { file: path, line: d.line };
    let w = discovery_wiring(path, d, c);
    if !o.enable_code_inference {
        doc
    } else {
        match caller_wiring(path, d, tasks, c) {
            Some(caller) => if attributable(d, caller, loc, doc.edges) {
                DocumentView {
                    edges: all_attributed(
                        doc.edges,
                        caller.job,
                        attributed_mappings(d, caller, loc),
                        d.inferred_columns.len() as int,
                    ),
                    ..doc
                }
            } else {
                with_frames(d, w, Some(caller.job), doc)
            },
            None => with_frames(d, w, None, doc),
        }
    }
}

fn wire_discovery(path: &str, decl: &TaskDecl, config: &ModuleConfig) -> (r: Wiring)
    ensures
        r@ == discovery_wiring(path@, decl@, config@),
{
    let engine = match &decl.engine {
        Some(e) => Engine::from_str_loose(e.as_str()),
        None => Engine::Python,
    };
    let w = wire(path, decl, config);
    let origin = discovered_origin(engine, &w.loc);
    Wiring { engine, origin, unsure: StrSet::new(), ..w }
}

fn build_discovery_edges_into(
    decl: &TaskDecl,
    w: &Wiring,
    job: &Option<String>,
    output: &str,
    ces: &Vec<ColumnEdge>,
) -> (r: Vec<Edge>)
    ensures
        views(r@) == discovery_edges_into(
            decl@,
            w@,
            opt_text(*job),
            output@,
            views(ces@),
            w@.inputs.len() as int,
        ),
{
    broadcast use group_views;

    let ghost cv = views(ces@);
    let mut out: Vec<Edge> = Vec::new();
    let mut i: usize = 0;
    while i < w.inputs.len()
        invariant
            i <= w.inputs@.len(),
            cv == views(ces@),
            views(out@) == discovery_edges_into(
                decl@,
                w@,
                opt_text(*job),
                output@,
                cv,
                i as int,
            ),
        decreases w.inputs@.len() - i,
    {
        broadcast use group_views;

        let input = w.inputs[i].as_str();
        assert(w@.inputs[i as int] == input@);
        let columns = attach(ces, input, false);
        if !str_eq(input, output) && columns.len() > 0 {
            let mut e = Edge::new(input, output);
            e.job = replicate_opt(job);
            e.transform = Transform {
                kind: replicate_opt(&decl.transform),
                description: replicate_opt(&decl.description),
                sql: None,
            };
            e.column_lineage = columns;
            e.origin = w.origin.replicate();
            e.column_discovery = true;
            out.push(e);
        }
        i = i + 1;
    }
    out
}

fn build_discovery_edges(decl: &TaskDecl, w: &Wiring, job: &Option<String>) -> (r: Vec<Edge>)
    ensures
        views(r@) == discovery_edges(decl@, w@, opt_text(*job), w@.outputs.len() as int),
{
    broadcast use group_views;

    let single = w.outputs.len() == 1;
    let none: Option<SqlColumnLineage> = None;
    let mut out: Vec<Edge> = Vec::new();
    let mut i: usize = 0;
    while i < w.outputs.len()
        invariant
            i <= w.outputs@.len(),
            none is None,
            single == (w@.outputs.len() == 1),
            views(out@) == discovery_edges(decl@, w@, opt_text(*job), i as int),
        decreases w.outputs@.len() - i,
    {
        broadcast use group_views;

        let output = w.outputs[i].as_str();
        assert(w@.outputs[i as int] == output@);
        let ces = build_output_column_edges(decl, output, &w.inputs, &none, true, single);
        let mut more = build_discovery_edges_into(decl, w, job, output, &ces);
        out.append(&mut more);
        i = i + 1;
    }
    out
}

fn add_frames(decl: &TaskDecl, w: &Wiring, job: Option<String>, doc: &mut WeaveDocument)
    ensures
        final(doc)@ == with_frames(decl@, w@, opt_text(job), old(doc)@),
{
    broadcast use group_views;

    if w.inputs.len() == 0 || w.outputs.len() == 0 {
        return;
    }
    add_endpoints(doc, w);
    let mut edges = build_discovery_edges(decl, w, &job);
    doc.edges.append(&mut edges);
}

fn wire_caller(path: &str, decl: &TaskDecl, tasks: &Vec<TaskDecl>, config: &ModuleConfig) -> (r: Option<
    Wiring,
>)
    ensures
        opt_view(r) == caller_wiring(path@, decl@, views(tasks@), config@),
{
    let name = match &decl.caller {
        Some(n) => n.as_str(),
        None => {
            return None;
        },
    };
    let ghost tv = views(tasks@);
    let mut i: usize = 0;
    while i < tasks.len()
        invariant
            i <= tasks@.len(),
            tv == views(tasks@),
            decl@.caller == Some(name@),
            declared_named(tv, name@, 0) == declared_named(tv, name@, i as int),
        decreases tasks@.len() - i,
    {
        assert(tv[i as int] == tasks@[i as int]@);
        if str_eq(tasks[i].task_name.as_str(), name) && !tasks[i].discovered
            && !tasks[i].column_only {
            return Some(wire(path, &tasks[i], config));
        }
        i = i + 1;
    }
    None
}

fn scan_column_discovery(
    path: &str,
    decl: &TaskDecl,
    tasks: &Vec<TaskDecl>,
    config: &ModuleConfig,
    opts: &ScanOptions,
    doc: &mut WeaveDocument,
)
    ensures
        final(doc)@ == with_discovery(
            path@,
            decl@,
            views(tasks@),
            config@,
            opts@,
            old(doc)@,
        ),
{
    if !opts.enable_code_inference {
        return;
    }
    let loc = SourceLoc::new(path, decl.line);
    let w = wire_discovery(path, decl, config);
    match wire_caller(path, decl, tasks, config) {
        Some(caller) => match attribute(decl, &caller, &loc, &doc.edges) {
            Some(ces) => {
                let ghost before = doc@;
                place_mappings(&mut doc.edges, caller.job.as_str(), &ces);
                assert(ces@.len() == views(ces@).len());
                assert(doc@ == (DocumentView { edges: doc@.edges, ..before }));
            },
            None => {
                add_frames(decl, &w, Some(caller.job.clone()), doc);
            },
        },
        None => {
            add_frames(decl, &w, None, doc);
        },
    }
}

// ──────────────────────────────── a source ────────────────────────────

/// The document after one declaration of a module.
pub open spec fn with_decl(
    path: Seq<char>,
    d: TaskDeclView,
    tasks: Seq<TaskDeclView>,
    c: ModuleConfigView,
    o: ScanOptionsView,
    doc: DocumentView,
) -> DocumentView {
    if d.column_only {
        with_discovery(path, d, tasks, c, o, doc)
    } else {
        with_task(path, d, c, o, doc)
    }
}

/// The document after the first `n` declarations of a module.
pub open spec fn with_decls(
    path: Seq<char>,
    tasks: Seq<TaskDeclView>,
    c: ModuleConfigView,
    o: ScanOptionsView,
    doc: DocumentView,
    n: int,
) -> DocumentView
    decreases n,
{
    if n <= 0 {
        doc
    } else {
        with_decl(path, tasks[n - 1], tasks, c, o, with_decls(path, tasks, c, o, doc, n - 1))
    }
}

/// The configuration of a module, completed with the options of the scan.
pub open spec fn defaulted(c: ModuleConfigView, o: ScanOptionsView) -> ModuleConfigView {
    ModuleConfigView {
        service: either(c.service, o.service),
        database: either(c.database, o.database),
        schema: either(c.schema, o.schema),
        dag: c.dag,
    }
}

/// The document after a module.
pub open spec fn with_module(
    path: Seq<char>,
    m: ScannedModuleView,
    o: ScanOptionsView,
    doc: DocumentView,
) -> DocumentView {
    with_decls(path, m.tasks, defaulted(m.config, o), o, doc, m.tasks.len() as int)
}

/// Adds what a module declares to a document.
pub fn scan_module(path: &str, module: ScannedModule, opts: &ScanOptions, doc: &mut WeaveDocument)
    ensures
        final(doc)@ == with_module(path@, module@, opts@, old(doc)@),
{
    let ghost m = module@;
    let mut config = module.config;
    if config.service.is_none() {
        config.service = replicate_opt(&opts.service);
    }
    if config.database.is_none() {
        config.database = replicate_opt(&opts.database);
    }
    if config.schema.is_none() {
        config.schema = replicate_opt(&opts.schema);
    }
    assert(config@ == defaulted(m.config, opts@));
    let tasks = module.tasks;
    let ghost before = doc@;
    let mut i: usize = 0;
    while i < tasks.len()
        invariant
            i <= tasks@.len(),
            m.tasks == views(tasks@),
            doc@ == with_decls(path@, m.tasks, config@, opts@, before, i as int),
        decreases tasks@.len() - i,
    {
        assert(m.tasks[i as int] == tasks@[i as int]@);
        if tasks[i].column_only {
            scan_column_discovery(path, &tasks[i], &tasks, &config, opts, doc);
        } else {
            scan_task(path, &tasks[i], &config, opts, doc);
        }
        i = i + 1;
    }
}

/// The constants of the modules that a scan knows.
pub type ConstMap = Map<Seq<char>, Map<Seq<char>, Seq<char>>>;

fn scan_source_with_table(
    path: &str,
    own_module: &str,
    source: &str,
    table: &ConstTable,
    opts: &ScanOptions,
    doc: &mut WeaveDocument,
) -> (r: Result<(), String>)
    requires
        fits(source@),
    ensures
        match scanned_source(source@, own_module@, table@) {
            Ok(m) => r is Ok && final(doc)@ == with_module(path@, m, opts@, old(doc)@),
            Err(e) => r matches Err(x) && x@ == e && final(doc)@ == old(doc)@,
        },
{
    match extract_task_decls_with(source, own_module, table) {
        Ok(module) => {
            scan_module(path, module, opts, doc);
            Ok(())
        },
        Err(e) => Err(e),
    }
}

/// Scans one source text into a document. Only constants of the text itself
/// are known.
pub fn scan_source(path: &str, source: &str, opts: &ScanOptions, doc: &mut WeaveDocument) -> (r: Result<
    (),
    String,
>)
    requires
        fits(source@),
    ensures
        match scanned_source(source@, Seq::empty(), Map::empty()) {
            Ok(m) => r is Ok && final(doc)@ == with_module(path@, m, opts@, old(doc)@),
            Err(e) => r matches Err(x) && x@ == e && final(doc)@ == old(doc)@,
        },
{
    proof {
        reveal_strlit("");
        assert(""@ =~= Seq::<char>::empty());
    }
    scan_source_with_table(path, "", source, &ConstTable::default(), opts, doc)
}

// ────────────────────────────── a repository ──────────────────────────

/// A source file that was read.
#[derive(Debug, Clone)]
pub struct SourceFile {
    pub path: String,
    /// The dotted path that it is imported under.
    pub module: String,
    pub source: String,
}

#[verifier::ext_equal]
pub struct SourceFileView {
    pub path: Seq<char>,
    pub module: Seq<char>,
    pub source: Seq<char>,
}

impl View for SourceFile {
    type V = SourceFileView;

    open spec fn view(&self) -> SourceFileView {
        SourceFileView { path: self.path@, module: self.module@, source: self.source@ }
    }
}

/// A source file that could not be read.
#[derive(Debug, Clone)]
pub struct UnreadFile {
    pub path: String,
    pub error: String,
}

#[verifier::ext_equal]
pub struct UnreadFileView {
    pub path: Seq<char>,
    pub error: Seq<char>,
}

impl View for UnreadFile {
    type V = UnreadFileView;

    open spec fn view(&self) -> UnreadFileView {
        UnreadFileView { path: self.path@, error: self.error@ }
    }
}

/// The place of a whole file.
pub open spec fn whole_file(path: Seq<char>) -> SourceLocView {
    SourceLocView { file: path, line: None }
}

/// The error about a file that could not be read.
pub open spec fn read_error(f: UnreadFileView) -> DiagnosticView {
    at(
        finding(DiagLevel::Error, "E_READ"@, "could not read "@ + f.path + ": "@ + f.error),
        whole_file(f.path),
    )
}

pub open spec fn read_errors(fs: Seq<UnreadFileView>) -> Seq<DiagnosticView> {
    Seq::new(fs.len(), |i: int| read_error(fs[i]))
}

/// The error about a file that could not be scanned.
pub open spec fn parse_error(path: Seq<char>, e: Seq<char>) -> DiagnosticView {
    at(
        finding(DiagLevel::Error, "E_PARSE"@, "failed to scan "@ + path + ": "@ + e),
        whole_file(path),
    )
}

/// The constants of a source text; none when it cannot be parsed.
pub open spec fn constants_in(source: Seq<char>) -> Map<Seq<char>, Seq<char>> {
    match python_parse(source) {
        Ok(s) => constants_of(s),
        Err(_) => Map::empty(),
    }
}

/// The constants of the first `n` files, by module.
pub open spec fn constants_upto(fs: Seq<SourceFileView>, n: int) -> ConstMap
    decreases n,
{
    if n <= 0 {
        Map::empty()
    } else {
        let m = constants_upto(fs, n - 1);
        let c = constants_in(fs[n - 1].source);
        if c == Map::<Seq<char>, Seq<char>>::empty() {
            m
        } else {
            m.insert(fs[n - 1].module, c)
        }
    }
}

/// The document after a file: what it declares, or why it could not be
/// scanned.
pub open spec fn with_file(
    f: SourceFileView,
    table: ConstMap,
    o: ScanOptionsView,
    doc: DocumentView,
) -> DocumentView {
    match scanned_source(f.source, f.module, table) {
        Ok(m) => with_module(f.path, m, o, doc),
        Err(e) => DocumentView { diagnostics: doc.diagnostics.push(parse_error(f.path, e)), ..doc },
    }
}

/// The document after the first `n` files.
pub open spec fn with_files(
    fs: Seq<SourceFileView>,
    table: ConstMap,
    o: ScanOptionsView,
    doc: DocumentView,
    n: int,
) -> DocumentView
    decreases n,
{
    if n <= 0 {
        doc
    } else {
        with_file(fs[n - 1], table, o, with_files(fs, table, o, doc, n - 1))
    }
}

/// The document that a scan starts with.
pub open spec fn started(unread: Seq<UnreadFileView>, o: ScanOptionsView) -> DocumentView {
    DocumentView {
        weave_version: "0.1"@,
        producer: o.producer,
        generated_at: None,
        namespace: o.namespace,
        datasets: Seq::empty(),
        jobs: Seq::empty(),
        edges: Seq::empty(),
        diagnostics: read_errors(unread),
    }
}

/// The document of a repository before it is completed.
pub open spec fn collected(
    fs: Seq<SourceFileView>,
    unread: Seq<UnreadFileView>,
    o: ScanOptionsView,
) -> DocumentView {
    let n = fs.len() as int;
    with_files(fs, constants_upto(fs, n), o, started(unread, o), n)
}

/// What was collected, completed: the edges of jobs, the pass over the whole,
/// and the findings of validation.
pub open spec fn completed(a: DocumentView, o: ScanOptionsView) -> DocumentView {
    let b = DocumentView { edges: with_job_edges(a), ..a };
    let c = finished_document(b, o.enable_code_inference);
    DocumentView { diagnostics: c.diagnostics + findings(c), ..c }
}

/// The document of a repository: the files one after the other, completed.
pub open spec fn repository(
    fs: Seq<SourceFileView>,
    unread: Seq<UnreadFileView>,
    o: ScanOptionsView,
) -> DocumentView {
    completed(collected(fs, unread, o), o)
}

fn report_unread(unread: &Vec<UnreadFile>) -> (r: Vec<Diagnostic>)
    ensures
        views(r@) == read_errors(views(unread@)),
{
    let ghost uv = views(unread@);
    let mut out: Vec<Diagnostic> = Vec::new();
    let mut i: usize = 0;
    while i < unread.len()
        invariant
            i <= unread@.len(),
            out@.len() == i,
            uv == views(unread@),
            forall|k: int| 0 <= k < i ==> (#[trigger] out@[k])@ == read_error(uv[k]),
        decreases unread@.len() - i,
    {
        assert(uv[i as int] == unread@[i as int]@);
        let mut m = "could not read ".to_owned();
        m.append(unread[i].path.as_str());
        m.append(": ");
        m.append(unread[i].error.as_str());
        out.push(
            Diagnostic::error("E_READ", m.as_str()).at(
                SourceLoc::new(unread[i].path.as_str(), None),
            ),
        );
        i = i + 1;
    }
    assert(views(out@) =~= read_errors(uv));
    out
}

fn table_of(files: &Vec<SourceFile>) -> (r: ConstTable)
    requires
        forall|i: int| 0 <= i < files@.len() ==> fits((#[trigger] files@[i]).source@),
    ensures
        r@ == constants_upto(views(files@), files@.len() as int),
{
    let ghost fv = views(files@);
    let mut table = ConstTable::default();
    let mut i: usize = 0;
    while i < files.len()
        invariant
            i <= files@.len(),
            fv == views(files@),
            forall|k: int| 0 <= k < files@.len() ==> fits((#[trigger] files@[k]).source@),
            table@ == constants_upto(fv, i as int),
        decreases files@.len() - i,
    {
        let f = &files[i];
        assert(fv[i as int] == f@);
        let consts = collect_module_constants(f.source.as_str());
        table.insert_module(f.module.as_str(), consts);
        i = i + 1;
    }
    table
}

fn report_unparsed(path: &str, e: &str) -> (r: Diagnostic)
    ensures
        r@ == parse_error(path@, e@),
{
    let mut m = "failed to scan ".to_owned();
    m.append(path);
    m.append(": ");
    m.append(e);
    Diagnostic::error("E_PARSE", m.as_str()).at(SourceLoc::new(path, None))
}

fn scan_file(f: &SourceFile, table: &ConstTable, opts: &ScanOptions, doc: &mut WeaveDocument)
    requires
        fits(f.source@),
    ensures
        final(doc)@ == with_file(f@, table@, opts@, old(doc)@),
{
    broadcast use group_views;

    match scan_source_with_table(
        f.path.as_str(),
        f.module.as_str(),
        f.source.as_str(),
        table,
        opts,
        doc,
    ) {
        Ok(_) => {},
        Err(e) => {
            doc.diagnostics.push(report_unparsed(f.path.as_str(), e.as_str()));
        },
    }
}

fn collect_files(files: &Vec<SourceFile>, unread: &Vec<UnreadFile>, opts: &ScanOptions) -> (r:
    WeaveDocument)
    requires
        forall|i: int| 0 <= i < files@.len() ==> fits((#[trigger] files@[i]).source@),
    ensures
        r@ == collected(views(files@), views(unread@), opts@),
{
    let ghost fv = views(files@);
    let mut doc = WeaveDocument::new(opts.namespace.as_str(), opts.producer.as_str());
    doc.diagnostics = report_unread(unread);
    let ghost start = doc@;
    assert(start == started(views(unread@), opts@));
    let table = table_of(files);
    let mut i: usize = 0;
    while i < files.len()
        invariant
            i <= files@.len(),
            fv == views(files@),
            forall|k: int| 0 <= k < files@.len() ==> fits((#[trigger] files@[k]).source@),
            doc@ == with_files(fv, table@, opts@, start, i as int),
        decreases files@.len() - i,
    {
        assert(fv[i as int] == files@[i as int]@);
        scan_file(&files[i], &table, opts, &mut doc);
        i = i + 1;
    }
    doc
}

/// Scans the files of a repository. Datasets may be constants of other files,
/// whatever their order. A file that cannot be read or parsed is reported, and
/// the others are scanned all the same.
pub fn scan_files(files: &Vec<SourceFile>, unread: &Vec<UnreadFile>, opts: &ScanOptions) -> (r:
    WeaveDocument)
    requires
        forall|i: int| 0 <= i < files@.len() ==> fits((#[trigger] files@[i]).source@),
    ensures
        r@ == repository(views(files@), views(unread@), opts@),
{
    broadcast use group_views;

    let mut doc = collect_files(files, unread, opts);
    let _added: usize = doc.derive_edges_from_jobs();
    finalize(&mut doc, opts.enable_code_inference);
    let mut more = validate(&doc);
    doc.diagnostics.append(&mut more);
    doc
}

// ──────────────────────────────── laws ────────────────────────────────

/// True when `b` is the document `a` with one more finding.
pub open spec fn reports_besides(a: DocumentView, b: DocumentView, x: DiagnosticView) -> bool {
    &&& b.weave_version == a.weave_version
    &&& b.producer == a.producer
    &&& b.generated_at == a.generated_at
    &&& b.namespace == a.namespace
    &&& b.datasets == a.datasets
    &&& b.jobs == a.jobs
    &&& b.edges == a.edges
    &&& exists|j: int|
        0 <= j <= a.diagnostics.len() && b.diagnostics == #[trigger] a.diagnostics.insert(j, x)
}

/// One more finding stays one when both documents get the same contents and
/// the same findings behind theirs.
proof fn still_reports_besides(
    a: DocumentView,
    b: DocumentView,
    x: DiagnosticView,
    a2: DocumentView,
    b2: DocumentView,
    more: Seq<DiagnosticView>,
)
    requires
        reports_besides(a, b, x),
        a2.diagnostics == a.diagnostics + more,
        b2 == (DocumentView { diagnostics: b.diagnostics + more, ..a2 }),
    ensures
        reports_besides(a2, b2, x),
{
    let j = choose|j: int|
        0 <= j <= a.diagnostics.len() && b.diagnostics == #[trigger] a.diagnostics.insert(j, x);
    assert(b2.diagnostics =~= a2.diagnostics.insert(j, x));
}

proof fn module_still_besides(
    path: Seq<char>,
    tasks: Seq<TaskDeclView>,
    c: ModuleConfigView,
    o: ScanOptionsView,
    a: DocumentView,
    b: DocumentView,
    x: DiagnosticView,
    n: int,
)
    requires
        reports_besides(a, b, x),
    ensures
        reports_besides(
            with_decls(path, tasks, c, o, a, n),
            with_decls(path, tasks, c, o, b, n),
            x,
        ),
    decreases n,
{
    if n > 0 {
        module_still_besides(path, tasks, c, o, a, b, x, n - 1);
        let p = with_decls(path, tasks, c, o, a, n - 1);
        let q = with_decls(path, tasks, c, o, b, n - 1);
        let d = tasks[n - 1];
        let p2 = with_decl(path, d, tasks, c, o, p);
        let q2 = with_decl(path, d, tasks, c, o, q);
        let more = if d.column_only {
            Seq::<DiagnosticView>::empty()
        } else {
            with_task(path, d, c, o, DocumentView { diagnostics: Seq::empty(), ..p }).diagnostics
        };
        assert(p2.diagnostics =~= p.diagnostics + more);
        assert(q2.diagnostics =~= q.diagnostics + more);
        still_reports_besides(p, q, x, p2, q2, more);
    }
}

proof fn file_still_besides(
    f: SourceFileView,
    table: ConstMap,
    o: ScanOptionsView,
    a: DocumentView,
    b: DocumentView,
    x: DiagnosticView,
)
    requires
        reports_besides(a, b, x),
    ensures
        reports_besides(with_file(f, table, o, a), with_file(f, table, o, b), x),
{
    match scanned_source(f.source, f.module, table) {
        Ok(m) => {
            let c = defaulted(m.config, o);
            module_still_besides(f.path, m.tasks, c, o, a, b, x, m.tasks.len() as int);
        },
        Err(e) => {
            let more = seq![parse_error(f.path, e)];
            assert(a.diagnostics.push(more[0]) =~= a.diagnostics + more);
            assert(b.diagnostics.push(more[0]) =~= b.diagnostics + more);
            still_reports_besides(
                a,
                b,
                x,
                with_file(f, table, o, a),
                with_file(f, table, o, b),
                more,
            );
        },
    }
}

proof fn files_still_besides(
    fs: Seq<SourceFileView>,
    table: ConstMap,
    o: ScanOptionsView,
    a: DocumentView,
    b: DocumentView,
    x: DiagnosticView,
    n: int,
)
    requires
        reports_besides(a, b, x),
    ensures
        reports_besides(with_files(fs, table, o, a, n), with_files(fs, table, o, b, n), x),
    decreases n,
{
    if n > 0 {
        files_still_besides(fs, table, o, a, b, x, n - 1);
        file_still_besides(
            fs[n - 1],
            table,
            o,
            with_files(fs, table, o, a, n - 1),
            with_files(fs, table, o, b, n - 1),
            x,
        );
    }
}

proof fn completed_still_besides(
    a: DocumentView,
    b: DocumentView,
    o: ScanOptionsView,
    x: DiagnosticView,
)
    requires
        reports_besides(a, b, x),
    ensures
        reports_besides(completed(a, o), completed(b, o), x),
        completed(b, o).diagnostics.to_multiset() == completed(
            a,
            o,
        ).diagnostics.to_multiset().insert(x),
{
    let a1 = DocumentView { edges: with_job_edges(a), ..a };
    let b1 = DocumentView { edges: with_job_edges(b), ..b };
    let a2 = finished_document(a1, o.enable_code_inference);
    let b2 = finished_document(b1, o.enable_code_inference);
    let n = a2.edges.len() as int;
    let none = DocumentView { diagnostics: Seq::empty(), ..a2 };
    warnings_rest_on_contents(
        DocumentView { diagnostics: a1.diagnostics, ..a2 },
        none,
        n,
    );
    warnings_rest_on_contents(
        DocumentView { diagnostics: b1.diagnostics, ..b2 },
        none,
        n,
    );
    findings_rest_on_contents(a2, none);
    findings_rest_on_contents(b2, none);
    let more = column_warnings(none, n) + findings(none);
    assert(completed(a, o).diagnostics =~= a.diagnostics + more);
    assert(completed(b, o).diagnostics =~= b.diagnostics + more);
    still_reports_besides(a, b, x, completed(a, o), completed(b, o), more);
    let s = completed(a, o).diagnostics;
    let j = choose|j: int|
        0 <= j <= s.len() && completed(b, o).diagnostics == #[trigger] s.insert(j, x);
    vstd::seq_lib::to_multiset_insert(s, j, x);
}

/// A file in front of others leaves them as they are.
proof fn files_in_front(
    fs: Seq<SourceFileView>,
    k: int,
    f: SourceFileView,
    table: ConstMap,
    o: ScanOptionsView,
    doc: DocumentView,
    n: int,
)
    requires
        0 <= n <= k <= fs.len(),
    ensures
        constants_upto(fs.insert(k, f), n) == constants_upto(fs, n),
        with_files(fs.insert(k, f), table, o, doc, n) == with_files(fs, table, o, doc, n),
    decreases n,
{
    if n > 0 {
        files_in_front(fs, k, f, table, o, doc, n - 1);
        fs.insert_ensures(k, f);
        assert(fs.insert(k, f)[n - 1] == fs[n - 1]);
    }
}

/// A file that cannot be parsed has no constants that the others could use.
proof fn no_constants_of_unparsed(
    fs: Seq<SourceFileView>,
    k: int,
    f: SourceFileView,
    n: int,
)
    requires
        0 <= k <= n <= fs.len(),
        python_parse(f.source) is Err,
    ensures
        constants_upto(fs.insert(k, f), n + 1) == constants_upto(fs, n),
    decreases n,
{
    let g = fs.insert(k, f);
    fs.insert_ensures(k, f);
    if n > k {
        no_constants_of_unparsed(fs, k, f, n - 1);
        assert(g[n] == fs[n - 1]);
    } else {
        files_in_front(fs, k, f, Map::empty(), arbitrary(), arbitrary(), k);
        assert(g[k] == f);
    }
}

proof fn unparsed_among_files(
    fs: Seq<SourceFileView>,
    k: int,
    f: SourceFileView,
    table: ConstMap,
    o: ScanOptionsView,
    doc: DocumentView,
    x: DiagnosticView,
    n: int,
)
    requires
        0 <= k <= n <= fs.len(),
        scanned_source(f.source, f.module, table) matches Err(e) && x == parse_error(f.path, e),
    ensures
        reports_besides(
            with_files(fs, table, o, doc, n),
            with_files(fs.insert(k, f), table, o, doc, n + 1),
            x,
        ),
    decreases n,
{
    let g = fs.insert(k, f);
    fs.insert_ensures(k, f);
    if n > k {
        unparsed_among_files(fs, k, f, table, o, doc, x, n - 1);
        assert(g[n] == fs[n - 1]);
        file_still_besides(
            fs[n - 1],
            table,
            o,
            with_files(fs, table, o, doc, n - 1),
            with_files(g, table, o, doc, n),
            x,
        );
    } else {
        files_in_front(fs, k, f, table, o, doc, k);
        assert(g[k] == f);
        let a = with_files(fs, table, o, doc, k);
        assert(a.diagnostics.push(x) =~= a.diagnostics.insert(a.diagnostics.len() as int, x));
    }
}

/// One file that cannot be parsed, wherever it comes among the others, alters
/// nothing of a scan: datasets, jobs and edges are those of the scan without
/// it, and the findings are those of that scan and one error about the file.
pub proof fn unparsed_file_is_only_reported(
    fs: Seq<SourceFileView>,
    k: int,
    f: SourceFileView,
    unread: Seq<UnreadFileView>,
    o: ScanOptionsView,
)
    requires
        0 <= k <= fs.len(),
        python_parse(f.source) is Err,
    ensures
        ({
            let a = repository(fs, unread, o);
            let b = repository(fs.insert(k, f), unread, o);
            let x = parse_error(f.path, "python parse error: "@ + python_parse(f.source)->Err_0);
            &&& reports_besides(a, b, x)
            &&& b.diagnostics.to_multiset() == a.diagnostics.to_multiset().insert(x)
            &&& x.level == DiagLevel::Error
            &&& x.code == "E_PARSE"@
            &&& x.location == Some(whole_file(f.path))
        }),
{
    let n = fs.len() as int;
    let x = parse_error(f.path, "python parse error: "@ + python_parse(f.source)->Err_0);
    fs.insert_ensures(k, f);
    no_constants_of_unparsed(fs, k, f, n);
    let table = constants_upto(fs, n);
    unparsed_among_files(fs, k, f, table, o, started(unread, o), x, n);
    completed_still_besides(
        collected(fs, unread, o),
        collected(fs.insert(k, f), unread, o),
        o,
        x,
    );
}

/// One more file that cannot be read alters nothing of a scan but for the
/// error about it.
pub proof fn unread_file_is_only_reported(
    fs: Seq<SourceFileView>,
    unread: Seq<UnreadFileView>,
    k: int,
    u: UnreadFileView,
    o: ScanOptionsView,
)
    requires
        0 <= k <= unread.len(),
    ensures
        ({
            let a = repository(fs, unread, o);
            let b = repository(fs, unread.insert(k, u), o);
            &&& reports_besides(a, b, read_error(u))
            &&& b.diagnostics.to_multiset() == a.diagnostics.to_multiset().insert(read_error(u))
        }),
{
    let n = fs.len() as int;
    let a = started(unread, o);
    let b = started(unread.insert(k, u), o);
    unread.insert_ensures(k, u);
    assert(b.diagnostics =~= a.diagnostics.insert(k, read_error(u)));
    files_still_besides(fs, constants_upto(fs, n), o, a, b, read_error(u), n);
    completed_still_besides(
        collected(fs, unread, o),
        collected(fs, unread.insert(k, u), o),
        o,
        read_error(u),
    );
}

/// Columns that are attributed to a caller only fill gaps: the mappings of its
/// edges stay as they are, and inferred ones are added for columns that had
/// none.
pub proof fn attribution_only_fills_gaps(
    es: Seq<EdgeView>,
    d: TaskDeclView,
    w: WiringView,
    loc: SourceLocView,
    n: int,
    i: int,
)
    requires
        0 <= i < es.len(),
        n <= d.inferred_columns.len(),
    ensures
        all_attributed(es, w.job, attributed_mappings(d, w, loc), n).len() == es.len(),
        only_fills_gaps(
            es[i].column_lineage,
            all_attributed(es, w.job, attributed_mappings(d, w, loc), n)[i].column_lineage,
        ),
    decreases n,
{
    let ces = attributed_mappings(d, w, loc);
    if n <= 0 {
        assert(es[i].column_lineage.subrange(0, es[i].column_lineage.len() as int)
            =~= es[i].column_lineage);
    } else {
        attribution_only_fills_gaps(es, d, w, loc, n - 1, i);
        let s = all_attributed(es, w.job, ces, n - 1);
        gap_filled_fills(es[i].column_lineage, s[i].column_lineage, ces[n - 1]);
    }
}

} // verus!

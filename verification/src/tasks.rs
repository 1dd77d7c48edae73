//! Tasks: what a declaration contributes to a document.
//!
//! A task becomes datasets, a job, and an edge for each pair of an input and an
//! output, with the column mappings that belong to it. What is wrong with the
//! declaration, and what could not be traced, is reported.

use vstd::prelude::*;

use crate::collections::StrSet;
use crate::columns::{
    build_output_column_edges, expand_all, expand_fqn, expanded_name, expanded_names,
    output_mappings,
};
use crate::decls::{ModuleConfig, ModuleConfigView, TaskDecl, TaskDeclView};
use crate::flow::{OpaqueNote, OpaqueNoteView};
use crate::model::{
    dataset_index_bounds, either, engine_named, finding, fqn_parts, new_dataset, new_edge, new_job, upserted, ColumnEdge,
    ColumnEdgeView, Dataset, DatasetView, DiagLevel, Diagnostic, DiagnosticView, DocumentView,
    Edge, EdgeView, Engine, FqnParts, Job, JobView, SourceLoc, SourceLocView, Transform,
    TransformView, WeaveDocument,
};
use crate::origin::{
    code_origin, declared_origin, sql_origin, Confidence, Origin, OriginView,
    CODE_DATAFLOW_CONFIDENCE, LINEAGE_MEDIUM_CONFIDENCE, SQL_CONFIDENCE,
};
use crate::sql::{
    column_lineage_from_sql, sql_lineage, SqlColumnLineage, SqlColumnLineageView,
};
use crate::text::{
    contains_str, contains_text, decimal, decimal_of, group_views, opt_text, opt_view,
    replicate_opt, replicate_vec, str_eq, views, Replicate,
};

verus! {

// ──────────────────────────────── options ─────────────────────────────

/// What a scan is asked to do.
#[derive(Debug, Clone)]
pub struct ScanOptions {
    /// Namespace of datasets that do not name one.
    pub namespace: String,
    /// Written into the document.
    pub producer: String,
    /// Read column lineage from SQL texts.
    pub enable_sql_inference: bool,
    /// Read column lineage from function bodies.
    pub enable_code_inference: bool,
    /// Parts of full names that a file does not configure itself.
    pub service: Option<String>,
    pub database: Option<String>,
    pub schema: Option<String>,
}

#[verifier::ext_equal]
pub struct ScanOptionsView {
    pub namespace: Seq<char>,
    pub producer: Seq<char>,
    pub enable_sql_inference: bool,
    pub enable_code_inference: bool,
    pub service: Option<Seq<char>>,
    pub database: Option<Seq<char>>,
    pub schema: Option<Seq<char>>,
}

impl View for ScanOptions {
    type V = ScanOptionsView;

    open spec fn view(&self) -> ScanOptionsView {
        ScanOptionsView {
            namespace: self.namespace@,
            producer: self.producer@,
            enable_sql_inference: self.enable_sql_inference,
            enable_code_inference: self.enable_code_inference,
            service: opt_text(self.service),
            database: opt_text(self.database),
            schema: opt_text(self.schema),
        }
    }
}

impl Default for ScanOptions {
    fn default() -> (r: Self)
        ensures
            r@ == (ScanOptionsView {
                namespace: "default"@,
                producer: "trace-weaver/0.6.1"@,
                enable_sql_inference: true,
                enable_code_inference: true,
                service: None,
                database: None,
                schema: None,
            }),
    {
        ScanOptions {
            namespace: "default".to_owned(),
            producer: "trace-weaver/0.6.1".to_owned(),
            enable_sql_inference: true,
            enable_code_inference: true,
            service: None,
            database: None,
            schema: None,
        }
    }
}

// ──────────────────────────────── origins ─────────────────────────────

/// The engine of a task: the one it names, or else SQL when it has a query.
pub open spec fn task_engine(d: TaskDeclView) -> Engine {
    match d.engine {
        Some(e) => engine_named(e),
        None => if d.sql is Some {
            Engine::Sql
        } else {
            Engine::Python
        },
    }
}

pub(crate) fn engine_of(decl: &TaskDecl) -> (r: Engine)
    ensures
        r == task_engine(decl@),
{
    match &decl.engine {
        Some(e) => Engine::from_str_loose(e.as_str()),
        None => if decl.sql.is_some() {
            Engine::Sql
        } else {
            Engine::Python
        },
    }
}

/// The origin of the structure of something that was discovered at a place.
pub open spec fn discovered_fact(engine: Engine, loc: SourceLocView) -> OriginView {
    OriginView {
        note: Some("discovered from a raw Airflow operator"@),
        location: Some(loc),
        ..if engine == Engine::Sql {
            sql_origin(Confidence { bits: SQL_CONFIDENCE })
        } else {
            code_origin(Confidence { bits: CODE_DATAFLOW_CONFIDENCE })
        }
    }
}

pub(crate) fn discovered_origin(engine: Engine, loc: &SourceLoc) -> (r: Origin)
    ensures
        r@ == discovered_fact(engine, loc@),
{
    let base = if engine == Engine::Sql {
        Origin::inferred_sql(Confidence { bits: SQL_CONFIDENCE })
    } else {
        Origin::inferred_code(Confidence { bits: CODE_DATAFLOW_CONFIDENCE })
    };
    base.with_note("discovered from a raw Airflow operator").with_location(loc.replicate())
}

/// The origin of the structure of a task.
pub open spec fn structure_origin(d: TaskDeclView, loc: SourceLocView) -> OriginView {
    if d.discovered {
        discovered_fact(task_engine(d), loc)
    } else if d.lineage {
        OriginView { note: Some("@lineage declared dataset-level lineage"@), ..declared_origin() }
    } else {
        declared_origin()
    }
}

/// The origin of a dataset that is named by a source text.
pub open spec fn textual_origin() -> OriginView {
    OriginView {
        note: Some("@lineage non-literal dataset (best-effort text)"@),
        ..code_origin(Confidence { bits: LINEAGE_MEDIUM_CONFIDENCE })
    }
}

fn best_effort_origin() -> (r: Origin)
    ensures
        r@ == textual_origin(),
{
    Origin::inferred_code(Confidence { bits: LINEAGE_MEDIUM_CONFIDENCE }).with_note(
        "@lineage non-literal dataset (best-effort text)",
    )
}

// ──────────────────────────────── wiring ──────────────────────────────

/// How a task is wired: its place, its full dataset names and its job.
pub struct Wiring {
    pub loc: SourceLoc,
    pub engine: Engine,
    pub inputs: Vec<String>,
    pub outputs: Vec<String>,
    pub origin: Origin,
    /// Datasets that are only named by a source text.
    pub unsure: StrSet,
    pub dag: String,
    pub job: String,
}

#[verifier::ext_equal]
pub struct WiringView {
    pub loc: SourceLocView,
    pub engine: Engine,
    pub inputs: Seq<Seq<char>>,
    pub outputs: Seq<Seq<char>>,
    pub origin: OriginView,
    pub unsure: Set<Seq<char>>,
    pub dag: Seq<char>,
    pub job: Seq<char>,
}

impl View for Wiring {
    type V = WiringView;

    open spec fn view(&self) -> WiringView {
        WiringView {
            loc: self.loc@,
            engine: self.engine,
            inputs: views(self.inputs@),
            outputs: views(self.outputs@),
            origin: self.origin@,
            unsure: self.unsure@,
            dag: self.dag@,
            job: self.job@,
        }
    }
}

/// The full names of the datasets that are only named by a source text.
pub open spec fn unsure_names(d: TaskDeclView, c: ModuleConfigView) -> Set<Seq<char>> {
    Set::new(
        |s: Seq<char>|
            d.lineage && exists|n: Seq<char>| #[trigger]
                d.nonliteral.contains(n) && expanded_name(n, c) == s,
    )
}

/// The DAG of a task: its own, the configured one, or `default`.
pub open spec fn task_dag(d: TaskDeclView, c: ModuleConfigView) -> Seq<char> {
    match either(d.dag, c.dag) {
        Some(g) => g,
        None => "default"@,
    }
}

/// The id of the job of a task.
pub open spec fn job_id(d: TaskDeclView, c: ModuleConfigView) -> Seq<char> {
    task_dag(d, c) + "."@ + d.task_name
}

pub open spec fn wiring(path: Seq<char>, d: TaskDeclView, c: ModuleConfigView) -> WiringView {
    let loc = SourceLocView { file: path, line: d.line };
    WiringView {
        loc,
        engine: task_engine(d),
        inputs: expanded_names(d.inputs, c),
        outputs: expanded_names(d.outputs, c),
        origin: structure_origin(d, loc),
        unsure: unsure_names(d, c),
        dag: task_dag(d, c),
        job: job_id(d, c),
    }
}

fn unsure_of(decl: &TaskDecl, config: &ModuleConfig) -> (r: StrSet)
    ensures
        r@ == unsure_names(decl@, config@),
{
    let mut out = StrSet::new();
    if decl.lineage {
        let items = decl.nonliteral.items();
        let ghost iv = views(items@);
        let mut i: usize = 0;
        while i < items.len()
            invariant
                i <= items@.len(),
                iv == views(items@),
                forall|s: Seq<char>| #[trigger]
                    out@.contains(s) == (exists|k: int|
                        0 <= k < i && expanded_name(#[trigger] iv[k], config@) == s),
            decreases items@.len() - i,
        {
            let ghost before = out@;
            assert(iv[i as int] == items@[i as int]@);
            let _fresh = out.insert(expand_fqn(items[i].as_str(), config));
            proof {
                let added = expanded_name(iv[i as int], config@);
                assert forall|s: Seq<char>| #[trigger]
                    out@.contains(s) == (exists|k: int|
                        0 <= k < i + 1 && expanded_name(#[trigger] iv[k], config@) == s) by {
                    assert(out@.contains(s) == (before.contains(s) || s == added));
                    if before.contains(s) {
                        let k = choose|k: int|
                            0 <= k < i && expanded_name(#[trigger] iv[k], config@) == s;
                        assert(expanded_name(iv[k], config@) == s);
                    }
                }
            }
            i = i + 1;
        }
        proof {
            assert forall|s: Seq<char>| out@.contains(s) == unsure_names(
                decl@,
                config@,
            ).contains(s) by {
                if out@.contains(s) {
                    let k = choose|k: int|
                        0 <= k < iv.len() && expanded_name(#[trigger] iv[k], config@) == s;
                    assert(iv.contains(iv[k]));
                    assert(decl@.nonliteral.contains(iv[k]));
                }
                if unsure_names(decl@, config@).contains(s) {
                    let n = choose|n: Seq<char>| #[trigger]
                        decl@.nonliteral.contains(n) && expanded_name(n, config@) == s;
                    assert(iv.contains(n));
                    let k = choose|k: int| 0 <= k < iv.len() && iv[k] == n;
                    assert(expanded_name(iv[k], config@) == s);
                }
            }
        }
    }
    assert(out@ =~= unsure_names(decl@, config@));
    out
}

pub(crate) fn wire(path: &str, decl: &TaskDecl, config: &ModuleConfig) -> (r: Wiring)
    ensures
        r@ == wiring(path@, decl@, config@),
{
    let loc = SourceLoc::new(path, decl.line);
    let engine = engine_of(decl);
    let origin = if decl.discovered {
        discovered_origin(engine, &loc)
    } else if decl.lineage {
        Origin::declared().with_note("@lineage declared dataset-level lineage")
    } else {
        Origin::declared()
    };
    let dag = match (&decl.dag, &config.dag) {
        (Some(g), _) => g.clone(),
        (None, Some(g)) => g.clone(),
        (None, None) => "default".to_owned(),
    };
    let mut job = dag.clone();
    job.append(".");
    job.append(decl.task_name.as_str());
    Wiring {
        loc,
        engine,
        inputs: expand_all(&decl.inputs, config),
        outputs: expand_all(&decl.outputs, config),
        origin,
        unsure: unsure_of(decl, config),
        dag,
        job,
    }
}

// ──────────────────────────────── datasets ────────────────────────────

/// A dataset with the parts of its name.
pub open spec fn dataset_named(name: Seq<char>, origin: OriginView) -> DatasetView {
    DatasetView { fqn: fqn_parts(name), origin, ..new_dataset(name) }
}

pub(crate) fn build_dataset(name: &str, origin: Origin) -> (r: Dataset)
    ensures
        r@ == dataset_named(name@, origin@),
{
    let mut ds = Dataset::new(name).with_origin(origin);
    ds.fqn = FqnParts::parse(name);
    ds
}

/// The origin of a dataset of a task.
pub open spec fn endpoint_origin(w: WiringView, name: Seq<char>) -> OriginView {
    if w.unsure.contains(name) {
        textual_origin()
    } else {
        w.origin
    }
}

/// The datasets after the first `n` names of a task were added.
pub open spec fn with_datasets(
    ds: Seq<DatasetView>,
    w: WiringView,
    names: Seq<Seq<char>>,
    n: int,
) -> Seq<DatasetView>
    decreases n,
{
    if n <= 0 {
        ds
    } else {
        upserted(
            with_datasets(ds, w, names, n - 1),
            dataset_named(names[n - 1], endpoint_origin(w, names[n - 1])),
        )
    }
}

/// The datasets after those of a task were added.
pub open spec fn with_endpoints(ds: Seq<DatasetView>, w: WiringView) -> Seq<DatasetView> {
    with_datasets(
        with_datasets(ds, w, w.inputs, w.inputs.len() as int),
        w,
        w.outputs,
        w.outputs.len() as int,
    )
}

fn add_datasets(doc: &mut WeaveDocument, w: &Wiring, names: &Vec<String>)
    ensures
        final(doc)@ == (DocumentView {
            datasets: with_datasets(
                old(doc)@.datasets,
                w@,
                views(names@),
                names@.len() as int,
            ),
            ..old(doc)@
        }),
{
    let ghost before = doc@;
    let ghost nv = views(names@);
    let mut i: usize = 0;
    while i < names.len()
        invariant
            i <= names@.len(),
            nv == views(names@),
            doc@ == (DocumentView {
                datasets: with_datasets(before.datasets, w@, nv, i as int),
                ..before
            }),
        decreases names@.len() - i,
    {
        let name = names[i].as_str();
        assert(nv[i as int] == name@);
        let origin = if w.unsure.contains(name) {
            best_effort_origin()
        } else {
            w.origin.replicate()
        };
        let _name = doc.upsert_dataset(build_dataset(name, origin));
        i = i + 1;
    }
}

pub(crate) fn add_endpoints(doc: &mut WeaveDocument, w: &Wiring)
    ensures
        final(doc)@ == (DocumentView {
            datasets: with_endpoints(old(doc)@.datasets, w@),
            ..old(doc)@
        }),
{
    add_datasets(doc, w, &w.inputs);
    add_datasets(doc, w, &w.outputs);
}

// ──────────────────────────── what is reported ────────────────────────

/// A finding at a place.
pub open spec fn at(d: DiagnosticView, loc: SourceLocView) -> DiagnosticView {
    DiagnosticView { location: Some(loc), ..d }
}

/// The error about a task without inputs or without outputs.
pub open spec fn missing_io(d: TaskDeclView, w: WiringView) -> DiagnosticView {
    at(
        finding(
            DiagLevel::Error,
            "E_MISSING_IO"@,
            "task '"@ + d.task_name + "' must declare both inputs= and outputs= (got "@ + decimal(
                w.inputs.len(),
            ) + " input(s), "@ + decimal(w.outputs.len()) + " output(s))"@,
        ),
        w.loc,
    )
}

/// The name of an engine as the warnings write it.
pub open spec fn engine_word(e: Engine) -> Seq<char> {
    match e {
        Engine::Sql => "Sql"@,
        Engine::Pandas => "Pandas"@,
        Engine::Spark => "Spark"@,
        Engine::Python => "Python"@,
        Engine::Bash => "Bash"@,
        Engine::Unknown => "Unknown"@,
    }
}

fn word_of(e: Engine) -> (r: &'static str)
    ensures
        r@ == engine_word(e),
{
    match e {
        Engine::Sql => "Sql",
        Engine::Pandas => "Pandas",
        Engine::Spark => "Spark",
        Engine::Python => "Python",
        Engine::Bash => "Bash",
        Engine::Unknown => "Unknown",
    }
}

/// The warning about a query that the engine of the task does not read.
pub open spec fn sql_not_parsed(d: TaskDeclView, w: WiringView) -> DiagnosticView {
    at(
        finding(
            DiagLevel::Warn,
            "W_SQL_NOT_PARSED"@,
            "task '"@ + d.task_name + "' provides sql= but engine is "@ + engine_word(w.engine)
                + "; SQL column lineage is only extracted for engine=\"sql\""@,
        ),
        w.loc,
    )
}

/// The warning about an argument that is no literal.
pub open spec fn non_literal(d: TaskDeclView, w: WiringView, keyword: Seq<char>) -> DiagnosticView {
    at(
        finding(
            DiagLevel::Warn,
            "W_NON_LITERAL"@,
            "task '"@ + d.task_name + "': argument '"@ + keyword
                + "' is not a string literal or module-level constant and was ignored (trace-weaver scans statically — use a literal or a top-level constant)"@,
        ),
        w.loc,
    )
}

/// The warnings about the first `n` arguments that are no literals.
pub open spec fn non_literals(d: TaskDeclView, w: WiringView, n: int) -> Seq<DiagnosticView>
    decreases n,
{
    if n <= 0 {
        Seq::empty()
    } else {
        non_literals(d, w, n - 1).push(non_literal(d, w, d.unresolved[n - 1]))
    }
}

/// The warning about a dataset name that is not in four parts.
pub open spec fn bad_fqn(w: WiringView, name: Seq<char>) -> DiagnosticView {
    at(
        finding(
            DiagLevel::Warn,
            "W_BAD_FQN"@,
            "dataset '"@ + name
                + "' is not a 4-part FQN 'service.database.schema.table' (add tw.configure(service=, database=, schema=) or write the full FQN); the OpenMetadata exporter will skip it"@,
        ),
        w.loc,
    )
}

/// The warnings about the first `n` names that are not in four parts.
pub open spec fn bad_fqns(w: WiringView, names: Seq<Seq<char>>, n: int) -> Seq<DiagnosticView>
    decreases n,
{
    if n <= 0 {
        Seq::empty()
    } else if fqn_parts(names[n - 1]) is None {
        bad_fqns(w, names, n - 1).push(bad_fqn(w, names[n - 1]))
    } else {
        bad_fqns(w, names, n - 1)
    }
}

/// One finding, or none.
pub open spec fn only_if(b: bool, d: DiagnosticView) -> Seq<DiagnosticView> {
    if b {
        seq![d]
    } else {
        Seq::empty()
    }
}

/// What is reported about a declaration itself. `@lineage` may leave a side
/// open, and its datasets need not be in four parts.
pub open spec fn declaration_findings(d: TaskDeclView, w: WiringView) -> Seq<DiagnosticView> {
    let a = only_if(
        !d.lineage && (w.inputs.len() == 0 || w.outputs.len() == 0),
        missing_io(d, w),
    );
    let b = a + only_if(d.sql is Some && w.engine != Engine::Sql, sql_not_parsed(d, w));
    let c = b + non_literals(d, w, d.unresolved.len() as int);
    if d.lineage {
        c
    } else {
        c + bad_fqns(w, w.inputs, w.inputs.len() as int) + bad_fqns(
            w,
            w.outputs,
            w.outputs.len() as int,
        )
    }
}

fn report_missing_io(decl: &TaskDecl, w: &Wiring) -> (r: Diagnostic)
    ensures
        r@ == missing_io(decl@, w@),
{
    let mut m = "task '".to_owned();
    m.append(decl.task_name.as_str());
    m.append("' must declare both inputs= and outputs= (got ");
    m.append(decimal_of(w.inputs.len() as u128).as_str());
    m.append(" input(s), ");
    m.append(decimal_of(w.outputs.len() as u128).as_str());
    m.append(" output(s))");
    Diagnostic::error("E_MISSING_IO", m.as_str()).at(w.loc.replicate())
}

fn report_non_literals(decl: &TaskDecl, w: &Wiring) -> (r: Vec<Diagnostic>)
    ensures
        views(r@) == non_literals(decl@, w@, decl@.unresolved.len() as int),
{
    broadcast use group_views;

    let mut out: Vec<Diagnostic> = Vec::new();
    let mut i: usize = 0;
    while i < decl.unresolved.len()
        invariant
            i <= decl.unresolved@.len(),
            views(out@) == non_literals(decl@, w@, i as int),
        decreases decl.unresolved@.len() - i,
    {
        broadcast use group_views;

        assert(decl@.unresolved[i as int] == decl.unresolved@[i as int]@);
        let mut m = "task '".to_owned();
        m.append(decl.task_name.as_str());
        m.append("': argument '");
        m.append(decl.unresolved[i].as_str());
        m.append(
            "' is not a string literal or module-level constant and was ignored (trace-weaver scans statically — use a literal or a top-level constant)",
        );
        out.push(Diagnostic::warn("W_NON_LITERAL", m.as_str()).at(w.loc.replicate()));
        i = i + 1;
    }
    out
}

fn report_bad_fqns(w: &Wiring, names: &Vec<String>) -> (r: Vec<Diagnostic>)
    ensures
        views(r@) == bad_fqns(w@, views(names@), names@.len() as int),
{
    broadcast use group_views;

    let ghost nv = views(names@);
    let mut out: Vec<Diagnostic> = Vec::new();
    let mut i: usize = 0;
    while i < names.len()
        invariant
            i <= names@.len(),
            nv == views(names@),
            views(out@) == bad_fqns(w@, nv, i as int),
        decreases names@.len() - i,
    {
        broadcast use group_views;

        assert(nv[i as int] == names@[i as int]@);
        if FqnParts::parse(names[i].as_str()).is_none() {
            let mut m = "dataset '".to_owned();
            m.append(names[i].as_str());
            m.append(
                "' is not a 4-part FQN 'service.database.schema.table' (add tw.configure(service=, database=, schema=) or write the full FQN); the OpenMetadata exporter will skip it",
            );
            out.push(Diagnostic::warn("W_BAD_FQN", m.as_str()).at(w.loc.replicate()));
        }
        i = i + 1;
    }
    out
}

fn emit_decl_diagnostics(decl: &TaskDecl, w: &Wiring) -> (r: Vec<Diagnostic>)
    ensures
        views(r@) == declaration_findings(decl@, w@),
{
    broadcast use group_views;

    let mut out: Vec<Diagnostic> = Vec::new();
    if !decl.lineage && (w.inputs.len() == 0 || w.outputs.len() == 0) {
        out.push(report_missing_io(decl, w));
    }
    assert(views(out@) =~= only_if(
        !decl@.lineage && (w@.inputs.len() == 0 || w@.outputs.len() == 0),
        missing_io(decl@, w@),
    ));
    let ghost a = views(out@);
    if decl.sql.is_some() && w.engine != Engine::Sql {
        let mut m = "task '".to_owned();
        m.append(decl.task_name.as_str());
        m.append("' provides sql= but engine is ");
        m.append(word_of(w.engine));
        m.append("; SQL column lineage is only extracted for engine=\"sql\"");
        out.push(Diagnostic::warn("W_SQL_NOT_PARSED", m.as_str()).at(w.loc.replicate()));
    }
    assert(views(out@) =~= a + only_if(
        decl@.sql is Some && w@.engine != Engine::Sql,
        sql_not_parsed(decl@, w@),
    ));
    let mut more = report_non_literals(decl, w);
    out.append(&mut more);
    if !decl.lineage {
        let mut ins = report_bad_fqns(w, &w.inputs);
        out.append(&mut ins);
        let mut outs = report_bad_fqns(w, &w.outputs);
        out.append(&mut outs);
    }
    out
}

/// A column name as the notes of the analysis write it.
pub open spec fn in_quotes(column: Seq<char>) -> Seq<char> {
    "\""@ + column + "\""@
}

/// True when a note names a column that the task declares.
pub open spec fn note_covered(d: TaskDeclView, n: OpaqueNoteView) -> bool {
    (exists|i: int|
        0 <= i < d.column_map.len() && contains_text(
            n.detail,
            in_quotes((#[trigger] d.column_map[i]).target),
        )) || exists|i: int|
        0 <= i < d.copy.len() && contains_text(n.detail, in_quotes(#[trigger] d.copy[i]))
}

/// The warning about a spot that could not be traced.
pub open spec fn opaque_column(path: Seq<char>, d: TaskDeclView, n: OpaqueNoteView) -> DiagnosticView {
    DiagnosticView {
        location: match n.line {
            Some(_) => Some(SourceLocView { file: path, line: n.line }),
            None => None,
        },
        ..finding(
            DiagLevel::Warn,
            "W_OPAQUE_COLUMN"@,
            "task '"@ + d.task_name + "': "@ + n.detail,
        )
    }
}

/// The warnings about the first `n` spots that could not be traced and that no
/// declaration covers.
pub open spec fn opaque_findings(path: Seq<char>, d: TaskDeclView, n: int) -> Seq<DiagnosticView>
    decreases n,
{
    if n <= 0 {
        Seq::empty()
    } else if note_covered(d, d.opaque[n - 1]) {
        opaque_findings(path, d, n - 1)
    } else {
        opaque_findings(path, d, n - 1).push(opaque_column(path, d, d.opaque[n - 1]))
    }
}

fn names_column(note: &OpaqueNote, column: &str) -> (r: bool)
    ensures
        r == contains_text(note@.detail, in_quotes(column@)),
{
    let mut q = "\"".to_owned();
    q.append(column);
    q.append("\"");
    contains_str(note.detail.as_str(), q.as_str())
}

fn is_covered(decl: &TaskDecl, note: &OpaqueNote) -> (r: bool)
    ensures
        r == note_covered(decl@, note@),
{
    let mut i: usize = 0;
    while i < decl.column_map.len()
        invariant
            i <= decl.column_map@.len(),
            forall|k: int|
                0 <= k < i ==> !contains_text(
                    note@.detail,
                    in_quotes((#[trigger] decl@.column_map[k]).target),
                ),
        decreases decl.column_map@.len() - i,
    {
        assert(decl@.column_map[i as int] == decl.column_map@[i as int]@);
        if names_column(note, decl.column_map[i].target.as_str()) {
            return true;
        }
        i = i + 1;
    }
    let mut j: usize = 0;
    while j < decl.copy.len()
        invariant
            j <= decl.copy@.len(),
            forall|k: int|
                0 <= k < j ==> !contains_text(note@.detail, in_quotes(#[trigger] decl@.copy[k])),
        decreases decl.copy@.len() - j,
    {
        assert(decl@.copy[j as int] == decl.copy@[j as int]@);
        if names_column(note, decl.copy[j].as_str()) {
            return true;
        }
        j = j + 1;
    }
    false
}

fn report_opaque(path: &str, decl: &TaskDecl) -> (r: Vec<Diagnostic>)
    ensures
        views(r@) == opaque_findings(path@, decl@, decl@.opaque.len() as int),
{
    broadcast use group_views;

    let mut out: Vec<Diagnostic> = Vec::new();
    let mut i: usize = 0;
    while i < decl.opaque.len()
        invariant
            i <= decl.opaque@.len(),
            views(out@) == opaque_findings(path@, decl@, i as int),
        decreases decl.opaque@.len() - i,
    {
        broadcast use group_views;

        let note = &decl.opaque[i];
        assert(decl@.opaque[i as int] == note@);
        if !is_covered(decl, note) {
            let mut m = "task '".to_owned();
            m.append(decl.task_name.as_str());
            m.append("': ");
            m.append(note.detail.as_str());
            let mut d = Diagnostic::warn("W_OPAQUE_COLUMN", m.as_str());
            if note.line.is_some() {
                d = d.at(SourceLoc::new(path, note.line));
            }
            out.push(d);
        }
        i = i + 1;
    }
    out
}

/// The warning about a wildcard that cannot be paired with a column list.
pub open spec fn sql_wildcard(d: TaskDeclView, w: WiringView) -> DiagnosticView {
    at(
        finding(
            DiagLevel::Warn,
            "W_SQL_WILDCARD"@,
            "task '"@ + d.task_name
                + "': SQL uses SELECT * with an explicit INSERT column list; column lineage cannot be derived safely — declare a column_map"@,
        ),
        w.loc,
    )
}

/// The warning about a projection whose length is not that of the column list.
pub open spec fn sql_arity(d: TaskDeclView, w: WiringView, projected: nat, targets: nat) -> DiagnosticView {
    at(
        finding(
            DiagLevel::Warn,
            "W_SQL_ARITY"@,
            "task '"@ + d.task_name + "': SQL projection has "@ + decimal(projected)
                + " column(s) but the INSERT lists "@ + decimal(targets)
                + "; column lineage skipped — declare a column_map"@,
        ),
        w.loc,
    )
}

/// What is reported about the query of a task.
pub open spec fn query_findings(
    d: TaskDeclView,
    w: WiringView,
    l: Option<SqlColumnLineageView>,
) -> Seq<DiagnosticView> {
    match l {
        Some(l) => {
            let a = only_if(l.wildcard_in_projection, sql_wildcard(d, w));
            match l.arity_mismatch {
                Some(n) => a.push(sql_arity(d, w, n.0 as nat, n.1 as nat)),
                None => a,
            }
        },
        None => Seq::empty(),
    }
}

fn report_query(decl: &TaskDecl, w: &Wiring, l: &Option<SqlColumnLineage>) -> (r: Vec<Diagnostic>)
    ensures
        views(r@) == query_findings(decl@, w@, opt_view(*l)),
{
    broadcast use group_views;

    let mut out: Vec<Diagnostic> = Vec::new();
    if let Some(l) = l {
        if l.wildcard_in_projection {
            let mut m = "task '".to_owned();
            m.append(decl.task_name.as_str());
            m.append(
                "': SQL uses SELECT * with an explicit INSERT column list; column lineage cannot be derived safely — declare a column_map",
            );
            out.push(Diagnostic::warn("W_SQL_WILDCARD", m.as_str()).at(w.loc.replicate()));
        }
        assert(views(out@) =~= only_if(l@.wildcard_in_projection, sql_wildcard(decl@, w@)));
        if let Some((projected, targets)) = l.arity_mismatch {
            let mut m = "task '".to_owned();
            m.append(decl.task_name.as_str());
            m.append("': SQL projection has ");
            m.append(decimal_of(projected as u128).as_str());
            m.append(" column(s) but the INSERT lists ");
            m.append(decimal_of(targets as u128).as_str());
            m.append("; column lineage skipped — declare a column_map");
            out.push(Diagnostic::warn("W_SQL_ARITY", m.as_str()).at(w.loc.replicate()));
        }
    }
    out
}

// ────────────────────────────── jobs and edges ────────────────────────

/// The job of a task. Where it stands in the source is said by the job itself,
/// and not by its origin.
pub open spec fn task_job(d: TaskDeclView, w: WiringView) -> JobView {
    JobView {
        dag: Some(w.dag),
        location: Some(w.loc),
        description: d.description,
        sql: d.sql,
        inputs: w.inputs,
        outputs: w.outputs,
        origin: OriginView { location: None, ..w.origin },
        ..new_job(w.job, d.task_name, w.engine)
    }
}

fn build_job(decl: &TaskDecl, w: &Wiring) -> (r: Job)
    ensures
        r@ == task_job(decl@, w@),
{
    let mut job = Job::new(w.job.as_str(), decl.task_name.as_str(), w.engine);
    job.dag = Some(w.dag.clone());
    job.location = Some(w.loc.replicate());
    job.description = replicate_opt(&decl.description);
    job.sql = replicate_opt(&decl.sql);
    job.inputs = replicate_vec(&w.inputs);
    job.outputs = replicate_vec(&w.outputs);
    job.origin = Origin { location: None, ..w.origin.replicate() };
    job
}

/// True when one of the sources of a mapping is on the dataset.
pub open spec fn reads_from(c: ColumnEdgeView, dataset: Seq<char>) -> bool {
    exists|i: int| 0 <= i < c.from_columns.len() && (#[trigger] c.from_columns[i]).dataset == dataset
}

pub(crate) fn is_read_from(c: &ColumnEdge, dataset: &str) -> (r: bool)
    ensures
        r == reads_from(c@, dataset@),
{
    let mut i: usize = 0;
    while i < c.from_columns.len()
        invariant
            i <= c.from_columns@.len(),
            forall|k: int| 0 <= k < i ==> (#[trigger] c@.from_columns[k]).dataset != dataset@,
        decreases c.from_columns@.len() - i,
    {
        assert(c@.from_columns[i as int] == c.from_columns@[i as int]@);
        if str_eq(c.from_columns[i].dataset.as_str(), dataset) {
            return true;
        }
        i = i + 1;
    }
    false
}

/// The mappings among the first `n` that belong to the edge from an input: a
/// mapping without sources belongs to the first edge.
pub open spec fn attached(ces: Seq<ColumnEdgeView>, input: Seq<char>, first: bool, n: int) -> Seq<
    ColumnEdgeView,
>
    decreases n,
{
    if n <= 0 {
        Seq::empty()
    } else {
        let s = attached(ces, input, first, n - 1);
        let c = ces[n - 1];
        if (if c.from_columns.len() == 0 {
            first
        } else {
            reads_from(c, input)
        }) {
            s.push(c)
        } else {
            s
        }
    }
}

pub(crate) fn attach(ces: &Vec<ColumnEdge>, input: &str, first: bool) -> (r: Vec<ColumnEdge>)
    ensures
        views(r@) == attached(views(ces@), input@, first, ces@.len() as int),
{
    broadcast use group_views;

    let ghost cv = views(ces@);
    let mut out: Vec<ColumnEdge> = Vec::new();
    let mut i: usize = 0;
    while i < ces.len()
        invariant
            i <= ces@.len(),
            cv == views(ces@),
            views(out@) == attached(cv, input@, first, i as int),
        decreases ces@.len() - i,
    {
        broadcast use group_views;

        let c = &ces[i];
        assert(cv[i as int] == c@);
        let belongs = if c.from_columns.len() == 0 {
            first
        } else {
            is_read_from(c, input)
        };
        if belongs {
            out.push(c.replicate());
        }
        i = i + 1;
    }
    out
}

/// True for the edge of a dataset to itself that is left out: one that is not
/// declared.
pub open spec fn loop_left_out(w: WiringView, input: Seq<char>, output: Seq<char>) -> bool {
    input == output && (w.unsure.contains(input) || w.origin.inferred())
}

/// The edge of a task between two of its datasets.
pub open spec fn task_edge(
    d: TaskDeclView,
    w: WiringView,
    input: Seq<char>,
    output: Seq<char>,
    columns: Seq<ColumnEdgeView>,
) -> EdgeView {
    EdgeView {
        job: Some(w.job),
        transform: TransformView { kind: d.transform, description: d.description, sql: d.sql },
        column_lineage: columns,
        origin: if w.unsure.contains(input) || w.unsure.contains(output) {
            textual_origin()
        } else {
            w.origin
        },
        ..new_edge(input, output)
    }
}

/// The edges from the first `n` inputs to an output.
pub open spec fn edges_into(
    d: TaskDeclView,
    w: WiringView,
    output: Seq<char>,
    ces: Seq<ColumnEdgeView>,
    n: int,
) -> Seq<EdgeView>
    decreases n,
{
    if n <= 0 {
        Seq::empty()
    } else {
        let s = edges_into(d, w, output, ces, n - 1);
        let input = w.inputs[n - 1];
        if loop_left_out(w, input, output) {
            s
        } else {
            s.push(
                task_edge(
                    d,
                    w,
                    input,
                    output,
                    attached(ces, input, s.len() == 0, ces.len() as int),
                ),
            )
        }
    }
}

/// The edges of a task to its first `n` outputs.
pub open spec fn task_edges(
    d: TaskDeclView,
    w: WiringView,
    sql: Option<SqlColumnLineageView>,
    code: bool,
    n: int,
) -> Seq<EdgeView>
    decreases n,
{
    if n <= 0 {
        Seq::empty()
    } else {
        let output = w.outputs[n - 1];
        task_edges(d, w, sql, code, n - 1) + edges_into(
            d,
            w,
            output,
            output_mappings(d, output, w.inputs, sql, code, w.outputs.len() == 1),
            w.inputs.len() as int,
        )
    }
}

fn build_edges_into(decl: &TaskDecl, w: &Wiring, output: &str, ces: &Vec<ColumnEdge>) -> (r: Vec<Edge>)
    ensures
        views(r@) == edges_into(decl@, w@, output@, views(ces@), w@.inputs.len() as int),
{
    broadcast use group_views;

    let ghost cv = views(ces@);
    let mut out: Vec<Edge> = Vec::new();
    let mut i: usize = 0;
    while i < w.inputs.len()
        invariant
            i <= w.inputs@.len(),
            cv == views(ces@),
            views(out@) == edges_into(decl@, w@, output@, cv, i as int),
        decreases w.inputs@.len() - i,
    {
        broadcast use group_views;

        let input = w.inputs[i].as_str();
        assert(w@.inputs[i as int] == input@);
        let left_out = str_eq(input, output) && (w.unsure.contains(input)
            || w.origin.is_inferred());
        if !left_out {
            let mut e = Edge::new(input, output);
            e.job = Some(w.job.clone());
            e.transform = Transform {
                kind: replicate_opt(&decl.transform),
                description: replicate_opt(&decl.description),
                sql: replicate_opt(&decl.sql),
            };
            e.origin = if w.unsure.contains(input) || w.unsure.contains(output) {
                best_effort_origin()
            } else {
                w.origin.replicate()
            };
            e.column_lineage = attach(ces, input, out.len() == 0);
            out.push(e);
        }
        i = i + 1;
    }
    out
}

fn build_edges(decl: &TaskDecl, w: &Wiring, sql: &Option<SqlColumnLineage>, code: bool) -> (r: Vec<
    Edge,
>)
    ensures
        views(r@) == task_edges(decl@, w@, opt_view(*sql), code, w@.outputs.len() as int),
{
    broadcast use group_views;

    let single = w.outputs.len() == 1;
    let mut out: Vec<Edge> = Vec::new();
    let mut i: usize = 0;
    while i < w.outputs.len()
        invariant
            i <= w.outputs@.len(),
            single == (w@.outputs.len() == 1),
            views(out@) == task_edges(decl@, w@, opt_view(*sql), code, i as int),
        decreases w.outputs@.len() - i,
    {
        broadcast use group_views;

        let output = w.outputs[i].as_str();
        assert(w@.outputs[i as int] == output@);
        let ces = build_output_column_edges(decl, output, &w.inputs, sql, code, single);
        let mut more = build_edges_into(decl, w, output, &ces);
        out.append(&mut more);
        i = i + 1;
    }
    out
}

// ─────────────────────────────── the task ─────────────────────────────

/// The lineage of the query of a task, where it is read.
pub open spec fn task_query(d: TaskDeclView, w: WiringView, enabled: bool) -> Option<
    SqlColumnLineageView,
> {
    match d.sql {
        Some(q) => if enabled && w.engine == Engine::Sql {
            Some(sql_lineage(q))
        } else {
            None
        },
        None => None,
    }
}

/// The document after a task.
pub open spec fn with_task(
    path: Seq<char>,
    d: TaskDeclView,
    c: ModuleConfigView,
    o: ScanOptionsView,
    doc: DocumentView,
) -> DocumentView {
    let w = wiring(path, d, c);
    let q = task_query(d, w, o.enable_sql_inference);
    let opaque = if o.enable_code_inference {
        opaque_findings(path, d, d.opaque.len() as int)
    } else {
        Seq::empty()
    };
    DocumentView {
        datasets: with_endpoints(doc.datasets, w),
        jobs: doc.jobs.push(task_job(d, w)),
        edges: doc.edges + task_edges(
            d,
            w,
            q,
            o.enable_code_inference,
            w.outputs.len() as int,
        ),
        diagnostics: doc.diagnostics + declaration_findings(d, w) + opaque + query_findings(
            d,
            w,
            q,
        ),
        ..doc
    }
}

fn read_query(decl: &TaskDecl, w: &Wiring, enabled: bool) -> (r: Option<SqlColumnLineage>)
    ensures
        opt_view(r) == task_query(decl@, w@, enabled),
{
    match &decl.sql {
        Some(q) => if enabled && w.engine == Engine::Sql {
            match column_lineage_from_sql(q.as_str()) {
                Ok(l) => Some(l),
                Err(_) => None,
            }
        } else {
            None
        },
        None => None,
    }
}

pub(crate) fn scan_task(
    path: &str,
    decl: &TaskDecl,
    config: &ModuleConfig,
    opts: &ScanOptions,
    doc: &mut WeaveDocument,
)
    ensures
        final(doc)@ == with_task(path@, decl@, config@, opts@, old(doc)@),
{
    broadcast use group_views;

    let w = wire(path, decl, config);
    let mut found = emit_decl_diagnostics(decl, &w);
    doc.diagnostics.append(&mut found);
    if opts.enable_code_inference {
        let mut opaque = report_opaque(path, decl);
        doc.diagnostics.append(&mut opaque);
    } else {
        assert(doc@.diagnostics + Seq::<DiagnosticView>::empty() =~= doc@.diagnostics);
    }
    add_endpoints(doc, &w);
    doc.jobs.push(build_job(decl, &w));
    let query = read_query(decl, &w, opts.enable_sql_inference);
    let mut sql_found = report_query(decl, &w, &query);
    doc.diagnostics.append(&mut sql_found);
    let mut edges = build_edges(decl, &w, &query, opts.enable_code_inference);
    doc.edges.append(&mut edges);
}

// ──────────────────────────────── laws ────────────────────────────────

proof fn edges_into_origin(
    d: TaskDeclView,
    w: WiringView,
    output: Seq<char>,
    ces: Seq<ColumnEdgeView>,
    n: int,
)
    ensures
        forall|i: int|
            0 <= i < edges_into(d, w, output, ces, n).len() ==> {
                let e = #[trigger] edges_into(d, w, output, ces, n)[i];
                e.origin == if w.unsure.contains(e.from) || w.unsure.contains(e.to) {
                    textual_origin()
                } else {
                    w.origin
                }
            },
    decreases n,
{
    if n > 0 {
        edges_into_origin(d, w, output, ces, n - 1);
    }
}

proof fn task_edges_origin(
    d: TaskDeclView,
    w: WiringView,
    sql: Option<SqlColumnLineageView>,
    code: bool,
    n: int,
)
    ensures
        forall|i: int|
            0 <= i < task_edges(d, w, sql, code, n).len() ==> {
                let e = #[trigger] task_edges(d, w, sql, code, n)[i];
                e.origin == if w.unsure.contains(e.from) || w.unsure.contains(e.to) {
                    textual_origin()
                } else {
                    w.origin
                }
            },
    decreases n,
{
    if n > 0 {
        task_edges_origin(d, w, sql, code, n - 1);
        let output = w.outputs[n - 1];
        let ces = output_mappings(d, output, w.inputs, sql, code, w.outputs.len() == 1);
        edges_into_origin(d, w, output, ces, w.inputs.len() as int);
        let s = task_edges(d, w, sql, code, n - 1);
        let more = edges_into(d, w, output, ces, w.inputs.len() as int);
        let r = task_edges(d, w, sql, code, n);
        assert(r =~= s + more);
        assert forall|i: int| 0 <= i < r.len() implies {
            let e = #[trigger] r[i];
            e.origin == if w.unsure.contains(e.from) || w.unsure.contains(e.to) {
                textual_origin()
            } else {
                w.origin
            }
        } by {
            if i < s.len() {
                assert(r[i] == s[i]);
            } else {
                assert(r[i] == more[i - s.len()]);
            }
        }
    }
}

proof fn new_datasets_inferred(ds: Seq<DatasetView>, w: WiringView, names: Seq<Seq<char>>, k: nat, n: int)
    requires
        w.origin.inferred(),
        k <= ds.len(),
        forall|i: int| k <= i < ds.len() ==> (#[trigger] ds[i]).origin.inferred(),
    ensures
        ds.len() <= with_datasets(ds, w, names, n).len(),
        forall|i: int|
            k <= i < with_datasets(ds, w, names, n).len() ==> (#[trigger] with_datasets(
                ds,
                w,
                names,
                n,
            )[i]).origin.inferred(),
    decreases n,
{
    if n > 0 {
        new_datasets_inferred(ds, w, names, k, n - 1);
        let s = with_datasets(ds, w, names, n - 1);
        let name = names[n - 1];
        dataset_index_bounds(s, name, 0);
        assert(endpoint_origin(w, name).inferred());
    }
}

/// What is discovered is inferred from top to bottom: the job of a task that
/// nobody declared, its edges, and the datasets that it brings in.
pub proof fn discovered_tasks_are_inferred(
    path: Seq<char>,
    d: TaskDeclView,
    c: ModuleConfigView,
    o: ScanOptionsView,
    doc: DocumentView,
)
    requires
        d.discovered,
    ensures
        ({
            let r = with_task(path, d, c, o, doc);
            &&& r.jobs.last().origin.inferred()
            &&& forall|i: int|
                doc.edges.len() <= i < r.edges.len() ==> (#[trigger] r.edges[i]).origin.inferred()
            &&& forall|i: int|
                doc.datasets.len() <= i < r.datasets.len() ==> (
                #[trigger] r.datasets[i]).origin.inferred()
        }),
{
    let w = wiring(path, d, c);
    let q = task_query(d, w, o.enable_sql_inference);
    let more = task_edges(d, w, q, o.enable_code_inference, w.outputs.len() as int);
    task_edges_origin(d, w, q, o.enable_code_inference, w.outputs.len() as int);
    let r = with_task(path, d, c, o, doc);
    assert forall|i: int| doc.edges.len() <= i < r.edges.len() implies (
    #[trigger] r.edges[i]).origin.inferred() by {
        assert(r.edges[i] == more[i - doc.edges.len()]);
    }
    let k = doc.datasets.len();
    new_datasets_inferred(doc.datasets, w, w.inputs, k, w.inputs.len() as int);
    let a = with_datasets(doc.datasets, w, w.inputs, w.inputs.len() as int);
    new_datasets_inferred(a, w, w.outputs, k, w.outputs.len() as int);
}

/// A declared task keeps a declared origin: so does its job, and so do its
/// edges between datasets that are named by literals.
pub proof fn declared_tasks_stay_declared(
    path: Seq<char>,
    d: TaskDeclView,
    c: ModuleConfigView,
    o: ScanOptionsView,
    doc: DocumentView,
)
    requires
        !d.discovered,
    ensures
        ({
            let r = with_task(path, d, c, o, doc);
            let unsure = unsure_names(d, c);
            &&& !r.jobs.last().origin.inferred()
            &&& forall|i: int|
                doc.edges.len() <= i < r.edges.len() ==> (#[trigger] r.edges[i]).origin.inferred()
                    == (unsure.contains(r.edges[i].from) || unsure.contains(r.edges[i].to))
        }),
{
    let w = wiring(path, d, c);
    let q = task_query(d, w, o.enable_sql_inference);
    let more = task_edges(d, w, q, o.enable_code_inference, w.outputs.len() as int);
    task_edges_origin(d, w, q, o.enable_code_inference, w.outputs.len() as int);
    let r = with_task(path, d, c, o, doc);
    assert forall|i: int| doc.edges.len() <= i < r.edges.len() implies (
    #[trigger] r.edges[i]).origin.inferred() == (w.unsure.contains(r.edges[i].from)
        || w.unsure.contains(r.edges[i].to)) by {
        assert(r.edges[i] == more[i - doc.edges.len()]);
    }
}

proof fn opaque_is_reported(path: Seq<char>, d: TaskDeclView, n: int, i: int)
    requires
        0 <= i < n <= d.opaque.len(),
        !note_covered(d, d.opaque[i]),
    ensures
        opaque_findings(path, d, n).contains(opaque_column(path, d, d.opaque[i])),
    decreases n,
{
    let x = opaque_column(path, d, d.opaque[i]);
    let r = opaque_findings(path, d, n);
    if i == n - 1 {
        assert(r.last() == x);
    } else {
        opaque_is_reported(path, d, n - 1, i);
        let s = opaque_findings(path, d, n - 1);
        let k = choose|k: int| 0 <= k < s.len() && s[k] == x;
        assert(r[k] == x);
    }
}

/// Nothing is silently dropped: each spot of a task that could not be traced
/// is reported, unless it is about a column that the task declares.
pub proof fn untraced_spots_are_reported(
    path: Seq<char>,
    d: TaskDeclView,
    c: ModuleConfigView,
    o: ScanOptionsView,
    doc: DocumentView,
    i: int,
)
    requires
        o.enable_code_inference,
        0 <= i < d.opaque.len(),
        !note_covered(d, d.opaque[i]),
    ensures
        with_task(path, d, c, o, doc).diagnostics.contains(opaque_column(path, d, d.opaque[i])),
{
    let w = wiring(path, d, c);
    let q = task_query(d, w, o.enable_sql_inference);
    let x = opaque_column(path, d, d.opaque[i]);
    let a = doc.diagnostics + declaration_findings(d, w);
    let b = opaque_findings(path, d, d.opaque.len() as int);
    opaque_is_reported(path, d, d.opaque.len() as int, i);
    let k = choose|k: int| 0 <= k < b.len() && b[k] == x;
    let r = with_task(path, d, c, o, doc).diagnostics;
    assert(r == a + b + query_findings(d, w, q));
    assert(r[a.len() + k] == x);
}

} // verus!

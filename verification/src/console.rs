//! What the command line says and decides. Ratios and thresholds are real
//! numbers; they come in as they are shown, and compared already.

use vstd::prelude::*;

use crate::export::{ExportReport, ExportReportView};
use crate::gate::{DagMetrics, GateMetrics};
use crate::json::{
    entry, json_bool, json_list, json_number, json_object, json_pretty, object_of, pretty_text,
    text_entry, Json, JsonTree,
};
use crate::model::{DiagLevel, Diagnostic, DiagnosticView, DocumentView, WeaveDocument};
use crate::text::{
    chars_of, decimal, decimal_of, group_views, opt_text, replicate_vec, trim, trimmed, views,
};
use crate::validate::{any_error, findings, has_errors, validate};

verus! {

/// Adds a line.
fn say(lines: &mut Vec<String>, line: String)
    ensures
        views(final(lines)@) == views(old(lines)@).push(line@),
{
    broadcast use group_views;

    lines.push(line);
}

// ──────────────────────────────── findings ────────────────────────────

pub open spec fn level_name(l: DiagLevel) -> Seq<char> {
    match l {
        DiagLevel::Info => "Info"@,
        DiagLevel::Warn => "Warn"@,
        DiagLevel::Error => "Error"@,
    }
}

/// A finding as one line.
pub open spec fn finding_line(d: DiagnosticView) -> Seq<char> {
    "["@ + level_name(d.level) + "] "@ + d.code + ": "@ + d.message
}

pub fn diagnostic_line(d: &Diagnostic) -> (r: String)
    ensures
        r@ == finding_line(d@),
{
    let level = match d.level {
        DiagLevel::Info => "Info",
        DiagLevel::Warn => "Warn",
        DiagLevel::Error => "Error",
    };
    let mut line = "[".to_owned();
    line.append(level);
    line.append("] ");
    line.append(d.code.as_str());
    line.append(": ");
    line.append(d.message.as_str());
    line
}

pub open spec fn finding_lines(ds: Seq<DiagnosticView>) -> Seq<Seq<char>> {
    Seq::new(ds.len(), |i: int| finding_line(ds[i]))
}

fn diagnostic_lines(ds: &Vec<Diagnostic>) -> (r: Vec<String>)
    ensures
        views(r@) == finding_lines(views(ds@)),
{
    let mut lines: Vec<String> = Vec::new();
    let ghost dv = views(ds@);
    let mut i: usize = 0;
    while i < ds.len()
        invariant
            i <= ds@.len(),
            dv == views(ds@),
            views(lines@) =~= finding_lines(dv.take(i as int)),
        decreases ds@.len() - i,
    {
        assert(dv[i as int] == ds@[i as int]@);
        say(&mut lines, diagnostic_line(&ds[i]));
        assert(dv.take(i + 1) =~= dv.take(i as int).push(dv[i as int]));
        i = i + 1;
    }
    assert(dv.take(dv.len() as int) =~= dv);
    lines
}

/// How many of the first `n` findings are of a level.
pub open spec fn level_count(ds: Seq<DiagnosticView>, l: DiagLevel, n: int) -> nat
    decreases n,
{
    if n <= 0 {
        0
    } else {
        level_count(ds, l, n - 1) + (if ds[n - 1].level == l {
            1nat
        } else {
            0nat
        })
    }
}

fn count_level(ds: &Vec<Diagnostic>, l: DiagLevel) -> (r: usize)
    ensures
        r == level_count(views(ds@), l, ds@.len() as int),
{
    let ghost dv = views(ds@);
    let mut n: usize = 0;
    let mut i: usize = 0;
    while i < ds.len()
        invariant
            n <= i <= ds@.len(),
            dv == views(ds@),
            n == level_count(dv, l, i as int),
        decreases ds@.len() - i,
    {
        assert(dv[i as int] == ds@[i as int]@);
        if ds[i].level == l {
            n = n + 1;
        }
        i = i + 1;
    }
    n
}

// ─────────────────────────────────── scan ─────────────────────────────

pub open spec fn scanned_line(d: DocumentView) -> Seq<char> {
    "scanned: "@ + decimal(d.datasets.len()) + " dataset(s), "@ + decimal(d.jobs.len())
        + " job(s), "@ + decimal(d.edges.len()) + " edge(s), "@ + decimal(d.diagnostics.len())
        + " diagnostic(s)"@
}

/// What is said after a scan: the findings, and what was found in all.
pub fn scan_lines(doc: &WeaveDocument) -> (r: Vec<String>)
    ensures
        views(r@) == finding_lines(doc@.diagnostics).push(scanned_line(doc@)),
{
    let mut lines = diagnostic_lines(&doc.diagnostics);
    let mut line = "scanned: ".to_owned();
    line.append(decimal_of(doc.datasets.len() as u128).as_str());
    line.append(" dataset(s), ");
    line.append(decimal_of(doc.jobs.len() as u128).as_str());
    line.append(" job(s), ");
    line.append(decimal_of(doc.edges.len() as u128).as_str());
    line.append(" edge(s), ");
    line.append(decimal_of(doc.diagnostics.len() as u128).as_str());
    line.append(" diagnostic(s)");
    say(&mut lines, line);
    lines
}

/// A strict scan fails when a finding is an error.
pub fn scan_outcome(doc: &WeaveDocument, strict: bool) -> (r: Result<(), String>)
    ensures
        r is Err <==> strict && any_error(doc@.diagnostics),
        r matches Err(e) ==> e@ == "scan produced error-level diagnostics (--strict)"@,
{
    if strict && has_errors(doc.diagnostics.as_slice()) {
        Err("scan produced error-level diagnostics (--strict)".to_owned())
    } else {
        Ok(())
    }
}

// ──────────────────────────────── validation ──────────────────────────

/// The findings of a document's scan, and then those of validation.
pub open spec fn all_findings(d: DocumentView) -> Seq<DiagnosticView> {
    d.diagnostics + findings(d)
}

pub open spec fn validation_line(ds: Seq<DiagnosticView>) -> Seq<char> {
    "validation: "@ + decimal(level_count(ds, DiagLevel::Error, ds.len() as int)) + " error(s), "@
        + decimal(level_count(ds, DiagLevel::Warn, ds.len() as int)) + " warning(s)"@
}

fn merged_findings(doc: &WeaveDocument) -> (r: Vec<Diagnostic>)
    ensures
        views(r@) == all_findings(doc@),
{
    broadcast use group_views;

    let mut all = replicate_vec(&doc.diagnostics);
    let mut found = validate(doc);
    all.append(&mut found);
    all
}

/// What is said after a validation: all findings, and how many there are.
pub fn validation_lines(doc: &WeaveDocument) -> (r: Vec<String>)
    ensures
        views(r@) == finding_lines(all_findings(doc@)).push(validation_line(all_findings(doc@))),
{
    let all = merged_findings(doc);
    let mut lines = diagnostic_lines(&all);
    let mut line = "validation: ".to_owned();
    line.append(decimal_of(count_level(&all, DiagLevel::Error) as u128).as_str());
    line.append(" error(s), ");
    line.append(decimal_of(count_level(&all, DiagLevel::Warn) as u128).as_str());
    line.append(" warning(s)");
    say(&mut lines, line);
    lines
}

/// A strict validation fails when a finding is an error.
pub fn validation_outcome(doc: &WeaveDocument, strict: bool) -> (r: Result<(), String>)
    ensures
        r is Err <==> strict && any_error(all_findings(doc@)),
        r matches Err(e) ==> e@ == "validation failed (--strict)"@,
{
    let all = merged_findings(doc);
    if strict && has_errors(all.as_slice()) {
        Err("validation failed (--strict)".to_owned())
    } else {
        Ok(())
    }
}

// ────────────────────────────────── export ────────────────────────────

/// The token that counts: that of a file, without the blanks around it; else
/// the one given on the command line; else that of the environment.
pub open spec fn token_of(
    file: Option<Seq<char>>,
    given: Option<Seq<char>>,
    environment: Option<Seq<char>>,
) -> Option<Seq<char>> {
    match file {
        Some(f) => Some(trimmed(f)),
        None => match given {
            Some(g) => Some(g),
            None => environment,
        },
    }
}

pub fn chosen_token(
    file: Option<String>,
    given: Option<String>,
    environment: Option<String>,
) -> (r: Option<String>)
    ensures
        opt_text(r) == token_of(opt_text(file), opt_text(given), opt_text(environment)),
{
    match file {
        Some(f) => Some(trim(f.as_str())),
        None => match given {
            Some(g) => Some(g),
            None => environment,
        },
    }
}

pub open spec fn exported_line(x: ExportReportView, dry_run: bool) -> Seq<char> {
    "export["@ + x.target + "]: "@ + decimal(x.sent) + " edge(s) "@ + (if dry_run {
        "(dry-run, nothing sent)"@
    } else {
        "pushed"@
    }) + (if x.failed > 0 {
        ", "@ + decimal(x.failed) + " failed"@
    } else {
        Seq::empty()
    })
}

/// What is said after an export: what was done, and what came of it in all.
pub fn export_lines(x: &ExportReport, dry_run: bool) -> (r: Vec<String>)
    ensures
        views(r@) == x@.actions.push(exported_line(x@, dry_run)),
{
    let mut lines = replicate_vec(&x.actions);
    let mut line = "export[".to_owned();
    line.append(x.target.as_str());
    line.append("]: ");
    line.append(decimal_of(x.sent as u128).as_str());
    line.append(" edge(s) ");
    if dry_run {
        line.append("(dry-run, nothing sent)");
    } else {
        line.append("pushed");
    }
    let ghost so_far = line@;
    if x.failed > 0 {
        let mut more = ", ".to_owned();
        more.append(decimal_of(x.failed as u128).as_str());
        more.append(" failed");
        line.append(more.as_str());
    }
    assert(so_far + Seq::<char>::empty() =~= so_far);
    say(&mut lines, line);
    lines
}

/// An export may be asked to fail when an edge could not be pushed.
pub fn export_outcome(x: &ExportReport, fail_on_partial: bool) -> (r: Result<(), String>)
    ensures
        r is Err <==> fail_on_partial && x@.failed > 0,
        r matches Err(e) ==> e@ == decimal(x@.failed)
            + " edge(s) failed to push (--fail-on-partial)"@,
{
    if fail_on_partial && x.failed > 0 {
        let mut e = decimal_of(x.failed as u128);
        e.append(" edge(s) failed to push (--fail-on-partial)");
        Err(e)
    } else {
        Ok(())
    }
}

// ─────────────────────────────────── gate ─────────────────────────────

/// Where a threshold comes from.
#[derive(Debug, Clone, Copy, PartialEq, Eq, Structural)]
pub enum ThresholdSource {
    Flag,
    Environment,
    /// There is none: everything passes.
    Nowhere,
}

/// A flag goes before the environment.
pub fn threshold_source(flag: bool, environment: bool) -> (r: ThresholdSource)
    ensures
        r == (if flag {
            ThresholdSource::Flag
        } else if environment {
            ThresholdSource::Environment
        } else {
            ThresholdSource::Nowhere
        }),
{
    if flag {
        ThresholdSource::Flag
    } else if environment {
        ThresholdSource::Environment
    } else {
        ThresholdSource::Nowhere
    }
}

/// The three ratios that a gate looks at, or their thresholds.
#[derive(Debug, Clone, PartialEq)]
pub struct Figures<T> {
    pub task_coverage: T,
    pub annotation_coverage: T,
    pub high_confidence_fraction: T,
}

/// Which of the ratios reach their thresholds.
#[derive(Debug, Clone, Copy, PartialEq, Eq, Structural)]
pub struct GateChecks {
    pub task_coverage: bool,
    pub annotation_coverage: bool,
    pub high_confidence_fraction: bool,
}

impl GateChecks {
    /// A gate passes when all three do.
    pub open spec fn all_pass(self) -> bool {
        self.task_coverage && self.annotation_coverage && self.high_confidence_fraction
    }

    pub fn passed(self) -> (r: bool)
        ensures
            r == self.all_pass(),
    {
        self.task_coverage && self.high_confidence_fraction && self.annotation_coverage
    }

    /// The exit code of a gate that was evaluated.
    pub fn exit_code(self) -> (r: i32)
        ensures
            r == (if self.all_pass() {
                0i32
            } else {
                1i32
            }),
    {
        if self.passed() {
            0
        } else {
            1
        }
    }
}

/// A text, filled up with blanks to a width.
pub open spec fn filled(s: Seq<char>, width: nat) -> Seq<char> {
    if s.len() < width {
        s + Seq::new((width - s.len()) as nat, |i: int| ' ')
    } else {
        s
    }
}

fn fill(s: &str, width: usize) -> (r: String)
    ensures
        r@ == filled(s@, width as nat),
{
    let len: usize = chars_of(s).len();
    let mut out = s.to_owned();
    if len < width {
        let mut i: usize = len;
        while i < width
            invariant
                s@.len() == len <= i <= width,
                out@ =~= s@ + Seq::new((i - len) as nat, |k: int| ' '),
            decreases width - i,
        {
            out.push(' ');
            i = i + 1;
        }
    }
    out
}

/// A part of a whole, as its two counts.
pub open spec fn counts_shown(part: nat, whole: nat) -> Seq<char> {
    " ("@ + decimal(part) + "/"@ + decimal(whole) + ")"@
}

fn show_counts(part: usize, whole: usize) -> (r: String)
    ensures
        r@ == counts_shown(part as nat, whole as nat),
{
    let mut s = " (".to_owned();
    s.append(decimal_of(part as u128).as_str());
    s.append("/");
    s.append(decimal_of(whole as u128).as_str());
    s.append(")");
    s
}

/// The line of a DAG.
pub open spec fn dag_line(d: DagMetrics, f: Figures<String>) -> Seq<char> {
    "    "@ + filled(d.dag@, 24) + " coverage "@ + f.task_coverage@ + counts_shown(
        d.tasks_with_lineage as nat,
        d.tasks_total as nat,
    ) + "  annotated "@ + f.annotation_coverage@ + counts_shown(
        d.tasks_annotated as nat,
        d.tasks_total as nat,
    ) + "  high-conf "@ + f.high_confidence_fraction@ + counts_shown(
        d.high_confidence_edges as nat,
        d.edges_total as nat,
    ) + "  columns "@ + decimal(d.column_mappings as nat) + " in "@ + decimal(d.column_edges as nat)
        + " edge(s)"@
}

fn dag_text(d: &DagMetrics, f: &Figures<String>) -> (r: String)
    ensures
        r@ == dag_line(*d, *f),
{
    let mut s = "    ".to_owned();
    s.append(fill(d.dag.as_str(), 24).as_str());
    s.append(" coverage ");
    s.append(f.task_coverage.as_str());
    s.append(show_counts(d.tasks_with_lineage, d.tasks_total).as_str());
    s.append("  annotated ");
    s.append(f.annotation_coverage.as_str());
    s.append(show_counts(d.tasks_annotated, d.tasks_total).as_str());
    s.append("  high-conf ");
    s.append(f.high_confidence_fraction.as_str());
    s.append(show_counts(d.high_confidence_edges, d.edges_total).as_str());
    s.append("  columns ");
    s.append(decimal_of(d.column_mappings).as_str());
    s.append(" in ");
    s.append(decimal_of(d.column_edges as u128).as_str());
    s.append(" edge(s)");
    s
}

pub open spec fn verdict(ok: bool) -> Seq<char> {
    if ok {
        "PASS"@
    } else {
        "FAIL"@
    }
}

fn verdict_word(ok: bool) -> (r: &'static str)
    ensures
        r@ == verdict(ok),
{
    if ok {
        "PASS"
    } else {
        "FAIL"
    }
}

/// The line of a check.
pub open spec fn check_line(
    ok: bool,
    name: Seq<char>,
    value: Seq<char>,
    least: Seq<char>,
) -> Seq<char> {
    "  ["@ + verdict(ok) + "] "@ + name + " "@ + value + " >= "@ + least + " (min)"@
}

fn check_text(ok: bool, name: &str, value: &str, least: &str) -> (r: String)
    ensures
        r@ == check_line(ok, name@, value@, least@),
{
    let mut s = "  [".to_owned();
    s.append(verdict_word(ok));
    s.append("] ");
    s.append(name);
    s.append(" ");
    s.append(value);
    s.append(" >= ");
    s.append(least);
    s.append(" (min)");
    s
}

/// The line of a check that failed.
pub open spec fn failure_line(name: Seq<char>, value: Seq<char>, least: Seq<char>) -> Seq<char> {
    "gate failed: "@ + name + " "@ + value + " < min "@ + least
}

fn failure_text(name: &str, value: &str, least: &str) -> (r: String)
    ensures
        r@ == failure_line(name@, value@, least@),
{
    let mut s = "gate failed: ".to_owned();
    s.append(name);
    s.append(" ");
    s.append(value);
    s.append(" < min ");
    s.append(least);
    s
}

fn labelled(label: &str, value: &str) -> (r: String)
    ensures
        r@ == label@ + value@,
{
    let mut s = label.to_owned();
    s.append(value);
    s
}

fn counted(label: &str, n: u128) -> (r: String)
    ensures
        r@ == label@ + decimal(n as nat),
{
    let mut s = label.to_owned();
    s.append(decimal_of(n).as_str());
    s
}

/// The metrics of a gate, a line each.
pub open spec fn metric_lines(m: GateMetrics, f: Figures<String>) -> Seq<Seq<char>> {
    seq![
        "trace-weaver lineage gate"@,
        "  tasks_total               "@ + decimal(m.tasks_total as nat),
        "  tasks_with_lineage        "@ + decimal(m.tasks_with_lineage as nat),
        "  task_coverage             "@ + f.task_coverage@,
        "  tasks_annotated           "@ + decimal(m.tasks_annotated as nat),
        "  annotation_coverage       "@ + f.annotation_coverage@,
        "  edges_total               "@ + decimal(m.edges_total as nat),
        "  high_confidence_edges     "@ + decimal(m.high_confidence_edges as nat),
        "  high_confidence_fraction  "@ + f.high_confidence_fraction@,
        "  column_edges              "@ + decimal(m.column_edges as nat),
        "  column_mappings           "@ + decimal(m.column_mappings as nat),
    ]
}

fn metrics_text(m: &GateMetrics, f: &Figures<String>) -> (r: Vec<String>)
    ensures
        views(r@) == metric_lines(*m, *f),
{
    broadcast use group_views;

    let mut l: Vec<String> = Vec::new();
    say(&mut l, "trace-weaver lineage gate".to_owned());
    say(&mut l, counted("  tasks_total               ", m.tasks_total as u128));
    say(&mut l, counted("  tasks_with_lineage        ", m.tasks_with_lineage as u128));
    say(&mut l, labelled("  task_coverage             ", f.task_coverage.as_str()));
    say(&mut l, counted("  tasks_annotated           ", m.tasks_annotated as u128));
    say(&mut l, labelled("  annotation_coverage       ", f.annotation_coverage.as_str()));
    say(&mut l, counted("  edges_total               ", m.edges_total as u128));
    say(&mut l, counted("  high_confidence_edges     ", m.high_confidence_edges as u128));
    say(&mut l, labelled("  high_confidence_fraction  ", f.high_confidence_fraction.as_str()));
    say(&mut l, counted("  column_edges              ", m.column_edges as u128));
    say(&mut l, counted("  column_mappings           ", m.column_mappings));
    assert(views(l@) =~= metric_lines(*m, *f));
    l
}

/// The DAGs of a gate under their heading; nothing when there is none.
pub open spec fn dag_lines(ds: Seq<DagMetrics>, fs: Seq<Figures<String>>) -> Seq<Seq<char>> {
    if ds.len() == 0 {
        Seq::empty()
    } else {
        seq!["  per-DAG:"@] + Seq::new(ds.len(), |i: int| dag_line(ds[i], fs[i]))
    }
}

/// The outcome of a gate: a line for each check, and the verdict.
pub open spec fn outcome_lines(
    f: Figures<String>,
    least: Figures<String>,
    c: GateChecks,
) -> Seq<Seq<char>> {
    seq![
        ""@,
        check_line(c.task_coverage, "task_coverage"@, f.task_coverage@, least.task_coverage@),
        check_line(
            c.annotation_coverage,
            "annotation_coverage"@,
            f.annotation_coverage@,
            least.annotation_coverage@,
        ),
        check_line(
            c.high_confidence_fraction,
            "high_confidence_fraction"@,
            f.high_confidence_fraction@,
            least.high_confidence_fraction@,
        ),
        ""@,
        "gate: "@ + verdict(c.all_pass()),
    ]
}

fn outcome_text(f: &Figures<String>, least: &Figures<String>, c: GateChecks) -> (r: Vec<String>)
    ensures
        views(r@) == outcome_lines(*f, *least, c),
{
    broadcast use group_views;

    let mut l: Vec<String> = Vec::new();
    say(&mut l, "".to_owned());
    say(
        &mut l,
        check_text(
            c.task_coverage,
            "task_coverage",
            f.task_coverage.as_str(),
            least.task_coverage.as_str(),
        ),
    );
    say(
        &mut l,
        check_text(
            c.annotation_coverage,
            "annotation_coverage",
            f.annotation_coverage.as_str(),
            least.annotation_coverage.as_str(),
        ),
    );
    say(
        &mut l,
        check_text(
            c.high_confidence_fraction,
            "high_confidence_fraction",
            f.high_confidence_fraction.as_str(),
            least.high_confidence_fraction.as_str(),
        ),
    );
    say(&mut l, "".to_owned());
    say(&mut l, labelled("gate: ", verdict_word(c.passed())));
    assert(views(l@) =~= outcome_lines(*f, *least, c));
    l
}

/// The report of a gate as text: the metrics, those of each DAG and the outcome.
pub fn gate_lines(
    m: &GateMetrics,
    shown: &Figures<String>,
    per_dag: &Vec<Figures<String>>,
    least: &Figures<String>,
    c: GateChecks,
) -> (r: Vec<String>)
    requires
        per_dag@.len() == m.per_dag@.len(),
    ensures
        views(r@) == metric_lines(*m, *shown) + dag_lines(m.per_dag@, per_dag@) + outcome_lines(
            *shown,
            *least,
            c,
        ),
{
    broadcast use group_views;

    let mut l = metrics_text(m, shown);
    let ghost head = views(l@);
    if m.per_dag.len() > 0 {
        say(&mut l, "  per-DAG:".to_owned());
        let mut i: usize = 0;
        while i < m.per_dag.len()
            invariant
                i <= m.per_dag@.len() == per_dag@.len(),
                views(l@) =~= head + (seq!["  per-DAG:"@] + Seq::new(
                    i as nat,
                    |k: int| dag_line(m.per_dag@[k], per_dag@[k]),
                )),
            decreases m.per_dag@.len() - i,
        {
            say(&mut l, dag_text(&m.per_dag[i], &per_dag[i]));
            i = i + 1;
        }
    }
    assert(views(l@) =~= head + dag_lines(m.per_dag@, per_dag@));
    let mut tail = outcome_text(shown, least, c);
    l.append(&mut tail);
    l
}

/// The checks of a gate that failed, a line each.
pub open spec fn failed_lines(
    f: Figures<String>,
    least: Figures<String>,
    c: GateChecks,
) -> Seq<Seq<char>> {
    (if c.task_coverage {
        Seq::empty()
    } else {
        seq![failure_line("task_coverage"@, f.task_coverage@, least.task_coverage@)]
    }) + (if c.annotation_coverage {
        Seq::empty()
    } else {
        seq![
            failure_line("annotation_coverage"@, f.annotation_coverage@, least.annotation_coverage@),
        ]
    }) + (if c.high_confidence_fraction {
        Seq::empty()
    } else {
        seq![
            failure_line(
                "high_confidence_fraction"@,
                f.high_confidence_fraction@,
                least.high_confidence_fraction@,
            ),
        ]
    })
}

/// What is said of the checks that failed.
pub fn gate_failures(shown: &Figures<String>, least: &Figures<String>, c: GateChecks) -> (r: Vec<
    String,
>)
    ensures
        views(r@) == failed_lines(*shown, *least, c),
        r@.len() == 0 <==> c.all_pass(),
{
    broadcast use group_views;

    let mut l: Vec<String> = Vec::new();
    if !c.task_coverage {
        say(
            &mut l,
            failure_text(
                "task_coverage",
                shown.task_coverage.as_str(),
                least.task_coverage.as_str(),
            ),
        );
    }
    if !c.annotation_coverage {
        say(
            &mut l,
            failure_text(
                "annotation_coverage",
                shown.annotation_coverage.as_str(),
                least.annotation_coverage.as_str(),
            ),
        );
    }
    if !c.high_confidence_fraction {
        say(
            &mut l,
            failure_text(
                "high_confidence_fraction",
                shown.high_confidence_fraction.as_str(),
                least.high_confidence_fraction.as_str(),
            ),
        );
    }
    assert(views(l@) =~= failed_lines(*shown, *least, c));
    l
}

pub open spec fn number(n: nat) -> JsonTree {
    JsonTree::Number(decimal(n))
}

/// The metrics of a DAG as an object.
pub open spec fn dag_object(d: DagMetrics, f: Figures<Json>) -> JsonTree {
    object_of(
        seq![
            ("dag"@, JsonTree::Text(d.dag@)),
            ("tasks_total"@, number(d.tasks_total as nat)),
            ("tasks_with_lineage"@, number(d.tasks_with_lineage as nat)),
            ("task_coverage"@, f.task_coverage@),
            ("tasks_annotated"@, number(d.tasks_annotated as nat)),
            ("annotation_coverage"@, f.annotation_coverage@),
            ("edges_total"@, number(d.edges_total as nat)),
            ("high_confidence_edges"@, number(d.high_confidence_edges as nat)),
            ("high_confidence_fraction"@, f.high_confidence_fraction@),
            ("column_edges"@, number(d.column_edges as nat)),
            ("column_mappings"@, number(d.column_mappings as nat)),
        ],
    )
}

fn dag_json(d: &DagMetrics, f: &Figures<Json>) -> (r: Json)
    requires
        d.column_mappings <= u64::MAX,
    ensures
        r@ == dag_object(*d, *f),
{
    broadcast use group_views;

    let mut o: Vec<(String, Json)> = Vec::new();
    o.push(text_entry("dag", d.dag.as_str()));
    o.push(entry("tasks_total", json_number(d.tasks_total as u64)));
    o.push(entry("tasks_with_lineage", json_number(d.tasks_with_lineage as u64)));
    o.push(entry("task_coverage", f.task_coverage.clone()));
    o.push(entry("tasks_annotated", json_number(d.tasks_annotated as u64)));
    o.push(entry("annotation_coverage", f.annotation_coverage.clone()));
    o.push(entry("edges_total", json_number(d.edges_total as u64)));
    o.push(entry("high_confidence_edges", json_number(d.high_confidence_edges as u64)));
    o.push(entry("high_confidence_fraction", f.high_confidence_fraction.clone()));
    o.push(entry("column_edges", json_number(d.column_edges as u64)));
    o.push(entry("column_mappings", json_number(d.column_mappings as u64)));
    let ghost entries = views(o@);
    let r = json_object(o);
    assert(entries =~= seq![
        ("dag"@, JsonTree::Text(d.dag@)),
        ("tasks_total"@, number(d.tasks_total as nat)),
        ("tasks_with_lineage"@, number(d.tasks_with_lineage as nat)),
        ("task_coverage"@, f.task_coverage@),
        ("tasks_annotated"@, number(d.tasks_annotated as nat)),
        ("annotation_coverage"@, f.annotation_coverage@),
        ("edges_total"@, number(d.edges_total as nat)),
        ("high_confidence_edges"@, number(d.high_confidence_edges as nat)),
        ("high_confidence_fraction"@, f.high_confidence_fraction@),
        ("column_edges"@, number(d.column_edges as nat)),
        ("column_mappings"@, number(d.column_mappings as nat)),
    ]);
    r
}

pub open spec fn thresholds_object(least: Figures<Json>) -> JsonTree {
    object_of(
        seq![
            ("min_task_coverage"@, least.task_coverage@),
            ("min_high_confidence"@, least.high_confidence_fraction@),
            ("min_annotation_coverage"@, least.annotation_coverage@),
        ],
    )
}

fn thresholds_json(least: &Figures<Json>) -> (r: Json)
    ensures
        r@ == thresholds_object(*least),
{
    broadcast use group_views;

    let mut o: Vec<(String, Json)> = Vec::new();
    o.push(entry("min_task_coverage", least.task_coverage.clone()));
    o.push(entry("min_high_confidence", least.high_confidence_fraction.clone()));
    o.push(entry("min_annotation_coverage", least.annotation_coverage.clone()));
    let ghost entries = views(o@);
    let r = json_object(o);
    assert(entries =~= seq![
        ("min_task_coverage"@, least.task_coverage@),
        ("min_high_confidence"@, least.high_confidence_fraction@),
        ("min_annotation_coverage"@, least.annotation_coverage@),
    ]);
    r
}

pub open spec fn checks_object(c: GateChecks) -> JsonTree {
    object_of(
        seq![
            ("task_coverage"@, JsonTree::Bool(c.task_coverage)),
            ("high_confidence_fraction"@, JsonTree::Bool(c.high_confidence_fraction)),
            ("annotation_coverage"@, JsonTree::Bool(c.annotation_coverage)),
        ],
    )
}

fn checks_json(c: GateChecks) -> (r: Json)
    ensures
        r@ == checks_object(c),
{
    broadcast use group_views;

    let mut o: Vec<(String, Json)> = Vec::new();
    o.push(entry("task_coverage", json_bool(c.task_coverage)));
    o.push(entry("high_confidence_fraction", json_bool(c.high_confidence_fraction)));
    o.push(entry("annotation_coverage", json_bool(c.annotation_coverage)));
    let ghost entries = views(o@);
    let r = json_object(o);
    assert(entries =~= seq![
        ("task_coverage"@, JsonTree::Bool(c.task_coverage)),
        ("high_confidence_fraction"@, JsonTree::Bool(c.high_confidence_fraction)),
        ("annotation_coverage"@, JsonTree::Bool(c.annotation_coverage)),
    ]);
    r
}

/// The entries of a gate's report, but for the DAGs.
pub open spec fn gate_entries(
    m: GateMetrics,
    f: Figures<Json>,
    least: Figures<Json>,
    c: GateChecks,
) -> Seq<(Seq<char>, JsonTree)> {
    seq![
        ("tasks_total"@, number(m.tasks_total as nat)),
        ("tasks_with_lineage"@, number(m.tasks_with_lineage as nat)),
        ("task_coverage"@, f.task_coverage@),
        ("tasks_annotated"@, number(m.tasks_annotated as nat)),
        ("annotation_coverage"@, f.annotation_coverage@),
        ("edges_total"@, number(m.edges_total as nat)),
        ("high_confidence_edges"@, number(m.high_confidence_edges as nat)),
        ("high_confidence_fraction"@, f.high_confidence_fraction@),
        ("column_edges"@, number(m.column_edges as nat)),
        ("column_mappings"@, number(m.column_mappings as nat)),
        ("thresholds"@, thresholds_object(least)),
        ("checks"@, checks_object(c)),
        ("passed"@, JsonTree::Bool(c.all_pass())),
    ]
}

/// The report of a gate as an object.
pub open spec fn gate_object(
    m: GateMetrics,
    f: Figures<Json>,
    per_dag: Seq<Figures<Json>>,
    least: Figures<Json>,
    c: GateChecks,
) -> JsonTree {
    object_of(
        gate_entries(m, f, least, c).push(
            (
                "per_dag"@,
                JsonTree::List(
                    Seq::new(m.per_dag@.len(), |i: int| dag_object(m.per_dag@[i], per_dag[i])),
                ),
            ),
        ),
    )
}

fn dags_json(ds: &Vec<DagMetrics>, fs: &Vec<Figures<Json>>) -> (r: Vec<Json>)
    requires
        fs@.len() == ds@.len(),
        forall|i: int| 0 <= i < ds@.len() ==> (#[trigger] ds@[i]).column_mappings <= u64::MAX,
    ensures
        views(r@) == Seq::new(ds@.len(), |i: int| dag_object(ds@[i], fs@[i])),
{
    broadcast use group_views;

    let mut out: Vec<Json> = Vec::new();
    let mut i: usize = 0;
    while i < ds.len()
        invariant
            i <= ds@.len() == fs@.len(),
            forall|k: int| 0 <= k < ds@.len() ==> (#[trigger] ds@[k]).column_mappings <= u64::MAX,
            views(out@) =~= Seq::new(i as nat, |k: int| dag_object(ds@[k], fs@[k])),
        decreases ds@.len() - i,
    {
        broadcast use group_views;

        out.push(dag_json(&ds[i], &fs[i]));
        i = i + 1;
    }
    out
}

/// The report of a gate as JSON. A count of mappings goes in when a machine
/// word holds it.
pub fn gate_json(
    m: &GateMetrics,
    numbers: &Figures<Json>,
    per_dag: &Vec<Figures<Json>>,
    least: &Figures<Json>,
    c: GateChecks,
) -> (r: Json)
    requires
        per_dag@.len() == m.per_dag@.len(),
        m.column_mappings <= u64::MAX,
        forall|i: int|
            0 <= i < m.per_dag@.len() ==> (#[trigger] m.per_dag@[i]).column_mappings <= u64::MAX,
    ensures
        r@ == gate_object(*m, *numbers, per_dag@, *least, c),
{
    broadcast use group_views;

    let mut o: Vec<(String, Json)> = Vec::new();
    o.push(entry("tasks_total", json_number(m.tasks_total as u64)));
    o.push(entry("tasks_with_lineage", json_number(m.tasks_with_lineage as u64)));
    o.push(entry("task_coverage", numbers.task_coverage.clone()));
    o.push(entry("tasks_annotated", json_number(m.tasks_annotated as u64)));
    o.push(entry("annotation_coverage", numbers.annotation_coverage.clone()));
    o.push(entry("edges_total", json_number(m.edges_total as u64)));
    o.push(entry("high_confidence_edges", json_number(m.high_confidence_edges as u64)));
    o.push(entry("high_confidence_fraction", numbers.high_confidence_fraction.clone()));
    o.push(entry("column_edges", json_number(m.column_edges as u64)));
    o.push(entry("column_mappings", json_number(m.column_mappings as u64)));
    o.push(entry("thresholds", thresholds_json(least)));
    o.push(entry("checks", checks_json(c)));
    o.push(entry("passed", json_bool(c.passed())));
    assert(views(o@) =~= gate_entries(*m, *numbers, *least, c));
    o.push(entry("per_dag", json_list(dags_json(&m.per_dag, per_dag))));
    json_object(o)
}

/// The text of a gate's report as JSON; an empty object when it cannot be
/// written.
pub fn gate_json_text(report: &Json) -> (r: String)
    ensures
        r@ == (match pretty_text(report@) {
            Ok(s) => s,
            Err(_) => "{}"@,
        }),
{
    match json_pretty(report) {
        Ok(s) => s,
        Err(_) => "{}".to_owned(),
    }
}

} // verus!

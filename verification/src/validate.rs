//! Structural validation of a document.

use vstd::prelude::*;

use crate::model::{
    dataset_index, dataset_index_bounds, finding, has_dataset, has_field, schema_has, ColumnEdge,
    ColumnEdgeView, DatasetView, DiagLevel, Diagnostic, DiagnosticView, DocumentView, Edge,
    EdgeView, JobView, WeaveDocument,
};
use crate::text::{group_views, str_eq, views};

verus! {

/// A text between quotes, with words in front of it and behind it.
pub open spec fn quoted(before: Seq<char>, name: Seq<char>, after: Seq<char>) -> Seq<char> {
    before + name + after
}

fn quote(before: &str, name: &str, after: &str) -> (r: String)
    ensures
        r@ == quoted(before@, name@, after@),
{
    let mut s = before.to_owned();
    s.append(name);
    s.append(after);
    s
}

// ─────────────────────────────── datasets ─────────────────────────────

/// An error for each of the first `n` datasets whose name occurs before it.
pub open spec fn name_findings(ds: Seq<DatasetView>, n: int) -> Seq<DiagnosticView>
    decreases n,
{
    if n <= 0 {
        Seq::empty()
    } else if dataset_index(ds, ds[n - 1].name, 0) < n - 1 {
        name_findings(ds, n - 1).push(
            finding(
                DiagLevel::Error,
                "E_DUP_DATASET"@,
                quoted("duplicate dataset name '"@, ds[n - 1].name, "'"@),
            ),
        )
    } else {
        name_findings(ds, n - 1)
    }
}

fn check_names(doc: &WeaveDocument) -> (r: Vec<Diagnostic>)
    ensures
        views(r@) == name_findings(doc@.datasets, doc@.datasets.len() as int),
{
    broadcast use group_views;

    let ghost ds = doc@.datasets;
    let mut out: Vec<Diagnostic> = Vec::new();
    let mut i: usize = 0;
    while i < doc.datasets.len()
        invariant
            i <= doc.datasets@.len(),
            ds == views(doc.datasets@),
            ds == doc@.datasets,
            views(out@) == name_findings(ds, i as int),
        decreases doc.datasets@.len() - i,
    {
        broadcast use group_views;

        let name = doc.datasets[i].name.as_str();
        assert(ds[i as int] == doc.datasets@[i as int]@);
        let first: usize = doc.find_dataset(name);
        if first < i {
            let m = quote("duplicate dataset name '", name, "'");
            out.push(Diagnostic::error("E_DUP_DATASET", m.as_str()));
        }
        i = i + 1;
    }
    out
}

// ──────────────────────────────── columns ─────────────────────────────

/// The findings about a column that a mapping names: that it is not on the
/// end of the edge, and that the schema of its dataset, where one is known,
/// does not have it.
pub open spec fn column_findings(
    d: DocumentView,
    acc: Seq<DiagnosticView>,
    dataset: Seq<char>,
    column: Seq<char>,
    endpoint: Seq<char>,
) -> Seq<DiagnosticView> {
    let a = if dataset != endpoint {
        acc.push(
            finding(
                DiagLevel::Warn,
                "W_COLUMN_ENDPOINT"@,
                "column '"@ + dataset + "."@ + column + "' is not on the edge endpoint '"@
                    + endpoint + "'"@,
            ),
        )
    } else {
        acc
    };
    let i = dataset_index(d.datasets, dataset, 0);
    if i < d.datasets.len() && d.datasets[i].schema.len() > 0 && !has_field(
        d.datasets[i].schema,
        column,
    ) {
        a.push(
            finding(
                DiagLevel::Warn,
                "W_UNKNOWN_COLUMN"@,
                "column '"@ + column + "' not found in schema of dataset '"@ + dataset + "'"@,
            ),
        )
    } else {
        a
    }
}

/// The findings about the first `n` sources of a mapping.
pub open spec fn source_findings(
    d: DocumentView,
    acc: Seq<DiagnosticView>,
    c: ColumnEdgeView,
    endpoint: Seq<char>,
    n: int,
) -> Seq<DiagnosticView>
    decreases n,
{
    if n <= 0 {
        acc
    } else {
        column_findings(
            d,
            source_findings(d, acc, c, endpoint, n - 1),
            c.from_columns[n - 1].dataset,
            c.from_columns[n - 1].column,
            endpoint,
        )
    }
}

/// The findings about the first `n` mappings of an edge.
pub open spec fn mapping_findings(
    d: DocumentView,
    acc: Seq<DiagnosticView>,
    e: EdgeView,
    n: int,
) -> Seq<DiagnosticView>
    decreases n,
{
    if n <= 0 {
        acc
    } else {
        let c = e.column_lineage[n - 1];
        source_findings(
            d,
            column_findings(
                d,
                mapping_findings(d, acc, e, n - 1),
                c.to_column.dataset,
                c.to_column.column,
                e.to,
            ),
            c,
            e.from,
            c.from_columns.len() as int,
        )
    }
}

fn check_column(
    doc: &WeaveDocument,
    dataset: &str,
    column: &str,
    endpoint: &str,
    out: &mut Vec<Diagnostic>,
)
    ensures
        views(final(out)@) == column_findings(doc@, views(old(out)@), dataset@, column@, endpoint@),
{
    broadcast use group_views;

    if !str_eq(dataset, endpoint) {
        let mut m = "column '".to_owned();
        m.append(dataset);
        m.append(".");
        m.append(column);
        m.append("' is not on the edge endpoint '");
        m.append(endpoint);
        m.append("'");
        out.push(Diagnostic::warn("W_COLUMN_ENDPOINT", m.as_str()));
    }
    if let Some(ds) = doc.dataset(dataset) {
        if ds.schema.len() > 0 && !schema_has(&ds.schema, column) {
            let mut m = "column '".to_owned();
            m.append(column);
            m.append("' not found in schema of dataset '");
            m.append(dataset);
            m.append("'");
            out.push(Diagnostic::warn("W_UNKNOWN_COLUMN", m.as_str()));
        }
    }
}

fn check_mapping(doc: &WeaveDocument, c: &ColumnEdge, from: &str, to: &str, out: &mut Vec<Diagnostic>)
    ensures
        views(final(out)@) == source_findings(
            doc@,
            column_findings(
                doc@,
                views(old(out)@),
                c@.to_column.dataset,
                c@.to_column.column,
                to@,
            ),
            c@,
            from@,
            c@.from_columns.len() as int,
        ),
{
    check_column(doc, c.to_column.dataset.as_str(), c.to_column.column.as_str(), to, out);
    let ghost start = views(out@);
    let mut i: usize = 0;
    while i < c.from_columns.len()
        invariant
            i <= c.from_columns@.len(),
            views(out@) == source_findings(doc@, start, c@, from@, i as int),
        decreases c.from_columns@.len() - i,
    {
        let f = &c.from_columns[i];
        assert(c@.from_columns[i as int] == f@);
        check_column(doc, f.dataset.as_str(), f.column.as_str(), from, out);
        i = i + 1;
    }
}

// ───────────────────────────────── edges ──────────────────────────────

/// The error for an end of an edge that is no dataset of the document.
pub open spec fn endpoint_findings(
    d: DocumentView,
    acc: Seq<DiagnosticView>,
    role: Seq<char>,
    name: Seq<char>,
) -> Seq<DiagnosticView> {
    if has_dataset(d.datasets, name) {
        acc
    } else {
        acc.push(
            finding(DiagLevel::Error, "E_UNKNOWN_DATASET"@, quoted(role, name, "' is not declared"@)),
        )
    }
}

pub open spec fn edge_findings(d: DocumentView, acc: Seq<DiagnosticView>, e: EdgeView) -> Seq<
    DiagnosticView,
> {
    let a = endpoint_findings(d, acc, "edge source dataset '"@, e.from);
    let b = endpoint_findings(d, a, "edge target dataset '"@, e.to);
    mapping_findings(d, b, e, e.column_lineage.len() as int)
}

/// The findings about the first `n` edges.
pub open spec fn edges_findings(d: DocumentView, acc: Seq<DiagnosticView>, n: int) -> Seq<
    DiagnosticView,
>
    decreases n,
{
    if n <= 0 {
        acc
    } else {
        edge_findings(d, edges_findings(d, acc, n - 1), d.edges[n - 1])
    }
}

fn check_endpoint(doc: &WeaveDocument, role: &str, name: &str, out: &mut Vec<Diagnostic>)
    ensures
        views(final(out)@) == endpoint_findings(doc@, views(old(out)@), role@, name@),
{
    broadcast use group_views;

    if doc.dataset(name).is_none() {
        let m = quote(role, name, "' is not declared");
        out.push(Diagnostic::error("E_UNKNOWN_DATASET", m.as_str()));
    }
}

fn check_edge(doc: &WeaveDocument, e: &Edge, out: &mut Vec<Diagnostic>)
    ensures
        views(final(out)@) == edge_findings(doc@, views(old(out)@), e@),
{
    check_endpoint(doc, "edge source dataset '", e.from.as_str(), out);
    check_endpoint(doc, "edge target dataset '", e.to.as_str(), out);
    let ghost start = views(out@);
    let mut i: usize = 0;
    while i < e.column_lineage.len()
        invariant
            i <= e.column_lineage@.len(),
            views(out@) == mapping_findings(doc@, start, e@, i as int),
        decreases e.column_lineage@.len() - i,
    {
        assert(e@.column_lineage[i as int] == e.column_lineage@[i as int]@);
        check_mapping(doc, &e.column_lineage[i], e.from.as_str(), e.to.as_str(), out);
        i = i + 1;
    }
}

// ────────────────────────────────── jobs ──────────────────────────────

/// A warning for each of the first `n` names that is no dataset.
pub open spec fn reference_findings(
    d: DocumentView,
    acc: Seq<DiagnosticView>,
    job: Seq<char>,
    names: Seq<Seq<char>>,
    n: int,
) -> Seq<DiagnosticView>
    decreases n,
{
    if n <= 0 {
        acc
    } else {
        let a = reference_findings(d, acc, job, names, n - 1);
        if has_dataset(d.datasets, names[n - 1]) {
            a
        } else {
            a.push(
                finding(
                    DiagLevel::Warn,
                    "W_JOB_DATASET"@,
                    "job '"@ + job + "' references undeclared dataset '"@ + names[n - 1] + "'"@,
                ),
            )
        }
    }
}

pub open spec fn job_findings(d: DocumentView, acc: Seq<DiagnosticView>, j: JobView) -> Seq<
    DiagnosticView,
> {
    let a = reference_findings(d, acc, j.id, j.inputs, j.inputs.len() as int);
    reference_findings(d, a, j.id, j.outputs, j.outputs.len() as int)
}

/// The findings about the first `n` jobs.
pub open spec fn jobs_findings(d: DocumentView, acc: Seq<DiagnosticView>, n: int) -> Seq<
    DiagnosticView,
>
    decreases n,
{
    if n <= 0 {
        acc
    } else {
        job_findings(d, jobs_findings(d, acc, n - 1), d.jobs[n - 1])
    }
}

fn check_references(doc: &WeaveDocument, job: &str, names: &Vec<String>, out: &mut Vec<Diagnostic>)
    ensures
        views(final(out)@) == reference_findings(
            doc@,
            views(old(out)@),
            job@,
            views(names@),
            names@.len() as int,
        ),
{
    let ghost start = views(out@);
    let ghost nv = views(names@);
    let mut i: usize = 0;
    while i < names.len()
        invariant
            i <= names@.len(),
            nv == views(names@),
            views(out@) == reference_findings(doc@, start, job@, nv, i as int),
        decreases names@.len() - i,
    {
        broadcast use group_views;

        assert(nv[i as int] == names@[i as int]@);
        if doc.dataset(names[i].as_str()).is_none() {
            let mut m = "job '".to_owned();
            m.append(job);
            m.append("' references undeclared dataset '");
            m.append(names[i].as_str());
            m.append("'");
            out.push(Diagnostic::warn("W_JOB_DATASET", m.as_str()));
        }
        i = i + 1;
    }
}

// ──────────────────────────────── the checks ──────────────────────────

/// Everything that validation finds: names first, then edges, then jobs.
pub open spec fn findings(d: DocumentView) -> Seq<DiagnosticView> {
    let a = name_findings(d.datasets, d.datasets.len() as int);
    let b = edges_findings(d, a, d.edges.len() as int);
    jobs_findings(d, b, d.jobs.len() as int)
}

/// Checks a document and says what is wrong with it.
pub fn validate(doc: &WeaveDocument) -> (r: Vec<Diagnostic>)
    ensures
        views(r@) == findings(doc@),
{
    let mut out = check_names(doc);
    let ghost a = views(out@);
    let mut i: usize = 0;
    while i < doc.edges.len()
        invariant
            i <= doc.edges@.len(),
            views(out@) == edges_findings(doc@, a, i as int),
        decreases doc.edges@.len() - i,
    {
        assert(doc@.edges[i as int] == doc.edges@[i as int]@);
        check_edge(doc, &doc.edges[i], &mut out);
        i = i + 1;
    }
    let ghost b = views(out@);
    let mut k: usize = 0;
    while k < doc.jobs.len()
        invariant
            k <= doc.jobs@.len(),
            views(out@) == jobs_findings(doc@, b, k as int),
        decreases doc.jobs@.len() - k,
    {
        let j = &doc.jobs[k];
        assert(doc@.jobs[k as int] == j@);
        check_references(doc, j.id.as_str(), &j.inputs, &mut out);
        check_references(doc, j.id.as_str(), &j.outputs, &mut out);
        k = k + 1;
    }
    out
}

/// True when one of the findings is an error.
pub open spec fn any_error(s: Seq<DiagnosticView>) -> bool {
    exists|i: int| 0 <= i < s.len() && (#[trigger] s[i]).level == DiagLevel::Error
}

/// True when a finding is an error.
pub fn has_errors(diags: &[Diagnostic]) -> (r: bool)
    ensures
        r == any_error(views(diags@)),
{
    let ghost dv = views(diags@);
    let mut i: usize = 0;
    while i < diags.len()
        invariant
            i <= diags@.len(),
            dv == views(diags@),
            forall|k: int| 0 <= k < i ==> (#[trigger] dv[k]).level != DiagLevel::Error,
        decreases diags@.len() - i,
    {
        assert(dv[i as int] == diags@[i as int]@);
        if diags[i].level == DiagLevel::Error {
            return true;
        }
        i = i + 1;
    }
    false
}

// ────────────────────────────── laws of validation ────────────────────

/// True when no two datasets have the same name.
pub open spec fn names_unique(ds: Seq<DatasetView>) -> bool {
    forall|i: int, j: int|
        0 <= i < j < ds.len() ==> (#[trigger] ds[i]).name != (#[trigger] ds[j]).name
}

/// True when both ends of the edge are datasets of the document.
pub open spec fn ends_known(d: DocumentView, e: EdgeView) -> bool {
    has_dataset(d.datasets, e.from) && has_dataset(d.datasets, e.to)
}

proof fn push_error(s: Seq<DiagnosticView>, x: DiagnosticView)
    ensures
        any_error(s.push(x)) == (any_error(s) || x.level == DiagLevel::Error),
{
    let t = s.push(x);
    if any_error(s) {
        let i = choose|i: int| 0 <= i < s.len() && (#[trigger] s[i]).level == DiagLevel::Error;
        assert(t[i].level == DiagLevel::Error);
    }
    assert(t[s.len() as int] == x);
    if any_error(t) && !any_error(s) {
        let i = choose|i: int| 0 <= i < t.len() && (#[trigger] t[i]).level == DiagLevel::Error;
        if i < s.len() {
            assert(s[i].level == DiagLevel::Error);
        }
    }
}

proof fn name_errors(ds: Seq<DatasetView>, n: int)
    requires
        0 <= n <= ds.len(),
    ensures
        any_error(name_findings(ds, n)) == !names_unique(ds.subrange(0, n)),
    decreases n,
{
    let s = ds.subrange(0, n);
    if n > 0 {
        name_errors(ds, n - 1);
        let p = ds.subrange(0, n - 1);
        let x = finding(
            DiagLevel::Error,
            "E_DUP_DATASET"@,
            quoted("duplicate dataset name '"@, ds[n - 1].name, "'"@),
        );
        push_error(name_findings(ds, n - 1), x);
        dataset_index_bounds(ds, ds[n - 1].name, 0);
        let k = dataset_index(ds, ds[n - 1].name, 0);
        assert forall|i: int| 0 <= i < n implies s[i] == ds[i] by {}
        assert forall|i: int| 0 <= i < n - 1 implies p[i] == ds[i] by {}
        if k < n - 1 {
            assert(s[k].name == s[n - 1].name);
        } else if names_unique(p) {
            assert forall|i: int, j: int| 0 <= i < j < s.len() implies (#[trigger] s[i]).name != (
            #[trigger] s[j]).name by {
                if j < n - 1 {
                    assert(p[i].name != p[j].name);
                } else {
                    assert(ds[i].name != ds[n - 1].name);
                }
            }
        } else {
            let (i, j) = choose|i: int, j: int|
                0 <= i < j < p.len() && (#[trigger] p[i]).name == (#[trigger] p[j]).name;
            assert(s[i].name == s[j].name);
        }
    } else {
        assert(s.len() == 0);
    }
}

proof fn column_warns(
    d: DocumentView,
    acc: Seq<DiagnosticView>,
    dataset: Seq<char>,
    column: Seq<char>,
    endpoint: Seq<char>,
)
    ensures
        any_error(column_findings(d, acc, dataset, column, endpoint)) == any_error(acc),
{
    let x = finding(
        DiagLevel::Warn,
        "W_COLUMN_ENDPOINT"@,
        "column '"@ + dataset + "."@ + column + "' is not on the edge endpoint '"@ + endpoint + "'"@,
    );
    push_error(acc, x);
    let y = finding(
        DiagLevel::Warn,
        "W_UNKNOWN_COLUMN"@,
        "column '"@ + column + "' not found in schema of dataset '"@ + dataset + "'"@,
    );
    push_error(acc, y);
    push_error(acc.push(x), y);
}

proof fn sources_warn(
    d: DocumentView,
    acc: Seq<DiagnosticView>,
    c: ColumnEdgeView,
    endpoint: Seq<char>,
    n: int,
)
    ensures
        any_error(source_findings(d, acc, c, endpoint, n)) == any_error(acc),
    decreases n,
{
    if n > 0 {
        sources_warn(d, acc, c, endpoint, n - 1);
        column_warns(
            d,
            source_findings(d, acc, c, endpoint, n - 1),
            c.from_columns[n - 1].dataset,
            c.from_columns[n - 1].column,
            endpoint,
        );
    }
}

proof fn mappings_warn(d: DocumentView, acc: Seq<DiagnosticView>, e: EdgeView, n: int)
    ensures
        any_error(mapping_findings(d, acc, e, n)) == any_error(acc),
    decreases n,
{
    if n > 0 {
        mappings_warn(d, acc, e, n - 1);
        let c = e.column_lineage[n - 1];
        let s = mapping_findings(d, acc, e, n - 1);
        column_warns(d, s, c.to_column.dataset, c.to_column.column, e.to);
        sources_warn(
            d,
            column_findings(d, s, c.to_column.dataset, c.to_column.column, e.to),
            c,
            e.from,
            c.from_columns.len() as int,
        );
    }
}

proof fn edge_errors(d: DocumentView, acc: Seq<DiagnosticView>, n: int)
    requires
        0 <= n <= d.edges.len(),
    ensures
        any_error(edges_findings(d, acc, n)) == (any_error(acc) || exists|i: int|
            0 <= i < n && !ends_known(d, #[trigger] d.edges[i])),
    decreases n,
{
    if n > 0 {
        edge_errors(d, acc, n - 1);
        let s = edges_findings(d, acc, n - 1);
        let e = d.edges[n - 1];
        let x = finding(
            DiagLevel::Error,
            "E_UNKNOWN_DATASET"@,
            quoted("edge source dataset '"@, e.from, "' is not declared"@),
        );
        push_error(s, x);
        let a = endpoint_findings(d, s, "edge source dataset '"@, e.from);
        let y = finding(
            DiagLevel::Error,
            "E_UNKNOWN_DATASET"@,
            quoted("edge target dataset '"@, e.to, "' is not declared"@),
        );
        push_error(a, y);
        let b = endpoint_findings(d, a, "edge target dataset '"@, e.to);
        mappings_warn(d, b, e, e.column_lineage.len() as int);
        if exists|i: int| 0 <= i < n - 1 && !ends_known(d, #[trigger] d.edges[i]) {
            let i = choose|i: int| 0 <= i < n - 1 && !ends_known(d, #[trigger] d.edges[i]);
            assert(!ends_known(d, d.edges[i]));
        }
    }
}

proof fn references_warn(
    d: DocumentView,
    acc: Seq<DiagnosticView>,
    job: Seq<char>,
    names: Seq<Seq<char>>,
    n: int,
)
    ensures
        any_error(reference_findings(d, acc, job, names, n)) == any_error(acc),
    decreases n,
{
    if n > 0 {
        references_warn(d, acc, job, names, n - 1);
        push_error(
            reference_findings(d, acc, job, names, n - 1),
            finding(
                DiagLevel::Warn,
                "W_JOB_DATASET"@,
                "job '"@ + job + "' references undeclared dataset '"@ + names[n - 1] + "'"@,
            ),
        );
    }
}

proof fn jobs_warn(d: DocumentView, acc: Seq<DiagnosticView>, n: int)
    ensures
        any_error(jobs_findings(d, acc, n)) == any_error(acc),
    decreases n,
{
    if n > 0 {
        jobs_warn(d, acc, n - 1);
        let s = jobs_findings(d, acc, n - 1);
        let j = d.jobs[n - 1];
        references_warn(d, s, j.id, j.inputs, j.inputs.len() as int);
        let a = reference_findings(d, s, j.id, j.inputs, j.inputs.len() as int);
        references_warn(d, a, j.id, j.outputs, j.outputs.len() as int);
    }
}

/// Validation reports an error exactly when two datasets share a name or an
/// edge ends at a dataset that the document does not have; everything else
/// that it finds is a warning.
pub proof fn errors_are_duplicates_or_dangling_edges(d: DocumentView)
    ensures
        any_error(findings(d)) == !(names_unique(d.datasets) && forall|i: int|
            0 <= i < d.edges.len() ==> ends_known(d, #[trigger] d.edges[i])),
{
    name_errors(d.datasets, d.datasets.len() as int);
    assert(d.datasets.subrange(0, d.datasets.len() as int) =~= d.datasets);
    let a = name_findings(d.datasets, d.datasets.len() as int);
    edge_errors(d, a, d.edges.len() as int);
    jobs_warn(d, edges_findings(d, a, d.edges.len() as int), d.jobs.len() as int);
}

/// True when two documents have the same datasets, jobs and edges.
pub open spec fn same_contents(a: DocumentView, b: DocumentView) -> bool {
    a.datasets == b.datasets && a.jobs == b.jobs && a.edges == b.edges
}

proof fn sources_found_alike(
    a: DocumentView,
    b: DocumentView,
    acc: Seq<DiagnosticView>,
    c: ColumnEdgeView,
    endpoint: Seq<char>,
    n: int,
)
    requires
        same_contents(a, b),
    ensures
        source_findings(a, acc, c, endpoint, n) == source_findings(b, acc, c, endpoint, n),
    decreases n,
{
    if n > 0 {
        sources_found_alike(a, b, acc, c, endpoint, n - 1);
    }
}

proof fn mappings_found_alike(
    a: DocumentView,
    b: DocumentView,
    acc: Seq<DiagnosticView>,
    e: EdgeView,
    n: int,
)
    requires
        same_contents(a, b),
    ensures
        mapping_findings(a, acc, e, n) == mapping_findings(b, acc, e, n),
    decreases n,
{
    if n > 0 {
        mappings_found_alike(a, b, acc, e, n - 1);
        let c = e.column_lineage[n - 1];
        sources_found_alike(
            a,
            b,
            column_findings(
                a,
                mapping_findings(a, acc, e, n - 1),
                c.to_column.dataset,
                c.to_column.column,
                e.to,
            ),
            c,
            e.from,
            c.from_columns.len() as int,
        );
    }
}

proof fn edges_found_alike(a: DocumentView, b: DocumentView, acc: Seq<DiagnosticView>, n: int)
    requires
        same_contents(a, b),
    ensures
        edges_findings(a, acc, n) == edges_findings(b, acc, n),
    decreases n,
{
    if n > 0 {
        edges_found_alike(a, b, acc, n - 1);
        let e = a.edges[n - 1];
        let s = endpoint_findings(
            a,
            edges_findings(a, acc, n - 1),
            "edge source dataset '"@,
            e.from,
        );
        let t = endpoint_findings(a, s, "edge target dataset '"@, e.to);
        mappings_found_alike(a, b, t, e, e.column_lineage.len() as int);
    }
}

proof fn references_found_alike(
    a: DocumentView,
    b: DocumentView,
    acc: Seq<DiagnosticView>,
    job: Seq<char>,
    names: Seq<Seq<char>>,
    n: int,
)
    requires
        same_contents(a, b),
    ensures
        reference_findings(a, acc, job, names, n) == reference_findings(b, acc, job, names, n),
    decreases n,
{
    if n > 0 {
        references_found_alike(a, b, acc, job, names, n - 1);
    }
}

proof fn jobs_found_alike(a: DocumentView, b: DocumentView, acc: Seq<DiagnosticView>, n: int)
    requires
        same_contents(a, b),
    ensures
        jobs_findings(a, acc, n) == jobs_findings(b, acc, n),
    decreases n,
{
    if n > 0 {
        jobs_found_alike(a, b, acc, n - 1);
        let j = a.jobs[n - 1];
        let s = jobs_findings(a, acc, n - 1);
        references_found_alike(a, b, s, j.id, j.inputs, j.inputs.len() as int);
        let t = reference_findings(a, s, j.id, j.inputs, j.inputs.len() as int);
        references_found_alike(a, b, t, j.id, j.outputs, j.outputs.len() as int);
    }
}

/// Validation looks at datasets, jobs and edges alone, and not at what a
/// document already reports.
pub proof fn findings_rest_on_contents(a: DocumentView, b: DocumentView)
    requires
        same_contents(a, b),
    ensures
        findings(a) == findings(b),
{
    let s = name_findings(a.datasets, a.datasets.len() as int);
    edges_found_alike(a, b, s, a.edges.len() as int);
    let t = edges_findings(a, s, a.edges.len() as int);
    jobs_found_alike(a, b, t, a.jobs.len() as int);
}

} // verus!

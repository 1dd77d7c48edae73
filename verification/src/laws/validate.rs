//! What validation finds, and what is wrong with a document.

use vstd::prelude::*;

use crate::laws::reading::{first_dataset_is_found, is_dataset, lacks_dataset, pushed_has};
use crate::model::{
    dataset_index, ColumnEdgeView, ColumnRefView, DatasetView, DiagLevel, DiagnosticView,
    DocumentView, EdgeView, JobView,
};
use crate::validate::{
    column_findings, edges_findings, endpoint_findings, findings, jobs_findings, mapping_findings,
    name_findings, reference_findings, source_findings,
};

verus! {

/// True when the finding says that a name is used twice.
pub open spec fn tells_duplicate(x: DiagnosticView, name: Seq<char>) -> bool {
    &&& x.level == DiagLevel::Error
    &&& x.code == "E_DUP_DATASET"@
    &&& x.message == "duplicate dataset name '"@ + name + "'"@
    &&& x.location is None
}

/// True when the finding says that an edge has an end that is no dataset.
pub open spec fn tells_unknown_end(x: DiagnosticView, role: Seq<char>, name: Seq<char>) -> bool {
    &&& x.level == DiagLevel::Error
    &&& x.code == "E_UNKNOWN_DATASET"@
    &&& x.message == role + name + "' is not declared"@
    &&& x.location is None
}

/// True when the finding says that a column is not on the end of its edge.
pub open spec fn tells_off_end(x: DiagnosticView, c: ColumnRefView, end: Seq<char>) -> bool {
    &&& x.level == DiagLevel::Warn
    &&& x.code == "W_COLUMN_ENDPOINT"@
    &&& x.message == "column '"@ + c.dataset + "."@ + c.column + "' is not on the edge endpoint '"@
        + end + "'"@
    &&& x.location is None
}

/// True when the finding says that a column is not in the schema of its
/// dataset.
pub open spec fn tells_unknown_column(x: DiagnosticView, c: ColumnRefView) -> bool {
    &&& x.level == DiagLevel::Warn
    &&& x.code == "W_UNKNOWN_COLUMN"@
    &&& x.message == "column '"@ + c.column + "' not found in schema of dataset '"@ + c.dataset
        + "'"@
    &&& x.location is None
}

/// True when the finding says that a job names a dataset that is none.
pub open spec fn tells_unknown_reference(
    x: DiagnosticView,
    job: Seq<char>,
    name: Seq<char>,
) -> bool {
    &&& x.level == DiagLevel::Warn
    &&& x.code == "W_JOB_DATASET"@
    &&& x.message == "job '"@ + job + "' references undeclared dataset '"@ + name + "'"@
    &&& x.location is None
}

/// True when the dataset of the column has a schema that does not have it.
pub open spec fn lacks_column(d: DocumentView, c: ColumnRefView) -> bool {
    exists|i: int| #[trigger]
        is_dataset(d.datasets, i, c.dataset) && d.datasets[i].schema.len() > 0 && forall|k: int|
            0 <= k < d.datasets[i].schema.len() ==> (#[trigger] d.datasets[i].schema[k]).name
                != c.column
}

/// True when the finding is about a column at the end of an edge.
pub open spec fn is_about_column(
    d: DocumentView,
    c: ColumnRefView,
    end: Seq<char>,
    x: DiagnosticView,
) -> bool {
    ||| c.dataset != end && tells_off_end(x, c, end)
    ||| lacks_column(d, c) && tells_unknown_column(x, c)
}

/// True when the finding is about a mapping of the edge: its target, or any of
/// its sources.
pub open spec fn is_about_mapping(
    d: DocumentView,
    e: EdgeView,
    c: ColumnEdgeView,
    x: DiagnosticView,
) -> bool {
    ||| is_about_column(d, c.to_column, e.to, x)
    ||| exists|s: int|
        0 <= s < c.from_columns.len() && is_about_column(
            d,
            #[trigger] c.from_columns[s],
            e.from,
            x,
        )
}

/// True when the finding is about the edge: one of its ends, or any of its
/// mappings.
pub open spec fn is_about_edge(d: DocumentView, e: EdgeView, x: DiagnosticView) -> bool {
    ||| lacks_dataset(d.datasets, e.from) && tells_unknown_end(x, "edge source dataset '"@, e.from)
    ||| lacks_dataset(d.datasets, e.to) && tells_unknown_end(x, "edge target dataset '"@, e.to)
    ||| exists|m: int|
        0 <= m < e.column_lineage.len() && is_about_mapping(
            d,
            e,
            #[trigger] e.column_lineage[m],
            x,
        )
}

/// True when the finding is about one of the names that a job refers to.
pub open spec fn is_about_names(
    d: DocumentView,
    job: Seq<char>,
    names: Seq<Seq<char>>,
    x: DiagnosticView,
) -> bool {
    exists|i: int|
        0 <= i < names.len() && lacks_dataset(d.datasets, #[trigger] names[i])
            && tells_unknown_reference(x, job, names[i])
}

/// True when the finding is about the job: any of its inputs or outputs.
pub open spec fn is_about_job(d: DocumentView, j: JobView, x: DiagnosticView) -> bool {
    is_about_names(d, j.id, j.inputs, x) || is_about_names(d, j.id, j.outputs, x)
}

/// True when the finding is about two datasets with one name.
pub open spec fn is_about_duplicate(ds: Seq<DatasetView>, x: DiagnosticView) -> bool {
    exists|i: int, j: int|
        0 <= i < j < ds.len() && (#[trigger] ds[i]).name == (#[trigger] ds[j]).name
            && tells_duplicate(x, ds[j].name)
}

spec fn is_repeated(ds: Seq<DatasetView>, j: int) -> bool {
    exists|i: int| 0 <= i < j && (#[trigger] ds[i]).name == ds[j].name
}

proof fn names_have(ds: Seq<DatasetView>, n: int, x: DiagnosticView)
    requires
        0 <= n <= ds.len(),
    ensures
        name_findings(ds, n).contains(x) <==> exists|j: int|
            0 <= j < n && #[trigger] is_repeated(ds, j) && tells_duplicate(x, ds[j].name),
    decreases n,
{
    if n > 0 {
        names_have(ds, n - 1, x);
        let prev = name_findings(ds, n - 1);
        let name = ds[n - 1].name;
        first_dataset_is_found(ds, name);
        let k = dataset_index(ds, name, 0);
        assert(is_repeated(ds, n - 1) <==> k < n - 1) by {
            assert(!lacks_dataset(ds, name)) by {
                assert(ds[n - 1].name == name);
            }
            if is_repeated(ds, n - 1) {
                let i = choose|i: int| 0 <= i < n - 1 && (#[trigger] ds[i]).name == name;
                if k > i {
                    assert(ds[i].name != name);
                }
            }
            if k < n - 1 {
                assert(ds[k].name == name);
            }
        }
        if k < n - 1 {
            let y = crate::model::finding(
                DiagLevel::Error,
                "E_DUP_DATASET"@,
                crate::validate::quoted("duplicate dataset name '"@, name, "'"@),
            );
            pushed_has(prev, y, x);
            assert(x == y <==> tells_duplicate(x, name));
        }
    }
}

proof fn column_has(
    d: DocumentView,
    acc: Seq<DiagnosticView>,
    c: ColumnRefView,
    end: Seq<char>,
    x: DiagnosticView,
)
    ensures
        column_findings(d, acc, c.dataset, c.column, end).contains(x) <==> acc.contains(x)
            || is_about_column(d, c, end, x),
{
    let off = crate::model::finding(
        DiagLevel::Warn,
        "W_COLUMN_ENDPOINT"@,
        "column '"@ + c.dataset + "."@ + c.column + "' is not on the edge endpoint '"@ + end
            + "'"@,
    );
    let unknown = crate::model::finding(
        DiagLevel::Warn,
        "W_UNKNOWN_COLUMN"@,
        "column '"@ + c.column + "' not found in schema of dataset '"@ + c.dataset + "'"@,
    );
    assert(x == off <==> tells_off_end(x, c, end));
    assert(x == unknown <==> tells_unknown_column(x, c));
    let a = if c.dataset != end {
        acc.push(off)
    } else {
        acc
    };
    pushed_has(acc, off, x);
    pushed_has(a, unknown, x);
    first_dataset_is_found(d.datasets, c.dataset);
    let i = dataset_index(d.datasets, c.dataset, 0);
    let lacking = i < d.datasets.len() && d.datasets[i].schema.len() > 0
        && !crate::model::has_field(d.datasets[i].schema, c.column);
    assert(lacking <==> lacks_column(d, c)) by {
        if lacking {
            assert(is_dataset(d.datasets, i, c.dataset));
            assert forall|k: int| 0 <= k < d.datasets[i].schema.len() implies (
            #[trigger] d.datasets[i].schema[k]).name != c.column by {
                if d.datasets[i].schema[k].name == c.column {
                    assert(crate::model::has_field(d.datasets[i].schema, c.column));
                }
            }
        }
        if lacks_column(d, c) {
            let m = choose|m: int| #[trigger]
                is_dataset(d.datasets, m, c.dataset) && d.datasets[m].schema.len() > 0 && forall|
                    k: int,
                |
                    0 <= k < d.datasets[m].schema.len() ==> (
                    #[trigger] d.datasets[m].schema[k]).name != c.column;
            assert(m == i);
        }
    }
}

proof fn sources_have(
    d: DocumentView,
    acc: Seq<DiagnosticView>,
    c: ColumnEdgeView,
    end: Seq<char>,
    n: int,
    x: DiagnosticView,
)
    requires
        0 <= n <= c.from_columns.len(),
    ensures
        source_findings(d, acc, c, end, n).contains(x) <==> acc.contains(x) || exists|s: int|
            0 <= s < n && is_about_column(d, #[trigger] c.from_columns[s], end, x),
    decreases n,
{
    if n > 0 {
        sources_have(d, acc, c, end, n - 1, x);
        column_has(d, source_findings(d, acc, c, end, n - 1), c.from_columns[n - 1], end, x);
        if is_about_column(d, c.from_columns[n - 1], end, x) {
            assert(exists|s: int|
                0 <= s < n && is_about_column(d, #[trigger] c.from_columns[s], end, x));
        }
    }
}

proof fn mappings_have(
    d: DocumentView,
    acc: Seq<DiagnosticView>,
    e: EdgeView,
    n: int,
    x: DiagnosticView,
)
    requires
        0 <= n <= e.column_lineage.len(),
    ensures
        mapping_findings(d, acc, e, n).contains(x) <==> acc.contains(x) || exists|m: int|
            0 <= m < n && is_about_mapping(d, e, #[trigger] e.column_lineage[m], x),
    decreases n,
{
    if n > 0 {
        mappings_have(d, acc, e, n - 1, x);
        let c = e.column_lineage[n - 1];
        let prev = mapping_findings(d, acc, e, n - 1);
        let mid = column_findings(d, prev, c.to_column.dataset, c.to_column.column, e.to);
        column_has(d, prev, c.to_column, e.to, x);
        sources_have(d, mid, c, e.from, c.from_columns.len() as int, x);
        assert(mapping_findings(d, acc, e, n).contains(x) <==> prev.contains(x)
            || is_about_mapping(d, e, c, x));
        if is_about_mapping(d, e, c, x) {
            assert(exists|m: int|
                0 <= m < n && is_about_mapping(d, e, #[trigger] e.column_lineage[m], x));
        }
    }
}

proof fn end_has(
    d: DocumentView,
    acc: Seq<DiagnosticView>,
    role: Seq<char>,
    name: Seq<char>,
    x: DiagnosticView,
)
    ensures
        endpoint_findings(d, acc, role, name).contains(x) <==> acc.contains(x) || (lacks_dataset(
            d.datasets,
            name,
        ) && tells_unknown_end(x, role, name)),
{
    first_dataset_is_found(d.datasets, name);
    let y = crate::model::finding(
        DiagLevel::Error,
        "E_UNKNOWN_DATASET"@,
        crate::validate::quoted(role, name, "' is not declared"@),
    );
    pushed_has(acc, y, x);
    assert(x == y <==> tells_unknown_end(x, role, name));
}

proof fn edges_have(d: DocumentView, acc: Seq<DiagnosticView>, n: int, x: DiagnosticView)
    requires
        0 <= n <= d.edges.len(),
    ensures
        edges_findings(d, acc, n).contains(x) <==> acc.contains(x) || exists|i: int|
            0 <= i < n && is_about_edge(d, #[trigger] d.edges[i], x),
    decreases n,
{
    if n > 0 {
        edges_have(d, acc, n - 1, x);
        let e = d.edges[n - 1];
        let prev = edges_findings(d, acc, n - 1);
        let a = endpoint_findings(d, prev, "edge source dataset '"@, e.from);
        let b = endpoint_findings(d, a, "edge target dataset '"@, e.to);
        end_has(d, prev, "edge source dataset '"@, e.from, x);
        end_has(d, a, "edge target dataset '"@, e.to, x);
        mappings_have(d, b, e, e.column_lineage.len() as int, x);
        assert(edges_findings(d, acc, n).contains(x) <==> prev.contains(x) || is_about_edge(
            d,
            e,
            x,
        ));
        if is_about_edge(d, e, x) {
            assert(exists|i: int| 0 <= i < n && is_about_edge(d, #[trigger] d.edges[i], x));
        }
    }
}

spec fn is_about_names_upto(
    d: DocumentView,
    job: Seq<char>,
    names: Seq<Seq<char>>,
    n: int,
    x: DiagnosticView,
) -> bool {
    exists|i: int|
        0 <= i < n && lacks_dataset(d.datasets, #[trigger] names[i]) && tells_unknown_reference(
            x,
            job,
            names[i],
        )
}

proof fn references_have(
    d: DocumentView,
    acc: Seq<DiagnosticView>,
    job: Seq<char>,
    names: Seq<Seq<char>>,
    n: int,
    x: DiagnosticView,
)
    requires
        0 <= n <= names.len(),
    ensures
        reference_findings(d, acc, job, names, n).contains(x) <==> acc.contains(x)
            || is_about_names_upto(d, job, names, n, x),
    decreases n,
{
    if n > 0 {
        references_have(d, acc, job, names, n - 1, x);
        let prev = reference_findings(d, acc, job, names, n - 1);
        let name = names[n - 1];
        first_dataset_is_found(d.datasets, name);
        let y = crate::model::finding(
            DiagLevel::Warn,
            "W_JOB_DATASET"@,
            "job '"@ + job + "' references undeclared dataset '"@ + name + "'"@,
        );
        pushed_has(prev, y, x);
        assert(x == y <==> tells_unknown_reference(x, job, name));
        assert(is_about_names_upto(d, job, names, n, x) <==> is_about_names_upto(
            d,
            job,
            names,
            n - 1,
            x,
        ) || (lacks_dataset(d.datasets, names[n - 1]) && tells_unknown_reference(
            x,
            job,
            names[n - 1],
        )));
    }
}

proof fn jobs_have(d: DocumentView, acc: Seq<DiagnosticView>, n: int, x: DiagnosticView)
    requires
        0 <= n <= d.jobs.len(),
    ensures
        jobs_findings(d, acc, n).contains(x) <==> acc.contains(x) || exists|i: int|
            0 <= i < n && is_about_job(d, #[trigger] d.jobs[i], x),
    decreases n,
{
    if n > 0 {
        jobs_have(d, acc, n - 1, x);
        let j = d.jobs[n - 1];
        let prev = jobs_findings(d, acc, n - 1);
        let a = reference_findings(d, prev, j.id, j.inputs, j.inputs.len() as int);
        references_have(d, prev, j.id, j.inputs, j.inputs.len() as int, x);
        references_have(d, a, j.id, j.outputs, j.outputs.len() as int, x);
        assert(jobs_findings(d, acc, n).contains(x) <==> prev.contains(x) || is_about_job(d, j, x));
        if is_about_job(d, j, x) {
            assert(exists|i: int| 0 <= i < n && is_about_job(d, #[trigger] d.jobs[i], x));
        }
    }
}

/// Validation finds everything that is wrong with a document and nothing else:
/// a finding is reported exactly when two datasets share a name, an edge has an
/// unknown end, a mapping of an edge has a column off its end or out of its
/// schema, be it the target or any of the sources, or a job names an unknown
/// dataset, and the finding says so.
pub proof fn findings_are_what_is_wrong(d: DocumentView, x: DiagnosticView)
    ensures
        findings(d).contains(x) <==> {
            ||| is_about_duplicate(d.datasets, x)
            ||| exists|i: int| 0 <= i < d.edges.len() && is_about_edge(d, #[trigger] d.edges[i], x)
            ||| exists|i: int| 0 <= i < d.jobs.len() && is_about_job(d, #[trigger] d.jobs[i], x)
        },
{
    let ds = d.datasets;
    let a = name_findings(ds, ds.len() as int);
    let b = edges_findings(d, a, d.edges.len() as int);
    names_have(ds, ds.len() as int, x);
    edges_have(d, a, d.edges.len() as int, x);
    jobs_have(d, b, d.jobs.len() as int, x);
    if a.contains(x) {
        let j = choose|j: int|
            0 <= j < ds.len() && #[trigger] is_repeated(ds, j) && tells_duplicate(x, ds[j].name);
        let i = choose|i: int| 0 <= i < j && (#[trigger] ds[i]).name == ds[j].name;
        assert(ds[i].name == ds[j].name);
    }
    if is_about_duplicate(ds, x) {
        let (i, j) = choose|i: int, j: int|
            0 <= i < j < ds.len() && (#[trigger] ds[i]).name == (#[trigger] ds[j]).name
                && tells_duplicate(x, ds[j].name);
        assert(is_repeated(ds, j));
    }
}

} // verus!

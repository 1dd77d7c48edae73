//! What is said of findings and of metrics, and what it is said of.

use vstd::prelude::*;

use crate::console::{
    checks_object, dag_object, gate_entries, gate_object, level_count, number, thresholds_object,
    validation_line, Figures, GateChecks,
};
use crate::gate::{CountsView, DagMetrics, GateMetrics};
use crate::json::{object_of, Json, JsonTree};
use crate::laws::reading::{
    items, last_with_key, lists, lists_those, member, object_is_read_back, one_more, says,
};
use crate::model::{DiagLevel, DiagnosticView};
use crate::text::decimal;

verus! {

pub open spec fn has_level(ds: Seq<DiagnosticView>, l: DiagLevel) -> spec_fn(int) -> bool {
    |i: int| ds[i].level == l
}

proof fn levels_in_turn(ds: Seq<DiagnosticView>, l: DiagLevel, n: int) -> (chosen: Seq<int>)
    requires
        0 <= n <= ds.len(),
    ensures
        lists_those(chosen, n, has_level(ds, l)),
        level_count(ds, l, n) == chosen.len(),
    decreases n,
{
    if n > 0 {
        let before = levels_in_turn(ds, l, n - 1);
        one_more(before, n, has_level(ds, l))
    } else {
        Seq::empty()
    }
}

/// What is said after a validation tells how many errors and how many warnings
/// there are.
pub proof fn validation_counts_findings(ds: Seq<DiagnosticView>)
    ensures
        exists|errors: Seq<int>, warnings: Seq<int>|
            {
                &&& #[trigger] lists_those(
                    errors,
                    ds.len() as int,
                    has_level(ds, DiagLevel::Error),
                )
                &&& #[trigger] lists_those(
                    warnings,
                    ds.len() as int,
                    has_level(ds, DiagLevel::Warn),
                )
                &&& validation_line(ds) == "validation: "@ + decimal(errors.len()) + " error(s), "@
                    + decimal(warnings.len()) + " warning(s)"@
            },
{
    let errors = levels_in_turn(ds, DiagLevel::Error, ds.len() as int);
    let warnings = levels_in_turn(ds, DiagLevel::Warn, ds.len() as int);
}


// ─────────────────────────────── the report ───────────────────────────

/// True when the object has the number under the key.
pub open spec fn counts(t: JsonTree, key: Seq<char>, n: nat) -> bool {
    member(t, key) == Some(JsonTree::Number(decimal(n)))
}

/// True when the object tells the counts and the ratios.
pub open spec fn tells_metrics(t: JsonTree, c: CountsView, f: Figures<Json>) -> bool {
    &&& counts(t, "tasks_total"@, c.tasks_total)
    &&& counts(t, "tasks_with_lineage"@, c.tasks_with_lineage)
    &&& counts(t, "tasks_annotated"@, c.tasks_annotated)
    &&& counts(t, "edges_total"@, c.edges_total)
    &&& counts(t, "high_confidence_edges"@, c.high_confidence_edges)
    &&& counts(t, "column_edges"@, c.column_edges)
    &&& counts(t, "column_mappings"@, c.column_mappings)
    &&& member(t, "task_coverage"@) == Some(f.task_coverage@)
    &&& member(t, "annotation_coverage"@) == Some(f.annotation_coverage@)
    &&& member(t, "high_confidence_fraction"@) == Some(f.high_confidence_fraction@)
}

proof fn metric_keys()
    ensures
        "dag"@.len() == 3,
        "tasks_total"@.len() == 11 && "tasks_total"@[0] == 't',
        "tasks_with_lineage"@.len() == 18,
        "task_coverage"@.len() == 13,
        "tasks_annotated"@.len() == 15 && "tasks_annotated"@[0] == 't',
        "annotation_coverage"@.len() == 19,
        "edges_total"@.len() == 11 && "edges_total"@[0] == 'e',
        "high_confidence_edges"@.len() == 21,
        "high_confidence_fraction"@.len() == 24,
        "column_edges"@.len() == 12,
        "column_mappings"@.len() == 15 && "column_mappings"@[0] == 'c',
        "thresholds"@.len() == 10,
        "checks"@.len() == 6 && "checks"@[0] == 'c',
        "passed"@.len() == 6 && "passed"@[0] == 'p',
        "per_dag"@.len() == 7,
        "min_task_coverage"@.len() == 17,
        "min_high_confidence"@.len() == 19,
        "min_annotation_coverage"@.len() == 23,
{
    reveal_strlit("dag");
    reveal_strlit("tasks_total");
    reveal_strlit("tasks_with_lineage");
    reveal_strlit("task_coverage");
    reveal_strlit("tasks_annotated");
    reveal_strlit("annotation_coverage");
    reveal_strlit("edges_total");
    reveal_strlit("high_confidence_edges");
    reveal_strlit("high_confidence_fraction");
    reveal_strlit("column_edges");
    reveal_strlit("column_mappings");
    reveal_strlit("thresholds");
    reveal_strlit("checks");
    reveal_strlit("passed");
    reveal_strlit("per_dag");
    reveal_strlit("min_task_coverage");
    reveal_strlit("min_high_confidence");
    reveal_strlit("min_annotation_coverage");
}

/// The counts of a DAG.
pub open spec fn dag_counts(d: DagMetrics) -> CountsView {
    CountsView {
        tasks_total: d.tasks_total as nat,
        tasks_with_lineage: d.tasks_with_lineage as nat,
        tasks_annotated: d.tasks_annotated as nat,
        edges_total: d.edges_total as nat,
        high_confidence_edges: d.high_confidence_edges as nat,
        column_edges: d.column_edges as nat,
        column_mappings: d.column_mappings as nat,
    }
}

/// The counts of a document.
pub open spec fn gate_counts(m: GateMetrics) -> CountsView {
    CountsView {
        tasks_total: m.tasks_total as nat,
        tasks_with_lineage: m.tasks_with_lineage as nat,
        tasks_annotated: m.tasks_annotated as nat,
        edges_total: m.edges_total as nat,
        high_confidence_edges: m.high_confidence_edges as nat,
        column_edges: m.column_edges as nat,
        column_mappings: m.column_mappings as nat,
    }
}

/// True when the keys differ in their lengths or in their first characters.
spec fn look_apart(a: Seq<char>, b: Seq<char>) -> bool {
    a.len() != b.len() || a[0] != b[0]
}

proof fn entry_is_read(all: Seq<(Seq<char>, JsonTree)>, i: int)
    requires
        0 <= i < all.len(),
        forall|j: int| i < j < all.len() ==> look_apart((#[trigger] all[j]).0, all[i].0),
    ensures
        member(object_of(all), all[i].0) == Some(all[i].1),
{
    object_is_read_back(all);
    assert(last_with_key(all, i));
}

proof fn dag_is_told(d: DagMetrics, f: Figures<Json>)
    ensures
        says(dag_object(d, f), "dag"@, d.dag@),
        tells_metrics(dag_object(d, f), dag_counts(d), f),
{
    metric_keys();
    let all = seq![
        ("dag"@, JsonTree::Text(d.dag@)),
        ("tasks_total"@, number(d.tasks_total as nat)),
        ("tasks_with_lineage"@, number(d.tasks_with_lineage as nat)),
        ("task_coverage"@, f.task_coverage@),
        ("tasks_annotated"@, number(d.tasks_annotated as nat)),
        ("annotation_coverage"@, f.annotation_coverage@),
        ("edges_total"@, number(d.edges_total as nat)),
        ("high_confidence_edges"@, number(d.high_confidence_edges as nat)),
        ("high_confidence_fraction"@, f.high_confidence_fraction@),
        ("column_edges"@, number(d.column_edges as nat)),
        ("column_mappings"@, number(d.column_mappings as nat)),
    ];
    let t = dag_object(d, f);
    assert(t == object_of(all));
    entry_is_read(all, 0);
    entry_is_read(all, 1);
    entry_is_read(all, 2);
    entry_is_read(all, 3);
    entry_is_read(all, 4);
    entry_is_read(all, 5);
    entry_is_read(all, 6);
    entry_is_read(all, 7);
    entry_is_read(all, 8);
    entry_is_read(all, 9);
    entry_is_read(all, 10);
}

/// True when the object tells which of the checks pass.
pub open spec fn tells_checks(t: JsonTree, c: GateChecks) -> bool {
    &&& member(t, "task_coverage"@) == Some(JsonTree::Bool(c.task_coverage))
    &&& member(t, "annotation_coverage"@) == Some(JsonTree::Bool(c.annotation_coverage))
    &&& member(t, "high_confidence_fraction"@) == Some(JsonTree::Bool(c.high_confidence_fraction))
}

proof fn checks_are_told(c: GateChecks)
    ensures
        tells_checks(checks_object(c), c),
{
    metric_keys();
    let all = seq![
        ("task_coverage"@, JsonTree::Bool(c.task_coverage)),
        ("high_confidence_fraction"@, JsonTree::Bool(c.high_confidence_fraction)),
        ("annotation_coverage"@, JsonTree::Bool(c.annotation_coverage)),
    ];
    let t = checks_object(c);
    assert(t == object_of(all));
    object_is_read_back(all);
    assert(last_with_key(all, 0) && last_with_key(all, 1) && last_with_key(all, 2));
    assert(member(t, all[0].0) == Some(all[0].1));
    assert(member(t, all[1].0) == Some(all[1].1));
    assert(member(t, all[2].0) == Some(all[2].1));
}

/// True when the object tells the least values.
pub open spec fn tells_thresholds(t: JsonTree, least: Figures<Json>) -> bool {
    &&& member(t, "min_task_coverage"@) == Some(least.task_coverage@)
    &&& member(t, "min_annotation_coverage"@) == Some(least.annotation_coverage@)
    &&& member(t, "min_high_confidence"@) == Some(least.high_confidence_fraction@)
}

proof fn thresholds_are_told(least: Figures<Json>)
    ensures
        tells_thresholds(thresholds_object(least), least),
{
    metric_keys();
    let all = seq![
        ("min_task_coverage"@, least.task_coverage@),
        ("min_high_confidence"@, least.high_confidence_fraction@),
        ("min_annotation_coverage"@, least.annotation_coverage@),
    ];
    let t = thresholds_object(least);
    assert(t == object_of(all));
    object_is_read_back(all);
    assert(last_with_key(all, 0) && last_with_key(all, 1) && last_with_key(all, 2));
    assert(member(t, all[0].0) == Some(all[0].1));
    assert(member(t, all[1].0) == Some(all[1].1));
    assert(member(t, all[2].0) == Some(all[2].1));
}

/// The report tells all counts and ratios of the document and of each of its
/// DAGs, the least values, each check, and whether all of them pass.
pub proof fn report_tells_everything(
    m: GateMetrics,
    f: Figures<Json>,
    per_dag: Seq<Figures<Json>>,
    least: Figures<Json>,
    c: GateChecks,
)
    ensures
        ({
            let t = gate_object(m, f, per_dag, least, c);
            &&& tells_metrics(t, gate_counts(m), f)
            &&& member(t, "thresholds"@) matches Some(x) && tells_thresholds(x, least)
            &&& member(t, "checks"@) matches Some(x) && tells_checks(x, c)
            &&& member(t, "passed"@) == Some(
                JsonTree::Bool(
                    c.task_coverage && c.annotation_coverage && c.high_confidence_fraction,
                ),
            )
            &&& lists(t, "per_dag"@)
            &&& items(t, "per_dag"@).len() == m.per_dag@.len()
            &&& forall|i: int|
                0 <= i < m.per_dag@.len() ==> {
                    &&& says(#[trigger] items(t, "per_dag"@)[i], "dag"@, m.per_dag@[i].dag@)
                    &&& tells_metrics(
                        items(t, "per_dag"@)[i],
                        dag_counts(m.per_dag@[i]),
                        per_dag[i],
                    )
                }
        }),
{
    metric_keys();
    checks_are_told(c);
    thresholds_are_told(least);
    let list = Seq::new(m.per_dag@.len(), |i: int| dag_object(m.per_dag@[i], per_dag[i]));
    let all = gate_entries(m, f, least, c).push(("per_dag"@, JsonTree::List(list)));
    let t = gate_object(m, f, per_dag, least, c);
    assert(t == object_of(all));
    entry_is_read(all, 0);
    entry_is_read(all, 1);
    entry_is_read(all, 2);
    entry_is_read(all, 3);
    entry_is_read(all, 4);
    entry_is_read(all, 5);
    entry_is_read(all, 6);
    entry_is_read(all, 7);
    entry_is_read(all, 8);
    entry_is_read(all, 9);
    entry_is_read(all, 10);
    entry_is_read(all, 11);
    entry_is_read(all, 12);
    entry_is_read(all, 13);
    assert forall|i: int| 0 <= i < m.per_dag@.len() implies {
        &&& says(#[trigger] items(t, "per_dag"@)[i], "dag"@, m.per_dag@[i].dag@)
        &&& tells_metrics(items(t, "per_dag"@)[i], dag_counts(m.per_dag@[i]), per_dag[i])
    } by {
        dag_is_told(m.per_dag@[i], per_dag[i]);
    }
}

} // verus!

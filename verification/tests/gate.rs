use trace_weaver::gate::{compute_gate_metrics, Ratio};
use trace_weaver::model::{Dataset, Edge, Engine, Job, WeaveDocument};
use trace_weaver::origin::{Confidence, Origin};

fn confidence(x: f32) -> Confidence {
    Confidence { bits: x.to_bits() }
}

fn value(r: Ratio) -> f64 {
    r.part as f64 / r.whole as f64
}

fn job(dag: &str, name: &str, inputs: &[&str], outputs: &[&str]) -> Job {
    let mut j = Job::new(&format!("{dag}.{name}"), name, Engine::Python);
    j.dag = Some(dag.to_string());
    j.inputs = inputs.iter().map(|s| s.to_string()).collect();
    j.outputs = outputs.iter().map(|s| s.to_string()).collect();
    j
}

fn edge(from: &str, to: &str, job_id: &str, inferred: bool) -> Edge {
    let mut e = Edge::new(from, to);
    e.job = Some(job_id.to_string());
    e.origin = if inferred {
        Origin::inferred_code(confidence(0.5))
    } else {
        Origin::declared()
    };
    e
}

#[test]
fn metrics_count_coverage_and_confidence() {
    let mut doc = WeaveDocument::new("ns", "test");
    for d in ["a", "b", "c"] {
        doc.datasets.push(Dataset::new(d));
    }
    // Two DAGs. dag1: one task with a declared edge. dag2: one task with an
    // inferred edge + one task with NO lineage (bare marker).
    doc.jobs.push(job("dag1", "t1", &["a"], &["b"]));
    doc.jobs.push(job("dag2", "t2", &["b"], &["c"]));
    doc.jobs.push(job("dag2", "t3", &[], &[]));
    doc.edges.push(edge("a", "b", "dag1.t1", false));
    doc.edges.push(edge("b", "c", "dag2.t2", true));

    let m = compute_gate_metrics(&doc);
    assert_eq!(m.tasks_total, 3);
    assert_eq!(m.tasks_with_lineage, 2); // t1, t2 (t3 has no edge)
    assert!((value(m.task_coverage) - 2.0 / 3.0).abs() < 1e-9);
    assert_eq!(m.edges_total, 2);
    assert_eq!(m.high_confidence_edges, 1); // only the declared a->b
    assert!((value(m.high_confidence_fraction) - 0.5).abs() < 1e-9);

    // Per-DAG breakdown.
    let d1 = m.per_dag.iter().find(|d| d.dag == "dag1").unwrap();
    assert_eq!((d1.tasks_total, d1.tasks_with_lineage), (1, 1));
    assert_eq!(value(d1.high_confidence_fraction), 1.0);
    let d2 = m.per_dag.iter().find(|d| d.dag == "dag2").unwrap();
    assert_eq!((d2.tasks_total, d2.tasks_with_lineage), (2, 1));
    assert_eq!(value(d2.task_coverage), 0.5);
    assert_eq!(value(d2.high_confidence_fraction), 0.0); // its one edge is inferred
}

#[test]
fn empty_document_is_zero_coverage_but_vacuous_high_confidence() {
    let doc = WeaveDocument::new("ns", "test");
    let m = compute_gate_metrics(&doc);
    assert_eq!(m.tasks_total, 0);
    assert_eq!(value(m.task_coverage), 0.0);
    assert_eq!(m.tasks_annotated, 0);
    assert_eq!(value(m.annotation_coverage), 0.0);
    assert_eq!(m.edges_total, 0);
    assert_eq!(value(m.high_confidence_fraction), 1.0);
}

#[test]
fn annotation_coverage_counts_decorated_tasks_only() {
    // Mix of task provenances in one DAG:
    //  * t_full   — declared @lineage with both inputs & outputs (edge).
    //  * t_inonly — declared @lineage, inputs only (no edge, but annotated).
    //  * t_bare   — declared bare @lineage marker (no datasets, no edge).
    //  * t_raw    — raw operator discovered decorator-free (inferred
    //               job origin) — cannot carry a decorator, so NOT annotated.
    // annotation_coverage = 3/4; task_coverage counts only the edge-bearing
    // tasks (t_full and t_raw) = 2/4.
    let mut doc = WeaveDocument::new("ns", "test");
    for d in ["a", "b", "raw_in", "raw_out"] {
        doc.datasets.push(Dataset::new(d));
    }

    let mut t_full = job("dag", "t_full", &["a"], &["b"]);
    t_full.origin = Origin::declared();
    doc.jobs.push(t_full);

    let mut t_inonly = job("dag", "t_inonly", &["a"], &[]);
    t_inonly.origin = Origin::declared();
    doc.jobs.push(t_inonly);

    let mut t_bare = job("dag", "t_bare", &[], &[]);
    t_bare.origin = Origin::declared();
    doc.jobs.push(t_bare);

    let mut t_raw = job("dag", "t_raw", &["raw_in"], &["raw_out"]);
    t_raw.origin = Origin::inferred_code(confidence(0.7)); // discovered decorator-free
    doc.jobs.push(t_raw);

    doc.edges.push(edge("a", "b", "dag.t_full", false));
    doc.edges.push(edge("raw_in", "raw_out", "dag.t_raw", true));

    let m = compute_gate_metrics(&doc);
    assert_eq!(m.tasks_total, 4);
    assert_eq!(
        m.tasks_annotated, 3,
        "the raw-operator task is not annotated"
    );
    assert!((value(m.annotation_coverage) - 3.0 / 4.0).abs() < 1e-9);
    // task_coverage is edge-based and unchanged in semantics: t_full + t_raw.
    assert_eq!(m.tasks_with_lineage, 2);
    assert!((value(m.task_coverage) - 2.0 / 4.0).abs() < 1e-9);

    // Per-DAG carries the same annotation numbers.
    let d = &m.per_dag[0];
    assert_eq!((d.tasks_annotated, d.tasks_total), (3, 4));
    assert!((value(d.annotation_coverage) - 3.0 / 4.0).abs() < 1e-9);
}

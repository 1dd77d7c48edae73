use serde_json::{Number, Value};
use trace_weaver::console::{
    chosen_token, diagnostic_line, export_lines, export_outcome, gate_failures, gate_json,
    gate_json_text, gate_lines, scan_lines, scan_outcome, threshold_source, validation_lines,
    validation_outcome, Figures, GateChecks, ThresholdSource,
};
use trace_weaver::export::ExportReport;
use trace_weaver::gate::{compute_gate_metrics, GateMetrics, Ratio};
use trace_weaver::json::Json;
use trace_weaver::model::{
    ColumnEdge, ColumnRef, Dataset, Diagnostic, Edge, Engine, Job, WeaveDocument,
};

fn doc() -> WeaveDocument {
    let mut doc = WeaveDocument::new("ns", "test");
    doc.datasets.push(Dataset::new("a"));
    doc.datasets.push(Dataset::new("b"));
    for (dag, name) in [("one", "t"), ("one", "u"), ("two", "v")] {
        let mut j = Job::new(&format!("{dag}.{name}"), name, Engine::Python);
        j.dag = Some(dag.into());
        doc.jobs.push(j);
    }
    let mut e = Edge::new("a", "b");
    e.job = Some("one.t".into());
    doc.edges.push(e);
    let mut found = Edge::new("a", "b");
    found.column_discovery = true;
    found.column_lineage.push(ColumnEdge::new(
        vec![ColumnRef::new("a", "x")],
        ColumnRef::new("b", "x"),
    ));
    doc.edges.push(found);
    doc
}

fn text(r: Ratio) -> String {
    format!("{:.3}", r.part as f64 / r.whole as f64)
}

fn number(r: Ratio) -> Json {
    Json {
        value: Value::Number(Number::from_f64(r.part as f64 / r.whole as f64).unwrap()),
    }
}

fn shown(m: &GateMetrics) -> Figures<String> {
    Figures {
        task_coverage: text(m.task_coverage),
        annotation_coverage: text(m.annotation_coverage),
        high_confidence_fraction: text(m.high_confidence_fraction),
    }
}

fn checks(a: bool, b: bool, c: bool) -> GateChecks {
    GateChecks {
        task_coverage: a,
        annotation_coverage: b,
        high_confidence_fraction: c,
    }
}

#[test]
fn a_finding_is_one_line() {
    assert_eq!(
        diagnostic_line(&Diagnostic::warn("W_X", "look here")),
        "[Warn] W_X: look here"
    );
    assert_eq!(
        diagnostic_line(&Diagnostic::error("E_X", "no")),
        "[Error] E_X: no"
    );
    assert_eq!(
        diagnostic_line(&Diagnostic::info("I_X", "")),
        "[Info] I_X: "
    );
}

#[test]
fn a_scan_is_summed_up() {
    let mut d = doc();
    d.diagnostics.push(Diagnostic::warn("W_X", "w"));
    assert_eq!(
        scan_lines(&d),
        vec![
            "[Warn] W_X: w",
            "scanned: 2 dataset(s), 3 job(s), 2 edge(s), 1 diagnostic(s)"
        ]
    );
    assert_eq!(scan_outcome(&d, true), Ok(()));
    d.diagnostics.push(Diagnostic::error("E_X", "e"));
    assert_eq!(scan_outcome(&d, false), Ok(()));
    assert_eq!(
        scan_outcome(&d, true).unwrap_err(),
        "scan produced error-level diagnostics (--strict)"
    );
}

#[test]
fn a_validation_is_summed_up() {
    let mut d = doc();
    d.diagnostics.push(Diagnostic::warn("W_X", "w"));
    assert_eq!(validation_outcome(&d, true), Ok(()));
    d.edges.push(Edge::new("a", "gone"));
    assert_eq!(
        validation_lines(&d),
        vec![
            "[Warn] W_X: w",
            "[Error] E_UNKNOWN_DATASET: edge target dataset 'gone' is not declared",
            "validation: 1 error(s), 1 warning(s)"
        ]
    );
    assert_eq!(validation_outcome(&d, false), Ok(()));
    assert_eq!(
        validation_outcome(&d, true).unwrap_err(),
        "validation failed (--strict)"
    );
}

#[test]
fn an_export_is_summed_up() {
    let mut x = ExportReport {
        target: "dot".into(),
        artifact: String::new(),
        actions: vec!["wrote".into()],
        sent: 3,
        failed: 0,
    };
    assert_eq!(
        export_lines(&x, true),
        vec!["wrote", "export[dot]: 3 edge(s) (dry-run, nothing sent)"]
    );
    assert_eq!(export_outcome(&x, true), Ok(()));
    x.failed = 2;
    assert_eq!(
        export_lines(&x, false),
        vec!["wrote", "export[dot]: 3 edge(s) pushed, 2 failed"]
    );
    assert_eq!(export_outcome(&x, false), Ok(()));
    assert_eq!(
        export_outcome(&x, true).unwrap_err(),
        "2 edge(s) failed to push (--fail-on-partial)"
    );
}

#[test]
fn the_token_of_a_file_goes_first() {
    let s = |t: &str| Some(t.to_string());
    assert_eq!(chosen_token(s(" f\n"), s("g"), s("e")), s("f"));
    assert_eq!(chosen_token(None, s("g"), s("e")), s("g"));
    assert_eq!(chosen_token(None, None, s("e")), s("e"));
    assert_eq!(chosen_token(None, None, None), None);
}

#[test]
fn a_flag_goes_before_the_environment() {
    assert_eq!(threshold_source(true, true), ThresholdSource::Flag);
    assert_eq!(threshold_source(true, false), ThresholdSource::Flag);
    assert_eq!(threshold_source(false, true), ThresholdSource::Environment);
    assert_eq!(threshold_source(false, false), ThresholdSource::Nowhere);
}

#[test]
fn a_gate_passes_when_all_checks_do() {
    for i in 0..8 {
        let c = checks(i & 1 == 0, i & 2 == 0, i & 4 == 0);
        assert_eq!(c.passed(), i == 0);
        assert_eq!(c.exit_code(), if i == 0 { 0 } else { 1 });
    }
}

#[test]
fn a_gate_is_reported_as_text() {
    let m = compute_gate_metrics(&doc());
    let dags = m
        .per_dag
        .iter()
        .map(|d| Figures {
            task_coverage: text(d.task_coverage),
            annotation_coverage: text(d.annotation_coverage),
            high_confidence_fraction: text(d.high_confidence_fraction),
        })
        .collect();
    let least = Figures {
        task_coverage: "0.500".to_string(),
        annotation_coverage: "0.000".to_string(),
        high_confidence_fraction: "0.000".to_string(),
    };
    let c = checks(false, true, true);
    let lines = gate_lines(&m, &shown(&m), &dags, &least, c);
    assert_eq!(
        lines,
        vec![
            "trace-weaver lineage gate",
            "  tasks_total               3",
            "  tasks_with_lineage        1",
            "  task_coverage             0.333",
            "  tasks_annotated           3",
            "  annotation_coverage       1.000",
            "  edges_total               1",
            "  high_confidence_edges     1",
            "  high_confidence_fraction  1.000",
            "  column_edges              1",
            "  column_mappings           1",
            "  per-DAG:",
            "    default                  coverage 0.000 (0/0)  annotated 0.000 (0/0)  high-conf 1.000 (0/0)  columns 1 in 1 edge(s)",
            "    one                      coverage 0.500 (1/2)  annotated 1.000 (2/2)  high-conf 1.000 (1/1)  columns 0 in 0 edge(s)",
            "    two                      coverage 0.000 (0/1)  annotated 1.000 (1/1)  high-conf 1.000 (0/0)  columns 0 in 0 edge(s)",
            "",
            "  [FAIL] task_coverage 0.333 >= 0.500 (min)",
            "  [PASS] annotation_coverage 1.000 >= 0.000 (min)",
            "  [PASS] high_confidence_fraction 1.000 >= 0.000 (min)",
            "",
            "gate: FAIL",
        ]
    );
    assert_eq!(
        gate_failures(&shown(&m), &least, c),
        vec!["gate failed: task_coverage 0.333 < min 0.500"]
    );
    assert!(gate_failures(&shown(&m), &least, checks(true, true, true)).is_empty());
}

#[test]
fn a_gate_without_dags_has_no_heading() {
    let m = compute_gate_metrics(&WeaveDocument::new("ns", "test"));
    let lines = gate_lines(&m, &shown(&m), &vec![], &shown(&m), checks(true, true, true));
    assert_eq!(lines.len(), 17);
    assert!(!lines.contains(&"  per-DAG:".to_string()));
    assert_eq!(lines[16], "gate: PASS");
}

#[test]
fn a_gate_is_reported_as_json() {
    let m = compute_gate_metrics(&doc());
    let figures = |a: Ratio, b: Ratio, c: Ratio| Figures {
        task_coverage: number(a),
        annotation_coverage: number(b),
        high_confidence_fraction: number(c),
    };
    let totals = figures(
        m.task_coverage,
        m.annotation_coverage,
        m.high_confidence_fraction,
    );
    let dags = m
        .per_dag
        .iter()
        .map(|d| {
            figures(
                d.task_coverage,
                d.annotation_coverage,
                d.high_confidence_fraction,
            )
        })
        .collect();
    let report = gate_json(&m, &totals, &dags, &totals, checks(true, false, true));
    let v: Value = serde_json::from_str(&gate_json_text(&report)).unwrap();
    assert_eq!(v, report.value);
    assert_eq!(v["tasks_total"], 3);
    assert_eq!(v["annotation_coverage"], 1.0);
    assert_eq!(v["column_edges"], 1);
    assert_eq!(v["column_mappings"], 1);
    assert_eq!(v["thresholds"]["min_high_confidence"], 1.0);
    assert_eq!(v["checks"]["task_coverage"], true);
    assert_eq!(v["checks"]["annotation_coverage"], false);
    assert_eq!(v["passed"], false);
    assert_eq!(v["per_dag"].as_array().unwrap().len(), 3);
    assert_eq!(v["per_dag"][1]["dag"], "one");
    assert_eq!(v["per_dag"][1]["tasks_with_lineage"], 1);
    assert_eq!(v["per_dag"][1]["task_coverage"], 0.5);
}

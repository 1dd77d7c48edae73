use serde_json::Value;
use trace_weaver::console::export_outcome;
use trace_weaver::export::{export, ExportConfig, ExportReport, Target};
use trace_weaver::json::Json;
use trace_weaver::model::{ColumnEdge, ColumnRef, Dataset, Edge, WeaveDocument};
use trace_weaver::openmetadata::{
    is_live, is_retryable, lineage_address, plan, retry_after, table_address, table_id, Exported,
    Failure, Live, LiveAction,
};
use trace_weaver::origin::{Confidence, Origin};

const A: &str = "svc.db.sch.a";
const B: &str = "svc.db.sch.b";

fn doc() -> WeaveDocument {
    let mut doc = WeaveDocument::new("ns", "test");
    for n in [A, B, "short"] {
        doc.datasets.push(Dataset::new(n));
    }
    let mut e = Edge::new(A, B);
    e.transform.description = Some("copies".into());
    e.transform.sql = Some("SELECT 1".into());
    let mut counted = ColumnEdge::new(vec![], ColumnRef::new(B, "n"));
    counted.function = Some("COUNT(*)".into());
    let mut copied = ColumnEdge::new(vec![ColumnRef::new(A, "x")], ColumnRef::new(B, "x"));
    copied.origin = Origin::inferred_sql(Confidence {
        bits: 0.85f32.to_bits(),
    });
    e.column_lineage = vec![counted, copied];
    doc.edges.push(e);
    doc.edges.push(Edge::new(A, "short"));
    doc.edges.push(Edge::new(A, "nowhere"));
    doc
}

fn live_config() -> ExportConfig {
    ExportConfig {
        om_host: Some("http://om:8585/api//".into()),
        om_token: Some("secret".into()),
        ..Default::default()
    }
}

fn start() -> Live {
    match export(Target::OpenMetadata, &doc(), &live_config()).unwrap() {
        Exported::Live(run) => run,
        Exported::Report(_) => panic!("expected a live run"),
    }
}

fn dry(cfg: &ExportConfig) -> ExportReport {
    export(Target::OpenMetadata, &doc(), cfg)
        .unwrap()
        .into_report()
        .unwrap()
}

fn parsed(text: &str) -> Value {
    serde_json::from_str(text).unwrap()
}

#[test]
fn dry_run_reports_every_edge() {
    let report = dry(&ExportConfig::default());
    assert_eq!(report.target, "openmetadata");
    assert_eq!((report.sent, report.failed), (0, 0));
    assert_eq!(
        report.actions,
        vec![
            format!("skip {A} -> nowhere : dataset not found in document"),
            format!("skip {A} -> short : could not resolve a 4-part FQN"),
            format!("would PUT .../v1/lineage : {A} -> {B}"),
        ]
    );
    let bodies = parsed(&report.artifact);
    assert_eq!(bodies.as_array().unwrap().len(), 1);
    let edge = &bodies[0]["edge"];
    assert_eq!(edge["fromEntity"]["type"], "table");
    assert_eq!(edge["fromEntity"]["fullyQualifiedName"], A);
    assert_eq!(edge["toEntity"]["fullyQualifiedName"], B);
    let details = &edge["lineageDetails"];
    assert_eq!(
        details["description"],
        "> ⚠ Some lineage below was inferred, not declared.\n\ncopies"
    );
    assert_eq!(details["sqlQuery"], "SELECT 1");
    // A mapping without sources is left out.
    let columns = details["columnsLineage"].as_array().unwrap();
    assert_eq!(columns.len(), 1);
    assert_eq!(columns[0]["fromColumns"][0], format!("{A}.x"));
    assert_eq!(columns[0]["toColumn"], format!("{B}.x"));
    assert_eq!(columns[0]["function"], "(inferred from SQL)");
}

#[test]
fn the_service_can_be_replaced() {
    let cfg = ExportConfig {
        om_service_override: Some("Other Service".into()),
        ..Default::default()
    };
    let bodies = parsed(&dry(&cfg).artifact);
    assert_eq!(
        bodies[0]["edge"]["fromEntity"]["fullyQualifiedName"],
        "Other Service.db.sch.a"
    );
}

#[test]
fn a_run_is_live_with_a_host_and_a_token() {
    assert!(is_live(&live_config()));
    assert!(!is_live(&ExportConfig::default()));
    let mut cfg = live_config();
    cfg.dry_run = true;
    assert!(!is_live(&cfg));
    let mut cfg = live_config();
    cfg.om_token = None;
    assert!(!is_live(&cfg));
}

#[test]
fn addresses_are_built_from_the_host() {
    assert_eq!(lineage_address("http://om/api/"), "http://om/api/v1/lineage");
    assert_eq!(
        table_address("http://om/api", "Test Database.d.s.t"),
        "http://om/api/v1/tables/name/Test%20Database.d.s.t?fields=id"
    );
}

#[test]
fn a_live_run_looks_both_tables_up_and_puts_the_request() {
    let run = start();
    assert!(matches!(run.next(), LiveAction::Find(t) if t == A));
    let run = run.on_find(Ok("id-a".into()));
    assert!(matches!(run.next(), LiveAction::Find(t) if t == B));
    let run = run.on_find(Ok("id-b".into()));
    match run.next() {
        LiveAction::Put(body) => {
            let edge = &body.value["edge"];
            assert_eq!(edge["fromEntity"]["id"], "id-a");
            assert_eq!(edge["toEntity"]["id"], "id-b");
            assert!(edge["toEntity"].get("fullyQualifiedName").is_none());
        }
        other => panic!("expected a request, got {other:?}"),
    }
    let run = run.on_put(Ok("200 OK".into()));
    assert!(matches!(run.next(), LiveAction::Finish));
    let report = run.finish().unwrap();
    assert_eq!((report.sent, report.failed), (1, 0));
    assert_eq!(
        report.actions[2],
        format!("PUT http://om:8585/api/v1/lineage [200 OK] : {A} -> {B}")
    );
    let bodies = parsed(&report.artifact);
    assert_eq!(bodies[0]["edge"]["fromEntity"]["id"], "id-a");
    assert_eq!(bodies[0]["edge"]["fromEntity"]["fullyQualifiedName"], A);
}

#[test]
fn failures_of_a_live_run_are_recorded() {
    let lookups = [
        (start(), "resolving from-table id: down"),
        (
            start().on_find(Ok("id-a".into())),
            "resolving to-table id: down",
        ),
    ];
    for (run, said) in lookups {
        let run = run.on_find(Err("down".into()));
        let report = run.finish().unwrap();
        assert_eq!((report.sent, report.failed), (0, 1));
        assert_eq!(report.actions[2], format!("error {A} -> {B} : {said}"));
        assert_eq!(report.artifact, "[]");
    }
    let run = start()
        .on_find(Ok("id-a".into()))
        .on_find(Ok("id-b".into()))
        .on_put(Err("http status: 403".into()));
    let report = run.finish().unwrap();
    assert_eq!((report.sent, report.failed), (0, 1));
    assert_eq!(
        report.actions[2],
        format!("error PUT http://om:8585/api/v1/lineage : {A} -> {B} : http status: 403")
    );
}

#[test]
fn skipped_edges_neither_were_sent_nor_failed() {
    let mut skipped = doc();
    skipped.edges.remove(0);
    let run = Live::new("http://om", plan(&skipped, &None));
    assert!(matches!(run.next(), LiveAction::Finish));
    let report = run.finish().unwrap();
    assert_eq!((report.sent, report.failed), (0, 0));
    assert_eq!(report.actions.len(), 2);
    assert!(report.actions.iter().all(|a| a.starts_with("skip ")));
    assert!(export_outcome(&report, true).is_ok());
}

#[test]
fn a_document_without_edges_is_finished_at_once() {
    let empty = WeaveDocument::new("ns", "test");
    let run = Live::new("http://om", plan(&empty, &None));
    assert!(matches!(run.next(), LiveAction::Finish));
    let report = run.finish().unwrap();
    assert_eq!((report.sent, report.failed), (0, 0));
    assert!(report.actions.is_empty());
}

#[test]
fn passing_failures_are_tried_again() {
    for status in [429, 500, 502, 503, 504] {
        assert!(is_retryable(Failure::Status(status)), "{status}");
    }
    for status in [400, 401, 403, 404, 409, 501, 505] {
        assert!(!is_retryable(Failure::Status(status)), "{status}");
    }
    for f in [
        Failure::Io,
        Failure::Timeout,
        Failure::ConnectionFailed,
        Failure::BodyStalled,
    ] {
        assert!(is_retryable(f), "{f:?}");
    }
    assert!(!is_retryable(Failure::Permanent));
}

#[test]
fn waits_double_up_to_eight_seconds() {
    let waits: Vec<Option<u64>> = (0..8)
        .map(|attempt| retry_after(attempt, 7, Failure::Timeout))
        .collect();
    assert_eq!(
        waits,
        vec![
            Some(400),
            Some(800),
            Some(1600),
            Some(3200),
            Some(6400),
            Some(8000),
            Some(8000),
            None
        ]
    );
    assert_eq!(
        retry_after(4_000_000_000, u32::MAX, Failure::Status(503)),
        Some(8000)
    );
    assert_eq!(retry_after(0, 5, Failure::Status(404)), None);
    assert_eq!(retry_after(0, 0, Failure::Timeout), None);
}

#[test]
fn a_table_id_is_a_text() {
    let reply = |text: &str| Json {
        value: parsed(text),
    };
    assert_eq!(table_id(&reply("{\"id\": \"u-1\"}"), A).unwrap(), "u-1");
    for text in ["{\"id\": 7}", "{}", "[]", "\"id\""] {
        assert_eq!(
            table_id(&reply(text), A).unwrap_err(),
            format!("response for {A} had no string `id`")
        );
    }
}

#[test]
fn targets_go_by_their_names() {
    for (name, target) in [
        (" OpenMetadata ", Target::OpenMetadata),
        ("om", Target::OpenMetadata),
        ("openlineage", Target::OpenLineage),
        ("OL", Target::OpenLineage),
        ("dot", Target::Dot),
        ("graphviz", Target::Dot),
    ] {
        assert_eq!(Target::parse(name).unwrap(), target);
    }
    assert_eq!(
        Target::parse(" Marquez").unwrap_err(),
        "unknown export target 'marquez' (expected: openmetadata|openlineage|dot)"
    );
    for target in [Target::OpenMetadata, Target::OpenLineage, Target::Dot] {
        assert_eq!(Target::parse(target.as_str()).unwrap(), target);
    }
}

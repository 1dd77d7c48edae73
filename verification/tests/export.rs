use trace_weaver::export::ExportConfig;
use trace_weaver::model::{
    ColumnEdge, ColumnRef, Dataset, Edge, Engine, FqnParts, Job, Transform, TransformType,
    WeaveDocument,
};
use trace_weaver::openmetadata::percent_encode;
use trace_weaver::origin::{Confidence, Origin};
use trace_weaver::{dot, openlineage, openmetadata};

/// One hop, with a declared mapping and one inferred from SQL.
fn tiny_doc() -> WeaveDocument {
    let mut doc = WeaveDocument::new("example.dwh", "trace-weaver/test");

    let mut landing = Dataset::new("Test Database.poc_db.public.landing_sales");
    landing.platform = Some("postgres".into());
    landing.fqn = FqnParts::parse(&landing.name);

    let mut bronze = Dataset::new("Test Database.poc_db.public.bronze_sales");
    bronze.platform = Some("postgres".into());
    bronze.fqn = FqnParts::parse(&bronze.name);

    doc.upsert_dataset(landing);
    doc.upsert_dataset(bronze);

    let mut job = Job::new("medallion.build_bronze", "build_bronze", Engine::Sql);
    job.inputs = vec!["Test Database.poc_db.public.landing_sales".into()];
    job.outputs = vec!["Test Database.poc_db.public.bronze_sales".into()];
    job.sql = Some("INSERT INTO bronze_sales SELECT * FROM landing_sales".into());
    doc.jobs.push(job);

    let mut edge = Edge::new(
        "Test Database.poc_db.public.landing_sales",
        "Test Database.poc_db.public.bronze_sales",
    );
    edge.job = Some("medallion.build_bronze".into());
    edge.transform = Transform {
        kind: Some("CAST / DEDUPE".into()),
        description: Some("CAST raw strings to typed columns + dedupe.".into()),
        sql: Some("INSERT INTO bronze_sales SELECT * FROM landing_sales".into()),
    };

    // Declared mapping: customer -> customer_name.
    let mut declared = ColumnEdge::new(
        vec![ColumnRef::new(
            "Test Database.poc_db.public.landing_sales",
            "customer",
        )],
        ColumnRef::new("Test Database.poc_db.public.bronze_sales", "customer_name"),
    );
    declared.function = Some("rename (direct copy)".into());
    declared.transform_type = TransformType::Identity;
    declared.origin = Origin::declared();

    // Inferred-from-SQL mapping: raw_event_id -> event_id.
    let mut inferred = ColumnEdge::new(
        vec![ColumnRef::new(
            "Test Database.poc_db.public.landing_sales",
            "raw_event_id",
        )],
        ColumnRef::new("Test Database.poc_db.public.bronze_sales", "event_id"),
    );
    inferred.function = Some("CAST text -> bigint".into());
    inferred.transform_type = TransformType::Transformation;
    inferred.origin = Origin::inferred_sql(Confidence {
        bits: 0.9f32.to_bits(),
    });

    edge.column_lineage = vec![declared, inferred];
    doc.edges.push(edge);

    doc
}
/// One dataset that feeds itself, with a mapping between two of its columns.
fn self_loop_doc() -> WeaveDocument {
    let name = "Test Database.poc_db.public.orphans";
    let mut doc = WeaveDocument::new("example.dwh", "trace-weaver/test");
    let mut orphans = Dataset::new(name);
    orphans.platform = Some("postgres".into());
    orphans.fqn = FqnParts::parse(name);
    doc.upsert_dataset(orphans);

    let mut job = Job::new("cleanup.delete_orphans", "delete_orphans", Engine::Python);
    job.inputs = vec![name.into()];
    job.outputs = vec![name.into()];
    doc.jobs.push(job);

    let mut edge = Edge::new(name, name);
    edge.job = Some("cleanup.delete_orphans".into());
    edge.column_lineage.push(ColumnEdge::new(
        vec![ColumnRef::new(name, "id")],
        ColumnRef::new(name, "id"),
    ));
    doc.edges.push(edge);
    doc
}

#[test]
fn dot_contains_digraph_and_nodes() {
    let doc = tiny_doc();
    let report = dot::export(&doc, &ExportConfig::default()).unwrap();
    assert!(report.artifact.contains("digraph"));
    assert!(report.artifact.contains("bronze_sales"));
    assert!(report.actions[0].contains("nodes"));
}

#[test]
fn dot_renders_self_edge() {
    // A self-edge must render as a valid Graphviz `"X" -> "X"` line (Graphviz
    // draws these as self-loops) — no panic, one edge.
    let doc = self_loop_doc();
    let report = dot::export(&doc, &ExportConfig::default()).unwrap();
    let node = "\"Test Database.poc_db.public.orphans\"";
    assert!(
        report.artifact.contains(&format!("{node} -> {node}")),
        "expected a self-edge line, got:\n{}",
        report.artifact
    );
    assert!(report.actions[0].contains("1 edges"));
}

#[test]
fn ol_contains_column_lineage() {
    let doc = tiny_doc();
    let report = openlineage::export(&doc, &ExportConfig::default()).unwrap();
    assert!(report.artifact.contains("columnLineage"));
    assert!(report.artifact.contains("\"COMPLETE\""));
    assert!(report.sent >= 1);
}

#[test]
fn om_dry_run_contains_fqns_and_inferred_suffix() {
    let doc = tiny_doc();
    let report = openmetadata::export(&doc, &ExportConfig::default())
        .unwrap()
        .into_report()
        .unwrap();
    assert_eq!(report.sent, 0);
    // Table FQNs present.
    assert!(report
        .artifact
        .contains("Test Database.poc_db.public.landing_sales"));
    assert!(report
        .artifact
        .contains("Test Database.poc_db.public.bronze_sales"));
    // The inferred column's function carries the suffix.
    assert!(report.artifact.contains("(inferred from SQL)"));
    // A would-PUT action line per edge.
    assert!(report.actions.iter().any(|a| a.contains("would PUT")));
}

#[test]
fn percent_encode_handles_spaces_and_dots() {
    assert_eq!(percent_encode("Test Database.poc"), "Test%20Database.poc");
}

#[test]
fn om_dry_run_emits_valid_body_for_self_edge() {
    // A self-edge produces a well-formed request body whose from/to entities
    // are the same FQN — valid JSON, no crash, one edge.
    let doc = self_loop_doc();
    let report = openmetadata::export(&doc, &ExportConfig::default())
        .unwrap()
        .into_report()
        .unwrap();
    let v: serde_json::Value =
        serde_json::from_str(&report.artifact).expect("valid OpenMetadata JSON");
    assert_eq!(v.as_array().map(|a| a.len()), Some(1));
    let fqn = "Test Database.poc_db.public.orphans";
    assert_eq!(v[0]["edge"]["fromEntity"]["fullyQualifiedName"], fqn);
    assert_eq!(v[0]["edge"]["toEntity"]["fullyQualifiedName"], fqn);
    // The same-dataset column mapping is carried on the edge.
    let cols = &v[0]["edge"]["lineageDetails"]["columnsLineage"];
    assert!(cols.is_array() && !cols.as_array().unwrap().is_empty());
}

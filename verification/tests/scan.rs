use trace_weaver::model::{Engine, TransformType, WeaveDocument};
use trace_weaver::origin::{Confidence, OriginSource, LINEAGE_MEDIUM_CONFIDENCE};
use trace_weaver::paths::module_path_of;
use trace_weaver::scan::{scan_files, scan_source, SourceFile};
use trace_weaver::tasks::ScanOptions;
use trace_weaver::validate::has_errors;

fn opts() -> ScanOptions {
    ScanOptions {
        namespace: "ns".into(),
        producer: "test".into(),
        enable_sql_inference: true,
        enable_code_inference: true,
        ..Default::default()
    }
}

#[test]
fn declared_column_map_yields_declared_origin() {
    let src = r#"
import trace_weaver as tw
@tw.task(
    dag="d",
    inputs=["Test Database.poc_db.public.bronze_sales"],
    outputs=["Test Database.poc_db.public.silver_sales"],
    engine="pandas",
    transform="ENRICH",
    column_map=[
        (["amount", "currency"], "amount_usd", "ROUND(amount * fx[currency], 2)"),
        (["event_id"], "event_id", "direct copy"),
    ],
)
def build_silver():
    pass
"#;
    let mut doc = WeaveDocument::new("ns", "test");
    scan_source("test.py", src, &opts(), &mut doc).unwrap();

    assert_eq!(doc.jobs.len(), 1);
    assert_eq!(doc.jobs[0].engine, Engine::Pandas);
    assert_eq!(doc.edges.len(), 1);
    let edge = &doc.edges[0];
    assert_eq!(edge.column_lineage.len(), 2);
    for ce in &edge.column_lineage {
        assert_eq!(ce.origin.source, OriginSource::Declared);
    }
    // Fan-in: amount_usd has two sources, both on the input dataset.
    let usd = edge
        .column_lineage
        .iter()
        .find(|c| c.to_column.column == "amount_usd")
        .unwrap();
    assert_eq!(usd.from_columns.len(), 2);
    assert_eq!(
        usd.from_columns[0].dataset,
        "Test Database.poc_db.public.bronze_sales"
    );
    assert_eq!(usd.transform_type, TransformType::Transformation);

    let ev = edge
        .column_lineage
        .iter()
        .find(|c| c.to_column.column == "event_id")
        .unwrap();
    assert_eq!(ev.transform_type, TransformType::Identity);
}

#[test]
fn sql_only_hop_yields_inferred_sql_edges() {
    let src = r#"
import trace_weaver as tw
BRONZE_SQL = """
INSERT INTO bronze_sales (event_id, customer_name, amount, currency, event_ts)
SELECT raw_event_id::bigint, customer, amount::numeric(12,2), currency, event_ts::timestamp
FROM (
  SELECT *, row_number() OVER (PARTITION BY raw_event_id ORDER BY ingested_at) AS rn
  FROM landing_sales
) deduped
WHERE rn = 1;
"""
@tw.task(
    dag="medallion_lineage",
    inputs=["Test Database.poc_db.public.landing_sales"],
    outputs=["Test Database.poc_db.public.bronze_sales"],
    engine="sql",
    sql=BRONZE_SQL,
    transform="CAST / PARSE / DEDUPE",
)
def build_bronze():
    pass
"#;
    let mut doc = WeaveDocument::new("ns", "test");
    scan_source("test.py", src, &opts(), &mut doc).unwrap();

    assert_eq!(doc.edges.len(), 1);
    let edge = &doc.edges[0];
    // 5 target columns, all inferred from SQL (no column_map declared).
    assert_eq!(edge.column_lineage.len(), 5);
    assert!(edge
        .column_lineage
        .iter()
        .all(|c| c.origin.source == OriginSource::InferredSql));

    // event_id <- raw_event_id, resolved to the input dataset.
    let ev = edge
        .column_lineage
        .iter()
        .find(|c| c.to_column.column == "event_id")
        .unwrap();
    assert_eq!(ev.from_columns[0].column, "raw_event_id");
    assert_eq!(
        ev.from_columns[0].dataset,
        "Test Database.poc_db.public.landing_sales"
    );
    assert_eq!(
        ev.to_column.dataset,
        "Test Database.poc_db.public.bronze_sales"
    );
    // Inferred display function carries the tag.
    assert!(ev
        .display_function()
        .unwrap()
        .contains("(inferred from SQL)"));
}

#[test]
fn partial_map_mixes_declared_and_inferred() {
    let src = r#"
import trace_weaver as tw
GOLD_SQL = """
INSERT INTO gold_sales_daily (event_date, total_transactions, unique_customers, total_revenue_usd, avg_transaction_usd)
SELECT event_date, COUNT(*), COUNT(DISTINCT customer_name), SUM(amount_usd), ROUND(AVG(amount_usd), 2)
FROM silver_sales
WHERE is_valid
GROUP BY event_date;
"""
@tw.task(
    dag="medallion_lineage",
    inputs=["Test Database.poc_db.public.silver_sales"],
    outputs=["Test Database.poc_db.public.gold_sales_daily"],
    engine="sql",
    sql=GOLD_SQL,
    transform="AGGREGATE daily",
    column_map=[
        (["event_date"], "event_date", "GROUP BY key"),
        (["amount_usd"], "total_revenue_usd", "SUM(amount_usd)"),
    ],
)
def build_gold():
    pass
"#;
    let mut doc = WeaveDocument::new("ns", "test");
    scan_source("test.py", src, &opts(), &mut doc).unwrap();

    let edge = &doc.edges[0];
    let by: std::collections::HashMap<_, _> = edge
        .column_lineage
        .iter()
        .map(|c| (c.to_column.column.clone(), c))
        .collect();

    // Declared.
    assert_eq!(by["event_date"].origin.source, OriginSource::Declared);
    assert_eq!(
        by["total_revenue_usd"].origin.source,
        OriginSource::Declared
    );
    // Inferred from SQL (not declared).
    assert_eq!(
        by["total_transactions"].origin.source,
        OriginSource::InferredSql
    );
    assert_eq!(
        by["unique_customers"].origin.source,
        OriginSource::InferredSql
    );
    assert_eq!(
        by["avg_transaction_usd"].origin.source,
        OriginSource::InferredSql
    );
    // All five present, none duplicated.
    assert_eq!(edge.column_lineage.len(), 5);
}

#[test]
fn missing_io_is_an_error_but_missing_engine_is_inferred() {
    let src = r#"
import trace_weaver as tw
@tw.task(dag="d")
def t():
    pass
"#;
    let mut doc = WeaveDocument::new("ns", "test");
    scan_source("t.py", src, &opts(), &mut doc).unwrap();
    let codes: Vec<&str> = doc.diagnostics.iter().map(|d| d.code.as_str()).collect();
    assert!(codes.contains(&"E_MISSING_IO"), "{codes:?}");
    assert!(
        !codes.contains(&"E_MISSING_ENGINE"),
        "engine should be inferred, not errored: {codes:?}"
    );
    assert!(has_errors(&doc.diagnostics));
}

#[test]
fn configure_expands_bare_names_and_sql_shortcut_infers_lineage() {
    let src = r#"
import trace_weaver as tw
tw.configure(service="Test Database", database="poc_db", schema="public")
B_SQL = "INSERT INTO bronze_sales (event_id) SELECT raw_event_id::bigint FROM landing_sales"
@tw.sql(B_SQL, inputs=["landing_sales"], outputs=["bronze_sales"])
def build_bronze():
    pass
"#;
    let mut doc = WeaveDocument::new("ns", "test");
    scan_source("t.py", src, &opts(), &mut doc).unwrap();
    // Bare names expanded to full FQNs.
    assert!(doc
        .dataset("Test Database.poc_db.public.bronze_sales")
        .is_some());
    assert!(doc
        .dataset("Test Database.poc_db.public.landing_sales")
        .is_some());
    // No E_/W_BAD_FQN — everything resolved.
    let codes: Vec<&str> = doc.diagnostics.iter().map(|d| d.code.as_str()).collect();
    assert!(!codes.contains(&"W_BAD_FQN"), "{codes:?}");
    // @tw.sql inferred a column edge from the SQL.
    assert_eq!(doc.edges.len(), 1);
    assert_eq!(doc.edges[0].column_lineage.len(), 1);
    assert_eq!(doc.edges[0].column_lineage[0].to_column.column, "event_id");
    assert_eq!(doc.jobs[0].engine, Engine::Sql);
}

#[test]
fn non_literal_sql_is_flagged_not_silently_dropped() {
    let src = r#"
import trace_weaver as tw
TABLE = "x"
@tw.task(
    inputs=["s.d.p.a"],
    outputs=["s.d.p.b"],
    engine="sql",
    sql=f"INSERT INTO {TABLE} SELECT 1",
)
def t():
    pass
"#;
    let mut doc = WeaveDocument::new("ns", "test");
    scan_source("t.py", src, &opts(), &mut doc).unwrap();
    let codes: Vec<&str> = doc.diagnostics.iter().map(|d| d.code.as_str()).collect();
    assert!(
        codes.contains(&"W_NON_LITERAL"),
        "expected W_NON_LITERAL, got {codes:?}"
    );
}

#[test]
fn multi_input_does_not_cross_contaminate() {
    let src = r#"
import trace_weaver as tw
@tw.task(
    inputs=["s.d.p.a", "s.d.p.b"],
    outputs=["s.d.p.c"],
    engine="python",
    column_map=[
        (["a.x"], "cx", "copy from a"),
        (["b.y"], "cy", "copy from b"),
    ],
)
def t():
    pass
"#;
    let mut doc = WeaveDocument::new("ns", "test");
    scan_source("t.py", src, &opts(), &mut doc).unwrap();
    // Two edges: a->c and b->c.
    assert_eq!(doc.edges.len(), 2);
    let ac = doc.edges.iter().find(|e| e.from == "s.d.p.a").unwrap();
    let bc = doc.edges.iter().find(|e| e.from == "s.d.p.b").unwrap();
    // a->c carries only the 'cx' mapping; b->c only 'cy'.
    assert_eq!(ac.column_lineage.len(), 1);
    assert_eq!(ac.column_lineage[0].to_column.column, "cx");
    assert_eq!(bc.column_lineage.len(), 1);
    assert_eq!(bc.column_lineage[0].to_column.column, "cy");
}

#[test]
fn short_fqn_is_warned_via_scan_path() {
    let src = r#"
import trace_weaver as tw
@tw.task(inputs=["landing_sales"], outputs=["bronze.sales"], engine="sql",
         sql="INSERT INTO bronze_sales (a) SELECT x FROM landing_sales")
def f():
    pass
"#;
    let mut doc = WeaveDocument::new("ns", "test");
    scan_source("t.py", src, &opts(), &mut doc).unwrap();
    let codes: Vec<&str> = doc.diagnostics.iter().map(|d| d.code.as_str()).collect();
    assert!(
        codes.contains(&"W_BAD_FQN"),
        "expected W_BAD_FQN, got {codes:?}"
    );
}

fn file(path: &str, module: &str, source: &str) -> SourceFile {
    SourceFile {
        path: path.into(),
        module: module.into(),
        source: source.into(),
    }
}

/// Scans a repository that holds `src` alone.
fn scan_one(src: &str) -> WeaveDocument {
    scan_files(&vec![file("dag.py", "dag", src)], &vec![], &opts())
}

#[test]
fn bare_multi_input_column_map_binds_to_first_input_only() {
    let doc = scan_one(
        r#"
import trace_weaver as tw
@tw.task(
    inputs=["s.d.p.bronze", "s.d.p.fx"],
    outputs=["s.d.p.silver"],
    engine="pandas",
    column_map=[
        (["amount", "rate"], "amount_usd", "amount * rate"),
        (["event_id"], "event_id", "direct copy"),
    ],
)
def t():
    pass
"#,
    );
    let codes: Vec<&str> = doc.diagnostics.iter().map(|d| d.code.as_str()).collect();
    assert!(codes.contains(&"W_NO_COLUMN_LINEAGE"), "{codes:?}");
    // Second input (fx) gets no column lineage; first input (bronze) carries it.
    let fx = doc.edges.iter().find(|e| e.from == "s.d.p.fx").unwrap();
    assert!(
        fx.column_lineage.is_empty(),
        "fx edge should carry no columns"
    );
    let bronze = doc.edges.iter().find(|e| e.from == "s.d.p.bronze").unwrap();
    assert!(
        !bronze.column_lineage.is_empty(),
        "bronze edge should carry columns"
    );
}

#[test]
fn copy_shortcut_declares_identity_via_scan_path() {
    // copy=[...] produces DECLARED identity column lineage, so a pandas task of
    // only same-name passthroughs is fully covered — and the document-level
    // post-pass therefore does NOT raise W_NO_COLUMN_LINEAGE.
    let doc = scan_one(
        r#"
import trace_weaver as tw
@tw.task(inputs=["s.d.p.a"], outputs=["s.d.p.b"], engine="pandas",
         copy=["event_id", "amount"])
def t():
    pass
"#,
    );
    let codes: Vec<&str> = doc.diagnostics.iter().map(|d| d.code.as_str()).collect();
    assert!(
        !codes.contains(&"W_NO_COLUMN_LINEAGE"),
        "copy should declare lineage so the no-column-lineage warning must not fire: {codes:?}"
    );
    assert_eq!(doc.edges.len(), 1);
    let edge = &doc.edges[0];
    assert_eq!(edge.column_lineage.len(), 2);
    for ce in &edge.column_lineage {
        // same-name identity, declared (not inferred-from-code).
        assert_eq!(ce.function.as_deref(), Some("direct copy"));
        assert_eq!(ce.from_columns.len(), 1);
        assert_eq!(ce.from_columns[0].column, ce.to_column.column);
        assert!(
            !ce.origin.is_inferred(),
            "copy edges must be DECLARED, got {:?}",
            ce.origin
        );
    }
}

#[test]
fn no_column_lineage_edge_is_warned_via_scan_path() {
    let doc = scan_one(
        r#"
import trace_weaver as tw
@tw.task(inputs=["s.d.p.a"], outputs=["s.d.p.b"], engine="pandas")
def t():
    pass
"#,
    );
    let codes: Vec<&str> = doc.diagnostics.iter().map(|d| d.code.as_str()).collect();
    assert!(codes.contains(&"W_NO_COLUMN_LINEAGE"), "{codes:?}");
}

#[test]
fn code_inference_tier_is_live_via_scan_path() {
    let doc = scan_one(
        r#"
import trace_weaver as tw
@tw.task(inputs=["s.d.p.z"], outputs=["s.d.p.a"], engine="pandas", column_map=[(["x"], "x", "copy")])
def t0(): ...
@tw.task(inputs=["s.d.p.a"], outputs=["s.d.p.b"], engine="pandas", column_map=[(["k"], "k", "copy")])
def t1(): ...
@tw.task(inputs=["s.d.p.b"], outputs=["s.d.p.c"], engine="pandas", column_map=[(["x"], "y", "copy")])
def t2(): ...
"#,
    );
    let ab = doc
        .edges
        .iter()
        .find(|e| e.from == "s.d.p.a" && e.to == "s.d.p.b")
        .unwrap();
    let inferred_x = ab
        .column_lineage
        .iter()
        .find(|c| c.to_column.column == "x" && c.origin.source == OriginSource::InferredCode);
    assert!(
        inferred_x.is_some(),
        "expected an inferred_code identity edge for A.x -> B.x; got {:?}",
        ab.column_lineage
    );
}

#[test]
fn discovered_tasks_mark_structural_origin_inferred() {
    let src = r#"
from airflow import DAG
BRONZE_SQL = "INSERT INTO bronze_sales (event_id) SELECT raw_id FROM landing_sales"
def build_silver():
    bronze = pd.read_sql("SELECT * FROM bronze_sales", con=E)
    silver = pd.DataFrame()
    silver["amount_usd"] = bronze["amount"] * 1.08
    silver.to_sql("silver_sales", con=E)
with DAG("medallion") as dag:
    bronze = PostgresOperator(task_id="bronze", sql=BRONZE_SQL)
    silver = PythonOperator(task_id="silver", python_callable=build_silver)
"#;
    let mut doc = WeaveDocument::new("ns", "test");
    scan_source("t.py", src, &opts(), &mut doc).unwrap();

    // Jobs: SQL-discovered -> inferred_sql; pandas-discovered -> inferred_code.
    let bronze_job = doc.jobs.iter().find(|j| j.name == "bronze").unwrap();
    assert_eq!(bronze_job.origin.source, OriginSource::InferredSql);
    let silver_job = doc.jobs.iter().find(|j| j.name == "silver").unwrap();
    assert_eq!(silver_job.origin.source, OriginSource::InferredCode);

    // Every edge inherits its discovering task's inferred origin (none declared).
    assert!(!doc.edges.is_empty());
    assert!(
        doc.edges.iter().all(|e| e.origin.is_inferred()),
        "discovered edges must be inferred: {:?}",
        doc.edges
            .iter()
            .map(|e| (e.from.clone(), e.to.clone(), e.origin.source))
            .collect::<Vec<_>>()
    );

    // Datasets discovered from the operators are inferred, never stuck declared.
    assert!(
        doc.datasets.iter().all(|d| d.origin.is_inferred()),
        "discovered datasets must be inferred: {:?}",
        doc.datasets
            .iter()
            .map(|d| (d.name.clone(), d.origin.source))
            .collect::<Vec<_>>()
    );
}

#[test]
fn declared_task_keeps_declared_structural_origin() {
    let src = r#"
import trace_weaver as tw
@tw.task(
    inputs=["s.d.p.a"],
    outputs=["s.d.p.b"],
    engine="sql",
    sql="INSERT INTO b (x) SELECT x FROM a",
)
def t():
    pass
"#;
    let mut doc = WeaveDocument::new("ns", "test");
    scan_source("t.py", src, &opts(), &mut doc).unwrap();
    assert!(
        doc.jobs.iter().all(|j| !j.origin.is_inferred()),
        "job declared"
    );
    assert!(
        doc.edges.iter().all(|e| !e.origin.is_inferred()),
        "edge declared"
    );
    assert!(
        doc.datasets.iter().all(|d| !d.origin.is_inferred()),
        "datasets declared"
    );
    // The undeclared column, however, IS inferred from SQL — edge.has_inferred()
    // must still be true so exporters tag the column.
    assert!(doc.edges.iter().all(|e| e.has_inferred()));
}

#[test]
fn opaque_note_suppressed_for_declared_column() {
    // A column the engineer DECLARED must not raise W_OPAQUE_COLUMN even when
    // its body is untraceable (here a named-callable apply): the declaration
    // already covers it, so the warning would be noise.
    let src = r#"
import trace_weaver as tw
@tw.task(inputs=["s.d.p.a"], outputs=["s.d.p.b"], engine="pandas",
         column_map=[(["x"], "y", "row udf")])
def t():
    src = pd.read_sql("SELECT * FROM a", con=E)
    out = pd.DataFrame()
    out["y"] = src.apply(weird, axis=1)
    out.to_sql("b", con=E)
"#;
    let mut doc = WeaveDocument::new("ns", "test");
    scan_source("t.py", src, &opts(), &mut doc).unwrap();
    let codes: Vec<&str> = doc.diagnostics.iter().map(|d| d.code.as_str()).collect();
    assert!(
        !codes.contains(&"W_OPAQUE_COLUMN"),
        "declared column 'y' must not raise W_OPAQUE_COLUMN: {codes:?}"
    );
}

#[test]
fn lineage_literal_datasets_are_declared_high_confidence() {
    // A @lineage task with literal URIs: datasets + edge are DECLARED (high),
    // and the OM-FQN / missing-column advisories do NOT fire (URIs, not FQNs).
    let src = r#"
from traceweaver import lineage
@lineage(
    inputs=["s3://raw-bucket/sales/{date}.parquet"],
    outputs=["iceberg://warehouse.sales.bronze"],
    description="daily ingest",
)
def build_bronze():
    pass
"#;
    let mut doc = WeaveDocument::new("ns", "test");
    scan_source("dag.py", src, &opts(), &mut doc).unwrap();

    assert_eq!(doc.jobs.len(), 1);
    assert_eq!(doc.edges.len(), 1);
    let edge = &doc.edges[0];
    assert_eq!(edge.from, "s3://raw-bucket/sales/{date}.parquet");
    assert_eq!(edge.to, "iceberg://warehouse.sales.bronze");
    assert!(
        !edge.origin.is_inferred(),
        "literal @lineage edge is declared"
    );
    assert!(doc.datasets.iter().all(|d| !d.origin.is_inferred()));
    // No hygiene noise for a URI-based dataset-level declaration.
    let codes: Vec<&str> = doc.diagnostics.iter().map(|d| d.code.as_str()).collect();
    assert!(!codes.contains(&"W_BAD_FQN"), "{codes:?}");
    assert!(!codes.contains(&"E_MISSING_IO"), "{codes:?}");
}

#[test]
fn lineage_non_literal_dataset_is_medium_confidence() {
    // A non-literal input (f-string) => the input dataset and the edge it
    // touches are INFERRED (medium), while the literal output stays declared.
    let src = r#"
from traceweaver import lineage
DAY = "2024-01-01"
@lineage(
    inputs=[f"s3://raw/{DAY}.parquet"],
    outputs=["iceberg://w.db.bronze"],
)
def build():
    pass
"#;
    let mut doc = WeaveDocument::new("ns", "test");
    scan_source("dag.py", src, &opts(), &mut doc).unwrap();
    assert_eq!(doc.edges.len(), 1);
    let edge = &doc.edges[0];
    assert!(
        edge.origin.is_inferred(),
        "an edge touching a non-literal endpoint is medium/inferred"
    );
    assert_eq!(
        edge.origin.confidence,
        Some(Confidence {
            bits: LINEAGE_MEDIUM_CONFIDENCE
        }),
        "non-literal @lineage confidence is medium"
    );
    // The literal output dataset is still declared/high.
    let out = doc.dataset("iceberg://w.db.bronze").unwrap();
    assert!(!out.origin.is_inferred());
}

#[test]
fn lineage_dataset_level_edge_does_not_warn_no_column_lineage() {
    // @lineage is intentionally dataset-level, so the document post-pass must
    // NOT nag it to "declare a column_map".
    let doc = scan_one(
        r#"
from traceweaver import lineage
@lineage(inputs=["s3://b/in"], outputs=["s3://b/out"])
def f():
    pass
"#,
    );
    let codes: Vec<&str> = doc.diagnostics.iter().map(|d| d.code.as_str()).collect();
    assert!(
        !codes.contains(&"W_NO_COLUMN_LINEAGE"),
        "dataset-level @lineage must not raise W_NO_COLUMN_LINEAGE: {codes:?}"
    );
    assert_eq!(doc.edges.len(), 1);
}

#[test]
fn declared_lineage_self_loop_emits_a_self_edge() {
    // A declared @lineage whose input == output ("read prefix X and delete
    // orphans in X") is a legitimate self-loop: it must yield exactly one
    // declared self-edge X -> X, both via scan_source (scan_decl builds it)
    // and after the full scan_path pipeline (derive_edges must not dup it).
    let src = r#"
from traceweaver import lineage
@lineage(inputs=["s3://bucket/prefix"], outputs=["s3://bucket/prefix"],
         description="delete orphaned objects in place")
def dedupe_prefix():
    pass
"#;
    let mut doc = WeaveDocument::new("ns", "test");
    scan_source("dag.py", src, &opts(), &mut doc).unwrap();
    assert_eq!(doc.edges.len(), 1, "self-edge built during scan_decl");
    let e = &doc.edges[0];
    assert_eq!(e.from, "s3://bucket/prefix");
    assert_eq!(e.to, "s3://bucket/prefix");
    assert!(!e.origin.is_inferred(), "declared self-edge is declared");

    // Full pipeline (scan_path runs derive_edges_from_jobs): still exactly one.
    let doc2 = scan_one(src);
    assert_eq!(
        doc2.edges.len(),
        1,
        "derive_edges must not duplicate the declared self-edge"
    );
    assert_eq!(doc2.edges[0].from, doc2.edges[0].to);
}

#[test]
fn nonliteral_lineage_self_loop_is_skipped_as_inferred() {
    // A @lineage self-loop where the (identical) endpoint is a NON-literal
    // (f-string) is medium/inferred, so — like any inferred self-loop — it is
    // skipped rather than emitted, avoiding noise.
    let src = r#"
from traceweaver import lineage
DAY = "2024-01-01"
@lineage(inputs=[f"s3://bucket/{DAY}"], outputs=[f"s3://bucket/{DAY}"])
def f():
    pass
"#;
    let mut doc = WeaveDocument::new("ns", "test");
    scan_source("dag.py", src, &opts(), &mut doc).unwrap();
    assert!(
        doc.edges.is_empty(),
        "inferred (non-literal) self-loop must be skipped: {:?}",
        doc.edges
            .iter()
            .map(|e| (e.from.clone(), e.to.clone()))
            .collect::<Vec<_>>()
    );
    // The job still exists (it is annotated), just with no self-edge.
    assert_eq!(doc.jobs.len(), 1);
}

#[test]
fn cross_file_constant_resolves_to_declared_high_confidence() {
    // The real target layout: URIs centralized in config/datasets.py and
    // consumed by services/x.py via `from config.datasets import ...`. The
    // constant must resolve to its literal so the edge + datasets stay
    // DECLARED / high confidence — NOT drop to inferred/medium.
    let config = r#"
RAW_SALES = "s3://acme-raw/sales/events.parquet"
BRONZE_SALES = "iceberg://warehouse.sales.bronze"
"#;
    let service = r#"
from trace_weaver import lineage
from config.datasets import RAW_SALES, BRONZE_SALES

@lineage(inputs=[RAW_SALES], outputs=[BRONZE_SALES])
def ingest_sales():
    ...
"#;
    let doc = scan_files(
        &vec![
            file("/repo/config/datasets.py", "config.datasets", config),
            file("/repo/services/ingest.py", "services.ingest", service),
        ],
        &vec![],
        &opts(),
    );

    // The literals from the OTHER file became the dataset names.
    assert!(doc.dataset("s3://acme-raw/sales/events.parquet").is_some());
    assert!(doc.dataset("iceberg://warehouse.sales.bronze").is_some());
    assert_eq!(doc.edges.len(), 1);
    let edge = &doc.edges[0];
    assert_eq!(edge.from, "s3://acme-raw/sales/events.parquet");
    assert_eq!(edge.to, "iceberg://warehouse.sales.bronze");
    assert!(
        !edge.origin.is_inferred(),
        "cross-file constant edge must be DECLARED, got {:?}",
        edge.origin
    );
    assert!(
        doc.datasets.iter().all(|d| !d.origin.is_inferred()),
        "cross-file constant datasets must be declared/high"
    );
    // No medium/non-literal fallback fired.
    let codes: Vec<&str> = doc.diagnostics.iter().map(|d| d.code.as_str()).collect();
    assert!(!codes.contains(&"W_NON_LITERAL"), "{codes:?}");
}

#[test]
fn cross_file_self_loop_from_constant_emits_declared_self_edge() {
    let config = "PREFIX = \"s3://bucket/prefix\"\n";
    let dag = r#"
from trace_weaver import lineage
from datasets import PREFIX

@lineage(inputs=[PREFIX], outputs=[PREFIX], description="delete orphans in place")
def dedupe():
    ...
"#;
    let doc = scan_files(
        &vec![
            file("/repo/dag.py", "dag", dag),
            file("/repo/datasets.py", "datasets", config),
        ],
        &vec![],
        &opts(),
    );
    assert_eq!(doc.edges.len(), 1, "exactly one self-edge");
    let e = &doc.edges[0];
    assert_eq!(e.from, "s3://bucket/prefix");
    assert_eq!(e.to, "s3://bucket/prefix");
    assert!(!e.origin.is_inferred(), "declared self-edge from constant");
}

#[test]
fn module_path_of_derives_dotted_paths() {
    let root = "/repo/dags";
    assert_eq!(
        module_path_of(root, "/repo/dags/config/datasets.py"),
        "config.datasets"
    );
    assert_eq!(module_path_of(root, "/repo/dags/dag.py"), "dag");
    assert_eq!(
        module_path_of(root, "/repo/dags/pkg/__init__.py"),
        "pkg"
    );
}

#[test]
fn dii_transform_run_yields_column_mappings_without_a_task() {
    let src = r#"
from pyspark.sql import functions as F
def run(spark, src_path, database, table, first_run, job_id, load_date_str, target_catalogs="both"):
    df = spark.read.format("parquet").load(src_path)
    expected_columns = ["HOSPCODE", "PID", "SEQ", "DATE_SERV", "WEIGHT"]
    actual_columns = df.columns
    if len(actual_columns) != len(expected_columns):
        raise ValueError("Column count mismatch.")
    if set(actual_columns) != set(expected_columns):
        raise ValueError("Column mismatch.")
    full_table_name = f"glue_cat.{database}.{table}"
    df.createOrReplaceTempView("raw_staging")
    spark.sql(f"""
        INSERT INTO {full_table_name}
        SELECT
            CAST(`HOSPCODE` AS STRING),
            CAST(`PID` AS STRING),
            CAST(`SEQ` AS INT),
            CAST(`DATE_SERV` AS STRING),
            `WEIGHT`
        FROM raw_staging
    """)
"#;
    let mut doc = WeaveDocument::new("ns", "test");
    scan_source("zone_anc_mom.py", src, &opts(), &mut doc).unwrap();

    // COLUMN discovery, not TASK discovery: no job enters the denominator.
    assert!(
        doc.jobs.is_empty(),
        "Pass C must not create a job: {:?}",
        doc.jobs.iter().map(|j| &j.id).collect::<Vec<_>>()
    );
    // But it DID recover per-column lineage.
    let total_cols: usize = doc.edges.iter().map(|e| e.column_lineage.len()).sum();
    assert!(total_cols > 0, "expected column mappings, got 0");
    // The staging INSERT maps raw_staging.<col> -> <target>.<col>, CAST=xform.
    let edge = doc
        .edges
        .iter()
        .find(|e| e.from == "raw_staging")
        .expect("raw_staging edge");
    assert!(edge.origin.is_inferred(), "discovery edge is inferred");
    let h = edge
        .column_lineage
        .iter()
        .find(|c| c.to_column.column == "HOSPCODE")
        .expect("HOSPCODE mapping");
    assert_eq!(h.from_columns[0].column, "HOSPCODE");
    assert_eq!(h.from_columns[0].dataset, "raw_staging");
    assert_eq!(h.transform_type, TransformType::Transformation);
    // A bare (uncast) column is an identity passthrough.
    let w = edge
        .column_lineage
        .iter()
        .find(|c| c.to_column.column == "WEIGHT")
        .expect("WEIGHT mapping");
    assert_eq!(w.transform_type, TransformType::Identity);
}

#[test]
fn undecorated_helper_without_dataframe_ops_is_not_discovered() {
    let src = r#"
def helper(x, y):
    z = x + y
    return z * 2
"#;
    let mut doc = WeaveDocument::new("ns", "test");
    scan_source("helper.py", src, &opts(), &mut doc).unwrap();
    assert!(doc.jobs.is_empty());
    assert!(doc.edges.is_empty());
    assert!(doc.datasets.is_empty());
}

#[test]
fn dataflow_under_lineage_attaches_inferred_columns_but_keeps_declared_edge() {
    let src = r#"
from traceweaver import lineage
import pandas as pd
@lineage(
    inputs=["postgresql://conn/aoc.raw_mule"],
    outputs=["postgresql://conn/aoc.temp_mule_trend"],
)
def load_data_from_parquet_to_temp_table():
    df = pd.read_sql("SELECT * FROM raw_mule", con=E)
    df = df.rename(columns={"case_code": "case_id", "amount": "amount_thb"})
"#;
    let mut doc = WeaveDocument::new("ns", "test");
    scan_source("etl.py", src, &opts(), &mut doc).unwrap();

    // Exactly one @lineage task (the rename did NOT become a second task).
    assert_eq!(doc.jobs.len(), 1);
    assert!(
        !doc.jobs[0].origin.is_inferred(),
        "@lineage job is declared"
    );
    assert_eq!(doc.edges.len(), 1);
    let edge = &doc.edges[0];
    // Declared / HIGH confidence dataset edge preserved.
    assert!(
        !edge.origin.is_inferred(),
        "declared @lineage edge must stay declared/HIGH"
    );
    // …with inferred column mappings merged beneath it.
    let case_id = edge
        .column_lineage
        .iter()
        .find(|c| c.to_column.column == "case_id")
        .expect("inferred case_id mapping should attach under @lineage");
    assert_eq!(case_id.origin.source, OriginSource::InferredCode);
    assert_eq!(case_id.from_columns[0].column, "case_code");
    assert_eq!(
        case_id.from_columns[0].dataset,
        "postgresql://conn/aoc.raw_mule"
    );
    assert_eq!(
        case_id.to_column.dataset,
        "postgresql://conn/aoc.temp_mule_trend"
    );
}

#[test]
fn bare_lineage_yields_a_job_with_no_edges_and_no_error() {
    // Bare @lineage: the function is a task with no declared datasets. It must
    // not error (E_MISSING_IO is suppressed) and contributes to task counts
    // without any lineage edges — the exact "task without lineage" case the
    // gate coverage metric measures.
    let src = r#"
from traceweaver import lineage
@lineage
def f():
    pass
"#;
    let mut doc = WeaveDocument::new("ns", "test");
    scan_source("dag.py", src, &opts(), &mut doc).unwrap();
    assert_eq!(doc.jobs.len(), 1);
    assert!(doc.edges.is_empty());
    assert!(!has_errors(&doc.diagnostics));
}

use serde_json::Value;
use trace_weaver::collections::StrMap;
use trace_weaver::dataflow::analyze;
use trace_weaver::export::ExportConfig;
use trace_weaver::flow::DataflowResult;
use trace_weaver::model::{
    Dataset, DiagLevel, Edge, Engine, SourceLoc, TransformType, WeaveDocument,
};
use trace_weaver::origin::{Confidence, OriginSource};
use trace_weaver::paths::{is_python_file, module_path_of};
use trace_weaver::pyast::{parse_module, PyStmt};
use trace_weaver::resolve::resolvers;
use trace_weaver::scan::{scan_files, scan_source, SourceFile, UnreadFile};
use trace_weaver::tasks::ScanOptions;
use trace_weaver::{dot, openlineage};

fn confidence(x: f32) -> Confidence {
    Confidence { bits: x.to_bits() }
}

fn file(path: &str, source: &str) -> SourceFile {
    SourceFile {
        path: path.into(),
        module: module_path_of("", path),
        source: source.into(),
    }
}

fn scan(src: &str) -> WeaveDocument {
    scan_files(&vec![file("dag.py", src)], &vec![], &ScanOptions::default())
}

fn codes(doc: &WeaveDocument) -> Vec<&str> {
    doc.diagnostics.iter().map(|d| d.code.as_str()).collect()
}

fn edge<'a>(doc: &'a WeaveDocument, from: &str, to: &str) -> &'a Edge {
    doc.edges
        .iter()
        .find(|e| e.from == from && e.to == to)
        .unwrap()
}

/// The sources of each target column of an edge.
fn columns(e: &Edge) -> Vec<(String, Vec<String>)> {
    e.column_lineage
        .iter()
        .map(|c| {
            let sources = c.from_columns.iter().map(|s| s.column.clone()).collect();
            (c.to_column.column.clone(), sources)
        })
        .collect()
}

fn pair(target: &str, sources: &[&str]) -> (String, Vec<String>) {
    (
        target.to_string(),
        sources.iter().map(|s| s.to_string()).collect(),
    )
}

/// Analyzes `body`, the statements of a function.
fn trace(body: &str) -> DataflowResult {
    let mut src = "def f():\n".to_string();
    for line in body.lines() {
        src.push_str(&format!("    {line}\n"));
    }
    let suite = parse_module(&src).unwrap();
    match suite.into_iter().next().unwrap() {
        PyStmt::FunctionDef(f) => analyze(&f.body, &StrMap::new(), &src),
        _ => panic!("expected a function def"),
    }
}

fn traced(body: &str) -> Vec<(String, Vec<String>)> {
    trace(body)
        .columns
        .iter()
        .map(|c| (c.target.clone(), c.sources.clone()))
        .collect()
}

fn opaque(body: &str) -> Vec<String> {
    trace(body).opaque.iter().map(|o| o.detail.clone()).collect()
}

const MEDALLION: &str = r#"
import trace_weaver as tw
from airflow import DAG

tw.configure(service="Test Database", database="poc_db", schema="public")

BRONZE_SQL = """
INSERT INTO bronze_sales (event_id, customer_name, amount, currency, event_ts)
SELECT raw_event_id::bigint, customer, amount::numeric(12,2), currency, event_ts::timestamp
FROM (
  SELECT *, row_number() OVER (PARTITION BY raw_event_id ORDER BY ingested_at) AS rn
  FROM landing_sales
) deduped
WHERE rn = 1;
"""

GOLD_SQL = """
INSERT INTO gold_sales_daily (event_date, total_transactions, unique_customers, total_revenue_usd, avg_transaction_usd)
SELECT event_date, COUNT(*), COUNT(DISTINCT customer_name), SUM(amount_usd), ROUND(AVG(amount_usd), 2)
FROM silver_sales
WHERE is_valid
GROUP BY event_date;
"""

with DAG(dag_id="medallion_lineage") as dag:
    pass

@tw.sql(BRONZE_SQL, inputs=["landing_sales"], outputs=["bronze_sales"], transform="CAST / DEDUPE")
def build_bronze():
    ...

@tw.task(
    inputs=["bronze_sales"],
    outputs=["silver_sales"],
    engine="pandas",
    column_map=[
        (["amount", "currency"], "amount_usd", "ROUND(amount * fx[currency], 2)"),
        ("event_ts", "event_date", "CAST ts -> date"),
        (["amount"], "is_valid", "amount > 0"),
    ],
    copy=["event_id", "customer_name", "amount", "currency"],
)
def build_silver():
    ...

@tw.sql(
    GOLD_SQL,
    inputs=["silver_sales"],
    outputs=["gold_sales_daily"],
    column_map=[
        (["event_date"], "event_date", "GROUP BY key"),
        (["amount_usd"], "total_revenue_usd", "SUM(amount_usd)"),
    ],
)
def build_gold():
    ...
"#;

#[test]
fn medallion_example_three_provenance_modes() {
    let opts = ScanOptions {
        namespace: "example.dwh".into(),
        producer: "test".into(),
        enable_sql_inference: true,
        enable_code_inference: true,
        ..Default::default()
    };
    let doc = scan_files(
        &vec![file("examples/dags/medallion.py", MEDALLION)],
        &vec![],
        &opts,
    );
    // 3 jobs, 4 datasets, 3 edges
    assert_eq!(doc.jobs.len(), 3, "jobs");
    assert_eq!(doc.datasets.len(), 4, "datasets");
    assert_eq!(doc.edges.len(), 3, "edges");

    let find = |to: &str| doc.edges.iter().find(|e| e.to.ends_with(to)).unwrap();

    // bronze: all inferred from SQL
    let bronze = find("bronze_sales");
    assert_eq!(bronze.column_lineage.len(), 5);
    assert!(bronze
        .column_lineage
        .iter()
        .all(|c| c.origin.source == OriginSource::InferredSql));

    // silver: all declared
    let silver = find("silver_sales");
    assert_eq!(silver.column_lineage.len(), 7);
    assert!(silver
        .column_lineage
        .iter()
        .all(|c| c.origin.source == OriginSource::Declared));

    // gold: mix - 2 declared, 3 inferred sql
    let gold = find("gold_sales_daily");
    assert_eq!(gold.column_lineage.len(), 5);
    let declared = gold
        .column_lineage
        .iter()
        .filter(|c| c.origin.source == OriginSource::Declared)
        .count();
    let inferred = gold
        .column_lineage
        .iter()
        .filter(|c| c.origin.source == OriginSource::InferredSql)
        .count();
    assert_eq!((declared, inferred), (2, 3));

    // The whole hop is 17 mappings, with nothing to report.
    let mappings: usize = doc.edges.iter().map(|e| e.column_lineage.len()).sum();
    assert_eq!(mappings, 17);
    assert!(doc.diagnostics.is_empty(), "{:?}", doc.diagnostics);
    assert_eq!(doc.jobs[0].id, "medallion_lineage.build_bronze");
    assert_eq!(doc.producer, "test");
    assert_eq!(doc.namespace, "example.dwh");
    assert_eq!(doc.weave_version, "0.1");
}

#[test]
fn defaults_of_a_scan() {
    let opts = ScanOptions::default();
    assert_eq!(opts.namespace, "default");
    assert_eq!(opts.producer, "trace-weaver/0.6.1");
    assert!(opts.enable_sql_inference && opts.enable_code_inference);
    assert!(opts.service.is_none() && opts.database.is_none() && opts.schema.is_none());
}

#[test]
fn options_expand_bare_names_of_plain_dags() {
    let opts = ScanOptions {
        service: Some("Test Database".into()),
        database: Some("poc_db".into()),
        schema: Some("public".into()),
        ..Default::default()
    };
    let src = r#"
from airflow import DAG
with DAG(dag_id="plain") as dag:
    t = PostgresOperator(task_id="load", sql="INSERT INTO b (x) SELECT y FROM a")
"#;
    let doc = scan_files(&vec![file("dag.py", src)], &vec![], &opts);
    let e = edge(
        &doc,
        "Test Database.poc_db.public.a",
        "Test Database.poc_db.public.b",
    );
    assert_eq!(columns(e), vec![pair("x", &["y"])]);
    assert_eq!(e.origin.source, OriginSource::InferredSql);
    assert_eq!(e.job.as_deref(), Some("plain.load"));
    assert_eq!(doc.jobs[0].dag.as_deref(), Some("plain"));
    assert!(doc.diagnostics.is_empty(), "{:?}", doc.diagnostics);
    let a = doc.dataset("Test Database.poc_db.public.a").unwrap();
    assert_eq!(a.fqn.as_ref().unwrap().table, "a");
    assert_eq!(a.schema.len(), 1);
    assert_eq!(a.schema[0].name, "y");
}

#[test]
fn an_unreadable_file_is_reported() {
    let unread = UnreadFile {
        path: "gone.py".into(),
        error: "permission denied".into(),
    };
    let doc = scan_files(&vec![], &vec![unread], &ScanOptions::default());
    assert_eq!(doc.diagnostics.len(), 1);
    let d = &doc.diagnostics[0];
    assert_eq!((d.level, d.code.as_str()), (DiagLevel::Error, "E_READ"));
    assert_eq!(d.message, "could not read gone.py: permission denied");
    assert_eq!(d.location, Some(SourceLoc::new("gone.py", None)));
}

#[test]
fn a_source_that_does_not_parse_is_an_error() {
    let mut doc = WeaveDocument::new("ns", "test");
    assert!(scan_source("t.py", "def (", &ScanOptions::default(), &mut doc).is_err());
    assert!(doc.jobs.is_empty() && doc.diagnostics.is_empty());
}

#[test]
fn missing_io_says_what_was_given() {
    let doc = scan(
        "import trace_weaver as tw\n@tw.task(dag=\"d\", inputs=[\"s.d.p.a\"])\ndef t(): ...\n",
    );
    assert_eq!(codes(&doc), vec!["E_MISSING_IO"]);
    assert_eq!(
        doc.diagnostics[0].message,
        "task 't' must declare both inputs= and outputs= (got 1 input(s), 0 output(s))"
    );
    assert_eq!(
        doc.diagnostics[0].location.as_ref().map(|l| l.line),
        Some(doc.jobs[0].location.as_ref().unwrap().line)
    );
}

#[test]
fn sql_is_read_for_the_sql_engine_only() {
    let doc = scan(
        r#"
import trace_weaver as tw
@tw.task(inputs=["s.d.p.a"], outputs=["s.d.p.b"], engine="spark",
         sql="INSERT INTO b (x) SELECT y FROM a")
def t(): ...
"#,
    );
    assert_eq!(codes(&doc), vec!["W_SQL_NOT_PARSED", "W_NO_COLUMN_LINEAGE"]);
    assert_eq!(
        doc.diagnostics[0].message,
        "task 't' provides sql= but engine is Spark; SQL column lineage is only extracted for \
         engine=\"sql\""
    );
    assert_eq!(
        doc.diagnostics[1].message,
        "edge a -> b has no column-level lineage; declare a column_map (only SQL transforms are \
         auto-extracted)"
    );
    assert_eq!(doc.jobs[0].engine, Engine::Spark);
}

#[test]
fn refused_projections_are_reported() {
    let doc = scan(
        r#"
import trace_weaver as tw
@tw.sql("INSERT INTO b (x) SELECT * FROM a", inputs=["s.d.p.a"], outputs=["s.d.p.b"])
def star(): ...
@tw.sql("INSERT INTO b (x, y) SELECT p FROM a", inputs=["s.d.p.a"], outputs=["s.d.p.b"])
def short(): ...
"#,
    );
    assert!(codes(&doc).contains(&"W_SQL_WILDCARD"));
    let arity = doc
        .diagnostics
        .iter()
        .find(|d| d.code == "W_SQL_ARITY")
        .unwrap();
    assert_eq!(
        arity.message,
        "task 'short': SQL projection has 1 column(s) but the INSERT lists 2; column lineage \
         skipped — declare a column_map"
    );
}

#[test]
fn an_untraced_spot_points_at_its_line() {
    let doc = scan(
        r#"
def build():
    a = pd.read_sql("SELECT * FROM a", con=E)
    out = pd.DataFrame()
    out["ok"] = a["x"]
    out["score"] = a.apply(udf, axis=1)
    out.to_sql("b")
t = PythonOperator(task_id="load", python_callable=build)
"#,
    );
    let d = doc
        .diagnostics
        .iter()
        .find(|d| d.code == "W_OPAQUE_COLUMN")
        .unwrap();
    assert!(d.message.starts_with("task 'load': "), "{}", d.message);
    assert!(d.message.contains("\"score\""), "{}", d.message);
    assert_eq!(d.location, Some(SourceLoc::new("dag.py", Some(6))));
}

#[test]
fn the_decorator_overrides_discovery() {
    let doc = scan(
        r#"
import trace_weaver as tw
@tw.task(inputs=["s.d.p.a"], outputs=["s.d.p.b"], copy=["x"])
def build():
    ...
t = PythonOperator(task_id="load", python_callable=build)
"#,
    );
    assert_eq!(doc.jobs.len(), 1);
    assert_eq!(doc.jobs[0].name, "build");
    assert!(!doc.jobs[0].origin.is_inferred());
}

#[test]
fn pandas_forms_that_are_read() {
    let read = "b = pd.read_sql(\"SELECT * FROM t\", con=E)\n";
    let cases: Vec<(&str, Vec<(String, Vec<String>)>)> = vec![
        (
            "o = b.rename(columns={\"amount\": \"amt\"})",
            vec![pair("amt", &["t.amount"])],
        ),
        (
            "o = b.assign(net=b[\"amount\"] - b[\"fee\"])",
            vec![pair("net", &["t.amount", "t.fee"])],
        ),
        (
            "o = b[[\"event_id\", \"amount\"]]",
            vec![
                pair("event_id", &["t.event_id"]),
                pair("amount", &["t.amount"]),
            ],
        ),
        (
            "o = b.groupby(\"region\").agg(total=(\"amount\", \"sum\"))",
            vec![
                pair("region", &["t.region"]),
                pair("total", &["t.amount"]),
            ],
        ),
        (
            "o = pd.DataFrame()\nfor c in [\"x\", \"y\"]:\n    o[c] = b[c].fillna(0)",
            vec![pair("x", &["t.x"]), pair("y", &["t.y"])],
        ),
        (
            "o = pd.DataFrame()\ncol = \"usd\"\no[col] = b[\"amount\"]",
            vec![pair("usd", &["t.amount"])],
        ),
    ];
    for (body, want) in cases {
        let r = trace(&format!("{read}{body}\no.to_sql(\"u\")"));
        assert!(r.opaque.is_empty(), "{body}: {:?}", r.opaque);
        let got: Vec<(String, Vec<String>)> = r
            .columns
            .iter()
            .map(|c| (c.target.clone(), c.sources.clone()))
            .collect();
        assert_eq!(got, want, "{body}");
        assert_eq!(r.inputs, vec!["t"]);
        assert_eq!(r.outputs, vec!["u"]);
    }
}

#[test]
fn forms_that_are_not_read_are_noted() {
    let read = "b = pd.read_sql(\"SELECT * FROM t\", con=E)\n";
    for body in [
        "o = pd.DataFrame()\no[name] = b[\"x\"]",
        "o = pd.DataFrame()\no[\"c\"] = b.apply(named, axis=1)",
        "o = b.pivot(columns=\"region\")",
        "o = b.melt()",
        "b.columns = [\"x\"]",
        "o = b.rename(columns=mapping)",
        "o = pd.DataFrame()\nfor c in cols():\n    o[c] = b[c]",
        "o = b.groupBy(\"k\").agg(F.sum(\"a\"))",
        "o = b.selectExpr(\"amount * 1.08\")",
    ] {
        assert!(!opaque(&format!("{read}{body}")).is_empty(), "{body}");
    }
}

#[test]
fn operations_without_literal_names_are_noted() {
    let read = "b = spark.read.table(\"t\")\n";
    for (body, detail) in [
        ("o = b.withColumn(c, col(\"x\"))", "withColumn(…) has a non-literal column name"),
        ("o = b.withColumn(\"c\")", "couldn't trace sources of withColumn(\"c\", …)"),
        ("o = b.withColumnRenamed(x, \"y\")", "withColumnRenamed(…) has a non-literal"),
        ("o = b.withColumnRenamed(\"x\", y)", "withColumnRenamed(…) has a non-literal"),
        ("o = b.selectExpr(e)", "selectExpr(…) has an argument that is not a literal"),
        ("o = b.selectExpr(\"a + b\")", "selectExpr(\"a + b\") "),
        ("o = b.select(*cols)", "an item of select(…) can't be traced"),
        ("o = b.select([\"x\", \"y\"])", "an item of select(…) can't be traced"),
        ("o = b.select(col(\"x\") + col(\"y\"))", "an item of select(…) can't be traced"),
        ("o = b.select(col(\"x\").alias(n))", "`.alias(…)` has a non-literal name"),
        ("o = b.agg(F.sum(col(\"x\")).alias(n))", "`.alias(…)` has a non-literal name"),
        ("o = b.agg({k: \"sum\"})", "an aggregation without a literal column name"),
        ("o = b.agg(total=(k, \"sum\"))", "an aggregation without a literal column name"),
        ("o = b.agg(total=NamedAgg(\"x\", \"sum\"))", "an aggregation without a literal"),
        ("o = b.agg(exprs)", "an aggregation without a literal column name"),
        ("o = b.groupby(keys).count()", "a key of groupby(…) is not a literal"),
        ("o = b.groupby(by=\"k\").count()", "a key of groupby(…) is not a literal"),
        ("o = b.rename(columns={x: \"y\"})", "rename(…) has a non-literal column name"),
        ("o = b.rename(columns={\"x\": y})", "rename(…) has a non-literal column name"),
        ("o = b.rename(mapping, axis=1)", "rename(…) has a non-literal column name"),
        ("o = b.assign(**more)", "assign(**…) has no literal column names"),
        ("b.loc[mask, \"x\"] = 1", "an assignment into `b`"),
        (
            "b.withColumn(\"y\", col(\"x\")).write.saveAsTable(\"u\")",
            "columns are made in the expression that is written",
        ),
        ("spark.sql(query)", "a query that is built at run time"),
    ] {
        let notes = opaque(&format!("{read}{body}"));
        assert_eq!(notes.len(), 1, "{body}: {notes:?}");
        assert!(notes[0].contains(detail), "{body}: {notes:?}");
    }
    // A single column passes under its own name all the same.
    assert_eq!(
        traced(&format!("{read}o = b.select(col(\"x\").alias(n))")),
        vec![pair("x", &["t.x"])]
    );
    assert!(opaque(&format!("{read}spark.sql(\"SET a = 1\")")).is_empty());
    assert!(opaque(&format!("{read}o = b.groupBy().agg({{\"x\": \"sum\"}})")).is_empty());
}

#[test]
fn statements_that_are_not_followed_are_noted() {
    let read = "b = spark.read.table(\"t\")\no = frame()\n";
    for (body, detail) in [
        ("while more():\n    o[\"x\"] = b[\"x\"]", "a loop the analyzer can't unroll"),
        ("while more():\n    o = o.withColumn(\"x\", col(\"y\"))", "can't unroll"),
        ("for c in cols:\n    o = o.withColumn(c, col(c))", "can't unroll"),
        ("for c in cols:\n    try:\n        o[c] = b[c]\n    finally:\n        pass", "can't unroll"),
        ("for c in cols:\n    pass\nelse:\n    o[\"x\"] = b[\"x\"]", "can't unroll"),
        ("try:\n    o[\"x\"] = b[\"x\"]\nfinally:\n    pass", "`try` statement"),
        ("try:\n    pass\nexcept E:\n    o[\"x\"] = b[\"x\"]", "`try` statement"),
        ("try:\n    spark.sql(\"INSERT INTO u SELECT a FROM t\")\nfinally:\n    pass", "`try` statement"),
        ("o[\"x\"] = o[\"y\"] = b[\"x\"]", "an assignment to several targets"),
        ("o[\"x\"] += b[\"x\"]", "updated in place"),
        ("o: DataFrame = b.withColumn(\"x\", col(\"y\"))", "an assignment with a type"),
    ] {
        let r = trace(&format!("{read}{body}"));
        assert_eq!(r.opaque.len(), 1, "{body}: {:?}", r.opaque);
        assert!(r.opaque[0].detail.contains(detail), "{body}: {:?}", r.opaque);
        assert!(r.columns.is_empty(), "{body}: {:?}", r.columns);
    }
    for body in [
        "while more():\n    step()",
        "try:\n    p = connect()\nexcept E:\n    raise",
        "for p in paths:\n    q = clean(p)",
        "n += 1",
        "n: int = 1",
        "x = y = 1",
    ] {
        assert!(opaque(&format!("{read}{body}")).is_empty(), "{body}");
    }
    // A loop over literals is unrolled, whatever makes the columns.
    let looped = "for t in [\"u\", \"v\"]:\n    spark.sql(f\"INSERT INTO {t} (a) SELECT x FROM s\")";
    let r = trace(looped);
    assert!(r.opaque.is_empty(), "{:?}", r.opaque);
    assert_eq!(r.outputs, vec!["u", "v"]);
}

#[test]
fn table_readers_take_literals_and_constants() {
    for body in [
        "b = spark.table(f\"{x}\")",
        "x = \"t\"\nb = spark.table(x)",
        "b = pd.read_sql_table(x)",
        "b = pd.read_sql(f\"SELECT * FROM {x}\", con=E)",
    ] {
        let r = trace(&format!("{body}\no = frame()\no[\"c\"] = b[\"a\"]"));
        assert!(r.inputs.is_empty(), "{body}: {:?}", r.inputs);
        assert_eq!(r.columns[0].sources, vec!["a"], "{body}");
    }
    let doc = scan(
        "SRC = \"t\"\ndef run(spark):\n    b = spark.table(SRC)\n    \
         o = b.withColumnRenamed(\"a\", \"c\")\n    o.write.saveAsTable(\"u\")\n",
    );
    assert_eq!(columns(edge(&doc, "t", "u")), vec![pair("c", &["a"])]);
}

#[test]
fn spark_forms_that_are_read() {
    let body = "b = spark.read.table(\"t\")\n\
                s = b.withColumn(\"thb\", expr(\"usd * 36\")).withColumnRenamed(\"id\", \"key\")\n\
                s.write.saveAsTable(\"u\")";
    assert_eq!(
        traced(body),
        vec![pair("thb", &["t.usd"]), pair("key", &["t.id"])]
    );
}

#[test]
fn sql_in_fstrings_is_folded() {
    let doc = scan(
        r#"
TARGET = "glue.db.out"
def run(spark, suffix):
    src = spark.read.table("staging_in")
    src.createOrReplaceTempView("v")
    spark.sql(f"INSERT OVERWRITE TABLE {TARGET} SELECT CAST(`A` AS STRING), B FROM v")
"#,
    );
    assert!(doc.jobs.is_empty());
    let e = doc.edges.iter().find(|e| e.from == "staging_in").unwrap();
    assert_eq!(columns(e), vec![pair("A", &["A"]), pair("B", &["B"])]);
    assert_eq!(
        e.column_lineage[0].transform_type,
        TransformType::Transformation
    );
    assert_eq!(e.column_lineage[1].transform_type, TransformType::Identity);
    assert!(e.column_discovery);
}

const HELPER: &str = r#"
def helper(df):
    df = spark.read.table("tmp_frame")
    out = df.withColumnRenamed("a", "b")
    out.write.saveAsTable("tmp_out")

"#;

#[test]
fn a_called_helper_is_attributed_to_the_declared_edge() {
    let src = format!(
        "from trace_weaver import lineage\n{HELPER}\
         @lineage(inputs=[\"s3://in\"], outputs=[\"s3://out\"])\ndef task():\n    helper(x)\n"
    );
    let doc = scan(&src);
    assert_eq!(doc.jobs.len(), 1);
    assert_eq!(doc.edges.len(), 1);
    let names: Vec<&str> = doc.datasets.iter().map(|d| d.name.as_str()).collect();
    assert_eq!(names, vec!["s3://in", "s3://out"]);
    let e = edge(&doc, "s3://in", "s3://out");
    assert!(!e.origin.is_inferred() && !e.column_discovery);
    assert_eq!(columns(e), vec![pair("b", &["a"])]);
    let ce = &e.column_lineage[0];
    assert_eq!(ce.from_columns[0].dataset, "s3://in");
    assert_eq!(ce.to_column.dataset, "s3://out");
    assert_eq!(ce.origin.source, OriginSource::InferredCode);
    assert_eq!(ce.origin.confidence, Some(confidence(0.7)));
    assert_eq!(
        ce.origin.location.as_ref().map(|l| l.file.as_str()),
        Some("dag.py")
    );
}

#[test]
fn an_ambiguous_helper_keeps_its_frames_and_names_its_caller() {
    let src = format!(
        "from trace_weaver import lineage\n{HELPER}\
         @lineage(inputs=[\"s3://in1\", \"s3://in2\"], outputs=[\"s3://o1\", \"s3://o2\"])\n\
         def task():\n    helper(x)\n"
    );
    let doc = scan(&src);
    let e = edge(&doc, "tmp_frame", "tmp_out");
    assert!(e.column_discovery && e.origin.is_inferred());
    assert_eq!(e.job.as_deref(), Some("default.task"));
    assert_eq!(
        e.origin.location.as_ref().map(|l| l.file.as_str()),
        Some("dag.py")
    );
    let frame = doc.dataset("tmp_frame").unwrap();
    assert!(frame.origin.location.is_some());
    // The declared edges stay without columns.
    assert!(edge(&doc, "s3://in1", "s3://o1").column_lineage.is_empty());
}

#[test]
fn a_helper_is_matched_by_the_tables_it_names() {
    let src = "import trace_weaver as tw\n\
               def helper(df):\n    df = spark.read.table(\"b\")\n    \
               out = df.withColumnRenamed(\"x\", \"y\")\n    out.write.saveAsTable(\"d\")\n\
               @tw.task(inputs=[\"s.d.p.a\", \"s.d.p.b\"], outputs=[\"s.d.p.c\", \"s.d.p.d\"])\n\
               def task():\n    helper(x)\n";
    let doc = scan(src);
    assert!(doc.dataset("b").is_none() && doc.dataset("d").is_none());
    assert_eq!(
        columns(edge(&doc, "s.d.p.b", "s.d.p.d")),
        vec![pair("y", &["x"])]
    );
    for (f, t) in [
        ("s.d.p.a", "s.d.p.c"),
        ("s.d.p.a", "s.d.p.d"),
        ("s.d.p.b", "s.d.p.c"),
    ] {
        assert!(edge(&doc, f, t).column_lineage.is_empty());
    }
}

#[test]
fn a_helper_without_a_caller_keeps_its_place_in_the_source() {
    let doc = scan(HELPER);
    let e = edge(&doc, "tmp_frame", "tmp_out");
    assert_eq!(e.job, None);
    assert_eq!(
        e.origin.location,
        Some(SourceLoc::new("dag.py", Some(2)))
    );
}

#[test]
fn relative_imports_resolve_within_the_package() {
    let config = "RAW = \"s3://raw\"\n";
    let user = "from trace_weaver import lineage\nfrom .config import RAW\n\
                from ..shared import OUT as O\n\
                @lineage(inputs=[RAW], outputs=[O])\ndef f(): ...\n";
    let doc = scan_files(
        &vec![
            file("pkg/sub/job.py", user),
            file("pkg/sub/config.py", config),
            file("pkg/shared.py", "OUT = \"s3://out\"\n"),
        ],
        &vec![],
        &ScanOptions::default(),
    );
    assert!(!edge(&doc, "s3://raw", "s3://out").origin.is_inferred());
}

#[test]
fn module_paths_at_the_edges() {
    assert_eq!(module_path_of("/repo/dag.py", "/repo/dag.py"), "dag");
    assert_eq!(module_path_of("/repo", "/elsewhere/x/y.py"), "y");
    assert_eq!(module_path_of("dags", "dags/a/b.py"), "a.b");
    assert_eq!(module_path_of("dags/", "dags/./a/b.py"), "a.b");
    assert_eq!(module_path_of("/r", "/r/__init__.py"), "__init__");
}

#[test]
fn engines_go_by_loose_names() {
    for (name, engine) in [
        (" SQL ", Engine::Sql),
        ("pd", Engine::Pandas),
        ("PySpark", Engine::Spark),
        ("py", Engine::Python),
        ("shell", Engine::Bash),
        ("duckdb", Engine::Unknown),
        ("", Engine::Unknown),
    ] {
        assert_eq!(Engine::from_str_loose(name), engine);
    }
}

#[test]
fn dot_text_is_exact() {
    let mut doc = WeaveDocument::new("ns", "test");
    let mut a = Dataset::new("s.d.p.a");
    a.platform = Some("Postgres".into());
    doc.datasets.push(a);
    doc.datasets.push(Dataset::new("b\"x"));
    let mut e = Edge::new("s.d.p.a", "b\"x");
    e.transform.kind = Some("COPY".into());
    doc.edges.push(e);
    let report = dot::export(&doc, &ExportConfig::default()).unwrap();
    assert_eq!(
        report.artifact,
        "digraph lineage {\n  rankdir=LR;\n  \
         node [shape=box, style=\"rounded,filled\", fontname=\"Helvetica\"];\n  \
         edge [fontname=\"Helvetica\"];\n  \
         \"s.d.p.a\" [label=\"a\", tooltip=\"s.d.p.a\", fillcolor=\"#cfe2f3\"];\n  \
         \"b\\\"x\" [label=\"b\\\"x\", tooltip=\"b\\\"x\", fillcolor=\"#ffffff\"];\n  \
         \"s.d.p.a\" -> \"b\\\"x\" [label=\"COPY\", style=solid, color=black];\n}\n"
    );
    assert_eq!(report.actions, vec!["wrote 2 nodes, 1 edges"]);
    assert_eq!((report.sent, report.failed), (0, 0));
}

#[test]
fn inferred_edges_are_drawn_dashed() {
    let doc = scan("t = PostgresOperator(task_id=\"x\", sql=\"INSERT INTO b (c) SELECT d FROM a\")");
    let report = dot::export(&doc, &ExportConfig::default()).unwrap();
    assert!(report
        .artifact
        .contains("\"a\" -> \"b\" [label=\"\", style=dashed, color=orange];"));
}

#[test]
fn lineage_events_carry_the_column_facet() {
    let mut doc = scan(MEDALLION);
    doc.generated_at = Some("2024-01-01T00:00:00Z".into());
    let cfg = ExportConfig {
        ol_producer: Some("https://example.org/producer".into()),
        ..Default::default()
    };
    let report = openlineage::export(&doc, &cfg).unwrap();
    assert_eq!(report.sent, 3);
    assert_eq!(
        report.actions,
        vec!["emitted 3 OpenLineage COMPLETE event(s) (file-only exporter; sent counts events)"]
    );
    let events: Value = serde_json::from_str(&report.artifact).unwrap();
    let bronze = &events[0];
    assert_eq!(bronze["eventType"], "COMPLETE");
    assert_eq!(bronze["eventTime"], "2024-01-01T00:00:00Z");
    assert_eq!(bronze["producer"], "https://example.org/producer");
    assert_eq!(bronze["job"]["namespace"], "default");
    assert_eq!(bronze["job"]["name"], "medallion_lineage.build_bronze");
    assert!(bronze["job"]["facets"]["documentation"]["description"]
        .as_str()
        .unwrap()
        .contains("inferred by the trace-weaver compiler"));
    let fields = &bronze["outputs"][0]["facets"]["columnLineage"]["fields"];
    let source = &fields["event_id"]["inputFields"][0];
    assert_eq!(source["field"], "raw_event_id");
    assert_eq!(source["name"], "Test Database.poc_db.public.landing_sales");
    assert_eq!(source["transformations"][0]["type"], "DIRECT");
    assert_eq!(source["transformations"][0]["subtype"], "TRANSFORMATION");
    assert_eq!(source["transformations"][0]["masking"], false);
    assert!(source["transformations"][0]["description"]
        .as_str()
        .unwrap()
        .ends_with("(inferred from SQL)"));
    // Every mapping of the silver hop was declared.
    assert!(events[1]["job"].get("facets").is_none());
    // A count over all rows has no source column.
    let gold = &events[2]["outputs"][0]["facets"]["columnLineage"]["fields"];
    assert!(gold.get("total_transactions").is_none());
    assert_eq!(
        gold["total_revenue_usd"]["inputFields"][0]["field"],
        "amount_usd"
    );

    let dry = ExportConfig {
        dry_run: true,
        ..Default::default()
    };
    let report = openlineage::export(&doc, &dry).unwrap();
    assert_eq!(report.sent, 0);
    let events: Value = serde_json::from_str(&report.artifact).unwrap();
    assert_eq!(events[0]["producer"], "trace-weaver/0.6.1");
}

#[test]
fn a_dataset_namespace_goes_before_that_of_the_document() {
    let mut doc = WeaveDocument::new("ns", "test");
    let mut a = Dataset::new("a");
    assert_eq!(a.effective_namespace("ns"), "ns");
    a.namespace = Some("s3://bucket".into());
    assert_eq!(a.effective_namespace("ns"), "s3://bucket");
    doc.upsert_dataset(a);
    let mut j = trace_weaver::model::Job::new("d.j", "j", Engine::Sql);
    j.inputs = vec!["a".into(), "unknown".into()];
    doc.jobs.push(j);
    let report = openlineage::export(&doc, &ExportConfig::default()).unwrap();
    let events: Value = serde_json::from_str(&report.artifact).unwrap();
    assert_eq!(events[0]["inputs"][0]["namespace"], "s3://bucket");
    assert_eq!(events[0]["inputs"][1]["namespace"], "ns");
    assert_eq!(events[0]["eventTime"], "1970-01-01T00:00:00Z");
}

#[test]
fn there_is_no_resolver_yet() {
    assert!(resolvers().is_empty());
}

#[test]
fn python_files_go_by_their_extension() {
    for name in ["a.py", ".a.py", "a.b.py", "..py"] {
        assert!(is_python_file(name), "{name}");
    }
    for name in [".py", "py", "a.pyc", "a.PY", "a.py.txt", ""] {
        assert!(!is_python_file(name), "{name}");
    }
}

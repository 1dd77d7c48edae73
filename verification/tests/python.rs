use trace_weaver::collections::StrMap;
use trace_weaver::python::{extract_task_decls, extract_task_decls_with, ConstTable};

#[test]
fn extracts_basic_task() {
    let src = r#"
import trace_weaver as tw
MY_SQL = "INSERT INTO t (a) SELECT x FROM s"
@tw.task(
    dag="d",
    inputs=["svc.db.sch.s"],
    outputs=["svc.db.sch.t"],
    engine="sql",
    sql=MY_SQL,
    transform="COPY",
    column_map=[(["x"], "a", "direct")],
)
def build():
    pass
"#;
    let m = extract_task_decls(src).unwrap();
    assert_eq!(m.tasks.len(), 1);
    let d = &m.tasks[0];
    assert_eq!(d.task_name, "build");
    assert_eq!(d.dag.as_deref(), Some("d"));
    assert_eq!(d.inputs, vec!["svc.db.sch.s"]);
    assert_eq!(d.outputs, vec!["svc.db.sch.t"]);
    assert_eq!(d.engine.as_deref(), Some("sql"));
    assert_eq!(d.sql.as_deref(), Some("INSERT INTO t (a) SELECT x FROM s"));
    assert_eq!(d.column_map.len(), 1);
    assert_eq!(d.column_map[0].sources, vec!["x"]);
    assert_eq!(d.column_map[0].target, "a");
    assert!(d.line.is_some());
    // Authored via @tw -> NOT a decorator-free discovery.
    assert!(!d.discovered);
}

#[test]
fn supports_from_import_task_form() {
    let src = r#"
from trace_weaver import task
@task(inputs=["a.b.c.d"], outputs=["a.b.c.e"], engine="pandas")
def f():
    pass
"#;
    let m = extract_task_decls(src).unwrap();
    assert_eq!(m.tasks.len(), 1);
    assert_eq!(m.tasks[0].engine.as_deref(), Some("pandas"));
}

#[test]
fn ignores_non_task_decorators() {
    let src = r#"
@property
def f():
    pass
"#;
    let m = extract_task_decls(src).unwrap();
    assert!(m.tasks.is_empty());
}

#[test]
fn configure_defaults_and_with_dag_and_sql_shortcut() {
    let src = r#"
import trace_weaver as tw
tw.configure(service="Test Database", database="poc_db", schema="public")
B_SQL = "INSERT INTO bronze (a) SELECT x FROM landing"
with DAG(dag_id="medallion") as dag:
    pass
@tw.sql(B_SQL, inputs=["landing_sales"], outputs=["bronze_sales"], transform="COPY")
def build_bronze():
    pass
@tw.task(inputs=["bronze_sales"], outputs=["silver_sales"], column_map=[(["a"], "b")])
def build_silver():
    pass
"#;
    let m = extract_task_decls(src).unwrap();
    assert_eq!(m.config.service.as_deref(), Some("Test Database"));
    assert_eq!(m.config.database.as_deref(), Some("poc_db"));
    assert_eq!(m.config.schema.as_deref(), Some("public"));
    assert_eq!(m.config.dag.as_deref(), Some("medallion"));
    assert_eq!(m.tasks.len(), 2);
    // @tw.sql sets engine + positional sql.
    let bronze = &m.tasks[0];
    assert_eq!(bronze.engine.as_deref(), Some("sql"));
    assert_eq!(
        bronze.sql.as_deref(),
        Some("INSERT INTO bronze (a) SELECT x FROM landing")
    );
    // @tw.task with no engine is fine (engine inferred downstream).
    assert!(m.tasks[1].engine.is_none());
}

#[test]
fn copy_shortcut_and_bare_string_sources() {
    // copy=[...] expands to declared same-name identity entries; a bare-string
    // source in column_map is sugar for a 1-element list; an explicit
    // column_map entry for a target also named in copy WINS (copy is skipped).
    let src = r#"
import trace_weaver as tw
@tw.task(
    inputs=["svc.db.sch.bronze"],
    outputs=["svc.db.sch.silver"],
    engine="pandas",
    copy=["event_id", "amount"],
    column_map=[
        ("event_ts", "event_date", "CAST ts -> date"),
        (["amount"], "amount", "ROUND(amount, 2)"),
    ],
)
def build_silver():
    pass
"#;
    let m = extract_task_decls(src).unwrap();
    assert_eq!(m.tasks.len(), 1);
    let d = &m.tasks[0];
    assert_eq!(d.copy, vec!["event_id", "amount"]);

    // Bare-string source resolves to a 1-element sources vec (no brackets needed).
    let event_date = d
        .column_map
        .iter()
        .find(|e| e.target == "event_date")
        .unwrap();
    assert_eq!(event_date.sources, vec!["event_ts"]);
    assert_eq!(event_date.function.as_deref(), Some("CAST ts -> date"));

    // copy "event_id" expanded to a declared same-name identity ("direct copy").
    let event_id = d
        .column_map
        .iter()
        .find(|e| e.target == "event_id")
        .unwrap();
    assert_eq!(event_id.sources, vec!["event_id"]);
    assert_eq!(event_id.function.as_deref(), Some("direct copy"));

    // "amount" is in BOTH copy and column_map — column_map wins: exactly one
    // entry, keeping the explicit function (no duplicate same-name copy added).
    let amounts: Vec<_> = d
        .column_map
        .iter()
        .filter(|e| e.target == "amount")
        .collect();
    assert_eq!(amounts.len(), 1);
    assert_eq!(amounts[0].function.as_deref(), Some("ROUND(amount, 2)"));
}

#[test]
fn copy_with_non_literal_element_is_flagged() {
    // A non-literal element in copy=[...] is dropped and surfaced as W_NON_LITERAL
    // (same contract as inputs=/outputs=).
    let src = r#"
import trace_weaver as tw
COL = "amount"
@tw.task(inputs=["a.b.c.d"], outputs=["a.b.c.e"], engine="pandas",
         copy=[COL, f"dynamic_{COL}"])
def f():
    pass
"#;
    let m = extract_task_decls(src).unwrap();
    let d = &m.tasks[0];
    // The constant ref resolves; the f-string does not, so it's dropped + flagged.
    assert_eq!(d.copy, vec!["amount"]);
    assert!(d.unresolved.contains(&"copy".to_string()));
}

#[test]
fn discovers_plain_airflow_operators_without_decorators() {
    // A plain Airflow DAG with NO @tw: SQL operator + PythonOperator callable.
    let src = r#"
from airflow import DAG
BRONZE_SQL = "INSERT INTO bronze_sales (event_id) SELECT raw_id FROM landing_sales"

def build_silver():
    bronze = pd.read_sql("SELECT * FROM bronze_sales", con=E)
    silver = pd.DataFrame()
    silver["event_id"]   = bronze["event_id"]
    silver["amount_usd"] = bronze["amount"] * 1.08
    silver.to_sql("silver_sales", con=E)

with DAG("medallion") as dag:
    bronze = PostgresOperator(task_id="bronze", sql=BRONZE_SQL)
    silver = PythonOperator(task_id="silver", python_callable=build_silver)
    bronze >> silver
"#;
    let m = extract_task_decls(src).unwrap();
    let names: Vec<&str> = m.tasks.iter().map(|t| t.task_name.as_str()).collect();
    assert!(
        names.contains(&"bronze") && names.contains(&"silver"),
        "{names:?}"
    );

    let bronze = m.tasks.iter().find(|t| t.task_name == "bronze").unwrap();
    assert_eq!(bronze.engine.as_deref(), Some("sql"));
    assert_eq!(bronze.inputs, vec!["landing_sales"]);
    assert_eq!(bronze.outputs, vec!["bronze_sales"]);

    let silver = m.tasks.iter().find(|t| t.task_name == "silver").unwrap();
    assert_eq!(silver.engine.as_deref(), Some("pandas"));
    assert_eq!(silver.inputs, vec!["bronze_sales"]);
    assert_eq!(silver.outputs, vec!["silver_sales"]);
    assert!(silver
        .inferred_columns
        .iter()
        .any(|c| c.target == "amount_usd"));

    // Both were recovered decorator-free, so the flag is set — this is what
    // drives the inferred job/edge/dataset origin in `scan_decl`.
    assert!(bronze.discovered && silver.discovered);
}

#[test]
fn lineage_recognised_under_all_import_forms() {
    // The four documented import forms must all be recognised as one lineage
    // task each: from-import, from-import-as, module + attr, module-as + attr.
    let forms = [
        r#"
from traceweaver import lineage
@lineage(inputs=["s3://b/in"], outputs=["iceberg://w.db.out"])
def f():
    pass
"#,
        r#"
from traceweaver import lineage as track
@track(inputs=["s3://b/in"], outputs=["iceberg://w.db.out"])
def f():
    pass
"#,
        r#"
import traceweaver
@traceweaver.lineage(inputs=["s3://b/in"], outputs=["iceberg://w.db.out"])
def f():
    pass
"#,
        r#"
import traceweaver as tw
@tw.lineage(inputs=["s3://b/in"], outputs=["iceberg://w.db.out"])
def f():
    pass
"#,
    ];
    for (i, src) in forms.iter().enumerate() {
        let m = extract_task_decls(src).unwrap();
        assert_eq!(m.tasks.len(), 1, "form {i}: {src}");
        let d = &m.tasks[0];
        assert!(d.lineage, "form {i} should be a lineage decl");
        assert_eq!(d.inputs, vec!["s3://b/in"], "form {i}");
        assert_eq!(d.outputs, vec!["iceberg://w.db.out"], "form {i}");
        assert!(d.nonliteral.is_empty(), "form {i}: all literal");
    }
}

#[test]
fn bare_lineage_marks_with_no_datasets() {
    let src = r#"
from traceweaver import lineage
@lineage
def f():
    pass
"#;
    let m = extract_task_decls(src).unwrap();
    assert_eq!(m.tasks.len(), 1);
    let d = &m.tasks[0];
    assert!(d.lineage);
    assert!(d.inputs.is_empty() && d.outputs.is_empty());
}

#[test]
fn lineage_name_and_description_and_templates() {
    // name= overrides the task name; a string literal WITH a {placeholder}
    // is still a literal template (high confidence, not flagged non-literal).
    let src = r#"
from traceweaver import lineage
@lineage(
    inputs=["s3://raw/sales/{date}.parquet"],
    outputs=["iceberg://warehouse.sales.bronze"],
    name="ingest_sales",
    description="daily ingest",
)
def build():
    pass
"#;
    let m = extract_task_decls(src).unwrap();
    let d = &m.tasks[0];
    assert_eq!(d.task_name, "ingest_sales");
    assert_eq!(d.description.as_deref(), Some("daily ingest"));
    assert_eq!(d.inputs, vec!["s3://raw/sales/{date}.parquet"]);
    assert!(
        d.nonliteral.is_empty(),
        "a templated literal is still literal"
    );
}

#[test]
fn lineage_keeps_non_literal_entries_as_text() {
    // A non-literal entry (f-string) is KEPT as best-effort source text and
    // recorded as non-literal; a sibling literal stays literal.
    let src = r#"
from traceweaver import lineage
DAY = "2024-01-01"
@lineage(
    inputs=[f"s3://raw/{DAY}.parquet", "s3://raw/static.parquet"],
    outputs=["iceberg://w.db.t"],
)
def build():
    pass
"#;
    let m = extract_task_decls(src).unwrap();
    let d = &m.tasks[0];
    assert_eq!(d.inputs.len(), 2);
    assert_eq!(d.inputs[1], "s3://raw/static.parquet");
    // The f-string is kept verbatim as source text and flagged non-literal.
    assert!(d.inputs[0].contains("f\"s3://raw/"));
    assert!(d.nonliteral.contains(&d.inputs[0]));
    assert!(!d.nonliteral.contains(&d.inputs[1]));
}

/// A `ConstTable` with one module's constants, for cross-module tests.
fn table(module: &str, pairs: &[(&str, &str)]) -> ConstTable {
    let mut t = ConstTable::default();
    let mut m: StrMap<String> = StrMap::new();
    for (k, v) in pairs {
        m.insert(k.to_string(), v.to_string());
    }
    t.insert_module(module, m);
    t
}

#[test]
fn lineage_resolves_bare_name_in_same_module() {
    let src = r#"
from trace_weaver import lineage
RAW = "s3://raw/sales.parquet"
OUT = "iceberg://w.db.bronze"
@lineage(inputs=[RAW], outputs=[OUT])
def f():
    pass
"#;
    let m = extract_task_decls(src).unwrap();
    let d = &m.tasks[0];
    assert_eq!(d.inputs, vec!["s3://raw/sales.parquet"]);
    assert_eq!(d.outputs, vec!["iceberg://w.db.bronze"]);
    assert!(d.nonliteral.is_empty(), "resolved constants are declared");
}

#[test]
fn lineage_resolves_from_import_constant() {
    let src = r#"
from trace_weaver import lineage
from config.datasets import RAW_SALES, BRONZE
@lineage(inputs=[RAW_SALES], outputs=[BRONZE])
def f():
    pass
"#;
    let t = table(
        "config.datasets",
        &[
            ("RAW_SALES", "s3://raw/sales.parquet"),
            ("BRONZE", "iceberg://w.db.bronze"),
        ],
    );
    let m = extract_task_decls_with(src, "services.x", &t).unwrap();
    let d = &m.tasks[0];
    assert_eq!(d.inputs, vec!["s3://raw/sales.parquet"]);
    assert_eq!(d.outputs, vec!["iceberg://w.db.bronze"]);
    assert!(d.nonliteral.is_empty());
}

#[test]
fn lineage_resolves_from_import_alias() {
    let src = r#"
from trace_weaver import lineage
from config.datasets import RAW_SALES as RAW
@lineage(inputs=[RAW], outputs=["iceberg://w.db.bronze"])
def f():
    pass
"#;
    let t = table(
        "config.datasets",
        &[("RAW_SALES", "s3://raw/sales.parquet")],
    );
    let m = extract_task_decls_with(src, "services.x", &t).unwrap();
    let d = &m.tasks[0];
    assert_eq!(d.inputs, vec!["s3://raw/sales.parquet"]);
    assert!(d.nonliteral.is_empty());
}

#[test]
fn lineage_resolves_import_module_alias_attribute() {
    let src = r#"
from trace_weaver import lineage
import config.datasets as ds
@lineage(inputs=[ds.RAW_SALES], outputs=[ds.BRONZE])
def f():
    pass
"#;
    let t = table(
        "config.datasets",
        &[
            ("RAW_SALES", "s3://raw/sales.parquet"),
            ("BRONZE", "iceberg://w.db.bronze"),
        ],
    );
    let m = extract_task_decls_with(src, "services.x", &t).unwrap();
    let d = &m.tasks[0];
    assert_eq!(d.inputs, vec!["s3://raw/sales.parquet"]);
    assert_eq!(d.outputs, vec!["iceberg://w.db.bronze"]);
    assert!(d.nonliteral.is_empty());
}

#[test]
fn lineage_resolves_import_dotted_attribute_without_alias() {
    let src = r#"
from trace_weaver import lineage
import config.datasets
@lineage(inputs=[config.datasets.RAW_SALES], outputs=["iceberg://w.db.bronze"])
def f():
    pass
"#;
    let t = table(
        "config.datasets",
        &[("RAW_SALES", "s3://raw/sales.parquet")],
    );
    let m = extract_task_decls_with(src, "services.x", &t).unwrap();
    let d = &m.tasks[0];
    assert_eq!(d.inputs, vec!["s3://raw/sales.parquet"]);
    assert!(d.nonliteral.is_empty());
}

#[test]
fn one_level_constant_aliasing_resolves() {
    // `NAME = OTHER_NAME` aliasing (with a further hop) collapses to the literal.
    let src = r#"
from trace_weaver import lineage
BASE = "s3://raw/sales.parquet"
MID = BASE
RAW = MID
@lineage(inputs=[RAW], outputs=["iceberg://w.db.bronze"])
def f():
    pass
"#;
    let m = extract_task_decls(src).unwrap();
    let d = &m.tasks[0];
    assert_eq!(d.inputs, vec!["s3://raw/sales.parquet"]);
    assert!(d.nonliteral.is_empty());
}

#[test]
fn constant_alias_cycle_does_not_hang_or_resolve() {
    // A cyclic alias (A = B; B = A) resolves to nothing and is kept as text.
    let src = r#"
from trace_weaver import lineage
A = B
B = A
@lineage(inputs=[A], outputs=["iceberg://w.db.bronze"])
def f():
    pass
"#;
    let m = extract_task_decls(src).unwrap();
    let d = &m.tasks[0];
    // Unresolved => kept verbatim and flagged non-literal (medium).
    assert_eq!(d.inputs[0], "A");
    assert!(d.nonliteral.contains("A"));
}

#[test]
fn unsupported_forms_fall_back_to_nonliteral_text() {
    // Each unsupported reference is kept verbatim and flagged non-literal:
    // an unknown name, a function call, an f-string, and a subscript.
    let src = r#"
from trace_weaver import lineage
KNOWN = "s3://raw/known.parquet"
DAY = "2024-01-01"
CFG = {"raw": "s3://x"}
@lineage(
    inputs=[
        MISSING,
        make_uri(),
        f"s3://raw/{DAY}.parquet",
        CFG["raw"],
        KNOWN,
    ],
    outputs=["iceberg://w.db.bronze"],
)
def f():
    pass
"#;
    // Table has no matching module, so cross-module lookups also miss.
    let m = extract_task_decls_with(src, "services.x", &ConstTable::default()).unwrap();
    let d = &m.tasks[0];
    assert_eq!(d.inputs.len(), 5);
    // Only the last (literal constant) resolved; the four others are text.
    assert_eq!(d.inputs[4], "s3://raw/known.parquet");
    assert!(!d.nonliteral.contains(&d.inputs[4]));
    assert!(d.nonliteral.contains("MISSING"));
    assert!(d.nonliteral.contains("make_uri()"));
    assert!(d.nonliteral.items().iter().any(|s| s.contains("f\"s3://raw/")));
    assert!(d.nonliteral.items().iter().any(|s| s.contains("CFG[")));
}

#[test]
fn tw_task_inputs_resolve_from_import_without_flag() {
    // @tw.task shares the dataset extraction path: a from-imported constant in
    // inputs=/outputs= resolves and is NOT flagged W_NON_LITERAL (unresolved).
    let src = r#"
import trace_weaver as tw
from config.tables import BRONZE, SILVER
@tw.task(inputs=[BRONZE], outputs=[SILVER], engine="pandas")
def build():
    pass
"#;
    let t = table(
        "config.tables",
        &[
            ("BRONZE", "svc.db.sch.bronze"),
            ("SILVER", "svc.db.sch.silver"),
        ],
    );
    let m = extract_task_decls_with(src, "dags.build", &t).unwrap();
    let d = &m.tasks[0];
    assert_eq!(d.inputs, vec!["svc.db.sch.bronze"]);
    assert_eq!(d.outputs, vec!["svc.db.sch.silver"]);
    assert!(
        d.unresolved.is_empty(),
        "resolved constants must not flag W_NON_LITERAL: {:?}",
        d.unresolved
    );
}

#[test]
fn tw_task_unresolved_input_still_flagged() {
    // Contrast: an unknown name in @tw.task inputs is dropped and flagged.
    let src = r#"
import trace_weaver as tw
@tw.task(inputs=[MISSING, "svc.db.sch.ok"], outputs=["svc.db.sch.out"], engine="pandas")
def build():
    pass
"#;
    let m = extract_task_decls_with(src, "dags.build", &ConstTable::default()).unwrap();
    let d = &m.tasks[0];
    assert_eq!(d.inputs, vec!["svc.db.sch.ok"]);
    assert!(d.unresolved.contains(&"inputs".to_string()));
}

#[test]
fn lineage_wins_over_colocated_airflow_task() {
    // Stacked with Airflow's @task (final segment "task"): the @lineage
    // declaration owns the task, so inputs/outputs come from @lineage.
    let src = r#"
from traceweaver import lineage
from airflow.decorators import task
@task
@lineage(inputs=["s3://b/in"], outputs=["s3://b/out"])
def f():
    pass
"#;
    let m = extract_task_decls(src).unwrap();
    assert_eq!(m.tasks.len(), 1);
    assert!(m.tasks[0].lineage);
    assert_eq!(m.tasks[0].outputs, vec!["s3://b/out"]);
}

use trace_weaver::collections::StrMap;
use trace_weaver::dataflow::analyze;
use trace_weaver::flow::{DataflowResult, InferredColumn};
use trace_weaver::model::TransformType;
use trace_weaver::pyast::{parse_module, PyStmt};

/// Analyzes the body of the function that `src` defines.
fn run(src: &str) -> DataflowResult {
    let suite = parse_module(src).unwrap();
    match suite.into_iter().next().unwrap() {
        PyStmt::FunctionDef(f) => analyze(&f.body, &StrMap::new(), src),
        _ => panic!("expected a function def"),
    }
}

fn col<'a>(r: &'a DataflowResult, target: &str) -> &'a InferredColumn {
    r.columns
        .iter()
        .find(|c| c.target == target)
        .expect("column")
}

#[test]
fn pandas_build_silver_is_fully_traced() {
    let src = r#"
def build_silver():
    bronze = pd.read_sql("SELECT * FROM bronze_sales", con=ENGINE)
    silver = pd.DataFrame()
    silver["event_id"]   = bronze["event_id"]
    silver["amount_usd"] = bronze["amount"] * 1.08
    silver.to_sql("silver_sales", con=ENGINE)
"#;
    let r = run(src);
    assert!(r.opaque.is_empty(), "should trace cleanly: {:?}", r.opaque);

    let event_id = col(&r, "event_id");
    assert_eq!(event_id.sources, vec!["bronze_sales.event_id"]);
    assert_eq!(event_id.transform_type, TransformType::Identity);
    assert_eq!(event_id.output_table.as_deref(), Some("silver_sales"));

    let amount_usd = col(&r, "amount_usd");
    assert_eq!(amount_usd.sources, vec!["bronze_sales.amount"]);
    assert_eq!(amount_usd.transform_type, TransformType::Transformation);
    assert_eq!(
        amount_usd.function.as_deref(),
        Some("bronze[\"amount\"] * 1.08")
    );
    assert_eq!(amount_usd.output_table.as_deref(), Some("silver_sales"));
}

#[test]
fn spark_withcolumn_and_rename_traced() {
    let src = r#"
def build_silver():
    bronze = spark.read.table("bronze_sales")
    silver = bronze.withColumn("amount_usd", col("amount") * 1.08).withColumnRenamed("id", "event_id")
    silver.write.saveAsTable("silver_sales")
"#;
    let r = run(src);
    assert!(r.opaque.is_empty(), "clean: {:?}", r.opaque);

    let amount_usd = col(&r, "amount_usd");
    assert_eq!(amount_usd.sources, vec!["bronze_sales.amount"]);
    assert_eq!(amount_usd.transform_type, TransformType::Transformation);
    assert_eq!(amount_usd.output_table.as_deref(), Some("silver_sales"));

    let event_id = col(&r, "event_id");
    assert_eq!(event_id.sources, vec!["bronze_sales.id"]);
    assert_eq!(event_id.transform_type, TransformType::Identity);
    assert_eq!(event_id.output_table.as_deref(), Some("silver_sales"));
}

#[test]
fn spark_select_with_alias() {
    let src = r#"
def f():
    b = spark.table("bronze")
    s = b.select("event_id", col("amount").alias("amt"))
    s.write.saveAsTable("silver")
"#;
    let r = run(src);
    assert_eq!(col(&r, "event_id").sources, vec!["bronze.event_id"]);
    assert_eq!(col(&r, "event_id").transform_type, TransformType::Identity);
    assert_eq!(col(&r, "amt").sources, vec!["bronze.amount"]);
}

#[test]
fn pandas_fan_in_transformation() {
    let src = r#"
def f():
    b = pd.read_sql("SELECT * FROM bronze", con=E)
    out = pd.DataFrame()
    out["total"] = b["x"] + b["y"]
    out.to_sql("gold")
"#;
    let r = run(src);
    let total = col(&r, "total");
    assert_eq!(total.sources, vec!["bronze.x", "bronze.y"]);
    assert_eq!(total.transform_type, TransformType::Transformation);
}

#[test]
fn opaque_apply_is_flagged_not_dropped() {
    let src = r#"
def f():
    b = pd.read_sql("SELECT * FROM bronze", con=E)
    out = pd.DataFrame()
    out["score"] = b.apply(lambda r: secret(r), axis=1)
    out.to_sql("silver")
"#;
    let r = run(src);
    // `.apply` over the whole frame yields no resolvable source columns -> opaque.
    assert!(
        r.opaque.iter().any(|o| o.detail.contains("score")),
        "expected an opaque note for the apply: {:?}",
        r
    );
}

#[test]
fn opaque_dynamic_column_name_is_flagged() {
    let src = r#"
def f():
    b = pd.read_sql("SELECT * FROM bronze", con=E)
    out = pd.DataFrame()
    out[target_col] = b["x"]
    out.to_sql("silver")
"#;
    let r = run(src);
    assert!(
        r.opaque
            .iter()
            .any(|o| o.detail.contains("non-literal column name")),
        "expected opaque for dynamic column: {:?}",
        r
    );
}

#[test]
fn spark_selectexpr_and_expr_traced() {
    // SQL-string expressions ride sql.rs: selectExpr + withColumn(expr(...)).
    let src = r#"
def f():
    b = spark.read.table("bronze")
    s = b.selectExpr("event_id", "amount * 1.08 AS amount_usd")
    g = b.withColumn("amount_x2", expr("amount * 2"))
    s.write.saveAsTable("silver")
"#;
    let r = run(src);
    assert!(r.opaque.is_empty(), "clean: {:?}", r.opaque);
    let usd = col(&r, "amount_usd");
    assert_eq!(usd.sources, vec!["bronze.amount"]);
    assert_eq!(usd.transform_type, TransformType::Transformation);
    assert_eq!(col(&r, "event_id").transform_type, TransformType::Identity);
    assert_eq!(col(&r, "amount_x2").sources, vec!["bronze.amount"]);
}

#[test]
fn pandas_groupby_agg_dict_traced() {
    let src = r#"
def f():
    b = pd.read_sql("SELECT * FROM sales", con=E)
    g = b.groupby("region").agg({"amount": "sum", "qty": "max"})
    g.to_sql("region_totals")
"#;
    let r = run(src);
    assert_eq!(col(&r, "region").transform_type, TransformType::Identity);
    let amount = col(&r, "amount");
    assert_eq!(amount.transform_type, TransformType::Aggregation);
    assert_eq!(amount.sources, vec!["sales.amount"]);
    assert_eq!(amount.function.as_deref(), Some("sum"));
    assert_eq!(col(&r, "qty").transform_type, TransformType::Aggregation);
}

#[test]
fn spark_groupby_agg_alias_traced() {
    let src = r#"
def f():
    b = spark.read.table("sales")
    g = b.groupBy("region").agg(F.sum(col("amount")).alias("total"))
    g.write.saveAsTable("gold")
"#;
    let r = run(src);
    assert_eq!(col(&r, "region").transform_type, TransformType::Identity);
    let total = col(&r, "total");
    assert_eq!(total.transform_type, TransformType::Aggregation);
    assert_eq!(total.sources, vec!["sales.amount"]);
}

#[test]
fn withcolumn_sourceless_is_flagged_not_emitted() {
    let src = r#"
def f():
    b = spark.read.table("bronze")
    g = b.withColumn("score", rand())
    g.write.saveAsTable("silver")
"#;
    let r = run(src);
    assert!(
        r.opaque.iter().any(|o| o.detail.contains("score")),
        "expected opaque note for untraceable withColumn: {:?}",
        r
    );
    assert!(
        r.columns.iter().all(|c| c.target != "score"),
        "sourceless column must not be emitted"
    );
}

#[test]
fn literal_loop_is_unrolled() {
    let src = r#"
def f():
    src = pd.read_sql("SELECT * FROM bronze", con=E)
    out = pd.DataFrame()
    for c in ["event_id", "amount"]:
        out[c] = src[c]
    out.to_sql("silver")
"#;
    let r = run(src);
    assert!(
        r.opaque.is_empty(),
        "loop should unroll cleanly: {:?}",
        r.opaque
    );
    assert_eq!(col(&r, "event_id").sources, vec!["bronze.event_id"]);
    assert_eq!(col(&r, "amount").sources, vec!["bronze.amount"]);
    assert_eq!(col(&r, "event_id").output_table.as_deref(), Some("silver"));
}

#[test]
fn dynamic_loop_stays_opaque() {
    let src = r#"
def f():
    src = pd.read_sql("SELECT * FROM bronze", con=E)
    out = pd.DataFrame()
    for c in runtime_cols():
        out[c] = src[c]
    out.to_sql("silver")
"#;
    let r = run(src);
    assert!(
        r.opaque.iter().any(|o| o.detail.contains("can't unroll")),
        "dynamic loop must stay opaque: {:?}",
        r
    );
}

#[test]
fn inline_row_lambda_is_traced() {
    // out["c"] = df.apply(lambda r: r["a"] + r["b"], axis=1) — read the body.
    let src = r#"
def f():
    b = pd.read_sql("SELECT * FROM bronze", con=E)
    out = pd.DataFrame()
    out["full"] = b.apply(lambda r: r["first"] + r["last"], axis=1)
    out["amt"]  = b.apply(lambda row: row["amount"] * 1.08, axis=1)
    out.to_sql("silver")
"#;
    let r = run(src);
    assert!(
        r.opaque.is_empty(),
        "inline lambda should trace: {:?}",
        r.opaque
    );
    assert_eq!(col(&r, "full").sources, vec!["bronze.first", "bronze.last"]);
    assert_eq!(col(&r, "amt").sources, vec!["bronze.amount"]);
}

#[test]
fn named_callable_apply_stays_opaque() {
    let src = r#"
def f():
    b = pd.read_sql("SELECT * FROM bronze", con=E)
    out = pd.DataFrame()
    out["score"] = b.apply(secret_udf, axis=1)
    out.to_sql("silver")
"#;
    let r = run(src);
    assert!(
        r.opaque.iter().any(|o| o.detail.contains("score")),
        "named-callable apply must stay opaque: {:?}",
        r
    );
    assert!(r.columns.iter().all(|c| c.target != "score"));
}

#[test]
fn df_columns_assignment_is_flagged() {
    let src = r#"
def f():
    b = pd.read_sql("SELECT * FROM bronze", con=E)
    b.columns = ["x", "y"]
    b.to_sql("silver")
"#;
    let r = run(src);
    assert!(
        r.opaque.iter().any(|o| o.detail.contains(".columns")),
        "df.columns= must be flagged: {:?}",
        r
    );
}

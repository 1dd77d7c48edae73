use trace_weaver::model::TransformType;
use trace_weaver::sql::{column_lineage_from_sql, SqlColRef};

#[test]
fn maps_insert_select_with_subquery_and_casts() {
    let sql = r#"
INSERT INTO bronze_sales (event_id, customer_name, amount, currency, event_ts)
SELECT raw_event_id::bigint, customer, amount::numeric(12,2), currency, event_ts::timestamp
FROM (
  SELECT *, row_number() OVER (PARTITION BY raw_event_id ORDER BY ingested_at) AS rn
  FROM landing_sales
) deduped
WHERE rn = 1;
"#;
    let lin = column_lineage_from_sql(sql).unwrap();
    assert_eq!(lin.target_table.as_deref(), Some("bronze_sales"));
    assert!(lin.source_tables.contains(&"landing_sales".to_string()));
    assert_eq!(lin.mappings.len(), 5);

    let m: std::collections::HashMap<_, _> =
        lin.mappings.iter().map(|m| (m.target.clone(), m)).collect();

    // event_id <- raw_event_id (cast => Transformation)
    let ev = m.get("event_id").unwrap();
    assert_eq!(
        ev.sources,
        vec![SqlColRef {
            table: None,
            column: "raw_event_id".into()
        }]
    );
    assert_eq!(ev.transform_type, TransformType::Transformation);

    // currency <- currency (bare => Identity)
    let cur = m.get("currency").unwrap();
    assert_eq!(cur.transform_type, TransformType::Identity);
    assert_eq!(
        cur.sources,
        vec![SqlColRef {
            table: None,
            column: "currency".into()
        }]
    );
}

#[test]
fn maps_aggregate_select() {
    let sql = r#"
INSERT INTO gold_sales_daily (event_date, total_transactions, unique_customers, total_revenue_usd, avg_transaction_usd)
SELECT event_date, COUNT(*), COUNT(DISTINCT customer_name), SUM(amount_usd), ROUND(AVG(amount_usd), 2)
FROM silver_sales
WHERE is_valid
GROUP BY event_date;
"#;
    let lin = column_lineage_from_sql(sql).unwrap();
    assert_eq!(lin.mappings.len(), 5);
    let m: std::collections::HashMap<_, _> =
        lin.mappings.iter().map(|m| (m.target.clone(), m)).collect();

    assert_eq!(
        m.get("event_date").unwrap().transform_type,
        TransformType::Identity
    );
    assert_eq!(
        m.get("total_transactions").unwrap().transform_type,
        TransformType::Aggregation
    );
    assert_eq!(
        m.get("unique_customers").unwrap().transform_type,
        TransformType::Aggregation
    );
    assert_eq!(
        m.get("unique_customers").unwrap().sources,
        vec![SqlColRef {
            table: None,
            column: "customer_name".into()
        }]
    );
    assert_eq!(
        m.get("total_revenue_usd").unwrap().transform_type,
        TransformType::Aggregation
    );
}

#[test]
fn fan_in_collects_multiple_sources() {
    let sql = "INSERT INTO t (c) SELECT a + b FROM s";
    let lin = column_lineage_from_sql(sql).unwrap();
    assert_eq!(lin.mappings.len(), 1);
    assert_eq!(lin.mappings[0].sources.len(), 2);
    assert_eq!(
        lin.mappings[0].transform_type,
        TransformType::Transformation
    );
}

#[test]
fn unmappable_sql_returns_empty() {
    let lin = column_lineage_from_sql("CREATE TABLE x (a int)").unwrap();
    assert!(lin.mappings.is_empty());
}

#[test]
fn wildcard_with_insert_columns_refuses_to_guess() {
    let lin = column_lineage_from_sql("INSERT INTO t (a, b, c) SELECT *, x FROM s").unwrap();
    assert!(lin.wildcard_in_projection);
    assert!(lin.mappings.is_empty(), "must emit no (wrong) mappings");
    assert_eq!(lin.target_table.as_deref(), Some("t"));
}

#[test]
fn arity_mismatch_refuses_to_guess() {
    let lin = column_lineage_from_sql("INSERT INTO t (a, b) SELECT x, y, z FROM s").unwrap();
    assert_eq!(lin.arity_mismatch, Some((3, 2)));
    assert!(lin.mappings.is_empty());
    // ...and the underflow direction must not silently drop columns either.
    let lin2 = column_lineage_from_sql("INSERT INTO t (a, b, c) SELECT x FROM s").unwrap();
    assert_eq!(lin2.arity_mismatch, Some((1, 3)));
    assert!(lin2.mappings.is_empty());
}

#[test]
fn clean_insert_still_maps() {
    let lin = column_lineage_from_sql("INSERT INTO t (a, b) SELECT x, y + z FROM s").unwrap();
    assert!(!lin.wildcard_in_projection && lin.arity_mismatch.is_none());
    assert_eq!(lin.mappings.len(), 2);
    assert_eq!(lin.mappings[0].target, "a");
    assert_eq!(lin.mappings[1].target, "b");
    assert_eq!(lin.mappings[1].sources.len(), 2);
}

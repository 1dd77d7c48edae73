use trace_weaver::infer::infer_identity_gap_fill;
use trace_weaver::model::{Dataset, Field, TransformType};

fn ds(name: &str, cols: &[&str]) -> Dataset {
    let mut d = Dataset::new(name);
    d.schema = cols.iter().map(|c| Field::new(c)).collect();
    d
}

#[test]
fn fills_same_named_columns_only() {
    let src = ds("s", &["a", "b", "c"]);
    let tgt = ds("t", &["a", "b", "x"]);
    let edges = infer_identity_gap_fill(&[&src], &tgt, &["a".to_string()]);
    // a is already mapped; b matches source; x has no source match.
    assert_eq!(edges.len(), 1);
    assert_eq!(edges[0].to_column.column, "b");
    assert!(edges[0].origin.is_inferred());
    assert_eq!(edges[0].transform_type, TransformType::Identity);
}

#[test]
fn empty_when_target_schema_unknown() {
    let src = ds("s", &["a"]);
    let tgt = Dataset::new("t"); // no schema
    assert!(infer_identity_gap_fill(&[&src], &tgt, &[]).is_empty());
}

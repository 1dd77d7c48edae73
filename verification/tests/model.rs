use trace_weaver::model::{
    ColumnEdge, ColumnRef, Dataset, Edge, Engine, Field, FqnParts, Job, WeaveDocument,
};
use trace_weaver::origin::{Confidence, Origin};
use trace_weaver::validate::{has_errors, validate};

fn confidence(x: f32) -> Confidence {
    Confidence { bits: x.to_bits() }
}

#[test]
fn origin_annotation_marks_inferred() {
    assert_eq!(Origin::declared().annotate("COUNT(*)"), "COUNT(*)");
    assert_eq!(
        Origin::inferred_sql(confidence(0.9)).annotate("COUNT(*)"),
        "COUNT(*) (inferred from SQL)"
    );
    assert_eq!(
        Origin::inferred_code(confidence(0.5)).annotate(""),
        "(inferred from code)"
    );
}

#[test]
fn fqn_roundtrip_handles_spaces_in_service() {
    let f = FqnParts::parse("Test Database.poc_db.public.bronze_sales").unwrap();
    assert_eq!(f.service, "Test Database");
    assert_eq!(f.table, "bronze_sales");
    assert_eq!(
        f.column_fqn("event_id"),
        "Test Database.poc_db.public.bronze_sales.event_id"
    );
}

#[test]
fn derive_edges_and_topo_order() {
    let mut doc = WeaveDocument::new("ns", "test");
    for n in ["a", "b", "c"] {
        doc.datasets.push(Dataset::new(n));
    }
    let mut j = Job::new("dag.j1", "j1", Engine::Sql);
    j.inputs = vec!["a".into()];
    j.outputs = vec!["b".into()];
    doc.jobs.push(j);
    let mut j2 = Job::new("dag.j2", "j2", Engine::Sql);
    j2.inputs = vec!["b".into()];
    j2.outputs = vec!["c".into()];
    doc.jobs.push(j2);

    assert_eq!(doc.derive_edges_from_jobs(), 2);
    let order = doc.edges_in_topo_order();
    assert_eq!(order[0].from, "a");
    assert_eq!(order[1].from, "b");
}

#[test]
fn validation_flags_unknown_edge_dataset() {
    let mut doc = WeaveDocument::new("ns", "test");
    doc.datasets.push(Dataset::new("a"));
    doc.edges.push(Edge::new("a", "missing"));
    let diags = validate(&doc);
    assert!(has_errors(&diags));
}

#[test]
fn display_function_appends_inferred_tag() {
    let mut ce = ColumnEdge::new(vec![ColumnRef::new("a", "x")], ColumnRef::new("b", "y"));
    ce.function = Some("SUM(x)".into());
    ce.origin = Origin::inferred_sql(confidence(0.8));
    assert_eq!(ce.display_function().unwrap(), "SUM(x) (inferred from SQL)");
}

/// A doc with a `src -> dst` edge whose source-column lineage points at
/// `src_col`. `src` carries an explicit (authoritative) schema of `[a]`.
fn doc_with_schema(src_col: &str) -> WeaveDocument {
    let mut doc = WeaveDocument::new("ns", "test");
    let mut src = Dataset::new("src");
    src.schema = vec![Field::new("a")]; // authoritative schema: only column `a`
    let mut dst = Dataset::new("dst");
    dst.schema = vec![Field::new("b")];
    doc.datasets.push(src);
    doc.datasets.push(dst);

    let mut edge = Edge::new("src", "dst");
    edge.column_lineage.push(ColumnEdge::new(
        vec![ColumnRef::new("src", src_col)],
        ColumnRef::new("dst", "b"),
    ));
    doc.edges.push(edge);
    doc
}

fn codes(doc: &WeaveDocument) -> Vec<String> {
    validate(doc).into_iter().map(|d| d.code).collect()
}

#[test]
fn unknown_column_fires_against_an_authoritative_schema() {
    // `ghost` is not in src's declared schema [a] -> W_UNKNOWN_COLUMN.
    let cs = codes(&doc_with_schema("ghost"));
    assert!(
        cs.iter().any(|c| c == "W_UNKNOWN_COLUMN"),
        "expected W_UNKNOWN_COLUMN, got {cs:?}"
    );
    // The endpoint matches, so no W_COLUMN_ENDPOINT noise.
    assert!(!cs.iter().any(|c| c == "W_COLUMN_ENDPOINT"), "{cs:?}");
}

#[test]
fn known_column_does_not_fire() {
    // `a` IS in src's schema -> no W_UNKNOWN_COLUMN.
    let cs = codes(&doc_with_schema("a"));
    assert!(
        !cs.iter().any(|c| c == "W_UNKNOWN_COLUMN"),
        "should not flag a known column, got {cs:?}"
    );
}

#[test]
fn empty_schema_never_fires_unknown_column() {
    // With no schema at all, the check is inert (mirrors the scan path where
    // the schema is back-filled from the lineage itself).
    let mut doc = doc_with_schema("ghost");
    doc.dataset_mut("src").unwrap().schema.clear();
    let cs = codes(&doc);
    assert!(
        !cs.iter().any(|c| c == "W_UNKNOWN_COLUMN"),
        "empty schema must not fire W_UNKNOWN_COLUMN, got {cs:?}"
    );
}

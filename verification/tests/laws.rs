//! Each law of the library on concrete values.

use trace_weaver::clock::{civil_from_days, timestamp};
use trace_weaver::collections::{StrMap, StrSet};
use trace_weaver::dataflow::analyze;
use trace_weaver::dot::dot_escape;
use trace_weaver::gate::compute_gate_metrics;
use trace_weaver::graph::merge_origin;
use trace_weaver::infer::infer_identity_gap_fill;
use trace_weaver::model::{
    ColumnEdge, ColumnRef, Dataset, DiagLevel, Edge, Engine, Field, FqnParts, Job, SourceLoc,
    WeaveDocument,
};
use trace_weaver::openlineage::deterministic_run_id;
use trace_weaver::openmetadata::percent_encode;
use trace_weaver::origin::{Confidence, Origin, OriginSource};
use trace_weaver::pyast::{parse_module, PyStmt};
use trace_weaver::python::{collect_module_constants, extract_task_decls};
use trace_weaver::scan::{scan_files, SourceFile, UnreadFile};
use trace_weaver::sql::column_lineage_from_sql;
use trace_weaver::tasks::ScanOptions;
use trace_weaver::text::{join, split_str, str_lt};
use trace_weaver::validate::validate;

fn confidence(x: f32) -> Confidence {
    Confidence { bits: x.to_bits() }
}

fn scan(src: &str) -> WeaveDocument {
    let file = SourceFile {
        path: "dag.py".into(),
        module: "dag".into(),
        source: src.into(),
    };
    scan_files(&vec![file], &vec![], &ScanOptions::default())
}

fn job(id: &str, inputs: &[&str], outputs: &[&str]) -> Job {
    let mut j = Job::new(id, id, Engine::Python);
    j.inputs = inputs.iter().map(|s| s.to_string()).collect();
    j.outputs = outputs.iter().map(|s| s.to_string()).collect();
    j
}

fn pairs(edges: &[&Edge]) -> Vec<(String, String)> {
    edges
        .iter()
        .map(|e| (e.from.clone(), e.to.clone()))
        .collect()
}

#[test]
fn text_order_is_that_of_str() {
    let words = ["", "a", "ab", "b", "Z", "é", "\u{10000}", "\u{ffff}"];
    for a in words {
        for b in words {
            assert_eq!(str_lt(a, b), a < b, "{a:?} {b:?}");
        }
    }
}

#[test]
fn joining_the_pieces_restores_the_text() {
    for s in ["", ".", "a.b", "a..b.", "plain", ".é."] {
        let pieces = split_str(s, '.');
        assert_eq!(pieces, s.split('.').collect::<Vec<_>>());
        assert_eq!(join(&pieces, "."), s);
    }
}

#[test]
fn fqn_parts_and_their_text_determine_each_other() {
    let parts = FqnParts::parse("Test Database.poc_db.public.t").unwrap();
    assert_eq!(parts.table_fqn(), "Test Database.poc_db.public.t");
    assert_eq!(FqnParts::parse(&parts.table_fqn()), Some(parts));
    assert_eq!(FqnParts::parse("a.b.c"), None);
    assert_eq!(FqnParts::parse("a.b.c.d.e"), None);
    assert_eq!(FqnParts::parse(""), None);
    assert!(FqnParts::parse("...").is_some());
}

#[test]
fn every_inferred_label_is_tagged() {
    let mut ce = ColumnEdge::new(vec![], ColumnRef::new("t", "c"));
    assert_eq!(ce.display_function(), None);
    ce.origin = Origin::inferred_code(confidence(0.7));
    assert_eq!(ce.display_function().unwrap(), "(inferred from code)");
    ce.function = Some("a + b".into());
    assert_eq!(ce.display_function().unwrap(), "a + b (inferred from code)");
    ce.origin = Origin::declared();
    assert_eq!(ce.display_function().unwrap(), "a + b");
}

#[test]
fn merging_a_dataset_twice_changes_nothing_more() {
    let mut first = Dataset::new("t").with_origin(Origin::inferred_sql(confidence(0.85)));
    first.schema = vec![Field::new("a")];
    let mut typed = Field::new("a");
    typed.data_type = Some("int".into());
    let second = || {
        let mut d = Dataset::new("t");
        d.platform = Some("postgres".into());
        d.schema = vec![typed.clone(), Field::new("b")];
        d.facets.insert(
            "owner".to_string(),
            serde_json::Value::String("dwh".to_string()),
        );
        d
    };
    first.merge_from(second());
    assert_eq!(first.schema, vec![Field::new("a"), Field::new("b")]);
    assert_eq!(first.platform.as_deref(), Some("postgres"));
    assert_eq!(first.origin, Origin::declared());
    assert_eq!(first.facets.len(), 1);
    first.merge_from(second());
    assert_eq!(first.schema, vec![Field::new("a"), Field::new("b")]);
    assert_eq!(first.facets.len(), 1);
    assert_eq!(
        first.facets.get("owner").and_then(|v| v.as_str()),
        Some("dwh")
    );
}

#[test]
fn declared_facts_survive_a_merge() {
    let mut kept = Dataset::new("t");
    kept.platform = Some("delta".into());
    kept.facets.insert(
        "owner".to_string(),
        serde_json::Value::String("mine".to_string()),
    );
    let mut other = Dataset::new("t").with_origin(Origin::inferred_code(confidence(0.4)));
    other.platform = Some("s3".into());
    other.facets.insert(
        "owner".to_string(),
        serde_json::Value::String("theirs".to_string()),
    );
    kept.merge_from(other);
    assert_eq!(kept.origin, Origin::declared());
    assert_eq!(kept.platform.as_deref(), Some("delta"));
    assert_eq!(
        kept.facets.get("owner").and_then(|v| v.as_str()),
        Some("mine")
    );
}

#[test]
fn merged_origin_prefers_declared_and_then_the_surer() {
    let sql = Origin::inferred_sql(confidence(0.85));
    let code = Origin::inferred_code(confidence(0.7));
    let unsure = Origin {
        source: OriginSource::InferredCode,
        confidence: None,
        note: None,
        location: None,
    };
    assert_eq!(
        merge_origin(sql.clone(), Origin::declared()),
        Origin::declared()
    );
    assert_eq!(
        merge_origin(Origin::declared().with_note("x"), sql.clone()),
        Origin::declared().with_note("x")
    );
    assert_eq!(merge_origin(code.clone(), sql.clone()), sql);
    assert_eq!(merge_origin(sql.clone(), code.clone()), sql);
    assert_eq!(merge_origin(unsure.clone(), code.clone()), code);
    assert_eq!(merge_origin(code.clone(), unsure.clone()), code);
    let nan = Origin::inferred_sql(confidence(f32::NAN));
    assert_eq!(merge_origin(code.clone(), nan), code);
    let less = Origin::inferred_sql(confidence(-1.0));
    assert_eq!(merge_origin(less.clone(), unsure.clone()), unsure);
    assert_eq!(merge_origin(unsure.clone(), less), unsure);
}

#[test]
fn deriving_edges_twice_adds_nothing() {
    let mut doc = WeaveDocument::new("ns", "test");
    doc.jobs.push(job("j", &["a", "b"], &["c", "a"]));
    doc.edges.push(Edge::new("a", "c"));
    // a -> c exists; a -> a is a declared loop; b -> c and b -> a are new.
    assert_eq!(doc.derive_edges_from_jobs(), 3);
    assert_eq!(doc.derive_edges_from_jobs(), 0);
    for (f, t) in [("a", "c"), ("a", "a"), ("b", "c"), ("b", "a")] {
        assert!(doc.edges.iter().any(|e| e.from == f && e.to == t));
    }
    assert_eq!(doc.upstream_of("a"), vec!["a", "b"]);
    assert_eq!(doc.downstream_of("b"), vec!["c", "a"]);
}

#[test]
fn inferred_loops_are_not_derived() {
    let mut doc = WeaveDocument::new("ns", "test");
    let mut j = job("j", &["a"], &["a"]);
    j.origin = Origin::inferred_sql(confidence(0.85));
    j.description = Some("why".into());
    j.sql = Some("SELECT 1".into());
    doc.jobs.push(j);
    assert_eq!(doc.derive_edges_from_jobs(), 0);
    doc.jobs[0].outputs.push("b".into());
    assert_eq!(doc.derive_edges_from_jobs(), 1);
    let e = &doc.edges[0];
    assert_eq!(e.job.as_deref(), Some("j"));
    assert_eq!(e.transform.description.as_deref(), Some("why"));
    assert_eq!(e.transform.sql.as_deref(), Some("SELECT 1"));
    assert_eq!(e.transform.kind, None);
    assert_eq!(e.origin.source, OriginSource::InferredSql);
}

#[test]
fn topological_order_is_a_sorted_permutation_with_cycles_last() {
    let mut doc = WeaveDocument::new("ns", "test");
    for (f, t) in [
        ("y", "x"),
        ("c", "d"),
        ("x", "y"),
        ("a", "c"),
        ("b", "c"),
        ("a", "d"),
    ] {
        doc.edges.push(Edge::new(f, t));
    }
    let order = doc.edges_in_topo_order();
    let want: Vec<(String, String)> = [
        ("a", "c"),
        ("a", "d"),
        ("b", "c"),
        ("c", "d"),
        ("x", "y"),
        ("y", "x"),
    ]
    .iter()
    .map(|(f, t)| (f.to_string(), t.to_string()))
    .collect();
    assert_eq!(pairs(&order), want);
}

#[test]
fn topological_order_ignores_insertion() {
    let arcs = [("b", "c"), ("a", "b"), ("x", "y"), ("y", "x"), ("a", "c")];
    let ordered = |arcs: &[(&str, &str)]| {
        let mut doc = WeaveDocument::new("ns", "test");
        for (f, t) in arcs {
            doc.edges.push(Edge::new(f, t));
        }
        pairs(&doc.edges_in_topo_order())
    };
    let want = ordered(&arcs);
    assert_eq!(want[0], ("a".to_string(), "b".to_string()));
    let mut turned = arcs.to_vec();
    for _ in 0..arcs.len() {
        turned.rotate_left(1);
        assert_eq!(ordered(&turned), want);
        let mut back = turned.clone();
        back.reverse();
        assert_eq!(ordered(&back), want);
    }
}

#[test]
fn validation_errors_are_duplicates_and_dangling_edges() {
    let mut doc = WeaveDocument::new("ns", "test");
    doc.datasets.push(Dataset::new("a"));
    doc.datasets.push(Dataset::new("a"));
    doc.edges.push(Edge::new("gone", "away"));
    doc.jobs.push(job("j", &["a"], &["elsewhere"]));
    let found: Vec<(DiagLevel, String, String)> = validate(&doc)
        .into_iter()
        .map(|d| (d.level, d.code, d.message))
        .collect();
    assert_eq!(
        found,
        vec![
            (
                DiagLevel::Error,
                "E_DUP_DATASET".to_string(),
                "duplicate dataset name 'a'".to_string()
            ),
            (
                DiagLevel::Error,
                "E_UNKNOWN_DATASET".to_string(),
                "edge source dataset 'gone' is not declared".to_string()
            ),
            (
                DiagLevel::Error,
                "E_UNKNOWN_DATASET".to_string(),
                "edge target dataset 'away' is not declared".to_string()
            ),
            (
                DiagLevel::Warn,
                "W_JOB_DATASET".to_string(),
                "job 'j' references undeclared dataset 'elsewhere'".to_string()
            ),
        ]
    );
}

#[test]
fn off_endpoint_columns_are_warned_about() {
    let mut doc = WeaveDocument::new("ns", "test");
    for n in ["a", "b", "c"] {
        doc.datasets.push(Dataset::new(n));
    }
    let mut e = Edge::new("a", "b");
    e.column_lineage.push(ColumnEdge::new(
        vec![ColumnRef::new("c", "x")],
        ColumnRef::new("b", "y"),
    ));
    doc.edges.push(e);
    let found = validate(&doc);
    assert_eq!(found.len(), 1);
    assert_eq!(found[0].code, "W_COLUMN_ENDPOINT");
    assert_eq!(
        found[0].message,
        "column 'c.x' is not on the edge endpoint 'a'"
    );
}

#[test]
fn gap_fill_takes_the_first_source_with_the_column() {
    let mut one = Dataset::new("one");
    one.schema = vec![Field::new("x")];
    let mut two = Dataset::new("two");
    two.schema = vec![Field::new("x"), Field::new("y")];
    let mut target = Dataset::new("t");
    target.schema = vec![Field::new("y"), Field::new("x"), Field::new("z")];
    let filled = infer_identity_gap_fill(&[&one, &two], &target, &[]);
    assert_eq!(filled.len(), 2);
    assert_eq!(filled[0].from_columns, vec![ColumnRef::new("two", "y")]);
    assert_eq!(filled[1].from_columns, vec![ColumnRef::new("one", "x")]);
    assert_eq!(filled[1].to_column, ColumnRef::new("t", "x"));
    assert_eq!(filled[0].origin.confidence, Some(confidence(0.4)));
}

#[test]
fn dot_escapes_are_told_apart() {
    assert_eq!(dot_escape("a\"b\\c\nd"), "a\\\"b\\\\c\\nd");
    assert_ne!(dot_escape("\n"), dot_escape("\\n"));
    assert_eq!(dot_escape("plain é"), "plain é");
}

#[test]
fn percent_encoding_tells_texts_apart() {
    assert_eq!(percent_encode("a-b_c.d~9Z"), "a-b_c.d~9Z");
    assert_eq!(percent_encode("é/%\u{10348}"), "%C3%A9%2F%25%F0%90%8D%88");
    assert_ne!(percent_encode("%20"), percent_encode(" "));
    assert_eq!(percent_encode(""), "");
}

#[test]
fn run_ids_are_stable_and_shaped_like_uuids() {
    assert_eq!(
        deterministic_run_id(""),
        "cbf29ce4-8422-2325-cbf2-9ce484222325"
    );
    let id = deterministic_run_id("medallion.build_bronze");
    assert_eq!(id, deterministic_run_id("medallion.build_bronze"));
    let lens: Vec<usize> = id.split('-').map(|p| p.len()).collect();
    assert_eq!(lens, vec![8, 4, 4, 4, 12]);
    assert!(id
        .chars()
        .all(|c| c == '-' || c.is_ascii_digit() || ('a'..='f').contains(&c)));
    assert_eq!(
        deterministic_run_id("a"),
        "af63dc4c-8601-ec8c-089c-4307b54596b7"
    );
}

#[test]
fn days_become_dates() {
    assert_eq!(civil_from_days(0), (1970, 1, 1));
    assert_eq!(civil_from_days(-1), (1969, 12, 31));
    assert_eq!(civil_from_days(11016), (2000, 2, 29));
    assert_eq!(civil_from_days(11017), (2000, 3, 1));
    assert_eq!(civil_from_days(47540), (2100, 2, 28));
    assert_eq!(civil_from_days(47541), (2100, 3, 1));
    assert_eq!(civil_from_days(-719468), (0, 3, 1));
}

#[test]
fn seconds_become_timestamps() {
    assert_eq!(timestamp(0), "1970-01-01T00:00:00Z");
    assert_eq!(timestamp(951_868_799), "2000-02-29T23:59:59Z");
    assert_eq!(timestamp(1_700_000_000), "2023-11-14T22:13:20Z");
}

#[test]
fn constants_are_string_literals_or_aliases_of_them() {
    let found = collect_module_constants(
        "A = \"x\"\nB = A\nC = B\nD = 1\nE = f\"{A}\"\nF = missing\nG = H\nH = G\n",
    );
    assert_eq!(found.get("A").map(|s| s.as_str()), Some("x"));
    assert_eq!(found.get("C").map(|s| s.as_str()), Some("x"));
    for name in ["D", "E", "F", "G", "H"] {
        assert!(!found.contains_key(name), "{name}");
    }
    assert!(collect_module_constants("def broken(").is_empty());
}

#[test]
fn a_refused_projection_maps_nothing() {
    let star = column_lineage_from_sql("INSERT INTO t (a) SELECT * FROM s").unwrap();
    assert!(star.wildcard_in_projection && star.mappings.is_empty());
    let short = column_lineage_from_sql("INSERT INTO t (a, b) SELECT x FROM s").unwrap();
    assert!(short.arity_mismatch == Some((1, 2)) && short.mappings.is_empty());
    assert_eq!(short.target_table.as_deref(), Some("t"));
    assert_eq!(short.source_tables, vec!["s"]);
}

#[test]
fn unparsable_sql_maps_nothing() {
    let none = column_lineage_from_sql("SELEC nonsense FROM (").unwrap();
    assert!(none.target_table.is_none() && none.mappings.is_empty());
}

#[test]
fn merge_maps_each_target_once_and_keeps_the_update() {
    let sql = "MERGE INTO tgt AS t USING src AS s ON t.id = s.id \
               WHEN MATCHED THEN UPDATE SET t.amount = s.amount + 1, t.name = s.name \
               WHEN NOT MATCHED THEN INSERT (id, amount) VALUES (s.id, s.amount)";
    let lin = column_lineage_from_sql(sql).unwrap();
    assert_eq!(lin.target_table.as_deref(), Some("tgt"));
    let targets: Vec<&str> = lin.mappings.iter().map(|m| m.target.as_str()).collect();
    assert_eq!(targets, vec!["amount", "name", "id"]);
    assert_eq!(lin.mappings[0].function, "s.amount + 1");
    assert_eq!(lin.mappings[0].sources[0].column, "amount");
    assert_eq!(lin.mappings[0].sources[0].table, None);
}

#[test]
fn declared_mappings_win_over_inferred_ones() {
    let doc = scan(
        r#"
import trace_weaver as tw
@tw.sql("INSERT INTO b (x, y) SELECT p, q FROM a", inputs=["s.d.p.a"], outputs=["s.d.p.b"],
        column_map=[(["r"], "x", "by hand")])
def t(): ...
"#,
    );
    let cols = &doc.edges[0].column_lineage;
    let x: Vec<_> = cols.iter().filter(|c| c.to_column.column == "x").collect();
    assert_eq!(x.len(), 1);
    assert_eq!(x[0].origin, Origin::declared());
    assert_eq!(x[0].function.as_deref(), Some("by hand"));
    let y = cols.iter().find(|c| c.to_column.column == "y").unwrap();
    assert_eq!(y.origin.source, OriginSource::InferredSql);
    assert_eq!(y.origin.confidence, Some(confidence(0.85)));
}

#[test]
fn switched_off_inference_adds_no_mapping() {
    let src = r#"
import trace_weaver as tw
@tw.sql("INSERT INTO b (x) SELECT p FROM a", inputs=["s.d.p.a"], outputs=["s.d.p.b"])
def t(): ...
@tw.task(inputs=["s.d.p.a"], outputs=["s.d.p.c"], engine="pandas")
def u():
    a = pd.read_sql("SELECT * FROM a", con=E)
    out = pd.DataFrame()
    out["k"] = a["p"]
    out.to_sql("c")
"#;
    let mut opts = ScanOptions::default();
    opts.enable_sql_inference = false;
    opts.enable_code_inference = false;
    let file = SourceFile {
        path: "dag.py".into(),
        module: "dag".into(),
        source: src.into(),
    };
    let off = scan_files(&vec![file.clone()], &vec![], &opts);
    assert!(off.edges.iter().all(|e| e.column_lineage.is_empty()));
    let on = scan_files(&vec![file], &vec![], &ScanOptions::default());
    assert!(on.edges.iter().all(|e| e.column_lineage.len() == 1));
}

#[test]
fn branches_that_repeat_a_mapping_count_once() {
    let src = r#"
def run(spark):
    df = spark.read.table("src")
    if flag:
        out = df.withColumnRenamed("a", "b")
    elif other:
        out = df.withColumnRenamed("a", "b")
    else:
        out = df.withColumnRenamed("c", "b")
    out.write.saveAsTable("dst")
"#;
    let traced = match parse_module(src).unwrap().into_iter().next() {
        Some(PyStmt::FunctionDef(f)) => analyze(&f.body, &StrMap::new(), src),
        _ => panic!("expected a function def"),
    };
    let sources: Vec<&str> = traced
        .columns
        .iter()
        .map(|c| c.sources[0].as_str())
        .collect();
    assert_eq!(sources, vec!["src.a", "src.c"]);
    // On an edge the first mapping of a column stands.
    let doc = scan(src);
    assert!(doc.jobs.is_empty());
    let e = doc
        .edges
        .iter()
        .find(|e| e.from == "src" && e.to == "dst")
        .unwrap();
    assert_eq!(e.column_lineage.len(), 1);
    assert_eq!(e.column_lineage[0].from_columns[0].column, "a");
}

#[test]
fn discovery_edges_neither_give_nor_take_columns() {
    // Two unrelated functions share the name of a temporary view.
    let src = |cols: &str| {
        format!(
            "def run(spark, path):\n    df = spark.read.parquet(path)\n    \
             df.createOrReplaceTempView(\"raw_staging\")\n    \
             spark.sql(\"INSERT INTO out_table SELECT {cols} FROM raw_staging\")\n"
        )
    };
    let files: Vec<SourceFile> = [("one", "a, b"), ("two", "c")]
        .iter()
        .map(|(m, cols)| SourceFile {
            path: format!("{m}.py"),
            module: m.to_string(),
            source: src(cols),
        })
        .collect();
    let doc = scan_files(&files, &vec![], &ScanOptions::default());
    assert!(doc.jobs.is_empty());
    assert!(doc.edges.iter().all(|e| e.column_discovery));
    let counts: Vec<usize> = doc.edges.iter().map(|e| e.column_lineage.len()).collect();
    assert_eq!(counts.iter().sum::<usize>(), 3);
    assert!(doc.datasets.iter().all(|d| d.schema.is_empty()));
}

#[test]
fn discovery_moves_no_ratio_of_the_gate() {
    let mut doc = WeaveDocument::new("ns", "test");
    for n in ["a", "b"] {
        doc.datasets.push(Dataset::new(n));
    }
    doc.jobs.push(job("d.t", &["a"], &["b"]));
    let mut e = Edge::new("a", "b");
    e.job = Some("d.t".into());
    doc.edges.push(e);
    let before = compute_gate_metrics(&doc);
    let mut found = Edge::new("b", "a");
    found.column_discovery = true;
    found.origin = Origin::inferred_code(confidence(0.7));
    found.column_lineage.push(ColumnEdge::new(
        vec![ColumnRef::new("b", "x")],
        ColumnRef::new("a", "x"),
    ));
    doc.edges.push(found);
    let after = compute_gate_metrics(&doc);
    assert_eq!(after.edges_total, before.edges_total);
    assert_eq!(after.high_confidence_fraction, before.high_confidence_fraction);
    assert_eq!(after.task_coverage, before.task_coverage);
    assert_eq!(after.annotation_coverage, before.annotation_coverage);
    assert_eq!((before.column_edges, before.column_mappings), (0, 0));
    assert_eq!((after.column_edges, after.column_mappings), (1, 1));
}

#[test]
fn a_discovery_edge_gives_its_job_no_lineage() {
    let mut doc = WeaveDocument::new("ns", "test");
    for n in ["a", "b"] {
        doc.datasets.push(Dataset::new(n));
    }
    doc.jobs.push(job("d.t", &[], &[]));
    let mut found = Edge::new("a", "b");
    found.job = Some("d.t".into());
    found.column_discovery = true;
    found.origin = Origin::inferred_code(confidence(0.7));
    doc.edges.push(found);
    let m = compute_gate_metrics(&doc);
    assert_eq!((m.tasks_total, m.tasks_with_lineage), (1, 0));
    assert_eq!((m.task_coverage.part, m.task_coverage.whole), (0, 1));
    assert_eq!((m.edges_total, m.column_edges), (0, 1));
    assert_eq!(m.per_dag[0].tasks_with_lineage, 0);
    // An edge of the job itself does.
    let mut own = Edge::new("a", "b");
    own.job = Some("d.t".into());
    doc.edges.push(own);
    assert_eq!(compute_gate_metrics(&doc).tasks_with_lineage, 1);
}

#[test]
fn counts_of_the_dags_add_up() {
    let mut doc = WeaveDocument::new("ns", "test");
    for (dag, name) in [("one", "a"), ("two", "b"), ("one", "c")] {
        let mut j = job(&format!("{dag}.{name}"), &["x"], &["y"]);
        j.dag = Some(dag.into());
        doc.jobs.push(j);
    }
    doc.jobs.push(job("loose", &[], &[]));
    let m = compute_gate_metrics(&doc);
    assert_eq!(m.tasks_total, 4);
    assert_eq!(
        m.per_dag.iter().map(|d| d.tasks_total).sum::<usize>(),
        m.tasks_total
    );
    assert_eq!(m.per_dag.iter().filter(|d| d.dag == "one").count(), 1);
    assert_eq!(
        m.per_dag
            .iter()
            .find(|d| d.dag == "one")
            .map(|d| d.tasks_total),
        Some(2)
    );
}

#[test]
fn a_broken_file_is_reported_and_changes_nothing_else() {
    let good = SourceFile {
        path: "good.py".into(),
        module: "good".into(),
        source: "import trace_weaver as tw\n@tw.task(inputs=[\"s.d.p.a\"], \
                 outputs=[\"s.d.p.b\"], copy=[\"x\"])\ndef t(): ...\n"
            .into(),
    };
    let bad = SourceFile {
        path: "bad.py".into(),
        module: "bad".into(),
        source: "def broken(:\n".into(),
    };
    let opts = ScanOptions::default();
    let alone = scan_files(&vec![good.clone()], &vec![], &opts);
    let both = scan_files(&vec![bad, good], &vec![], &opts);
    assert!(alone.diagnostics.is_empty(), "{:?}", alone.diagnostics);
    assert_eq!(both.diagnostics.len(), 1);
    assert_eq!(both.diagnostics[0].code, "E_PARSE");
    assert_eq!(both.diagnostics[0].level, DiagLevel::Error);
    assert!(both.diagnostics[0]
        .message
        .starts_with("failed to scan bad.py: "));
    assert_eq!(
        both.diagnostics[0].location,
        Some(SourceLoc::new("bad.py", None))
    );
    assert_eq!(format!("{:?}", both.jobs), format!("{:?}", alone.jobs));
    assert_eq!(format!("{:?}", both.edges), format!("{:?}", alone.edges));
    assert_eq!(
        format!("{:?}", both.datasets),
        format!("{:?}", alone.datasets)
    );
}

#[test]
fn a_bad_file_may_come_anywhere() {
    let file = |name: &str, source: &str| SourceFile {
        path: format!("{name}.py"),
        module: name.to_string(),
        source: source.to_string(),
    };
    let consts = file("consts", "A = \"s.d.p.a\"\n");
    let dag = file(
        "dag",
        "import trace_weaver as tw\nfrom consts import A\n\
         @tw.task(inputs=[A, unknown()], outputs=[\"s.d.p.b\"])\ndef t(): ...\n",
    );
    // It has the module path of a file with constants.
    let mut bad = file("bad", "A = \"other\"\ndef broken(:\n");
    bad.module = "consts".into();
    let opts = ScanOptions::default();
    let lines = |doc: &WeaveDocument| -> Vec<String> {
        let mut out: Vec<String> = doc.diagnostics.iter().map(|d| format!("{d:?}")).collect();
        out.sort();
        out
    };
    let good = vec![consts, dag];
    let alone = scan_files(&good, &vec![], &opts);
    assert_eq!(alone.edges.len(), 1);
    assert!(!alone.diagnostics.is_empty());
    for k in 0..=good.len() {
        let mut files = good.clone();
        files.insert(k, bad.clone());
        let with = scan_files(&files, &vec![], &opts);
        assert_eq!(format!("{:?}", with.datasets), format!("{:?}", alone.datasets));
        assert_eq!(format!("{:?}", with.jobs), format!("{:?}", alone.jobs));
        assert_eq!(format!("{:?}", with.edges), format!("{:?}", alone.edges));
        let mut more = lines(&with);
        let at = more.iter().position(|l| l.contains("E_PARSE")).unwrap();
        assert!(more.remove(at).contains("bad.py"));
        assert_eq!(more, lines(&alone));
    }
    let gone = UnreadFile {
        path: "gone.py".into(),
        error: "denied".into(),
    };
    let with = scan_files(&good, &vec![gone], &opts);
    assert_eq!(with.diagnostics[0].code, "E_READ");
    assert_eq!(with.diagnostics[0].message, "could not read gone.py: denied");
    assert_eq!(with.diagnostics.len(), alone.diagnostics.len() + 1);
    assert_eq!(format!("{:?}", with.edges), format!("{:?}", alone.edges));
}

#[test]
fn a_scanned_document_is_well_formed() {
    let doc = scan(
        r#"
import trace_weaver as tw
@tw.task(inputs=["s.d.p.a", "s.d.p.a"], outputs=["s.d.p.b"], copy=["x"])
def t(): ...
@tw.task(inputs=["s.d.p.b"], outputs=["s.d.p.a"], copy=["x"])
def u(): ...
"#,
    );
    let mut names: Vec<&str> = doc.datasets.iter().map(|d| d.name.as_str()).collect();
    names.sort();
    assert_eq!(names, vec!["s.d.p.a", "s.d.p.b"]);
    for e in &doc.edges {
        assert!(doc.dataset(&e.from).is_some() && doc.dataset(&e.to).is_some());
    }
    assert!(validate(&doc).iter().all(|d| d.level != DiagLevel::Error));
}

#[test]
fn a_scanned_document_is_sound() {
    let doc = scan(
        r#"
import trace_weaver as tw
@tw.task(inputs=["s.d.p.a"], outputs=["s.d.p.a", "s.d.p.b"], copy=["x"])
def t(): ...
@tw.sql("INSERT INTO c (k) SELECT p FROM b", inputs=["s.d.p.b"], outputs=["s.d.p.c"])
def u(): ...
def helper(spark):
    df = spark.read.table("src")
    out = df.withColumnRenamed("a", "b")
    out.write.saveAsTable("dst")
"#,
    );
    assert_eq!(doc.edges.iter().filter(|e| e.from == e.to).count(), 1);
    assert_eq!(doc.edges.iter().filter(|e| e.column_discovery).count(), 1);
    for e in &doc.edges {
        assert!(e.from != e.to || !e.origin.is_inferred());
        if e.column_discovery {
            assert!(e.origin.is_inferred() && e.origin.location.is_some());
            assert!(!e.column_lineage.is_empty());
        }
        assert_eq!(e.origin.is_inferred(), e.origin.confidence.is_some());
        for c in &e.column_lineage {
            assert_eq!(c.to_column.dataset, e.to);
            assert!(c.from_columns.iter().any(|f| f.dataset == e.from));
            assert_eq!(c.origin.is_inferred(), c.origin.confidence.is_some());
        }
    }
    for o in doc.jobs.iter().map(|j| &j.origin) {
        assert_eq!(o.is_inferred(), o.confidence.is_some());
    }
    for o in doc.datasets.iter().map(|d| &d.origin) {
        assert_eq!(o.is_inferred(), o.confidence.is_some());
    }
}

#[test]
fn declared_tasks_come_before_discovered_ones() {
    let doc = scan(
        r#"
import trace_weaver as tw
load = SQLExecuteQueryOperator(task_id="load", sql="INSERT INTO b (x) SELECT p FROM a")
@tw.task(inputs=["s.d.p.a"], outputs=["s.d.p.b"])
def t(): ...
"#,
    );
    let ids: Vec<&str> = doc.jobs.iter().map(|j| j.name.as_str()).collect();
    assert_eq!(ids, vec!["t", "load"]);
    assert!(!doc.jobs[0].origin.is_inferred() && doc.jobs[1].origin.is_inferred());
}

#[test]
fn a_decorator_overrides_discovery() {
    let body = r#"
def build(spark):
    df = spark.read.table("src")
    out = df.withColumnRenamed("a", "b")
    out.write.saveAsTable("dst")
run = PythonOperator(task_id="run", python_callable=build)
"#;
    let plain = scan(body);
    assert_eq!(plain.jobs.len(), 1);
    assert_eq!(plain.jobs[0].name, "run");
    assert!(plain.jobs[0].origin.is_inferred());
    let decorated = scan(&format!(
        "import trace_weaver as tw\n@tw.task(inputs=[\"s.d.p.a\"], outputs=[\"s.d.p.b\"]){body}"
    ));
    assert_eq!(decorated.jobs.len(), 1);
    assert_eq!(decorated.jobs[0].name, "build");
    assert!(!decorated.jobs[0].origin.is_inferred());
    assert!(decorated.edges.iter().all(|e| !e.column_discovery));
}

#[test]
fn an_insert_maps_all_its_columns_in_order() {
    let lin = column_lineage_from_sql("INSERT INTO t (c, a, b) SELECT x, y, 1 FROM s").unwrap();
    let targets: Vec<&str> = lin.mappings.iter().map(|m| m.target.as_str()).collect();
    assert_eq!(targets, vec!["c", "a", "b"]);
    assert!(lin.mappings[2].sources.is_empty());
    let long = column_lineage_from_sql("INSERT INTO t (a) SELECT x, y FROM s").unwrap();
    assert!(long.mappings.is_empty());
}

#[test]
fn maps_and_sets_with_the_same_contents_are_equal() {
    let set = |items: &[&str]| {
        let mut s = StrSet::new();
        for i in items {
            s.insert(i.to_string());
        }
        s
    };
    assert_eq!(set(&["b", "a", "c"]), set(&["c", "a", "b", "a"]));
    assert_ne!(set(&["a"]), set(&["a", "b"]));
    assert_eq!(set(&["b", "a"]).clone(), set(&["a", "b"]));
    let map = |entries: &[(&str, u32)]| {
        let mut m: StrMap<u32> = StrMap::new();
        for (k, v) in entries {
            m.insert(k.to_string(), *v);
        }
        m
    };
    assert_eq!(map(&[("b", 2), ("a", 1)]), map(&[("a", 7), ("b", 2), ("a", 1)]));
    assert_ne!(map(&[("a", 1)]), map(&[("a", 2)]));
    assert_eq!(map(&[("b", 2), ("a", 1)]).clone(), map(&[("a", 1), ("b", 2)]));
    assert_eq!(map(&[("b", 2), ("a", 1)]).keys(), vec!["a", "b"]);
}

#[test]
fn declarations_are_compared_by_content() {
    let decl = |first: &str, second: &str| {
        let src = format!(
            "from trace_weaver import lineage\n@lineage({first}, {second})\ndef t(): ...\n"
        );
        extract_task_decls(&src).unwrap().tasks.remove(0)
    };
    let (i, o) = ("inputs=[path()]", "outputs=[other()]");
    assert_eq!(decl(i, o), decl(o, i));
}

#[test]
fn the_origin_of_a_discovered_job_has_no_place() {
    let doc = scan(
        "load = SQLExecuteQueryOperator(task_id=\"load\", sql=\"INSERT INTO b (x) SELECT p FROM a\")\n",
    );
    let j = &doc.jobs[0];
    assert!(j.origin.is_inferred() && j.origin.location.is_none());
    assert_eq!(j.location, Some(SourceLoc::new("dag.py", Some(1))));
    assert!(doc.edges[0].origin.location.is_some());
    assert!(doc.datasets.iter().all(|d| d.origin.location.is_some()));
}

#[test]
fn maps_and_sets_of_texts() {
    let mut m: StrMap<u32> = StrMap::new();
    assert!(m.is_empty());
    m.insert("a".into(), 1);
    m.insert("b".into(), 2);
    m.insert("a".into(), 3);
    assert_eq!(m.get("a"), Some(&3));
    assert_eq!(m.get("c"), None);
    assert!(m.contains_key("b") && !m.is_empty());
    let mut s = StrSet::new();
    assert!(s.is_empty());
    assert!(s.insert("x".into()));
    assert!(!s.insert("x".into()));
    assert!(s.contains("x") && !s.contains("y") && !s.is_empty());
    assert_eq!(s.items(), vec!["x"]);
}

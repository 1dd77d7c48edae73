//! OpenMetadata requests: one lineage edge for each edge of the document.
//!
//! A dry run only builds the requests. A live run looks the tables up first;
//! what to do next, and what to make of a reply, is decided here, and the
//! caller talks to the server.

use vstd::arithmetic::power2::{lemma2_to64, lemma_pow2_strictly_increases, pow2};
use vstd::prelude::*;
use vstd::utf8::{encode_utf8, encode_utf8_decode_utf8};

use crate::export::{ExportConfig, ExportConfigView, ExportReport, ExportReportView};
use crate::graph::{topo_edges, topo_order_is_sorted_permutation};
use crate::json::{
    entry, json_list, json_member_text, json_object, json_pretty, json_text, member_text,
    object_of, pretty_text, text_entry, Json, JsonTree,
};
use crate::model::{
    column_fqn, dataset_index, edge_has_inferred, fqn_parts, has_dataset, shown_function,
    table_fqn, ColumnEdge, ColumnEdgeView, Dataset, DatasetView, DocumentView, Edge, EdgeView,
    FqnParts, FqnPartsView, WeaveDocument,
};
use crate::text::{
    chars_of, group_views, opt_text, opt_view, replicate_opt, text_of, views, Replicate,
};

verus! {

// ──────────────────────────────── addresses ───────────────────────────

/// True for a byte that stands for itself in an address.
pub open spec fn is_unreserved(b: u8) -> bool {
    65 <= b <= 90 || 97 <= b <= 122 || 48 <= b <= 57 || b == 45 || b == 95 || b == 46 || b == 126
}

/// A hexadecimal digit in capitals.
pub open spec fn capital_hex(d: int) -> char {
    if d == 0 {
        '0'
    } else if d == 1 {
        '1'
    } else if d == 2 {
        '2'
    } else if d == 3 {
        '3'
    } else if d == 4 {
        '4'
    } else if d == 5 {
        '5'
    } else if d == 6 {
        '6'
    } else if d == 7 {
        '7'
    } else if d == 8 {
        '8'
    } else if d == 9 {
        '9'
    } else if d == 10 {
        'A'
    } else if d == 11 {
        'B'
    } else if d == 12 {
        'C'
    } else if d == 13 {
        'D'
    } else if d == 14 {
        'E'
    } else {
        'F'
    }
}

/// A byte as it stands in an address.
pub open spec fn encoded_byte(b: u8) -> Seq<char> {
    if is_unreserved(b) {
        seq![b as char]
    } else {
        seq!['%', capital_hex(b as int / 16), capital_hex(b as int % 16)]
    }
}

/// The first `n` bytes as they stand in an address.
pub open spec fn encoded_upto(bytes: Seq<u8>, n: int) -> Seq<char>
    decreases n,
{
    if n <= 0 {
        Seq::empty()
    } else {
        encoded_upto(bytes, n - 1) + encoded_byte(bytes[n - 1])
    }
}

/// A text as one segment of an address: every byte but the unreserved ones is
/// written as a percent sign and two digits.
pub open spec fn percent_encoded(s: Seq<char>) -> Seq<char> {
    encoded_upto(encode_utf8(s), encode_utf8(s).len() as int)
}

fn capital_hex_char(d: u8) -> (r: char)
    requires
        d < 16,
    ensures
        r == capital_hex(d as int),
{
    if d == 0 {
        '0'
    } else if d == 1 {
        '1'
    } else if d == 2 {
        '2'
    } else if d == 3 {
        '3'
    } else if d == 4 {
        '4'
    } else if d == 5 {
        '5'
    } else if d == 6 {
        '6'
    } else if d == 7 {
        '7'
    } else if d == 8 {
        '8'
    } else if d == 9 {
        '9'
    } else if d == 10 {
        'A'
    } else if d == 11 {
        'B'
    } else if d == 12 {
        'C'
    } else if d == 13 {
        'D'
    } else if d == 14 {
        'E'
    } else {
        'F'
    }
}

/// A text as one segment of an address.
pub fn percent_encode(s: &str) -> (r: String)
    ensures
        r@ == percent_encoded(s@),
{
    let bytes = s.as_bytes();
    let mut out = String::new();
    let mut i: usize = 0;
    while i < bytes.len()
        invariant
            i <= bytes@.len(),
            out@ == encoded_upto(bytes@, i as int),
        decreases bytes@.len() - i,
    {
        let b: u8 = bytes[i];
        let ghost before = out@;
        if 65 <= b && b <= 90 || 97 <= b && b <= 122 || 48 <= b && b <= 57 || b == 45 || b == 95
            || b == 46 || b == 126 {
            out.push(b as char);
        } else {
            out.push('%');
            out.push(capital_hex_char(b / 16));
            out.push(capital_hex_char(b % 16));
        }
        assert(out@ =~= before + encoded_byte(b));
        i = i + 1;
    }
    out
}

/// A text without the slashes at its end.
pub open spec fn without_slashes(s: Seq<char>) -> Seq<char>
    decreases s.len(),
{
    if s.len() > 0 && s.last() == '/' {
        without_slashes(s.drop_last())
    } else {
        s
    }
}

fn trim_slashes(s: &str) -> (r: String)
    ensures
        r@ == without_slashes(s@),
{
    let v = chars_of(s);
    let mut n: usize = v.len();
    assert(v@.subrange(0, v@.len() as int) =~= v@);
    while n > 0 && v[n - 1] == '/'
        invariant
            n <= v@.len(),
            without_slashes(v@) == without_slashes(v@.subrange(0, n as int)),
        decreases n,
    {
        assert(v@.subrange(0, n as int).drop_last() =~= v@.subrange(0, n - 1));
        assert(v@.subrange(0, n as int).last() == v@[n - 1]);
        n = n - 1;
    }
    proof {
        if n > 0 {
            assert(v@.subrange(0, n as int).last() == v@[n - 1]);
        }
    }
    text_of(&v, 0, n)
}

/// The address that lineage is put to.
pub open spec fn lineage_url(host: Seq<char>) -> Seq<char> {
    without_slashes(host) + "/v1/lineage"@
}

/// The address that a table is looked up at.
pub open spec fn table_url(host: Seq<char>, fqn: Seq<char>) -> Seq<char> {
    without_slashes(host) + "/v1/tables/name/"@ + percent_encoded(fqn) + "?fields=id"@
}

pub fn lineage_address(host: &str) -> (r: String)
    ensures
        r@ == lineage_url(host@),
{
    let mut s = trim_slashes(host);
    s.append("/v1/lineage");
    s
}

pub fn table_address(host: &str, fqn: &str) -> (r: String)
    ensures
        r@ == table_url(host@, fqn@),
{
    let mut s = trim_slashes(host);
    s.append("/v1/tables/name/");
    s.append(percent_encode(fqn).as_str());
    s.append("?fields=id");
    s
}

// ───────────────────────────────── bodies ─────────────────────────────

/// The name of a dataset in parts: as known, or as its name tells, with the
/// service replaced when one is given.
pub open spec fn resolved_fqn(d: DatasetView, service: Option<Seq<char>>) -> Option<FqnPartsView> {
    let p = match d.fqn {
        Some(p) => Some(p),
        None => fqn_parts(d.name),
    };
    match p {
        Some(p) => match service {
            Some(s) => Some(FqnPartsView { service: s, ..p }),
            None => Some(p),
        },
        None => None,
    }
}

fn resolve_fqn(ds: &Dataset, service: &Option<String>) -> (r: Option<FqnParts>)
    ensures
        opt_view(r) == resolved_fqn(ds@, opt_text(*service)),
{
    let p = match &ds.fqn {
        Some(p) => Some(p.replicate()),
        None => FqnParts::parse(ds.name.as_str()),
    };
    match p {
        Some(p) => match service {
            Some(s) => Some(FqnParts { service: s.clone(), ..p }),
            None => Some(p),
        },
        None => None,
    }
}

/// What is put in front of the description of an edge with inferred lineage.
pub const INFERRED_NOTE: &'static str = "> ⚠ Some lineage below was inferred, not declared.";

/// The description of an edge.
pub open spec fn described(e: EdgeView) -> Option<Seq<char>> {
    if edge_has_inferred(e) {
        match e.transform.description {
            Some(d) => Some(INFERRED_NOTE@ + "\n\n"@ + d),
            None => Some(INFERRED_NOTE@),
        }
    } else {
        e.transform.description
    }
}

fn edge_description(e: &Edge) -> (r: Option<String>)
    ensures
        opt_text(r) == described(e@),
{
    if e.has_inferred() {
        let mut s = INFERRED_NOTE.to_owned();
        if let Some(d) = &e.transform.description {
            s.append("\n\n");
            s.append(d.as_str());
        }
        Some(s)
    } else {
        replicate_opt(&e.transform.description)
    }
}

/// One mapping of a request.
pub open spec fn mapping_tree(c: ColumnEdgeView, from: FqnPartsView, to: FqnPartsView) -> JsonTree {
    let base = seq![
        (
            "fromColumns"@,
            JsonTree::List(
                Seq::new(
                    c.from_columns.len(),
                    |i: int| JsonTree::Text(column_fqn(from, c.from_columns[i].column)),
                ),
            ),
        ),
        ("toColumn"@, JsonTree::Text(column_fqn(to, c.to_column.column))),
    ];
    match shown_function(c) {
        Some(f) => object_of(base.push(("function"@, JsonTree::Text(f)))),
        None => object_of(base),
    }
}

/// The first `n` mappings of a request; one without sources is left out.
pub open spec fn mapping_trees(e: EdgeView, from: FqnPartsView, to: FqnPartsView, n: int) -> Seq<
    JsonTree,
>
    decreases n,
{
    if n <= 0 {
        Seq::empty()
    } else {
        let s = mapping_trees(e, from, to, n - 1);
        let c = e.column_lineage[n - 1];
        if c.from_columns.len() > 0 {
            s.push(mapping_tree(c, from, to))
        } else {
            s
        }
    }
}

fn mapping_json(c: &ColumnEdge, from: &FqnParts, to: &FqnParts) -> (r: Json)
    ensures
        r@ == mapping_tree(c@, from@, to@),
{
    broadcast use group_views;

    let mut cols: Vec<Json> = Vec::new();
    let mut i: usize = 0;
    while i < c.from_columns.len()
        invariant
            i <= c.from_columns@.len(),
            cols@.len() == i,
            forall|k: int|
                0 <= k < i ==> (#[trigger] cols@[k])@ == JsonTree::Text(
                    column_fqn(from@, c@.from_columns[k].column),
                ),
        decreases c.from_columns@.len() - i,
    {
        assert(c@.from_columns[i as int] == c.from_columns@[i as int]@);
        cols.push(json_text(from.column_fqn(c.from_columns[i].column.as_str()).as_str()));
        i = i + 1;
    }
    let ghost list = Seq::new(
        c@.from_columns.len(),
        |i: int| JsonTree::Text(column_fqn(from@, c@.from_columns[i].column)),
    );
    assert(views(cols@) =~= list);
    let mut o: Vec<(String, Json)> = Vec::new();
    o.push(entry("fromColumns", json_list(cols)));
    o.push(text_entry("toColumn", to.column_fqn(c.to_column.column.as_str()).as_str()));
    assert(views(o@) =~= seq![
        ("fromColumns"@, JsonTree::List(list)),
        ("toColumn"@, JsonTree::Text(column_fqn(to@, c@.to_column.column))),
    ]);
    if let Some(f) = c.display_function() {
        o.push(text_entry("function", f.as_str()));
    }
    json_object(o)
}

fn columns_lineage(e: &Edge, from: &FqnParts, to: &FqnParts) -> (r: Vec<Json>)
    ensures
        views(r@) == mapping_trees(e@, from@, to@, e@.column_lineage.len() as int),
{
    broadcast use group_views;

    let mut out: Vec<Json> = Vec::new();
    let mut i: usize = 0;
    while i < e.column_lineage.len()
        invariant
            i <= e.column_lineage@.len(),
            views(out@) == mapping_trees(e@, from@, to@, i as int),
        decreases e.column_lineage@.len() - i,
    {
        broadcast use group_views;

        let c = &e.column_lineage[i];
        assert(e@.column_lineage[i as int] == c@);
        if c.from_columns.len() > 0 {
            out.push(mapping_json(c, from, to));
        }
        i = i + 1;
    }
    out
}

/// The details of a request: its mappings, its description and its query.
pub open spec fn details_tree(e: EdgeView, from: FqnPartsView, to: FqnPartsView) -> JsonTree {
    let a = seq![
        (
            "columnsLineage"@,
            JsonTree::List(mapping_trees(e, from, to, e.column_lineage.len() as int)),
        ),
    ];
    let b = match described(e) {
        Some(d) => a.push(("description"@, JsonTree::Text(d))),
        None => a,
    };
    let c = match e.transform.sql {
        Some(q) => b.push(("sqlQuery"@, JsonTree::Text(q))),
        None => b,
    };
    object_of(c)
}

fn lineage_details(e: &Edge, from: &FqnParts, to: &FqnParts) -> (r: Json)
    ensures
        r@ == details_tree(e@, from@, to@),
{
    broadcast use group_views;

    let mut o: Vec<(String, Json)> = Vec::new();
    o.push(entry("columnsLineage", json_list(columns_lineage(e, from, to))));
    assert(views(o@) =~= seq![
        (
            "columnsLineage"@,
            JsonTree::List(mapping_trees(e@, from@, to@, e@.column_lineage.len() as int)),
        ),
    ]);
    if let Some(d) = edge_description(e) {
        o.push(text_entry("description", d.as_str()));
    }
    if let Some(q) = &e.transform.sql {
        o.push(text_entry("sqlQuery", q.as_str()));
    }
    json_object(o)
}

/// A table of a request: by its id, by its name, or by both.
pub open spec fn table_tree(id: Option<Seq<char>>, name: Option<Seq<char>>) -> JsonTree {
    let a = match id {
        Some(i) => seq![("id"@, JsonTree::Text(i))],
        None => Seq::empty(),
    };
    let b = a.push(("type"@, JsonTree::Text("table"@)));
    match name {
        Some(n) => object_of(b.push(("fullyQualifiedName"@, JsonTree::Text(n)))),
        None => object_of(b),
    }
}

/// A request.
pub open spec fn body_tree(from: JsonTree, to: JsonTree, details: JsonTree) -> JsonTree {
    object_of(
        seq![
            (
                "edge"@,
                object_of(
                    seq![("fromEntity"@, from), ("toEntity"@, to), ("lineageDetails"@, details)],
                ),
            ),
        ],
    )
}

fn table_json(id: Option<&str>, name: Option<&str>) -> (r: Json)
    ensures
        r@ == table_tree(
            match id {
                Some(i) => Some(i@),
                None => None,
            },
            match name {
                Some(n) => Some(n@),
                None => None,
            },
        ),
{
    broadcast use group_views;

    let mut o: Vec<(String, Json)> = Vec::new();
    if let Some(i) = id {
        o.push(text_entry("id", i));
        assert(views(o@) =~= seq![("id"@, JsonTree::Text(i@))]);
    }
    o.push(text_entry("type", "table"));
    if let Some(n) = name {
        o.push(text_entry("fullyQualifiedName", n));
    }
    json_object(o)
}

fn body_json(from: Json, to: Json, details: Json) -> (r: Json)
    ensures
        r@ == body_tree(from@, to@, details@),
{
    let ghost (f, t, d) = (from@, to@, details@);
    let mut o: Vec<(String, Json)> = Vec::new();
    o.push(entry("fromEntity", from));
    o.push(entry("toEntity", to));
    o.push(entry("lineageDetails", details));
    assert(views(o@) =~= seq![("fromEntity"@, f), ("toEntity"@, t), ("lineageDetails"@, d)]);
    let ghost inner = views(o@);
    let mut e: Vec<(String, Json)> = Vec::new();
    e.push(entry("edge", json_object(o)));
    assert(views(e@) =~= seq![("edge"@, object_of(inner))]);
    json_object(e)
}

// ───────────────────────────────── steps ──────────────────────────────

/// What is to be done for an edge.
#[derive(Debug)]
pub enum Step {
    /// Nothing can be sent; the text says why.
    Skip(String),
    /// The edge between two tables is to be sent.
    Push(Push),
}

/// An edge to be sent.
#[derive(Debug)]
pub struct Push {
    pub from_table: String,
    pub to_table: String,
    pub details: Json,
}

pub enum StepView {
    Skip(Seq<char>),
    Push { from_table: Seq<char>, to_table: Seq<char>, details: JsonTree },
}

impl View for Step {
    type V = StepView;

    open spec fn view(&self) -> StepView {
        match self {
            Step::Skip(s) => StepView::Skip(s@),
            Step::Push(p) => StepView::Push {
                from_table: p.from_table@,
                to_table: p.to_table@,
                details: p.details@,
            },
        }
    }
}

/// What is said about an edge that cannot be sent.
pub open spec fn skipped(e: EdgeView, why: Seq<char>) -> Seq<char> {
    "skip "@ + e.from + " -> "@ + e.to + " : "@ + why
}

/// What is to be done for an edge: it is skipped when a dataset is missing or
/// has no name in four parts.
pub open spec fn step_of(d: DocumentView, e: EdgeView, service: Option<Seq<char>>) -> StepView {
    if !has_dataset(d.datasets, e.from) || !has_dataset(d.datasets, e.to) {
        StepView::Skip(skipped(e, "dataset not found in document"@))
    } else {
        let f = resolved_fqn(d.datasets[dataset_index(d.datasets, e.from, 0)], service);
        let t = resolved_fqn(d.datasets[dataset_index(d.datasets, e.to, 0)], service);
        if f is None || t is None {
            StepView::Skip(skipped(e, "could not resolve a 4-part FQN"@))
        } else {
            StepView::Push {
                from_table: table_fqn(f->0),
                to_table: table_fqn(t->0),
                details: details_tree(e, f->0, t->0),
            }
        }
    }
}

/// The steps of a document, one for each edge in dependency order.
pub open spec fn steps_of(d: DocumentView, service: Option<Seq<char>>) -> Seq<StepView> {
    let es = topo_edges(d.edges);
    Seq::new(es.len(), |i: int| step_of(d, es[i], service))
}

fn skip(e: &Edge, why: &str) -> (r: Step)
    ensures
        r@ == StepView::Skip(skipped(e@, why@)),
{
    let mut s = "skip ".to_owned();
    s.append(e.from.as_str());
    s.append(" -> ");
    s.append(e.to.as_str());
    s.append(" : ");
    s.append(why);
    Step::Skip(s)
}

fn plan_edge(doc: &WeaveDocument, e: &Edge, service: &Option<String>) -> (r: Step)
    ensures
        r@ == step_of(doc@, e@, opt_text(*service)),
{
    match (doc.dataset(e.from.as_str()), doc.dataset(e.to.as_str())) {
        (Some(f), Some(t)) => match (resolve_fqn(f, service), resolve_fqn(t, service)) {
            (Some(f), Some(t)) => Step::Push(
                Push {
                    from_table: f.table_fqn(),
                    to_table: t.table_fqn(),
                    details: lineage_details(e, &f, &t),
                },
            ),
            _ => skip(e, "could not resolve a 4-part FQN"),
        },
        _ => skip(e, "dataset not found in document"),
    }
}

/// The steps of a document, one for each edge in dependency order.
pub fn plan(doc: &WeaveDocument, service: &Option<String>) -> (r: Vec<Step>)
    ensures
        views(r@) == steps_of(doc@, opt_text(*service)),
{
    let es = doc.edges_in_topo_order();
    let ghost ev = views(es@);
    let mut out: Vec<Step> = Vec::new();
    let mut i: usize = 0;
    while i < es.len()
        invariant
            i <= es@.len(),
            ev == views(es@),
            out@.len() == i,
            forall|k: int|
                0 <= k < i ==> (#[trigger] out@[k])@ == step_of(doc@, ev[k], opt_text(*service)),
        decreases es@.len() - i,
    {
        assert(ev[i as int] == es@[i as int]@);
        out.push(plan_edge(doc, es[i], service));
        i = i + 1;
    }
    assert(views(out@) =~= steps_of(doc@, opt_text(*service)));
    out
}

// ──────────────────────────────── dry runs ────────────────────────────

/// The requests of the first `n` steps, with the tables by name.
pub open spec fn dry_bodies(steps: Seq<StepView>, n: int) -> Seq<JsonTree>
    decreases n,
{
    if n <= 0 {
        Seq::empty()
    } else {
        match steps[n - 1] {
            StepView::Skip(_) => dry_bodies(steps, n - 1),
            StepView::Push { from_table, to_table, details } => dry_bodies(steps, n - 1).push(
                body_tree(
                    table_tree(None, Some(from_table)),
                    table_tree(None, Some(to_table)),
                    details,
                ),
            ),
        }
    }
}

/// What a dry run says about a step.
pub open spec fn dry_action(s: StepView) -> Seq<char> {
    match s {
        StepView::Skip(a) => a,
        StepView::Push { from_table, to_table, .. } => "would PUT .../v1/lineage : "@ + from_table
            + " -> "@ + to_table,
    }
}

/// The report of a dry run whose text is `artifact`.
pub open spec fn dry_report(steps: Seq<StepView>, artifact: Seq<char>) -> ExportReportView {
    ExportReportView {
        target: "openmetadata"@,
        artifact,
        actions: Seq::new(steps.len(), |i: int| dry_action(steps[i])),
        sent: 0,
        failed: 0,
    }
}

/// The requests that would be sent.
pub fn dry_run_bodies(steps: &Vec<Step>) -> (r: Vec<Json>)
    ensures
        views(r@) == dry_bodies(views(steps@), steps@.len() as int),
{
    broadcast use group_views;

    let ghost sv = views(steps@);
    let mut out: Vec<Json> = Vec::new();
    let mut i: usize = 0;
    while i < steps.len()
        invariant
            i <= steps@.len(),
            sv == views(steps@),
            views(out@) == dry_bodies(sv, i as int),
        decreases steps@.len() - i,
    {
        broadcast use group_views;

        assert(sv[i as int] == steps@[i as int]@);
        match &steps[i] {
            Step::Skip(_) => {},
            Step::Push(p) => {
                let from = table_json(None, Some(p.from_table.as_str()));
                let to = table_json(None, Some(p.to_table.as_str()));
                out.push(body_json(from, to, p.details.clone()));
            },
        }
        i = i + 1;
    }
    out
}

/// The report of a dry run whose text is `artifact`.
pub fn dry_run_report(steps: &Vec<Step>, artifact: String) -> (r: ExportReport)
    ensures
        r@ == dry_report(views(steps@), artifact@),
{
    let ghost sv = views(steps@);
    let mut actions: Vec<String> = Vec::new();
    let mut i: usize = 0;
    while i < steps.len()
        invariant
            i <= steps@.len(),
            sv == views(steps@),
            actions@.len() == i,
            forall|k: int| 0 <= k < i ==> (#[trigger] actions@[k])@ == dry_action(sv[k]),
        decreases steps@.len() - i,
    {
        assert(sv[i as int] == steps@[i as int]@);
        let a = match &steps[i] {
            Step::Skip(s) => s.clone(),
            Step::Push(p) => {
                let mut s = "would PUT .../v1/lineage : ".to_owned();
                s.append(p.from_table.as_str());
                s.append(" -> ");
                s.append(p.to_table.as_str());
                s
            },
        };
        actions.push(a);
        i = i + 1;
    }
    assert(views(actions@) =~= Seq::new(sv.len(), |i: int| dry_action(sv[i])));
    ExportReport { target: "openmetadata".to_owned(), artifact, actions, sent: 0, failed: 0 }
}

/// Builds the requests of a document and sends nothing.
pub fn export_dry_run(doc: &WeaveDocument, service: &Option<String>) -> (r: Result<
    ExportReport,
    String,
>)
    ensures
        ({
            let steps = steps_of(doc@, opt_text(*service));
            match pretty_text(JsonTree::List(dry_bodies(steps, steps.len() as int))) {
                Ok(s) => r matches Ok(x) && x@ == dry_report(steps, s),
                Err(e) => r matches Err(x) && x@ == e,
            }
        }),
{
    let steps = plan(doc, service);
    let list = json_list(dry_run_bodies(&steps));
    match json_pretty(&list) {
        Ok(artifact) => Ok(dry_run_report(&steps, artifact)),
        Err(e) => Err(e),
    }
}

/// True when an export talks to the server: it is no dry run, and both the
/// address and the token are there.
pub open spec fn goes_live(c: ExportConfigView) -> bool {
    !c.dry_run && c.om_host is Some && c.om_token is Some
}

pub fn is_live(cfg: &ExportConfig) -> (r: bool)
    ensures
        r == goes_live(cfg@),
{
    !cfg.dry_run && cfg.om_host.is_some() && cfg.om_token.is_some()
}

// ──────────────────────────────── retries ─────────────────────────────

/// How a request failed.
#[derive(Debug, Clone, Copy, PartialEq, Eq, Structural)]
pub enum Failure {
    /// The server answered with a status that is an error.
    Status(u16),
    /// Reading or writing failed.
    Io,
    Timeout,
    ConnectionFailed,
    /// The body of the answer did not arrive.
    BodyStalled,
    /// Anything else, such as a malformed address.
    Permanent,
}

/// True for a failure that may pass: an unreliable connection, or a status
/// that says that the server is busy or down.
pub open spec fn may_pass(f: Failure) -> bool {
    match f {
        Failure::Status(s) => s == 429 || s == 500 || s == 502 || s == 503 || s == 504,
        Failure::Io | Failure::Timeout | Failure::ConnectionFailed | Failure::BodyStalled => true,
        Failure::Permanent => false,
    }
}

pub fn is_retryable(f: Failure) -> (r: bool)
    ensures
        r == may_pass(f),
{
    match f {
        Failure::Status(s) => s == 429 || s == 500 || s == 502 || s == 503 || s == 504,
        Failure::Io | Failure::Timeout | Failure::ConnectionFailed | Failure::BodyStalled => true,
        Failure::Permanent => false,
    }
}

/// The milliseconds to wait before a request is tried again, after it was
/// tried again `attempt` times and failed: twice as long each time, from 400
/// up to 8000. None when it is not tried again.
pub open spec fn retry_delay(attempt: u32, retries: u32, f: Failure) -> Option<u64> {
    if attempt >= retries || !may_pass(f) {
        None
    } else if 200 * pow2((attempt + 1) as nat) < 8000 {
        Some((200 * pow2((attempt + 1) as nat)) as u64)
    } else {
        Some(8000)
    }
}

/// The milliseconds to wait before a failed request is tried again.
pub fn retry_after(attempt: u32, retries: u32, f: Failure) -> (r: Option<u64>)
    ensures
        r == retry_delay(attempt, retries, f),
{
    if attempt >= retries || !is_retryable(f) {
        return None;
    }
    proof {
        lemma2_to64();
        if attempt > 5 {
            lemma_pow2_strictly_increases(6, (attempt + 1) as nat);
        }
    }
    if attempt == 0 {
        Some(400)
    } else if attempt == 1 {
        Some(800)
    } else if attempt == 2 {
        Some(1600)
    } else if attempt == 3 {
        Some(3200)
    } else if attempt == 4 {
        Some(6400)
    } else {
        Some(8000)
    }
}

// ──────────────────────────────── live runs ───────────────────────────

/// The id in the answer to a lookup of a table.
pub open spec fn looked_up(reply: JsonTree, fqn: Seq<char>) -> Result<Seq<char>, Seq<char>> {
    match member_text(reply, "id"@) {
        Some(id) => Ok(id),
        None => Err("response for "@ + fqn + " had no string `id`"@),
    }
}

/// The id in the answer to a lookup of a table.
pub fn table_id(reply: &Json, fqn: &str) -> (r: Result<String, String>)
    ensures
        match looked_up(reply@, fqn@) {
            Ok(id) => r matches Ok(x) && x@ == id,
            Err(e) => r matches Err(x) && x@ == e,
        },
{
    match json_member_text(reply, "id") {
        Some(id) => Ok(id),
        None => {
            let mut e = "response for ".to_owned();
            e.append(fqn);
            e.append(" had no string `id`");
            Err(e)
        },
    }
}

/// What a live run does next.
#[derive(Debug)]
pub enum LiveAction {
    /// Look up the id of a table.
    Find(String),
    /// Put a request.
    Put(Json),
    /// Everything was dealt with.
    Finish,
}

pub enum LiveActionView {
    Find(Seq<char>),
    Put(JsonTree),
    Finish,
}

impl View for LiveAction {
    type V = LiveActionView;

    open spec fn view(&self) -> LiveActionView {
        match self {
            LiveAction::Find(t) => LiveActionView::Find(t@),
            LiveAction::Put(b) => LiveActionView::Put(b@),
            LiveAction::Finish => LiveActionView::Finish,
        }
    }
}

/// How many of the first `n` steps are to be sent.
pub open spec fn pushes_upto(steps: Seq<StepView>, n: int) -> nat
    decreases n,
{
    if n <= 0 {
        0
    } else {
        pushes_upto(steps, n - 1) + if steps[n - 1] is Push {
            1nat
        } else {
            0
        }
    }
}

/// How many of the first `n` steps are skipped.
pub open spec fn skips_upto(steps: Seq<StepView>, n: int) -> nat
    decreases n,
{
    if n <= 0 {
        0
    } else {
        skips_upto(steps, n - 1) + if steps[n - 1] is Skip {
            1nat
        } else {
            0
        }
    }
}

proof fn pushes_and_skips(steps: Seq<StepView>, n: int)
    requires
        0 <= n <= steps.len(),
    ensures
        pushes_upto(steps, n) + skips_upto(steps, n) == n,
    decreases n,
{
    if n > 0 {
        pushes_and_skips(steps, n - 1);
    }
}

fn count_pushes(steps: &Vec<Step>) -> (r: usize)
    ensures
        r == pushes_upto(views(steps@), steps@.len() as int),
{
    let ghost sv = views(steps@);
    let mut n: usize = 0;
    let mut i: usize = 0;
    while i < steps.len()
        invariant
            i <= steps@.len(),
            sv == views(steps@),
            n <= i,
            n == pushes_upto(sv, i as int),
        decreases steps@.len() - i,
    {
        assert(sv[i as int] == steps@[i as int]@);
        if let Step::Push(_) = &steps[i] {
            n = n + 1;
        }
        i = i + 1;
    }
    n
}

/// A live run: how far it is, and what came of it.
pub struct Live {
    url: String,
    steps: Vec<Step>,
    at: usize,
    from_id: Option<String>,
    to_id: Option<String>,
    bodies: Vec<Json>,
    actions: Vec<String>,
}

#[verifier::ext_equal]
pub struct LiveView {
    /// Where requests are put to.
    pub url: Seq<char>,
    pub steps: Seq<StepView>,
    /// The step that is being dealt with.
    pub at: int,
    pub from_id: Option<Seq<char>>,
    pub to_id: Option<Seq<char>>,
    /// The requests that were accepted.
    pub bodies: Seq<JsonTree>,
    /// What was said, once for each step that was dealt with.
    pub actions: Seq<Seq<char>>,
}

impl View for Live {
    type V = LiveView;

    closed spec fn view(&self) -> LiveView {
        LiveView {
            url: self.url@,
            steps: views(self.steps@),
            at: self.at as int,
            from_id: opt_text(self.from_id),
            to_id: opt_text(self.to_id),
            bodies: views(self.bodies@),
            actions: views(self.actions@),
        }
    }
}

impl LiveView {
    /// True when one line was said for each step that was dealt with, that of
    /// the step for one that is skipped, and at most one request was accepted
    /// for each of the others.
    pub open spec fn recounts(self) -> bool {
        &&& 0 <= self.at <= self.steps.len()
        &&& self.actions.len() == self.at
        &&& forall|i: int|
            0 <= i < self.at ==> ((#[trigger] self.steps[i]) matches StepView::Skip(said)
                ==> self.actions[i] == said)
        &&& self.bodies.len() <= pushes_upto(self.steps, self.at)
    }

    /// True when the run is in step: it recounts what was dealt with, and the
    /// step at hand is one to be sent.
    pub open spec fn in_step(self) -> bool {
        &&& self.recounts()
        &&& self.at < self.steps.len() ==> self.steps[self.at] is Push
        &&& self.from_id is None ==> self.to_id is None
    }

    /// The run after a request was accepted.
    pub open spec fn with_body(self, body: Option<JsonTree>) -> LiveView {
        match body {
            Some(b) => LiveView { bodies: self.bodies.push(b), ..self },
            None => self,
        }
    }

    /// The run after the step at hand was dealt with.
    pub open spec fn dealt(self, said: Seq<char>) -> LiveView {
        LiveView {
            at: self.at + 1,
            from_id: None,
            to_id: None,
            actions: self.actions.push(said),
            ..self
        }
    }

    /// The run after the steps at hand that are skipped.
    pub open spec fn skipping(self) -> LiveView
        decreases self.steps.len() - self.at,
    {
        if 0 <= self.at < self.steps.len() {
            match self.steps[self.at] {
                StepView::Skip(said) => self.dealt(said).skipping(),
                StepView::Push { .. } => self,
            }
        } else {
            self
        }
    }

    /// The run at its start.
    pub open spec fn start(url: Seq<char>, steps: Seq<StepView>) -> LiveView {
        LiveView {
            url,
            steps,
            at: 0,
            from_id: None,
            to_id: None,
            bodies: Seq::empty(),
            actions: Seq::empty(),
        }.skipping()
    }

    /// The two tables of the step at hand.
    pub open spec fn tables(self) -> Seq<char> {
        match self.steps[self.at] {
            StepView::Push { from_table, to_table, .. } => from_table + " -> "@ + to_table,
            StepView::Skip(s) => s,
        }
    }

    /// What the run does next: it looks both tables up and puts the request.
    pub open spec fn next(self) -> LiveActionView {
        if self.at >= self.steps.len() {
            LiveActionView::Finish
        } else {
            match self.steps[self.at] {
                StepView::Push { from_table, to_table, details } => match (
                    self.from_id,
                    self.to_id,
                ) {
                    (None, _) => LiveActionView::Find(from_table),
                    (Some(_), None) => LiveActionView::Find(to_table),
                    (Some(f), Some(t)) => LiveActionView::Put(
                        body_tree(table_tree(Some(f), None), table_tree(Some(t), None), details),
                    ),
                },
                StepView::Skip(_) => LiveActionView::Finish,
            }
        }
    }

    /// The run after a table was looked up. A failure ends the step.
    pub open spec fn after_find(self, found: Result<Seq<char>, Seq<char>>) -> LiveView {
        match found {
            Ok(id) => if self.from_id is None {
                LiveView { from_id: Some(id), ..self }
            } else {
                LiveView { to_id: Some(id), ..self }
            },
            Err(e) => self.dealt(
                "error "@ + self.tables() + (if self.from_id is None {
                    " : resolving from-table id: "@
                } else {
                    " : resolving to-table id: "@
                }) + e,
            ).skipping(),
        }
    }

    /// The request of the step at hand as it is recorded: with the names of
    /// the tables beside their ids.
    pub open spec fn recorded(self) -> JsonTree {
        match self.steps[self.at] {
            StepView::Push { from_table, to_table, details } => body_tree(
                table_tree(self.from_id, Some(from_table)),
                table_tree(self.to_id, Some(to_table)),
                details,
            ),
            StepView::Skip(_) => JsonTree::Null,
        }
    }

    /// The run after a request was put: accepted with a status, or refused.
    pub open spec fn after_put(self, put: Result<Seq<char>, Seq<char>>) -> LiveView {
        match put {
            Ok(status) => {
                let said = "PUT "@ + self.url + " ["@ + status + "] : "@ + self.tables();
                self.with_body(Some(self.recorded())).dealt(said).skipping()
            },
            Err(e) => self.dealt(
                "error PUT "@ + self.url + " : "@ + self.tables() + " : "@ + e,
            ).skipping(),
        }
    }

    /// The report of a run that is finished, whose text is `artifact`.
    pub open spec fn report(self, artifact: Seq<char>) -> ExportReportView {
        ExportReportView {
            target: "openmetadata"@,
            artifact,
            actions: self.actions,
            sent: self.bodies.len(),
            failed: (pushes_upto(self.steps, self.steps.len() as int) - self.bodies.len()) as nat,
        }
    }
}

/// Skipping keeps a run in step.
proof fn skipping_in_step(v: LiveView)
    requires
        v.recounts(),
        v.from_id is None ==> v.to_id is None,
    ensures
        v.skipping().in_step(),
    decreases v.steps.len() - v.at,
{
    if v.at < v.steps.len() {
        if let StepView::Skip(said) = v.steps[v.at] {
            skipping_in_step(v.dealt(said));
        }
    }
}

/// Passes over the steps that are skipped.
fn skip_steps(steps: &Vec<Step>, from: usize, said: Vec<String>, Ghost(v): Ghost<LiveView>) -> (r: (
    usize,
    Vec<String>,
))
    requires
        v.steps == views(steps@),
        v.at == from,
        from <= steps@.len(),
        v.actions == views(said@),
        v.from_id is None,
        v.to_id is None,
    ensures
        r.0 <= steps@.len(),
        v.skipping() == (LiveView { at: r.0 as int, actions: views(r.1@), ..v }),
{
    let mut at: usize = from;
    let mut actions = said;
    let ghost mut now = v;
    while at < steps.len()
        invariant
            at <= steps@.len(),
            now.steps == views(steps@),
            now == (LiveView { at: at as int, actions: views(actions@), ..v }),
            v.from_id is None,
            v.to_id is None,
            now.skipping() == v.skipping(),
        decreases steps@.len() - at,
    {
        broadcast use group_views;

        assert(now.steps[at as int] == steps@[at as int]@);
        match &steps[at] {
            Step::Skip(s) => {
                actions.push(s.clone());
                proof {
                    now = now.dealt(s@);
                }
            },
            Step::Push(_) => {
                return (at, actions);
            },
        }
        at = at + 1;
    }
    (at, actions)
}

impl Live {
    #[verifier::type_invariant]
    spec fn sound(&self) -> bool {
        self@.in_step()
    }

    /// A live run over the steps of a document.
    pub fn new(host: &str, steps: Vec<Step>) -> (r: Live)
        ensures
            r@ == LiveView::start(lineage_url(host@), views(steps@)),
            r@.in_step(),
    {
        broadcast use group_views;

        let url = lineage_address(host);
        let ghost first = LiveView {
            url: url@,
            steps: views(steps@),
            at: 0,
            from_id: None,
            to_id: None,
            bodies: Seq::empty(),
            actions: Seq::empty(),
        };
        proof {
            skipping_in_step(first);
        }
        let (at, actions) = skip_steps(&steps, 0, Vec::new(), Ghost(first));
        Live { url, steps, at, from_id: None, to_id: None, bodies: Vec::new(), actions }
    }

    /// What the run does next.
    pub fn next(&self) -> (r: LiveAction)
        ensures
            r@ == self@.next(),
    {
        proof {
            use_type_invariant(self);
        }
        if self.at >= self.steps.len() {
            return LiveAction::Finish;
        }
        assert(self@.steps[self.at as int] == self.steps@[self.at as int]@);
        match &self.steps[self.at] {
            Step::Push(p) => match (&self.from_id, &self.to_id) {
                (None, _) => LiveAction::Find(p.from_table.clone()),
                (Some(_), None) => LiveAction::Find(p.to_table.clone()),
                (Some(f), Some(t)) => LiveAction::Put(
                    body_json(
                        table_json(Some(f.as_str()), None),
                        table_json(Some(t.as_str()), None),
                        p.details.clone(),
                    ),
                ),
            },
            Step::Skip(_) => LiveAction::Finish,
        }
    }
}

impl Live {
    /// The step at hand was dealt with.
    fn deal(self, said: String, body: Option<Json>) -> (r: Live)
        requires
            self@.at < self@.steps.len(),
        ensures
            r@ == self@.with_body(opt_view(body)).dealt(said@).skipping(),
            r@.in_step(),
    {
        broadcast use group_views;

        proof {
            use_type_invariant(&self);
        }
        let ghost before = self@.with_body(opt_view(body));
        let _total: usize = self.steps.len();
        assert(self.at < _total);
        let Live { url, steps, at, from_id: _, to_id: _, bodies, actions } = self;
        let mut bodies = bodies;
        if let Some(b) = body {
            bodies.push(b);
        }
        let mut actions = actions;
        let ghost line = said@;
        actions.push(said);
        let ghost v = before.dealt(line);
        proof {
            skipping_in_step(v);
        }
        let (at, actions) = skip_steps(&steps, at + 1, actions, Ghost(v));
        Live { url, steps, at, from_id: None, to_id: None, bodies, actions }
    }

    fn tables_at_hand(&self) -> (r: String)
        requires
            self@.at < self@.steps.len(),
        ensures
            r@ == self@.tables(),
    {
        proof {
            use_type_invariant(self);
        }
        assert(self@.steps[self.at as int] == self.steps@[self.at as int]@);
        match &self.steps[self.at] {
            Step::Push(p) => {
                let mut s = p.from_table.clone();
                s.append(" -> ");
                s.append(p.to_table.as_str());
                s
            },
            Step::Skip(s) => s.clone(),
        }
    }

    /// A table was looked up: its id, or why it was not found.
    pub fn on_find(self, found: Result<String, String>) -> (r: Live)
        requires
            self@.next() is Find,
        ensures
            r@ == self@.after_find(
                match found {
                    Ok(id) => Ok(id@),
                    Err(e) => Err(e@),
                },
            ),
            r@.in_step(),
    {
        proof {
            use_type_invariant(&self);
        }
        match found {
            Ok(id) => {
                let Live { url, steps, at, from_id, to_id: _, bodies, actions } = self;
                match from_id {
                    None => Live {
                        url,
                        steps,
                        at,
                        from_id: Some(id),
                        to_id: None,
                        bodies,
                        actions,
                    },
                    Some(f) => Live {
                        url,
                        steps,
                        at,
                        from_id: Some(f),
                        to_id: Some(id),
                        bodies,
                        actions,
                    },
                }
            },
            Err(e) => {
                let mut said = "error ".to_owned();
                said.append(self.tables_at_hand().as_str());
                if self.from_id.is_none() {
                    said.append(" : resolving from-table id: ");
                } else {
                    said.append(" : resolving to-table id: ");
                }
                said.append(e.as_str());
                self.deal(said, None)
            },
        }
    }

    fn recorded_body(&self) -> (r: Json)
        requires
            self@.next() is Put,
        ensures
            r@ == self@.recorded(),
    {
        proof {
            use_type_invariant(self);
        }
        assert(self@.steps[self.at as int] == self.steps@[self.at as int]@);
        let from_id = match &self.from_id {
            Some(f) => Some(f.as_str()),
            None => None,
        };
        let to_id = match &self.to_id {
            Some(t) => Some(t.as_str()),
            None => None,
        };
        match &self.steps[self.at] {
            Step::Push(p) => body_json(
                table_json(from_id, Some(p.from_table.as_str())),
                table_json(to_id, Some(p.to_table.as_str())),
                p.details.clone(),
            ),
            Step::Skip(s) => json_text(s.as_str()),
        }
    }

    /// The request was put: the status that it was accepted with, or why it
    /// was refused.
    pub fn on_put(self, put: Result<String, String>) -> (r: Live)
        requires
            self@.next() is Put,
        ensures
            r@ == self@.after_put(
                match put {
                    Ok(status) => Ok(status@),
                    Err(e) => Err(e@),
                },
            ),
            r@.in_step(),
    {
        match put {
            Ok(status) => {
                let mut said = "PUT ".to_owned();
                said.append(self.url.as_str());
                said.append(" [");
                said.append(status.as_str());
                said.append("] : ");
                said.append(self.tables_at_hand().as_str());
                let body = self.recorded_body();
                self.deal(said, Some(body))
            },
            Err(e) => {
                let mut said = "error PUT ".to_owned();
                said.append(self.url.as_str());
                said.append(" : ");
                said.append(self.tables_at_hand().as_str());
                said.append(" : ");
                said.append(e.as_str());
                self.deal(said, None)
            },
        }
    }

    /// The report of a run that is finished. An edge that was to be sent was
    /// handed over or failed; one that was skipped did neither, and is told of.
    pub fn finish(self) -> (r: Result<ExportReport, String>)
        requires
            self@.next() is Finish,
        ensures
            match pretty_text(JsonTree::List(self@.bodies)) {
                Ok(s) => r matches Ok(x) && x@ == self@.report(s),
                Err(e) => r matches Err(x) && x@ == e,
            },
            r matches Ok(x) ==> {
                let n = self@.steps.len() as int;
                &&& x@.sent + x@.failed == pushes_upto(self@.steps, n)
                &&& x@.sent + x@.failed + skips_upto(self@.steps, n) == n
                &&& x@.actions.len() == n
                &&& forall|i: int|
                    0 <= i < n ==> ((#[trigger] self@.steps[i]) matches StepView::Skip(said)
                        ==> x@.actions[i] == said)
            },
    {
        proof {
            use_type_invariant(&self);
            pushes_and_skips(self@.steps, self@.steps.len() as int);
        }
        let ghost v = self@;
        let Live { url: _, steps, at: _, from_id: _, to_id: _, bodies, actions } = self;
        let sent: usize = bodies.len();
        let failed: usize = count_pushes(&steps) - sent;
        let list = json_list(bodies);
        match json_pretty(&list) {
            Ok(artifact) => Ok(
                ExportReport {
                    target: "openmetadata".to_owned(),
                    artifact,
                    actions,
                    sent,
                    failed,
                },
            ),
            Err(e) => Err(e),
        }
    }
}

/// What an export came to: a report, or a live run that is to be driven.
pub enum Exported {
    Report(ExportReport),
    Live(Live),
}

impl Exported {
    /// The report, when there is one.
    pub fn into_report(self) -> (r: Option<ExportReport>)
        ensures
            match self {
                Exported::Report(x) => r == Some(x),
                Exported::Live(_) => r is None,
            },
    {
        match self {
            Exported::Report(x) => Some(x),
            Exported::Live(_) => None,
        }
    }
}

/// Exports a document: a live run over its edges when the server can be
/// reached, or else a dry run.
pub fn export(doc: &WeaveDocument, cfg: &ExportConfig) -> (r: Result<Exported, String>)
    ensures
        ({
            let steps = steps_of(doc@, cfg@.om_service_override);
            if goes_live(cfg@) {
                r matches Ok(Exported::Live(run)) && run@ == LiveView::start(
                    lineage_url(cfg@.om_host->0),
                    steps,
                )
            } else {
                match pretty_text(JsonTree::List(dry_bodies(steps, steps.len() as int))) {
                    Ok(s) => r matches Ok(Exported::Report(x)) && x@ == dry_report(steps, s),
                    Err(e) => r matches Err(x) && x@ == e,
                }
            }
        }),
{
    if is_live(cfg) {
        if let Some(host) = &cfg.om_host {
            return Ok(
                Exported::Live(Live::new(host.as_str(), plan(doc, &cfg.om_service_override))),
            );
        }
    }
    match export_dry_run(doc, &cfg.om_service_override) {
        Ok(report) => Ok(Exported::Report(report)),
        Err(e) => Err(e),
    }
}

// ──────────────────────────────── laws ────────────────────────────────

/// How many tables of the step at hand were looked up.
pub open spec fn ids_known(v: LiveView) -> nat {
    (if v.from_id is Some {
        1nat
    } else {
        0nat
    }) + (if v.to_id is Some {
        1nat
    } else {
        0nat
    })
}

proof fn skipping_goes_on(v: LiveView)
    requires
        0 <= v.at,
    ensures
        v.skipping().at >= v.at,
        v.skipping().steps == v.steps,
    decreases v.steps.len() - v.at,
{
    if v.at < v.steps.len() {
        if let StepView::Skip(said) = v.steps[v.at] {
            skipping_goes_on(v.dealt(said));
        }
    }
}

/// A live run comes to an end: whatever the server answers, each action brings
/// it to a later step, or one lookup further in the same step.
pub proof fn live_run_advances(v: LiveView, answer: Result<Seq<char>, Seq<char>>)
    requires
        v.in_step(),
    ensures
        v.next() is Find ==> {
            let r = v.after_find(answer);
            r.steps == v.steps && (r.at > v.at || (r.at == v.at && ids_known(r) == ids_known(v)
                + 1))
        },
        v.next() is Put ==> v.after_put(answer).steps == v.steps && v.after_put(answer).at > v.at,
        v.next() is Finish ==> v.at == v.steps.len(),
{
    if v.next() is Find {
        if let Err(e) = answer {
            skipping_goes_on(
                v.dealt(
                    "error "@ + v.tables() + (if v.from_id is None {
                        " : resolving from-table id: "@
                    } else {
                        " : resolving to-table id: "@
                    }) + e,
                ),
            );
        }
    }
    if v.next() is Put {
        match answer {
            Ok(status) => {
                skipping_goes_on(
                    v.with_body(Some(v.recorded())).dealt(
                        "PUT "@ + v.url + " ["@ + status + "] : "@ + v.tables(),
                    ),
                );
            },
            Err(e) => {
                skipping_goes_on(
                    v.dealt("error PUT "@ + v.url + " : "@ + v.tables() + " : "@ + e),
                );
            },
        }
    }
}

/// An export accounts for every edge: there is a step for each, and a dry run
/// says what would be done in each.
pub proof fn every_edge_is_accounted_for(d: DocumentView, service: Option<Seq<char>>, artifact: Seq<char>)
    ensures
        steps_of(d, service).len() == d.edges.len(),
        dry_report(steps_of(d, service), artifact).actions.len() == d.edges.len(),
{
    topo_order_is_sorted_permutation(d.edges);
    assert(topo_edges(d.edges).to_multiset().len() == d.edges.to_multiset().len());
    topo_edges(d.edges).to_multiset_ensures();
    d.edges.to_multiset_ensures();
}

proof fn encoded_front(bytes: Seq<u8>, n: int)
    requires
        0 < n <= bytes.len(),
    ensures
        encoded_upto(bytes, n) == encoded_byte(bytes[0]) + encoded_upto(
            bytes.drop_first(),
            n - 1,
        ),
    decreases n,
{
    let t = bytes.drop_first();
    if n == 1 {
        assert(encoded_upto(bytes, 0) =~= Seq::<char>::empty());
        assert(encoded_upto(t, 0) =~= Seq::<char>::empty());
        assert(encoded_upto(bytes, 1) =~= encoded_byte(bytes[0]));
        assert(encoded_byte(bytes[0]) + encoded_upto(t, 0) =~= encoded_byte(bytes[0]));
    } else {
        encoded_front(bytes, n - 1);
        assert(t[n - 2] == bytes[n - 1]);
        assert(encoded_upto(bytes, n) =~= encoded_byte(bytes[0]) + (encoded_upto(t, n - 2)
            + encoded_byte(bytes[n - 1])));
    }
}

proof fn encoded_bytes_differ(a: Seq<u8>, b: Seq<u8>)
    requires
        encoded_upto(a, a.len() as int) == encoded_upto(b, b.len() as int),
    ensures
        a == b,
    decreases a.len(),
{
    let ea = encoded_upto(a, a.len() as int);
    let eb = encoded_upto(b, b.len() as int);
    if a.len() > 0 {
        encoded_front(a, a.len() as int);
    }
    if b.len() > 0 {
        encoded_front(b, b.len() as int);
    }
    if a.len() == 0 || b.len() == 0 {
        if a.len() > 0 {
            assert(ea.len() > 0);
        }
        if b.len() > 0 {
            assert(eb.len() > 0);
        }
        assert(a =~= b);
    } else {
        let x = encoded_byte(a[0]);
        let y = encoded_byte(b[0]);
        assert(ea[0] == x[0] && eb[0] == y[0]);
        if x.len() == 3 && y.len() == 3 {
            assert(ea[1] == x[1] && eb[1] == y[1]);
            assert(ea[2] == x[2] && eb[2] == y[2]);
        }
        assert(a[0] == b[0]);
        assert(ea.subrange(x.len() as int, ea.len() as int) =~= encoded_upto(
            a.drop_first(),
            a.len() - 1,
        ));
        assert(eb.subrange(y.len() as int, eb.len() as int) =~= encoded_upto(
            b.drop_first(),
            b.len() - 1,
        ));
        encoded_bytes_differ(a.drop_first(), b.drop_first());
        assert(a =~= seq![a[0]] + a.drop_first());
        assert(b =~= seq![b[0]] + b.drop_first());
    }
}

/// Different names stay different in an address.
pub proof fn percent_encoding_is_injective(a: Seq<char>, b: Seq<char>)
    requires
        percent_encoded(a) == percent_encoded(b),
    ensures
        a == b,
{
    encoded_bytes_differ(encode_utf8(a), encode_utf8(b));
    encode_utf8_decode_utf8(a);
    encode_utf8_decode_utf8(b);
}

} // verus!

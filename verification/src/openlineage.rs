//! OpenLineage events: one completed run for each job, with the column lineage
//! of its outputs.

use vstd::prelude::*;
use vstd::utf8::encode_utf8;

use crate::export::{ExportConfig, ExportConfigView, ExportReport, ExportReportView};
use crate::graph::topo_edges;
use crate::json::{
    entry, json_bool, json_list, json_object, json_pretty, object_of, pretty_text, text_entry, Json,
    JsonTree,
};
use crate::model::{
    dataset_index, edge_has_inferred, shown_function, ColumnEdge, ColumnEdgeView, DocumentView,
    Edge, EdgeView, Job, JobView, TransformType, WeaveDocument,
};
use crate::text::{decimal, decimal_of, group_views, str_eq, text_of, views};

verus! {

// ───────────────────────────────── run ids ────────────────────────────

/// The hash of the first `n` bytes: each byte is mixed in, and the whole is
/// multiplied by a prime, in 64 bits.
pub open spec fn hash_upto(seed: u64, bytes: Seq<u8>, n: int) -> u64
    decreases n,
{
    if n <= 0 {
        seed
    } else {
        (hash_upto(seed, bytes, n - 1) ^ (bytes[n - 1] as u64)).wrapping_mul(0x100000001b3)
    }
}

fn fnv(seed: u64, bytes: &[u8]) -> (r: u64)
    ensures
        r == hash_upto(seed, bytes@, bytes@.len() as int),
{
    let mut h: u64 = seed;
    let mut i: usize = 0;
    while i < bytes.len()
        invariant
            i <= bytes@.len(),
            h == hash_upto(seed, bytes@, i as int),
        decreases bytes@.len() - i,
    {
        h = (h ^ (bytes[i] as u64)).wrapping_mul(0x100000001b3);
        i = i + 1;
    }
    h
}

/// A hexadecimal digit.
pub open spec fn hex_digit(d: int) -> char {
    if d == 0 {
        '0'
    } else if d == 1 {
        '1'
    } else if d == 2 {
        '2'
    } else if d == 3 {
        '3'
    } else if d == 4 {
        '4'
    } else if d == 5 {
        '5'
    } else if d == 6 {
        '6'
    } else if d == 7 {
        '7'
    } else if d == 8 {
        '8'
    } else if d == 9 {
        '9'
    } else if d == 10 {
        'a'
    } else if d == 11 {
        'b'
    } else if d == 12 {
        'c'
    } else if d == 13 {
        'd'
    } else if d == 14 {
        'e'
    } else {
        'f'
    }
}

/// The last `width` hexadecimal digits of a number.
pub open spec fn hex_digits(v: nat, width: nat) -> Seq<char>
    decreases width,
{
    if width == 0 {
        Seq::empty()
    } else {
        hex_digits(v / 16, (width - 1) as nat).push(hex_digit((v % 16) as int))
    }
}

fn hex_char(d: u64) -> (r: char)
    requires
        d < 16,
    ensures
        r == hex_digit(d as int),
{
    if d == 0 {
        '0'
    } else if d == 1 {
        '1'
    } else if d == 2 {
        '2'
    } else if d == 3 {
        '3'
    } else if d == 4 {
        '4'
    } else if d == 5 {
        '5'
    } else if d == 6 {
        '6'
    } else if d == 7 {
        '7'
    } else if d == 8 {
        '8'
    } else if d == 9 {
        '9'
    } else if d == 10 {
        'a'
    } else if d == 11 {
        'b'
    } else if d == 12 {
        'c'
    } else if d == 13 {
        'd'
    } else if d == 14 {
        'e'
    } else {
        'f'
    }
}

fn hex_of(v: u64, width: usize) -> (r: Vec<char>)
    ensures
        r@ == hex_digits(v as nat, width as nat),
    decreases width,
{
    if width == 0 {
        return Vec::new();
    }
    let mut r = hex_of(v / 16, width - 1);
    r.push(hex_char(v % 16));
    r
}

/// The two hashes of a job id, one after the other, in hexadecimal digits.
pub open spec fn id_digits(id: Seq<char>) -> Seq<char> {
    let b = encode_utf8(id);
    let h1 = hash_upto(0xcbf29ce484222325, b, b.len() as int);
    let h2 = hash_upto(h1, b, b.len() as int);
    hex_digits(h1 as nat, 16) + hex_digits(h2 as nat, 16)
}

/// The run id of a job, in the shape of a UUID.
pub open spec fn run_id(id: Seq<char>) -> Seq<char> {
    let h = id_digits(id);
    h.subrange(0, 8) + "-"@ + h.subrange(8, 12) + "-"@ + h.subrange(12, 16) + "-"@ + h.subrange(
        16,
        20,
    ) + "-"@ + h.subrange(20, 32)
}

/// A run id that only depends on the job id.
pub fn deterministic_run_id(job_id: &str) -> (r: String)
    ensures
        r@ == run_id(job_id@),
{
    let bytes = job_id.as_bytes();
    let h1: u64 = fnv(0xcbf29ce484222325, bytes);
    let h2: u64 = fnv(h1, bytes);
    let mut hex = hex_of(h1, 16);
    let mut low = hex_of(h2, 16);
    hex.append(&mut low);
    proof {
        hex_digits_are_hex(h1 as nat, 16);
        hex_digits_are_hex(h2 as nat, 16);
    }
    assert(hex@ == id_digits(job_id@));
    let mut s = text_of(&hex, 0, 8);
    s.append("-");
    s.append(text_of(&hex, 8, 12).as_str());
    s.append("-");
    s.append(text_of(&hex, 12, 16).as_str());
    s.append("-");
    s.append(text_of(&hex, 16, 20).as_str());
    s.append("-");
    s.append(text_of(&hex, 20, 32).as_str());
    s
}

/// True for a digit of a run id.
pub open spec fn is_hex_digit(c: char) -> bool {
    '0' <= c && c <= '9' || 'a' <= c && c <= 'f'
}

proof fn hex_digits_are_hex(v: nat, width: nat)
    ensures
        hex_digits(v, width).len() == width,
        forall|i: int| 0 <= i < width ==> is_hex_digit(#[trigger] hex_digits(v, width)[i]),
    decreases width,
{
    if width > 0 {
        hex_digits_are_hex(v / 16, (width - 1) as nat);
    }
}

/// Every run id has the shape of a UUID: groups of 8, 4, 4, 4 and 12 digits
/// with a dash between them.
pub proof fn run_id_has_uuid_shape(id: Seq<char>)
    ensures
        run_id(id).len() == 36,
        forall|i: int|
            0 <= i < 36 ==> if i == 8 || i == 13 || i == 18 || i == 23 {
                #[trigger] run_id(id)[i] == '-'
            } else {
                is_hex_digit(run_id(id)[i])
            },
{
    let b = encode_utf8(id);
    let h1 = hash_upto(0xcbf29ce484222325, b, b.len() as int);
    let h2 = hash_upto(h1, b, b.len() as int);
    hex_digits_are_hex(h1 as nat, 16);
    hex_digits_are_hex(h2 as nat, 16);
    reveal_strlit("-");
    let h = id_digits(id);
    let r = run_id(id);
    assert forall|i: int| 0 <= i < 32 implies is_hex_digit(#[trigger] h[i]) by {
        if i < 16 {
            assert(h[i] == hex_digits(h1 as nat, 16)[i]);
        } else {
            assert(h[i] == hex_digits(h2 as nat, 16)[i - 16]);
        }
    }
    assert forall|i: int| 0 <= i < 36 implies if i == 8 || i == 13 || i == 18 || i == 23 {
        #[trigger] r[i] == '-'
    } else {
        is_hex_digit(r[i])
    } by {
        if i < 8 {
            assert(r[i] == h[i]);
        } else if 8 < i < 13 {
            assert(r[i] == h[i - 1]);
        } else if 13 < i < 18 {
            assert(r[i] == h[i - 2]);
        } else if 18 < i < 23 {
            assert(r[i] == h[i - 3]);
        } else if 23 < i {
            assert(r[i] == h[i - 4]);
        }
    }
}

// ─────────────────────────── column lineage ───────────────────────────

/// The namespace of a dataset: its own, or else that of the document.
pub open spec fn namespace_of(d: DocumentView, name: Seq<char>) -> Seq<char> {
    let i = dataset_index(d.datasets, name, 0);
    if i < d.datasets.len() && d.datasets[i].namespace is Some {
        d.datasets[i].namespace->0
    } else {
        d.namespace
    }
}

fn ns_of<'a>(doc: &'a WeaveDocument, name: &str) -> (r: &'a str)
    ensures
        r@ == namespace_of(doc@, name@),
{
    match doc.dataset(name) {
        Some(ds) => ds.effective_namespace(doc.namespace.as_str()),
        None => doc.namespace.as_str(),
    }
}

/// The type of a transformation and its subtype.
pub open spec fn kind_words(t: TransformType) -> (Seq<char>, Seq<char>) {
    match t {
        TransformType::Identity => ("DIRECT"@, "IDENTITY"@),
        TransformType::Transformation => ("DIRECT"@, "TRANSFORMATION"@),
        TransformType::Aggregation => ("DIRECT"@, "AGGREGATION"@),
        TransformType::Indirect => ("INDIRECT"@, "GROUP_BY"@),
    }
}

fn transformation_type_subtype(t: TransformType) -> (r: (&'static str, &'static str))
    ensures
        (r.0@, r.1@) == kind_words(t),
{
    match t {
        TransformType::Identity => ("DIRECT", "IDENTITY"),
        TransformType::Transformation => ("DIRECT", "TRANSFORMATION"),
        TransformType::Aggregation => ("DIRECT", "AGGREGATION"),
        TransformType::Indirect => ("INDIRECT", "GROUP_BY"),
    }
}

/// The transformation of a mapping; its description carries the tag of an
/// inferred mapping.
pub open spec fn transformation_tree(c: ColumnEdgeView) -> JsonTree {
    let base = seq![
        ("type"@, JsonTree::Text(kind_words(c.transform_type).0)),
        ("subtype"@, JsonTree::Text(kind_words(c.transform_type).1)),
        ("masking"@, JsonTree::Bool(false)),
    ];
    match shown_function(c) {
        Some(f) => object_of(base.push(("description"@, JsonTree::Text(f)))),
        None => object_of(base),
    }
}

fn transformation_json(c: &ColumnEdge) -> (r: Json)
    ensures
        r@ == transformation_tree(c@),
{
    broadcast use group_views;

    let (kind, subtype) = transformation_type_subtype(c.transform_type);
    let mut o: Vec<(String, Json)> = Vec::new();
    o.push(text_entry("type", kind));
    o.push(text_entry("subtype", subtype));
    o.push(entry("masking", json_bool(false)));
    assert(views(o@) =~= seq![
        ("type"@, JsonTree::Text(kind@)),
        ("subtype"@, JsonTree::Text(subtype@)),
        ("masking"@, JsonTree::Bool(false)),
    ]);
    if let Some(f) = c.display_function() {
        o.push(text_entry("description", f.as_str()));
    }
    json_object(o)
}

/// One source of a mapping.
pub open spec fn input_field(d: DocumentView, c: ColumnEdgeView, i: int) -> JsonTree {
    object_of(
        seq![
            ("namespace"@, JsonTree::Text(namespace_of(d, c.from_columns[i].dataset))),
            ("name"@, JsonTree::Text(c.from_columns[i].dataset)),
            ("field"@, JsonTree::Text(c.from_columns[i].column)),
            ("transformations"@, JsonTree::List(seq![transformation_tree(c)])),
        ],
    )
}

/// The sources of a mapping.
pub open spec fn input_fields(d: DocumentView, c: ColumnEdgeView) -> JsonTree {
    object_of(
        seq![
            (
                "inputFields"@,
                JsonTree::List(Seq::new(c.from_columns.len(), |i: int| input_field(d, c, i))),
            ),
        ],
    )
}

fn input_field_json(doc: &WeaveDocument, c: &ColumnEdge, i: usize) -> (r: Json)
    requires
        i < c.from_columns@.len(),
    ensures
        r@ == input_field(doc@, c@, i as int),
{
    let src = &c.from_columns[i];
    assert(c@.from_columns[i as int] == src@);
    let mut t: Vec<Json> = Vec::new();
    t.push(transformation_json(c));
    assert(views(t@) =~= seq![transformation_tree(c@)]);
    let mut o: Vec<(String, Json)> = Vec::new();
    o.push(text_entry("namespace", ns_of(doc, src.dataset.as_str())));
    o.push(text_entry("name", src.dataset.as_str()));
    o.push(text_entry("field", src.column.as_str()));
    o.push(entry("transformations", json_list(t)));
    assert(views(o@) =~= seq![
        ("namespace"@, JsonTree::Text(namespace_of(doc@, src@.dataset))),
        ("name"@, JsonTree::Text(src@.dataset)),
        ("field"@, JsonTree::Text(src@.column)),
        ("transformations"@, JsonTree::List(seq![transformation_tree(c@)])),
    ]);
    json_object(o)
}

fn input_fields_json(doc: &WeaveDocument, c: &ColumnEdge) -> (r: Json)
    ensures
        r@ == input_fields(doc@, c@),
{
    let mut fields: Vec<Json> = Vec::new();
    let mut i: usize = 0;
    while i < c.from_columns.len()
        invariant
            i <= c.from_columns@.len(),
            fields@.len() == i,
            forall|k: int| 0 <= k < i ==> (#[trigger] fields@[k])@ == input_field(doc@, c@, k),
        decreases c.from_columns@.len() - i,
    {
        fields.push(input_field_json(doc, c, i));
        i = i + 1;
    }
    let ghost list = Seq::new(c@.from_columns.len(), |i: int| input_field(doc@, c@, i));
    assert(views(fields@) =~= list);
    let mut o: Vec<(String, Json)> = Vec::new();
    o.push(entry("inputFields", json_list(fields)));
    assert(views(o@) =~= seq![("inputFields"@, JsonTree::List(list))]);
    json_object(o)
}

/// The fields after the first `n` mappings of an edge; a mapping without
/// sources has no field.
pub open spec fn edge_fields(
    d: DocumentView,
    name: Seq<char>,
    e: EdgeView,
    acc: Seq<(Seq<char>, JsonTree)>,
    n: int,
) -> Seq<(Seq<char>, JsonTree)>
    decreases n,
{
    if n <= 0 {
        acc
    } else {
        let s = edge_fields(d, name, e, acc, n - 1);
        let c = e.column_lineage[n - 1];
        if c.to_column.dataset == name && c.from_columns.len() > 0 {
            s.push((c.to_column.column, input_fields(d, c)))
        } else {
            s
        }
    }
}

/// The fields of an output after the first `n` edges.
pub open spec fn output_fields(d: DocumentView, name: Seq<char>, es: Seq<EdgeView>, n: int) -> Seq<
    (Seq<char>, JsonTree),
>
    decreases n,
{
    if n <= 0 {
        Seq::empty()
    } else {
        let s = output_fields(d, name, es, n - 1);
        let e = es[n - 1];
        if e.to == name {
            edge_fields(d, name, e, s, e.column_lineage.len() as int)
        } else {
            s
        }
    }
}

fn add_edge_fields(doc: &WeaveDocument, name: &str, e: &Edge, acc: &mut Vec<(String, Json)>)
    ensures
        views(final(acc)@) == edge_fields(
            doc@,
            name@,
            e@,
            views(old(acc)@),
            e@.column_lineage.len() as int,
        ),
{
    let ghost start = views(acc@);
    let mut i: usize = 0;
    while i < e.column_lineage.len()
        invariant
            i <= e.column_lineage@.len(),
            views(acc@) == edge_fields(doc@, name@, e@, start, i as int),
        decreases e.column_lineage@.len() - i,
    {
        broadcast use group_views;

        let c = &e.column_lineage[i];
        assert(e@.column_lineage[i as int] == c@);
        if str_eq(c.to_column.dataset.as_str(), name) && c.from_columns.len() > 0 {
            acc.push(entry(c.to_column.column.as_str(), input_fields_json(doc, c)));
        }
        i = i + 1;
    }
}

fn output_fields_json(doc: &WeaveDocument, name: &str, es: &Vec<&Edge>) -> (r: Vec<(String, Json)>)
    ensures
        views(r@) == output_fields(doc@, name@, views(es@), es@.len() as int),
{
    broadcast use group_views;

    let ghost ev = views(es@);
    let mut acc: Vec<(String, Json)> = Vec::new();
    let mut i: usize = 0;
    while i < es.len()
        invariant
            i <= es@.len(),
            ev == views(es@),
            views(acc@) == output_fields(doc@, name@, ev, i as int),
        decreases es@.len() - i,
    {
        assert(ev[i as int] == es@[i as int]@);
        if str_eq(es[i].to.as_str(), name) {
            add_edge_fields(doc, name, es[i], &mut acc);
        }
        i = i + 1;
    }
    acc
}

// ──────────────────────────────── datasets ────────────────────────────

/// The entries that name a dataset.
pub open spec fn dataset_entries(d: DocumentView, name: Seq<char>) -> Seq<(Seq<char>, JsonTree)> {
    seq![
        ("namespace"@, JsonTree::Text(namespace_of(d, name))),
        ("name"@, JsonTree::Text(name)),
    ]
}

fn dataset_entries_json(doc: &WeaveDocument, name: &str) -> (r: Vec<(String, Json)>)
    ensures
        views(r@) == dataset_entries(doc@, name@),
{
    let mut o: Vec<(String, Json)> = Vec::new();
    o.push(text_entry("namespace", ns_of(doc, name)));
    o.push(text_entry("name", name));
    assert(views(o@) =~= dataset_entries(doc@, name@));
    o
}

/// The address of the schema of the column lineage facet.
pub const COLUMN_LINEAGE_SCHEMA_URL: &'static str = "https://openlineage.io/spec/facets/1-2-0/ColumnLineageDatasetFacet.json#/$defs/ColumnLineageDatasetFacet";

/// The address of the schema of an event.
pub const RUN_EVENT_SCHEMA_URL: &'static str = "https://openlineage.io/spec/2-0-2/OpenLineage.json#/$defs/RunEvent";

/// The address of the schema of the documentation facet.
pub const DOC_JOB_FACET_SCHEMA_URL: &'static str = "https://openlineage.io/spec/facets/1-0-1/DocumentationJobFacet.json#/$defs/DocumentationJobFacet";

/// The column lineage facet of an output.
pub open spec fn lineage_facet(producer: Seq<char>, fields: Seq<(Seq<char>, JsonTree)>) -> JsonTree {
    object_of(
        seq![
            (
                "columnLineage"@,
                object_of(
                    seq![
                        ("_producer"@, JsonTree::Text(producer)),
                        ("_schemaURL"@, JsonTree::Text(COLUMN_LINEAGE_SCHEMA_URL@)),
                        ("fields"@, object_of(fields)),
                    ],
                ),
            ),
        ],
    )
}

/// An output, with its column lineage when there is any.
pub open spec fn output_tree(
    d: DocumentView,
    producer: Seq<char>,
    name: Seq<char>,
    es: Seq<EdgeView>,
) -> JsonTree {
    let fields = output_fields(d, name, es, es.len() as int);
    let base = dataset_entries(d, name);
    if fields.len() == 0 {
        object_of(base)
    } else {
        object_of(base.push(("facets"@, lineage_facet(producer, fields))))
    }
}

fn lineage_facet_json(producer: &str, fields: Vec<(String, Json)>) -> (r: Json)
    ensures
        r@ == lineage_facet(producer@, views(fields@)),
{
    let ghost fv = views(fields@);
    let mut o: Vec<(String, Json)> = Vec::new();
    o.push(text_entry("_producer", producer));
    o.push(text_entry("_schemaURL", COLUMN_LINEAGE_SCHEMA_URL));
    o.push(entry("fields", json_object(fields)));
    assert(views(o@) =~= seq![
        ("_producer"@, JsonTree::Text(producer@)),
        ("_schemaURL"@, JsonTree::Text(COLUMN_LINEAGE_SCHEMA_URL@)),
        ("fields"@, object_of(fv)),
    ]);
    let ghost inner = views(o@);
    let mut f: Vec<(String, Json)> = Vec::new();
    f.push(entry("columnLineage", json_object(o)));
    assert(views(f@) =~= seq![("columnLineage"@, object_of(inner))]);
    json_object(f)
}

fn output_json(doc: &WeaveDocument, producer: &str, name: &str, es: &Vec<&Edge>) -> (r: Json)
    ensures
        r@ == output_tree(doc@, producer@, name@, views(es@)),
{
    broadcast use group_views;

    let fields = output_fields_json(doc, name, es);
    let mut o = dataset_entries_json(doc, name);
    if fields.len() > 0 {
        o.push(entry("facets", lineage_facet_json(producer, fields)));
    }
    json_object(o)
}

/// The inputs of a job.
pub open spec fn inputs_tree(d: DocumentView, j: JobView) -> JsonTree {
    JsonTree::List(
        Seq::new(j.inputs.len(), |i: int| object_of(dataset_entries(d, j.inputs[i]))),
    )
}

/// The outputs of a job.
pub open spec fn outputs_tree(
    d: DocumentView,
    producer: Seq<char>,
    j: JobView,
    es: Seq<EdgeView>,
) -> JsonTree {
    JsonTree::List(Seq::new(j.outputs.len(), |i: int| output_tree(d, producer, j.outputs[i], es)))
}

fn inputs_json(doc: &WeaveDocument, j: &Job) -> (r: Json)
    ensures
        r@ == inputs_tree(doc@, j@),
{
    let mut out: Vec<Json> = Vec::new();
    let mut i: usize = 0;
    while i < j.inputs.len()
        invariant
            i <= j.inputs@.len(),
            out@.len() == i,
            forall|k: int|
                0 <= k < i ==> (#[trigger] out@[k])@ == object_of(
                    dataset_entries(doc@, j@.inputs[k]),
                ),
        decreases j.inputs@.len() - i,
    {
        assert(j@.inputs[i as int] == j.inputs@[i as int]@);
        out.push(json_object(dataset_entries_json(doc, j.inputs[i].as_str())));
        i = i + 1;
    }
    assert(views(out@) =~= Seq::new(
        j@.inputs.len(),
        |i: int| object_of(dataset_entries(doc@, j@.inputs[i])),
    ));
    json_list(out)
}

fn outputs_json(doc: &WeaveDocument, producer: &str, j: &Job, es: &Vec<&Edge>) -> (r: Json)
    ensures
        r@ == outputs_tree(doc@, producer@, j@, views(es@)),
{
    let ghost ev = views(es@);
    let mut out: Vec<Json> = Vec::new();
    let mut i: usize = 0;
    while i < j.outputs.len()
        invariant
            i <= j.outputs@.len(),
            ev == views(es@),
            out@.len() == i,
            forall|k: int|
                0 <= k < i ==> (#[trigger] out@[k])@ == output_tree(
                    doc@,
                    producer@,
                    j@.outputs[k],
                    ev,
                ),
        decreases j.outputs@.len() - i,
    {
        assert(j@.outputs[i as int] == j.outputs@[i as int]@);
        out.push(output_json(doc, producer, j.outputs[i].as_str(), es));
        i = i + 1;
    }
    assert(views(out@) =~= Seq::new(
        j@.outputs.len(),
        |i: int| output_tree(doc@, producer@, j@.outputs[i], ev),
    ));
    json_list(out)
}

// ───────────────────────────────── events ─────────────────────────────

/// The edges among the first `n` that a job makes.
pub open spec fn job_edges(es: Seq<EdgeView>, id: Seq<char>, n: int) -> Seq<EdgeView>
    decreases n,
{
    if n <= 0 {
        Seq::empty()
    } else if es[n - 1].job == Some(id) {
        job_edges(es, id, n - 1).push(es[n - 1])
    } else {
        job_edges(es, id, n - 1)
    }
}

fn edges_of_job<'a>(es: &Vec<&'a Edge>, id: &str) -> (r: Vec<&'a Edge>)
    ensures
        views(r@) == job_edges(views(es@), id@, es@.len() as int),
{
    broadcast use group_views;

    let ghost ev = views(es@);
    let mut out: Vec<&'a Edge> = Vec::new();
    let mut i: usize = 0;
    while i < es.len()
        invariant
            i <= es@.len(),
            ev == views(es@),
            views(out@) == job_edges(ev, id@, i as int),
        decreases es@.len() - i,
    {
        broadcast use group_views;

        let e = es[i];
        assert(ev[i as int] == e@);
        let own = match &e.job {
            Some(j) => str_eq(j.as_str(), id),
            None => false,
        };
        if own {
            out.push(e);
        }
        i = i + 1;
    }
    out
}

/// True when one of the edges has something inferred.
pub open spec fn any_inferred(es: Seq<EdgeView>) -> bool {
    exists|i: int| 0 <= i < es.len() && edge_has_inferred(#[trigger] es[i])
}

fn some_inferred(es: &Vec<&Edge>) -> (r: bool)
    ensures
        r == any_inferred(views(es@)),
{
    let ghost ev = views(es@);
    let mut i: usize = 0;
    while i < es.len()
        invariant
            i <= es@.len(),
            ev == views(es@),
            forall|k: int| 0 <= k < i ==> !edge_has_inferred(#[trigger] ev[k]),
        decreases es@.len() - i,
    {
        assert(ev[i as int] == es@[i as int]@);
        if es[i].has_inferred() {
            return true;
        }
        i = i + 1;
    }
    false
}

/// What the documentation facet of a job with inferred lineage says.
pub const INFERRED_JOB_NOTE: &'static str = "This job contains lineage that was inferred by the trace-weaver compiler (not hand-declared). See per-column transformation descriptions tagged '(inferred …)'.";

/// The documentation facet of a job with inferred lineage.
pub open spec fn job_facet(producer: Seq<char>) -> JsonTree {
    object_of(
        seq![
            (
                "documentation"@,
                object_of(
                    seq![
                        ("_producer"@, JsonTree::Text(producer)),
                        ("_schemaURL"@, JsonTree::Text(DOC_JOB_FACET_SCHEMA_URL@)),
                        ("description"@, JsonTree::Text(INFERRED_JOB_NOTE@)),
                    ],
                ),
            ),
        ],
    )
}

/// The job of an event; one with inferred lineage says so.
pub open spec fn job_tree(d: DocumentView, producer: Seq<char>, j: JobView, es: Seq<EdgeView>) -> JsonTree {
    let ns = match j.namespace {
        Some(n) => n,
        None => d.namespace,
    };
    let base = seq![("namespace"@, JsonTree::Text(ns)), ("name"@, JsonTree::Text(j.id))];
    if any_inferred(es) {
        object_of(base.push(("facets"@, job_facet(producer))))
    } else {
        object_of(base)
    }
}

fn job_facet_json(producer: &str) -> (r: Json)
    ensures
        r@ == job_facet(producer@),
{
    let mut o: Vec<(String, Json)> = Vec::new();
    o.push(text_entry("_producer", producer));
    o.push(text_entry("_schemaURL", DOC_JOB_FACET_SCHEMA_URL));
    o.push(text_entry("description", INFERRED_JOB_NOTE));
    assert(views(o@) =~= seq![
        ("_producer"@, JsonTree::Text(producer@)),
        ("_schemaURL"@, JsonTree::Text(DOC_JOB_FACET_SCHEMA_URL@)),
        ("description"@, JsonTree::Text(INFERRED_JOB_NOTE@)),
    ]);
    let ghost inner = views(o@);
    let mut f: Vec<(String, Json)> = Vec::new();
    f.push(entry("documentation", json_object(o)));
    assert(views(f@) =~= seq![("documentation"@, object_of(inner))]);
    json_object(f)
}

fn job_json(doc: &WeaveDocument, producer: &str, j: &Job, es: &Vec<&Edge>) -> (r: Json)
    ensures
        r@ == job_tree(doc@, producer@, j@, views(es@)),
{
    broadcast use group_views;

    let ns = match &j.namespace {
        Some(n) => n.as_str(),
        None => doc.namespace.as_str(),
    };
    let mut o: Vec<(String, Json)> = Vec::new();
    o.push(text_entry("namespace", ns));
    o.push(text_entry("name", j.id.as_str()));
    assert(views(o@) =~= seq![("namespace"@, JsonTree::Text(ns@)), ("name"@, JsonTree::Text(j@.id))]);
    if some_inferred(es) {
        o.push(entry("facets", job_facet_json(producer)));
    }
    json_object(o)
}

/// The run of an event.
pub open spec fn run_tree(id: Seq<char>) -> JsonTree {
    object_of(seq![("runId"@, JsonTree::Text(run_id(id)))])
}

/// The event of a job.
pub open spec fn event_tree(
    d: DocumentView,
    producer: Seq<char>,
    time: Seq<char>,
    j: JobView,
    es: Seq<EdgeView>,
) -> JsonTree {
    object_of(
        seq![
            ("eventType"@, JsonTree::Text("COMPLETE"@)),
            ("eventTime"@, JsonTree::Text(time)),
            ("schemaURL"@, JsonTree::Text(RUN_EVENT_SCHEMA_URL@)),
            ("producer"@, JsonTree::Text(producer)),
            ("run"@, run_tree(j.id)),
            ("job"@, job_tree(d, producer, j, es)),
            ("inputs"@, inputs_tree(d, j)),
            ("outputs"@, outputs_tree(d, producer, j, es)),
        ],
    )
}

fn run_json(id: &str) -> (r: Json)
    ensures
        r@ == run_tree(id@),
{
    let run = deterministic_run_id(id);
    let mut o: Vec<(String, Json)> = Vec::new();
    o.push(text_entry("runId", run.as_str()));
    assert(views(o@) =~= seq![("runId"@, JsonTree::Text(run@))]);
    json_object(o)
}

fn event_json(doc: &WeaveDocument, producer: &str, time: &str, j: &Job, es: &Vec<&Edge>) -> (r: Json)
    ensures
        r@ == event_tree(doc@, producer@, time@, j@, views(es@)),
{
    let ghost ev = views(es@);
    let mut o: Vec<(String, Json)> = Vec::new();
    o.push(text_entry("eventType", "COMPLETE"));
    o.push(text_entry("eventTime", time));
    o.push(text_entry("schemaURL", RUN_EVENT_SCHEMA_URL));
    o.push(text_entry("producer", producer));
    o.push(entry("run", run_json(j.id.as_str())));
    o.push(entry("job", job_json(doc, producer, j, es)));
    o.push(entry("inputs", inputs_json(doc, j)));
    o.push(entry("outputs", outputs_json(doc, producer, j, es)));
    assert(views(o@) =~= seq![
        ("eventType"@, JsonTree::Text("COMPLETE"@)),
        ("eventTime"@, JsonTree::Text(time@)),
        ("schemaURL"@, JsonTree::Text(RUN_EVENT_SCHEMA_URL@)),
        ("producer"@, JsonTree::Text(producer@)),
        ("run"@, run_tree(j@.id)),
        ("job"@, job_tree(doc@, producer@, j@, ev)),
        ("inputs"@, inputs_tree(doc@, j@)),
        ("outputs"@, outputs_tree(doc@, producer@, j@, ev)),
    ]);
    json_object(o)
}

/// The producer of the events: the configured one, or else the document's.
pub open spec fn producer_of(d: DocumentView, c: ExportConfigView) -> Seq<char> {
    match c.ol_producer {
        Some(p) => p,
        None => d.producer,
    }
}

/// The time of the events: when the document was made, or else the epoch.
pub open spec fn time_of(d: DocumentView) -> Seq<char> {
    match d.generated_at {
        Some(t) => t,
        None => "1970-01-01T00:00:00Z"@,
    }
}

/// The events of a document, one for each job.
pub open spec fn event_trees(d: DocumentView, c: ExportConfigView) -> Seq<JsonTree> {
    let es = topo_edges(d.edges);
    Seq::new(
        d.jobs.len(),
        |i: int|
            event_tree(
                d,
                producer_of(d, c),
                time_of(d),
                d.jobs[i],
                job_edges(es, d.jobs[i].id, es.len() as int),
            ),
    )
}

/// The events of a document, one for each job.
pub fn events(doc: &WeaveDocument, cfg: &ExportConfig) -> (r: Vec<Json>)
    ensures
        views(r@) == event_trees(doc@, cfg@),
{
    let producer = match &cfg.ol_producer {
        Some(p) => p.as_str(),
        None => doc.producer.as_str(),
    };
    let time = match &doc.generated_at {
        Some(t) => t.as_str(),
        None => "1970-01-01T00:00:00Z",
    };
    let es = doc.edges_in_topo_order();
    let ghost ev = views(es@);
    let ghost want = event_trees(doc@, cfg@);
    let mut out: Vec<Json> = Vec::new();
    let mut i: usize = 0;
    while i < doc.jobs.len()
        invariant
            i <= doc.jobs@.len(),
            ev == views(es@),
            ev == topo_edges(doc@.edges),
            want == event_trees(doc@, cfg@),
            producer@ == producer_of(doc@, cfg@),
            time@ == time_of(doc@),
            out@.len() == i,
            forall|k: int| 0 <= k < i ==> (#[trigger] out@[k])@ == want[k],
        decreases doc.jobs@.len() - i,
    {
        let j = &doc.jobs[i];
        assert(doc@.jobs[i as int] == j@);
        let own = edges_of_job(&es, j.id.as_str());
        out.push(event_json(doc, producer, time, j, &own));
        i = i + 1;
    }
    assert(views(out@) =~= want);
    out
}

/// The report of an export whose text is `artifact`.
pub open spec fn lineage_report(d: DocumentView, c: ExportConfigView, artifact: Seq<char>) -> ExportReportView {
    ExportReportView {
        target: "openlineage"@,
        artifact,
        actions: seq![
            "emitted "@ + decimal(d.jobs.len())
                + " OpenLineage COMPLETE event(s) (file-only exporter; sent counts events)"@,
        ],
        sent: if c.dry_run {
            0
        } else {
            d.jobs.len()
        },
        failed: 0,
    }
}

/// The report of an export whose text is `artifact`.
pub fn report(doc: &WeaveDocument, cfg: &ExportConfig, artifact: String) -> (r: ExportReport)
    ensures
        r@ == lineage_report(doc@, cfg@, artifact@),
{
    let count: usize = doc.jobs.len();
    let mut action = "emitted ".to_owned();
    action.append(decimal_of(count as u128).as_str());
    action.append(" OpenLineage COMPLETE event(s) (file-only exporter; sent counts events)");
    let ghost said = action@;
    let mut actions: Vec<String> = Vec::new();
    actions.push(action);
    assert(views(actions@) =~= seq![said]);
    let sent: usize = if cfg.dry_run {
        0
    } else {
        count
    };
    ExportReport { target: "openlineage".to_owned(), artifact, actions, sent, failed: 0 }
}

/// The events of a document as a JSON text.
pub fn export(doc: &WeaveDocument, cfg: &ExportConfig) -> (r: Result<ExportReport, String>)
    ensures
        match pretty_text(JsonTree::List(event_trees(doc@, cfg@))) {
            Ok(s) => r matches Ok(x) && x@ == lineage_report(doc@, cfg@, s),
            Err(e) => r matches Err(x) && x@ == e,
        },
{
    let list = json_list(events(doc, cfg));
    match json_pretty(&list) {
        Ok(artifact) => Ok(report(doc, cfg, artifact)),
        Err(e) => Err(e),
    }
}

} // verus!

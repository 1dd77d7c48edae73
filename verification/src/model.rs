//! The universal lineage model.
//!
//! A [`WeaveDocument`] is what a scan produces and what every exporter reads:
//! datasets identified by name, jobs that read and write them, and edges
//! between datasets that carry column mappings.

use indexmap::IndexMap;
use vstd::prelude::*;

use crate::origin::{annotated, declared_origin, tag_of, Origin, OriginView};
use crate::text::{
    ascii_lower, ends_with_text, group_views, joined, joined_upto, opt_text, opt_view,
    replicate_opt, replicate_vec, split_in_front, split_str, split_text, split_then_join,
    split_whole, str_eq, to_lower, trim, trimmed, views, Replicate, Same,
};

verus! {

/// The schema version that documents carry: `0.1`.
pub const WEAVE_VERSION: &'static str = "0.1";

/// A reference to a dataset by its name.
pub type DatasetRef = String;

// ─────────────────────────────── columns ──────────────────────────────

/// A column of a dataset.
#[derive(Debug, Clone, PartialEq, Eq, Hash)]
pub struct ColumnRef {
    pub dataset: DatasetRef,
    pub column: String,
}

#[verifier::ext_equal]
pub struct ColumnRefView {
    pub dataset: Seq<char>,
    pub column: Seq<char>,
}

impl View for ColumnRef {
    type V = ColumnRefView;

    open spec fn view(&self) -> ColumnRefView {
        ColumnRefView { dataset: self.dataset@, column: self.column@ }
    }
}

impl Replicate for ColumnRef {
    fn replicate(&self) -> (r: Self) {
        ColumnRef { dataset: self.dataset.clone(), column: self.column.clone() }
    }
}

impl Same for ColumnRef {
    fn same(&self, other: &Self) -> (b: bool) {
        self.dataset == other.dataset && self.column == other.column
    }
}

impl ColumnRef {
    pub fn new(dataset: &str, column: &str) -> (r: Self)
        ensures
            r@ == (ColumnRefView { dataset: dataset@, column: column@ }),
    {
        ColumnRef { dataset: dataset.to_owned(), column: column.to_owned() }
    }
}

/// A place in a source file.
#[derive(Debug, Clone, PartialEq)]
pub struct SourceLoc {
    pub file: String,
    pub line: Option<u32>,
}

#[verifier::ext_equal]
pub struct SourceLocView {
    pub file: Seq<char>,
    pub line: Option<u32>,
}

impl View for SourceLoc {
    type V = SourceLocView;

    open spec fn view(&self) -> SourceLocView {
        SourceLocView { file: self.file@, line: self.line }
    }
}

impl Replicate for SourceLoc {
    fn replicate(&self) -> (r: Self) {
        SourceLoc { file: self.file.clone(), line: self.line }
    }
}

impl SourceLoc {
    pub fn new(file: &str, line: Option<u32>) -> (r: Self)
        ensures
            r@ == (SourceLocView { file: file@, line }),
    {
        SourceLoc { file: file.to_owned(), line }
    }
}

/// How a column is produced.
#[derive(Debug, Clone, Copy, PartialEq, Eq, Hash, Structural)]
pub enum TransformType {
    Identity,
    Transformation,
    Aggregation,
    Indirect,
}

impl Default for TransformType {
    fn default() -> (r: Self)
        ensures
            r == TransformType::Transformation,
    {
        TransformType::Transformation
    }
}

/// One column mapping: the sources of a target column.
#[derive(Debug, Clone)]
pub struct ColumnEdge {
    pub from_columns: Vec<ColumnRef>,
    pub to_column: ColumnRef,
    /// Label of the transformation.
    pub function: Option<String>,
    pub transform_type: TransformType,
    pub origin: Origin,
}

#[verifier::ext_equal]
pub struct ColumnEdgeView {
    pub from_columns: Seq<ColumnRefView>,
    pub to_column: ColumnRefView,
    pub function: Option<Seq<char>>,
    pub transform_type: TransformType,
    pub origin: OriginView,
}

impl View for ColumnEdge {
    type V = ColumnEdgeView;

    open spec fn view(&self) -> ColumnEdgeView {
        ColumnEdgeView {
            from_columns: views(self.from_columns@),
            to_column: self.to_column@,
            function: opt_text(self.function),
            transform_type: self.transform_type,
            origin: self.origin@,
        }
    }
}

impl Replicate for ColumnEdge {
    fn replicate(&self) -> (r: Self) {
        ColumnEdge {
            from_columns: replicate_vec(&self.from_columns),
            to_column: self.to_column.replicate(),
            function: replicate_opt(&self.function),
            transform_type: self.transform_type,
            origin: self.origin.replicate(),
        }
    }
}

/// The label that exporters show for a mapping.
pub open spec fn shown_function(c: ColumnEdgeView) -> Option<Seq<char>> {
    match c.function {
        Some(f) => Some(annotated(c.origin.source, f)),
        None => if c.origin.inferred() {
            Some(annotated(c.origin.source, Seq::empty()))
        } else {
            None
        },
    }
}

impl ColumnEdge {
    pub fn new(from_columns: Vec<ColumnRef>, to_column: ColumnRef) -> (r: Self)
        ensures
            r@ == (ColumnEdgeView {
                from_columns: views(from_columns@),
                to_column: to_column@,
                function: None,
                transform_type: TransformType::Transformation,
                origin: declared_origin(),
            }),
    {
        ColumnEdge {
            from_columns,
            to_column,
            function: None,
            transform_type: TransformType::default(),
            origin: Origin::declared(),
        }
    }

    /// The function label, tagged when the mapping is inferred.
    pub fn display_function(&self) -> (r: Option<String>)
        ensures
            opt_text(r) == shown_function(self@),
    {
        match &self.function {
            Some(f) => Some(self.origin.annotate(f.as_str())),
            None => if self.origin.is_inferred() {
                proof {
                    reveal_strlit("");
                    assert(""@ =~= Seq::<char>::empty());
                }
                Some(self.origin.annotate(""))
            } else {
                None
            },
        }
    }
}

// ─────────────────────────────── datasets ─────────────────────────────

/// A column of a schema.
#[derive(Debug, Clone, PartialEq)]
pub struct Field {
    pub name: String,
    pub data_type: Option<String>,
    pub description: Option<String>,
}

#[verifier::ext_equal]
pub struct FieldView {
    pub name: Seq<char>,
    pub data_type: Option<Seq<char>>,
    pub description: Option<Seq<char>>,
}

impl View for Field {
    type V = FieldView;

    open spec fn view(&self) -> FieldView {
        FieldView {
            name: self.name@,
            data_type: opt_text(self.data_type),
            description: opt_text(self.description),
        }
    }
}

impl Replicate for Field {
    fn replicate(&self) -> (r: Self) {
        Field {
            name: self.name.clone(),
            data_type: replicate_opt(&self.data_type),
            description: replicate_opt(&self.description),
        }
    }
}

pub open spec fn plain_field(name: Seq<char>) -> FieldView {
    FieldView { name, data_type: None, description: None }
}

impl Field {
    pub fn new(name: &str) -> (r: Self)
        ensures
            r@ == plain_field(name@),
    {
        Field { name: name.to_owned(), data_type: None, description: None }
    }
}

/// The parts of a fully qualified table name.
#[derive(Debug, Clone, PartialEq)]
pub struct FqnParts {
    pub service: String,
    pub database: String,
    pub schema: String,
    pub table: String,
}

#[verifier::ext_equal]
pub struct FqnPartsView {
    pub service: Seq<char>,
    pub database: Seq<char>,
    pub schema: Seq<char>,
    pub table: Seq<char>,
}

impl View for FqnParts {
    type V = FqnPartsView;

    open spec fn view(&self) -> FqnPartsView {
        FqnPartsView {
            service: self.service@,
            database: self.database@,
            schema: self.schema@,
            table: self.table@,
        }
    }
}

impl Replicate for FqnParts {
    fn replicate(&self) -> (r: Self) {
        FqnParts {
            service: self.service.clone(),
            database: self.database.clone(),
            schema: self.schema.clone(),
            table: self.table.clone(),
        }
    }
}

/// The four parts of `fqn`, when it has exactly four between its dots.
pub open spec fn fqn_parts(fqn: Seq<char>) -> Option<FqnPartsView> {
    let p = split_text(fqn, '.');
    if p.len() == 4 {
        Some(FqnPartsView { service: p[0], database: p[1], schema: p[2], table: p[3] })
    } else {
        None
    }
}

pub open spec fn table_fqn(p: FqnPartsView) -> Seq<char> {
    p.service + "."@ + p.database + "."@ + p.schema + "."@ + p.table
}

pub open spec fn column_fqn(p: FqnPartsView, column: Seq<char>) -> Seq<char> {
    table_fqn(p) + "."@ + column
}

impl FqnParts {
    /// Splits `service.database.schema.table`.
    pub fn parse(fqn: &str) -> (r: Option<FqnParts>)
        ensures
            opt_view(r) == fqn_parts(fqn@),
    {
        let parts = split_str(fqn, '.');
        if parts.len() == 4 {
            let ghost p = views(parts@);
            assert(p[0] == parts@[0]@ && p[1] == parts@[1]@ && p[2] == parts@[2]@ && p[3]
                == parts@[3]@);
            Some(
                FqnParts {
                    service: parts[0].clone(),
                    database: parts[1].clone(),
                    schema: parts[2].clone(),
                    table: parts[3].clone(),
                },
            )
        } else {
            None
        }
    }

    pub fn table_fqn(&self) -> (r: String)
        ensures
            r@ == table_fqn(self@),
    {
        let mut s = self.service.clone();
        s.append(".");
        s.append(self.database.as_str());
        s.append(".");
        s.append(self.schema.as_str());
        s.append(".");
        s.append(self.table.as_str());
        s
    }

    pub fn column_fqn(&self, column: &str) -> (r: String)
        ensures
            r@ == column_fqn(self@, column@),
    {
        let mut s = self.table_fqn();
        s.append(".");
        s.append(column);
        s
    }
}

// ──────────────────────────────── facets ──────────────────────────────

#[verifier::external_type_specification]
#[verifier::external_body]
#[verifier::reject_recursive_types(K)]
#[verifier::reject_recursive_types(V)]
#[verifier::reject_recursive_types(S)]
pub struct ExIndexMap<K, V, S>(IndexMap<K, V, S>);

#[verifier::external_type_specification]
#[verifier::external_body]
pub struct ExJsonValue(serde_json::Value);

/// The entries of a facet map in their order.
pub uninterp spec fn facet_entries(m: IndexMap<String, serde_json::Value>) -> Seq<
    (Seq<char>, serde_json::Value),
>;

/// The entries with `(k, v)` added at the end unless the key is there.
pub open spec fn entries_or_insert(
    s: Seq<(Seq<char>, serde_json::Value)>,
    k: Seq<char>,
    v: serde_json::Value,
) -> Seq<(Seq<char>, serde_json::Value)> {
    if exists|i: int| 0 <= i < s.len() && (#[trigger] s[i]).0 == k {
        s
    } else {
        s.push((k, v))
    }
}

/// The entries of `s` with the first `n` entries of `t` added where their keys
/// are missing.
pub open spec fn merged_entries(
    s: Seq<(Seq<char>, serde_json::Value)>,
    t: Seq<(Seq<char>, serde_json::Value)>,
    n: int,
) -> Seq<(Seq<char>, serde_json::Value)>
    decreases n,
{
    if n <= 0 {
        s
    } else {
        entries_or_insert(merged_entries(s, t, n - 1), t[n - 1].0, t[n - 1].1)
    }
}

/// `IndexMap::new` makes a map without entries.
#[verifier::external_body]
fn no_facets() -> (r: IndexMap<String, serde_json::Value>)
    ensures
        facet_entries(r) == Seq::<(Seq<char>, serde_json::Value)>::empty(),
{
    IndexMap::new()
}

/// `IndexMap::into_iter` hands the entries out in their order.
#[verifier::external_body]
fn facet_list(m: IndexMap<String, serde_json::Value>) -> (r: Vec<(String, serde_json::Value)>)
    ensures
        facet_entries(m) == Seq::new(r@.len(), |i: int| (r@[i].0@, r@[i].1)),
{
    m.into_iter().collect()
}

/// `IndexMap::entry` with `or_insert` adds an entry at the end, and keeps the
/// map as it is when the key is there.
#[verifier::external_body]
fn facet_or_insert(
    m: &mut IndexMap<String, serde_json::Value>,
    k: String,
    v: serde_json::Value,
)
    ensures
        facet_entries(*final(m)) == entries_or_insert(facet_entries(*old(m)), k@, v),
{
    m.entry(k).or_insert(v);
}

// ─────────────────────────────── datasets ─────────────────────────────

/// `IndexMap::clone` keeps the entries and their order.
#[verifier::external_body]
fn facets_copy(m: &IndexMap<String, serde_json::Value>) -> (r: IndexMap<String, serde_json::Value>)
    ensures
        facet_entries(r) == facet_entries(*m),
{
    m.clone()
}

/// A dataset.
#[derive(Debug)]
pub struct Dataset {
    /// Name, unique within a document.
    pub name: String,
    pub namespace: Option<String>,
    pub platform: Option<String>,
    pub fqn: Option<FqnParts>,
    pub schema: Vec<Field>,
    pub facets: IndexMap<String, serde_json::Value>,
    pub origin: Origin,
}

#[verifier::ext_equal]
pub struct DatasetView {
    pub name: Seq<char>,
    pub namespace: Option<Seq<char>>,
    pub platform: Option<Seq<char>>,
    pub fqn: Option<FqnPartsView>,
    pub schema: Seq<FieldView>,
    pub facets: Seq<(Seq<char>, serde_json::Value)>,
    pub origin: OriginView,
}

impl View for Dataset {
    type V = DatasetView;

    open spec fn view(&self) -> DatasetView {
        DatasetView {
            name: self.name@,
            namespace: opt_text(self.namespace),
            platform: opt_text(self.platform),
            fqn: opt_view(self.fqn),
            schema: views(self.schema@),
            facets: facet_entries(self.facets),
            origin: self.origin@,
        }
    }
}

impl Clone for Dataset {
    fn clone(&self) -> (r: Self)
        ensures
            r@ == self@,
    {
        Dataset {
            name: self.name.clone(),
            namespace: replicate_opt(&self.namespace),
            platform: replicate_opt(&self.platform),
            fqn: replicate_opt(&self.fqn),
            schema: replicate_vec(&self.schema),
            facets: facets_copy(&self.facets),
            origin: self.origin.replicate(),
        }
    }
}

pub open spec fn new_dataset(name: Seq<char>) -> DatasetView {
    DatasetView {
        name,
        namespace: None,
        platform: None,
        fqn: None,
        schema: Seq::empty(),
        facets: Seq::empty(),
        origin: declared_origin(),
    }
}

/// True when a column of the schema has the name.
pub open spec fn has_field(schema: Seq<FieldView>, name: Seq<char>) -> bool {
    exists|i: int| 0 <= i < schema.len() && (#[trigger] schema[i]).name == name
}

pub open spec fn add_field(schema: Seq<FieldView>, f: FieldView) -> Seq<FieldView> {
    if has_field(schema, f.name) {
        schema
    } else {
        schema.push(f)
    }
}

/// The schema with the first `n` columns of `other` added where their names
/// are missing.
pub open spec fn merged_schema(schema: Seq<FieldView>, other: Seq<FieldView>, n: int) -> Seq<
    FieldView,
>
    decreases n,
{
    if n <= 0 {
        schema
    } else {
        add_field(merged_schema(schema, other, n - 1), other[n - 1])
    }
}

/// The first of two optional values that is there.
pub open spec fn either<A>(a: Option<A>, b: Option<A>) -> Option<A> {
    match a {
        Some(_) => a,
        None => b,
    }
}

/// The dataset `a` completed with what `b` knows and `a` does not; a declared
/// origin wins over an inferred one.
pub open spec fn merged_dataset(a: DatasetView, b: DatasetView) -> DatasetView {
    DatasetView {
        name: a.name,
        namespace: either(a.namespace, b.namespace),
        platform: either(a.platform, b.platform),
        fqn: either(a.fqn, b.fqn),
        schema: merged_schema(a.schema, b.schema, b.schema.len() as int),
        facets: merged_entries(a.facets, b.facets, b.facets.len() as int),
        origin: if a.origin.inferred() && !b.origin.inferred() {
            b.origin
        } else {
            a.origin
        },
    }
}

pub(crate) fn schema_has(schema: &Vec<Field>, name: &str) -> (b: bool)
    ensures
        b == has_field(views(schema@), name@),
{
    let mut i: usize = 0;
    while i < schema.len()
        invariant
            i <= schema@.len(),
            forall|k: int| 0 <= k < i ==> (#[trigger] views(schema@)[k]).name != name@,
        decreases schema@.len() - i,
    {
        if str_eq(schema[i].name.as_str(), name) {
            assert(views(schema@)[i as int].name == name@);
            return true;
        }
        i = i + 1;
    }
    false
}

/// Adds a column unless its name is there.
pub(crate) fn schema_add(schema: &mut Vec<Field>, f: Field)
    ensures
        views(final(schema)@) == add_field(views(old(schema)@), f@),
{
    broadcast use group_views;

    if !schema_has(schema, f.name.as_str()) {
        schema.push(f);
    }
}

impl Dataset {
    pub fn new(name: &str) -> (r: Self)
        ensures
            r@ == new_dataset(name@),
    {
        broadcast use group_views;

        Dataset {
            name: name.to_owned(),
            namespace: None,
            platform: None,
            fqn: None,
            schema: Vec::new(),
            facets: no_facets(),
            origin: Origin::declared(),
        }
    }

    pub fn with_origin(self, origin: Origin) -> (r: Self)
        ensures
            r@ == (DatasetView { origin: origin@, ..self@ }),
    {
        Dataset { origin, ..self }
    }

    /// Completes this dataset with what `other` knows about it.
    pub fn merge_from(&mut self, other: Dataset)
        ensures
            final(self)@ == merged_dataset(old(self)@, other@),
    {
        let ghost before = self@;
        let ghost after = other@;
        if self.namespace.is_none() {
            self.namespace = other.namespace;
        }
        if self.platform.is_none() {
            self.platform = other.platform;
        }
        if self.fqn.is_none() {
            self.fqn = other.fqn;
        }
        let mut i: usize = 0;
        while i < other.schema.len()
            invariant
                i <= other.schema@.len(),
                after.schema == views(other.schema@),
                self@ == (DatasetView {
                    namespace: either(before.namespace, after.namespace),
                    platform: either(before.platform, after.platform),
                    fqn: either(before.fqn, after.fqn),
                    schema: merged_schema(before.schema, after.schema, i as int),
                    ..before
                }),
            decreases other.schema@.len() - i,
        {
            let f = other.schema[i].replicate();
            schema_add(&mut self.schema, f);
            i = i + 1;
        }
        let mut entries = facet_list(other.facets);
        let ghost all = entries@;
        let ghost mut added: int = 0;
        assert(after.facets == Seq::new(all.len(), |k: int| (all[k].0@, all[k].1)));
        while entries.len() > 0
            invariant
                0 <= added,
                added + entries@.len() == all.len(),
                entries@ == all.skip(added),
                after.facets == Seq::new(all.len(), |k: int| (all[k].0@, all[k].1)),
                self@ == (DatasetView {
                    namespace: either(before.namespace, after.namespace),
                    platform: either(before.platform, after.platform),
                    fqn: either(before.fqn, after.fqn),
                    schema: merged_schema(
                        before.schema,
                        after.schema,
                        after.schema.len() as int,
                    ),
                    facets: merged_entries(before.facets, after.facets, added),
                    ..before
                }),
            decreases entries@.len(),
        {
            let (k, v) = entries.remove(0);
            assert(after.facets[added] == (all[added].0@, all[added].1));
            facet_or_insert(&mut self.facets, k, v);
            proof {
                added = added + 1;
            }
        }
        if self.origin.is_inferred() && !other.origin.is_inferred() {
            self.origin = other.origin;
        }
    }

    /// The dataset's own namespace, or else the document's.
    pub fn effective_namespace<'a>(&'a self, doc_ns: &'a str) -> (r: &'a str)
        ensures
            r@ == (match self@.namespace {
                Some(n) => n,
                None => doc_ns@,
            }),
    {
        match &self.namespace {
            Some(n) => n.as_str(),
            None => doc_ns,
        }
    }
}

// ───────────────────────────────── jobs ───────────────────────────────

/// What runs a job.
#[derive(Debug, Clone, Copy, PartialEq, Eq, Hash, Structural)]
pub enum Engine {
    Sql,
    Pandas,
    Spark,
    Python,
    Bash,
    Unknown,
}

/// The engine that a word names, blanks around it and its case aside.
pub open spec fn engine_named(s: Seq<char>) -> Engine {
    let w = ascii_lower(trimmed(s));
    if w == "sql"@ {
        Engine::Sql
    } else if w == "pandas"@ || w == "pd"@ {
        Engine::Pandas
    } else if w == "spark"@ || w == "pyspark"@ {
        Engine::Spark
    } else if w == "python"@ || w == "py"@ {
        Engine::Python
    } else if w == "bash"@ || w == "shell"@ {
        Engine::Bash
    } else {
        Engine::Unknown
    }
}

impl Engine {
    pub fn from_str_loose(s: &str) -> (r: Engine)
        ensures
            r == engine_named(s@),
    {
        let t = trim(s);
        let lower = to_lower(t.as_str());
        let w = lower.as_str();
        if str_eq(w, "sql") {
            Engine::Sql
        } else if str_eq(w, "pandas") || str_eq(w, "pd") {
            Engine::Pandas
        } else if str_eq(w, "spark") || str_eq(w, "pyspark") {
            Engine::Spark
        } else if str_eq(w, "python") || str_eq(w, "py") {
            Engine::Python
        } else if str_eq(w, "bash") || str_eq(w, "shell") {
            Engine::Bash
        } else {
            Engine::Unknown
        }
    }
}

/// A task that reads and writes datasets.
#[derive(Debug, Clone)]
pub struct Job {
    pub id: String,
    pub name: String,
    pub namespace: Option<String>,
    pub dag: Option<String>,
    pub engine: Engine,
    pub location: Option<SourceLoc>,
    pub description: Option<String>,
    pub sql: Option<String>,
    pub inputs: Vec<DatasetRef>,
    pub outputs: Vec<DatasetRef>,
    pub origin: Origin,
}

#[verifier::ext_equal]
pub struct JobView {
    pub id: Seq<char>,
    pub name: Seq<char>,
    pub namespace: Option<Seq<char>>,
    pub dag: Option<Seq<char>>,
    pub engine: Engine,
    pub location: Option<SourceLocView>,
    pub description: Option<Seq<char>>,
    pub sql: Option<Seq<char>>,
    pub inputs: Seq<Seq<char>>,
    pub outputs: Seq<Seq<char>>,
    pub origin: OriginView,
}

impl View for Job {
    type V = JobView;

    open spec fn view(&self) -> JobView {
        JobView {
            id: self.id@,
            name: self.name@,
            namespace: opt_text(self.namespace),
            dag: opt_text(self.dag),
            engine: self.engine,
            location: opt_view(self.location),
            description: opt_text(self.description),
            sql: opt_text(self.sql),
            inputs: views(self.inputs@),
            outputs: views(self.outputs@),
            origin: self.origin@,
        }
    }
}

pub open spec fn new_job(id: Seq<char>, name: Seq<char>, engine: Engine) -> JobView {
    JobView {
        id,
        name,
        namespace: None,
        dag: None,
        engine,
        location: None,
        description: None,
        sql: None,
        inputs: Seq::empty(),
        outputs: Seq::empty(),
        origin: declared_origin(),
    }
}

impl Job {
    pub fn new(id: &str, name: &str, engine: Engine) -> (r: Self)
        ensures
            r@ == new_job(id@, name@, engine),
    {
        broadcast use group_views;

        Job {
            id: id.to_owned(),
            name: name.to_owned(),
            namespace: None,
            dag: None,
            engine,
            location: None,
            description: None,
            sql: None,
            inputs: Vec::new(),
            outputs: Vec::new(),
            origin: Origin::declared(),
        }
    }
}

// ───────────────────────────────── edges ──────────────────────────────

/// What happens along an edge.
#[derive(Debug, Clone)]
pub struct Transform {
    pub kind: Option<String>,
    pub description: Option<String>,
    pub sql: Option<String>,
}

#[verifier::ext_equal]
pub struct TransformView {
    pub kind: Option<Seq<char>>,
    pub description: Option<Seq<char>>,
    pub sql: Option<Seq<char>>,
}

impl View for Transform {
    type V = TransformView;

    open spec fn view(&self) -> TransformView {
        TransformView {
            kind: opt_text(self.kind),
            description: opt_text(self.description),
            sql: opt_text(self.sql),
        }
    }
}

impl Default for Transform {
    fn default() -> (r: Self)
        ensures
            r@ == (TransformView { kind: None, description: None, sql: None }),
    {
        Transform { kind: None, description: None, sql: None }
    }
}

/// An edge from a dataset to a dataset.
#[derive(Debug, Clone)]
pub struct Edge {
    pub from: DatasetRef,
    pub to: DatasetRef,
    /// Id of the job that makes the edge.
    pub job: Option<String>,
    pub transform: Transform,
    pub column_lineage: Vec<ColumnEdge>,
    pub origin: Origin,
    /// True for an edge that only carries columns found in code that no task
    /// was found for.
    pub column_discovery: bool,
}

#[verifier::ext_equal]
pub struct EdgeView {
    pub from: Seq<char>,
    pub to: Seq<char>,
    pub job: Option<Seq<char>>,
    pub transform: TransformView,
    pub column_lineage: Seq<ColumnEdgeView>,
    pub origin: OriginView,
    pub column_discovery: bool,
}

impl View for Edge {
    type V = EdgeView;

    open spec fn view(&self) -> EdgeView {
        EdgeView {
            from: self.from@,
            to: self.to@,
            job: opt_text(self.job),
            transform: self.transform@,
            column_lineage: views(self.column_lineage@),
            origin: self.origin@,
            column_discovery: self.column_discovery,
        }
    }
}

pub open spec fn new_edge(from: Seq<char>, to: Seq<char>) -> EdgeView {
    EdgeView {
        from,
        to,
        job: None,
        transform: TransformView { kind: None, description: None, sql: None },
        column_lineage: Seq::empty(),
        origin: declared_origin(),
        column_discovery: false,
    }
}

/// True when the edge or one of its mappings is inferred.
pub open spec fn edge_has_inferred(e: EdgeView) -> bool {
    e.origin.inferred() || exists|i: int|
        0 <= i < e.column_lineage.len() && (#[trigger] e.column_lineage[i]).origin.inferred()
}

impl Edge {
    pub fn new(from: &str, to: &str) -> (r: Self)
        ensures
            r@ == new_edge(from@, to@),
    {
        broadcast use group_views;

        Edge {
            from: from.to_owned(),
            to: to.to_owned(),
            job: None,
            transform: Transform::default(),
            column_lineage: Vec::new(),
            origin: Origin::declared(),
            column_discovery: false,
        }
    }

    pub fn has_inferred(&self) -> (r: bool)
        ensures
            r == edge_has_inferred(self@),
    {
        if self.origin.is_inferred() {
            return true;
        }
        let ghost c = self@.column_lineage;
        let mut i: usize = 0;
        while i < self.column_lineage.len()
            invariant
                i <= self.column_lineage@.len(),
                c == views(self.column_lineage@),
                forall|k: int| 0 <= k < i ==> !(#[trigger] c[k]).origin.inferred(),
            decreases self.column_lineage@.len() - i,
        {
            if self.column_lineage[i].origin.is_inferred() {
                assert(c[i as int].origin.inferred());
                return true;
            }
            i = i + 1;
        }
        false
    }
}

// ─────────────────────────────── diagnostics ──────────────────────────

/// How severe a finding is.
#[derive(Debug, Clone, Copy, PartialEq, Eq, Structural)]
pub enum DiagLevel {
    Info,
    Warn,
    Error,
}

/// A finding of a scan or of a validation.
#[derive(Debug, Clone)]
pub struct Diagnostic {
    pub level: DiagLevel,
    pub code: String,
    pub message: String,
    pub location: Option<SourceLoc>,
}

#[verifier::ext_equal]
pub struct DiagnosticView {
    pub level: DiagLevel,
    pub code: Seq<char>,
    pub message: Seq<char>,
    pub location: Option<SourceLocView>,
}

impl View for Diagnostic {
    type V = DiagnosticView;

    open spec fn view(&self) -> DiagnosticView {
        DiagnosticView {
            level: self.level,
            code: self.code@,
            message: self.message@,
            location: opt_view(self.location),
        }
    }
}

impl Replicate for Diagnostic {
    fn replicate(&self) -> (r: Self) {
        Diagnostic {
            level: self.level,
            code: self.code.clone(),
            message: self.message.clone(),
            location: replicate_opt(&self.location),
        }
    }
}

pub open spec fn finding(level: DiagLevel, code: Seq<char>, message: Seq<char>) -> DiagnosticView {
    DiagnosticView { level, code, message, location: None }
}

impl Diagnostic {
    pub fn warn(code: &str, message: &str) -> (r: Self)
        ensures
            r@ == finding(DiagLevel::Warn, code@, message@),
    {
        Diagnostic {
            level: DiagLevel::Warn,
            code: code.to_owned(),
            message: message.to_owned(),
            location: None,
        }
    }

    pub fn error(code: &str, message: &str) -> (r: Self)
        ensures
            r@ == finding(DiagLevel::Error, code@, message@),
    {
        Diagnostic {
            level: DiagLevel::Error,
            code: code.to_owned(),
            message: message.to_owned(),
            location: None,
        }
    }

    pub fn info(code: &str, message: &str) -> (r: Self)
        ensures
            r@ == finding(DiagLevel::Info, code@, message@),
    {
        Diagnostic {
            level: DiagLevel::Info,
            code: code.to_owned(),
            message: message.to_owned(),
            location: None,
        }
    }

    pub fn at(self, loc: SourceLoc) -> (r: Self)
        ensures
            r@ == (DiagnosticView { location: Some(loc@), ..self@ }),
    {
        Diagnostic { location: Some(loc), ..self }
    }
}

// ─────────────────────────────── the document ─────────────────────────

/// A lineage document.
#[derive(Debug, Clone)]
pub struct WeaveDocument {
    pub weave_version: String,
    /// Tool that produced the document.
    pub producer: String,
    /// Time stamp, set after a scan so that a scan is reproducible.
    pub generated_at: Option<String>,
    pub namespace: String,
    pub datasets: Vec<Dataset>,
    pub jobs: Vec<Job>,
    pub edges: Vec<Edge>,
    pub diagnostics: Vec<Diagnostic>,
}

#[verifier::ext_equal]
pub struct DocumentView {
    pub weave_version: Seq<char>,
    pub producer: Seq<char>,
    pub generated_at: Option<Seq<char>>,
    pub namespace: Seq<char>,
    pub datasets: Seq<DatasetView>,
    pub jobs: Seq<JobView>,
    pub edges: Seq<EdgeView>,
    pub diagnostics: Seq<DiagnosticView>,
}

impl View for WeaveDocument {
    type V = DocumentView;

    open spec fn view(&self) -> DocumentView {
        DocumentView {
            weave_version: self.weave_version@,
            producer: self.producer@,
            generated_at: opt_text(self.generated_at),
            namespace: self.namespace@,
            datasets: views(self.datasets@),
            jobs: views(self.jobs@),
            edges: views(self.edges@),
            diagnostics: views(self.diagnostics@),
        }
    }
}

/// The position of the first dataset from `k` on that has the name; the
/// number of datasets when none has.
pub open spec fn dataset_index(ds: Seq<DatasetView>, name: Seq<char>, k: int) -> int
    decreases ds.len() - k,
{
    if k >= ds.len() {
        ds.len() as int
    } else if ds[k].name == name {
        k
    } else {
        dataset_index(ds, name, k + 1)
    }
}

/// True when a dataset has the name.
pub open spec fn has_dataset(ds: Seq<DatasetView>, name: Seq<char>) -> bool {
    dataset_index(ds, name, 0) < ds.len()
}

/// The datasets after `d` was merged into the one with its name, or added.
pub open spec fn upserted(ds: Seq<DatasetView>, d: DatasetView) -> Seq<DatasetView> {
    let i = dataset_index(ds, d.name, 0);
    if i < ds.len() {
        ds.update(i, merged_dataset(ds[i], d))
    } else {
        ds.push(d)
    }
}

pub proof fn dataset_index_bounds(ds: Seq<DatasetView>, name: Seq<char>, k: int)
    requires
        0 <= k <= ds.len(),
    ensures
        k <= dataset_index(ds, name, k) <= ds.len(),
        dataset_index(ds, name, k) < ds.len() ==> ds[dataset_index(ds, name, k)].name == name,
        forall|j: int| k <= j < dataset_index(ds, name, k) ==> (#[trigger] ds[j]).name != name,
    decreases ds.len() - k,
{
    if k < ds.len() && ds[k].name != name {
        dataset_index_bounds(ds, name, k + 1);
    }
}

impl WeaveDocument {
    pub fn new(namespace: &str, producer: &str) -> (r: Self)
        ensures
            r@ == (DocumentView {
                weave_version: "0.1"@,
                producer: producer@,
                generated_at: None,
                namespace: namespace@,
                datasets: Seq::empty(),
                jobs: Seq::empty(),
                edges: Seq::empty(),
                diagnostics: Seq::empty(),
            }),
    {
        broadcast use group_views;

        WeaveDocument {
            weave_version: WEAVE_VERSION.to_owned(),
            producer: producer.to_owned(),
            generated_at: None,
            namespace: namespace.to_owned(),
            datasets: Vec::new(),
            jobs: Vec::new(),
            edges: Vec::new(),
            diagnostics: Vec::new(),
        }
    }

    pub(crate) fn find_dataset(&self, name: &str) -> (r: usize)
        ensures
            r == dataset_index(self@.datasets, name@, 0),
            r <= self.datasets@.len(),
    {
        let ghost ds = self@.datasets;
        let mut i: usize = 0;
        while i < self.datasets.len()
            invariant
                i <= self.datasets@.len(),
                ds == views(self.datasets@),
                dataset_index(ds, name@, 0) == dataset_index(ds, name@, i as int),
            decreases self.datasets@.len() - i,
        {
            if str_eq(self.datasets[i].name.as_str(), name) {
                return i;
            }
            i = i + 1;
        }
        i
    }

    /// The first dataset with the name.
    pub fn dataset(&self, name: &str) -> (r: Option<&Dataset>)
        ensures
            match r {
                Some(d) => has_dataset(self@.datasets, name@) && d@
                    == self@.datasets[dataset_index(self@.datasets, name@, 0)],
                None => !has_dataset(self@.datasets, name@),
            },
    {
        let i = self.find_dataset(name);
        if i < self.datasets.len() {
            proof {
                dataset_index_bounds(self@.datasets, name@, 0);
            }
            Some(&self.datasets[i])
        } else {
            None
        }
    }

    /// The first dataset with the name, to be changed in place.
    pub fn dataset_mut(&mut self, name: &str) -> (r: Option<&mut Dataset>)
        ensures
            match r {
                Some(d) => {
                    let i = dataset_index(old(self)@.datasets, name@, 0);
                    &&& has_dataset(old(self)@.datasets, name@)
                    &&& d@ == old(self)@.datasets[i]
                    &&& final(self)@ == (DocumentView {
                        datasets: old(self)@.datasets.update(i, final(d)@),
                        ..old(self)@
                    })
                },
                None => !has_dataset(old(self)@.datasets, name@) && final(self)@ == old(self)@,
            },
    {
        broadcast use group_views;

        proof {
            dataset_index_bounds(self@.datasets, name@, 0);
        }
        let i = self.find_dataset(name);
        if i < self.datasets.len() {
            Some(&mut self.datasets[i])
        } else {
            None
        }
    }

    /// Merges `ds` into the dataset with its name, or adds it.
    pub fn upsert_dataset(&mut self, ds: Dataset) -> (r: DatasetRef)
        ensures
            final(self)@ == (DocumentView {
                datasets: upserted(old(self)@.datasets, ds@),
                ..old(self)@
            }),
            r@ == ds@.name,
    {
        broadcast use group_views;

        let name = ds.name.clone();
        proof {
            dataset_index_bounds(self@.datasets, name@, 0);
        }
        match self.dataset_mut(name.as_str()) {
            Some(existing) => {
                existing.merge_from(ds);
            },
            None => {
                self.datasets.push(ds);
            },
        }
        name
    }
}

// ──────────────────────────────── laws ────────────────────────────────

/// True when no part of the name holds a dot.
pub open spec fn parts_plain(p: FqnPartsView) -> bool {
    !p.service.contains('.') && !p.database.contains('.') && !p.schema.contains('.')
        && !p.table.contains('.')
}

/// The parts of a full name are the parts it was made of, blanks and all, as
/// long as none of them holds a dot.
pub proof fn fqn_parts_of_table_fqn(p: FqnPartsView)
    requires
        parts_plain(p),
    ensures
        fqn_parts(table_fqn(p)) == Some(p),
{
    reveal_strlit(".");
    let dot = seq!['.'];
    assert("."@ =~= dot);
    let c = p.schema + dot + p.table;
    let b = p.database + dot + c;
    let a = p.service + dot + b;
    assert(table_fqn(p) =~= a);
    split_in_front(p.service, b, '.');
    split_in_front(p.database, c, '.');
    split_in_front(p.schema, p.table, '.');
    split_whole(p.table, '.');
    assert(split_text(a, '.') =~= seq![p.service, p.database, p.schema, p.table]);
}

/// A full name that has four parts is made of them.
pub proof fn table_fqn_of_fqn_parts(fqn: Seq<char>)
    ensures
        fqn_parts(fqn) matches Some(p) ==> table_fqn(p) == fqn,
{
    if let Some(p) = fqn_parts(fqn) {
        reveal_strlit(".");
        assert("."@ =~= seq!['.']);
        let s = split_text(fqn, '.');
        split_then_join(fqn, '.');
        reveal_with_fuel(joined_upto, 5);
        assert(joined(s, seq!['.']) =~= table_fqn(p));
    }
}

/// The label of an inferred mapping always ends with the tag of its
/// provenance; that of a declared mapping is shown as it was written.
pub proof fn inferred_labels_are_tagged(c: ColumnEdgeView)
    ensures
        !c.origin.inferred() ==> shown_function(c) == c.function,
        c.origin.inferred() ==> tag_of(c.origin.source) is Some && (shown_function(c) matches Some(
            t,
        ) && ends_with_text(t, "("@ + tag_of(c.origin.source)->0 + ")"@)),
{
    if c.origin.inferred() {
        let tag = tag_of(c.origin.source)->0;
        let end = "("@ + tag + ")"@;
        let base = match c.function {
            Some(f) => f,
            None => Seq::empty(),
        };
        let t = annotated(c.origin.source, base);
        reveal_strlit("(");
        reveal_strlit(" (");
        assert(" ("@ =~= seq![' '] + "("@);
        assert(t.subrange(t.len() - end.len(), t.len() as int) =~= end);
    }
}

proof fn merged_schema_has(a: Seq<FieldView>, b: Seq<FieldView>, n: int)
    requires
        n <= b.len(),
    ensures
        forall|name: Seq<char>| #[trigger] has_field(a, name) ==> has_field(merged_schema(a, b, n), name),
        forall|i: int| 0 <= i < n ==> has_field(merged_schema(a, b, n), (#[trigger] b[i]).name),
    decreases n,
{
    if n > 0 {
        merged_schema_has(a, b, n - 1);
        let s = merged_schema(a, b, n - 1);
        let r = merged_schema(a, b, n);
        assert forall|name: Seq<char>| #[trigger] has_field(s, name) implies has_field(r, name) by {
            let i = choose|i: int| 0 <= i < s.len() && (#[trigger] s[i]).name == name;
            assert(r[i].name == name);
        }
        if !has_field(s, b[n - 1].name) {
            assert(r[s.len() as int].name == b[n - 1].name);
        }
    }
}

proof fn merged_schema_again(s: Seq<FieldView>, b: Seq<FieldView>, n: int)
    requires
        n <= b.len(),
        forall|i: int| 0 <= i < b.len() ==> has_field(s, (#[trigger] b[i]).name),
    ensures
        merged_schema(s, b, n) == s,
    decreases n,
{
    if n > 0 {
        merged_schema_again(s, b, n - 1);
    }
}

/// True when an entry has the key.
pub open spec fn has_entry(s: Seq<(Seq<char>, serde_json::Value)>, k: Seq<char>) -> bool {
    exists|i: int| 0 <= i < s.len() && (#[trigger] s[i]).0 == k
}

proof fn merged_entries_have(
    a: Seq<(Seq<char>, serde_json::Value)>,
    b: Seq<(Seq<char>, serde_json::Value)>,
    n: int,
)
    requires
        n <= b.len(),
    ensures
        forall|i: int| 0 <= i < n ==> has_entry(merged_entries(a, b, n), (#[trigger] b[i]).0),
    decreases n,
{
    if n > 0 {
        merged_entries_have(a, b, n - 1);
        let s = merged_entries(a, b, n - 1);
        let r = merged_entries(a, b, n);
        assert forall|i: int| 0 <= i < n implies has_entry(r, (#[trigger] b[i]).0) by {
            if i < n - 1 {
                let k = choose|k: int| 0 <= k < s.len() && (#[trigger] s[k]).0 == b[i].0;
                assert(r[k].0 == b[i].0);
            } else if has_entry(s, b[i].0) {
                let k = choose|k: int| 0 <= k < s.len() && (#[trigger] s[k]).0 == b[i].0;
                assert(r[k].0 == b[i].0);
            } else {
                assert(r[s.len() as int].0 == b[i].0);
            }
        }
    }
}

proof fn merged_entries_again(
    s: Seq<(Seq<char>, serde_json::Value)>,
    b: Seq<(Seq<char>, serde_json::Value)>,
    n: int,
)
    requires
        n <= b.len(),
        forall|i: int| 0 <= i < b.len() ==> has_entry(s, (#[trigger] b[i]).0),
    ensures
        merged_entries(s, b, n) == s,
    decreases n,
{
    if n > 0 {
        merged_entries_again(s, b, n - 1);
        assert(has_entry(s, b[n - 1].0));
    }
}

/// Merging the same knowledge into a dataset a second time changes nothing.
pub proof fn merging_is_idempotent(a: DatasetView, b: DatasetView)
    ensures
        merged_dataset(merged_dataset(a, b), b) == merged_dataset(a, b),
{
    merged_schema_has(a.schema, b.schema, b.schema.len() as int);
    let m = merged_dataset(a, b);
    merged_schema_again(m.schema, b.schema, b.schema.len() as int);
    merged_entries_have(a.facets, b.facets, b.facets.len() as int);
    merged_entries_again(m.facets, b.facets, b.facets.len() as int);
}

/// What is declared about a dataset is never overwritten by what is inferred:
/// a declared origin stays, and one that is merged in takes over an inferred
/// one. Columns and names that are known stay as they are.
pub proof fn declared_facts_survive_merging(a: DatasetView, b: DatasetView)
    ensures
        !a.origin.inferred() ==> merged_dataset(a, b).origin == a.origin,
        !b.origin.inferred() ==> !merged_dataset(a, b).origin.inferred(),
        merged_dataset(a, b).name == a.name,
        a.fqn is Some ==> merged_dataset(a, b).fqn == a.fqn,
        a.schema.len() <= merged_dataset(a, b).schema.len(),
        merged_dataset(a, b).schema.subrange(0, a.schema.len() as int) == a.schema,
{
    merged_schema_keeps(a.schema, b.schema, b.schema.len() as int);
}

proof fn merged_schema_keeps(a: Seq<FieldView>, b: Seq<FieldView>, n: int)
    ensures
        a.len() <= merged_schema(a, b, n).len(),
        merged_schema(a, b, n).subrange(0, a.len() as int) == a,
    decreases n,
{
    if n <= 0 {
        assert(a.subrange(0, a.len() as int) =~= a);
    } else {
        merged_schema_keeps(a, b, n - 1);
        let s = merged_schema(a, b, n - 1);
        let r = merged_schema(a, b, n);
        assert(r.subrange(0, a.len() as int) =~= s.subrange(0, a.len() as int));
    }
}

} // verus!

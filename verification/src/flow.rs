//! The model of the data-flow analysis: what a function body that works on
//! data frames says about columns.
//!
//! An analysis walks the statements of a body with a state: which variable
//! holds which table, which columns were made, what was written where. What it
//! cannot follow becomes an [`OpaqueNote`], never a guess.

use vstd::prelude::*;

use crate::decls::resolved_text;
use crate::model::{either, TransformType};
use crate::pyast::{
    span_of, PyCallTree, PyExprTree, PyForTree, PyHandlerTree, PyKeywordTree, PyStmtTree, Span,
};
use crate::source::{label_of, line_at};
use crate::sql::{extended_new, sql_lineage, SqlColRefView, SqlMappingView};
use crate::text::{
    ascii_lower, contains_text, opt_text, push_new, replicate_opt, replicate_vec, same_opt,
    same_vec, str_eq, views, Replicate, Same,
};

verus! {

// ─────────────────────────────── results ──────────────────────────────

/// One column inferred from code.
#[derive(Debug, Clone, PartialEq)]
pub struct InferredColumn {
    /// Source columns as `table.column`, or as `column` when the table is not
    /// known.
    pub sources: Vec<String>,
    pub target: String,
    /// Label: the text of the producing expression.
    pub function: Option<String>,
    pub transform_type: TransformType,
    /// The table that the column is written to, if known.
    pub output_table: Option<String>,
}

#[verifier::ext_equal]
pub struct InferredColumnView {
    pub sources: Seq<Seq<char>>,
    pub target: Seq<char>,
    pub function: Option<Seq<char>>,
    pub transform_type: TransformType,
    pub output_table: Option<Seq<char>>,
}

impl View for InferredColumn {
    type V = InferredColumnView;

    open spec fn view(&self) -> InferredColumnView {
        InferredColumnView {
            sources: views(self.sources@),
            target: self.target@,
            function: opt_text(self.function),
            transform_type: self.transform_type,
            output_table: opt_text(self.output_table),
        }
    }
}

impl Replicate for InferredColumn {
    fn replicate(&self) -> (r: Self) {
        InferredColumn {
            sources: replicate_vec(&self.sources),
            target: self.target.clone(),
            function: replicate_opt(&self.function),
            transform_type: self.transform_type,
            output_table: replicate_opt(&self.output_table),
        }
    }
}

impl Same for InferredColumn {
    fn same(&self, other: &Self) -> (b: bool) {
        same_vec(&self.sources, &other.sources) && self.target == other.target && same_opt(
            &self.function,
            &other.function,
        ) && self.transform_type == other.transform_type && same_opt(
            &self.output_table,
            &other.output_table,
        )
    }
}

/// A spot that could not be traced.
#[derive(Debug, Clone, PartialEq)]
pub struct OpaqueNote {
    pub line: Option<u32>,
    pub detail: String,
}

#[verifier::ext_equal]
pub struct OpaqueNoteView {
    pub line: Option<u32>,
    pub detail: Seq<char>,
}

impl View for OpaqueNote {
    type V = OpaqueNoteView;

    open spec fn view(&self) -> OpaqueNoteView {
        OpaqueNoteView { line: self.line, detail: self.detail@ }
    }
}

impl Replicate for OpaqueNote {
    fn replicate(&self) -> (r: Self) {
        OpaqueNote { line: self.line, detail: self.detail.clone() }
    }
}

/// What a function body says about columns.
#[derive(Debug, Clone, PartialEq)]
pub struct DataflowResult {
    pub columns: Vec<InferredColumn>,
    pub opaque: Vec<OpaqueNote>,
    /// The tables that are read, each once.
    pub inputs: Vec<String>,
    /// The tables that are written, each once.
    pub outputs: Vec<String>,
    /// `pandas` or `spark`, by the first reader or writer that tells.
    pub engine: Option<String>,
}

#[verifier::ext_equal]
pub struct DataflowResultView {
    pub columns: Seq<InferredColumnView>,
    pub opaque: Seq<OpaqueNoteView>,
    pub inputs: Seq<Seq<char>>,
    pub outputs: Seq<Seq<char>>,
    pub engine: Option<Seq<char>>,
}

impl View for DataflowResult {
    type V = DataflowResultView;

    open spec fn view(&self) -> DataflowResultView {
        DataflowResultView {
            columns: views(self.columns@),
            opaque: views(self.opaque@),
            inputs: views(self.inputs@),
            outputs: views(self.outputs@),
            engine: opt_text(self.engine),
        }
    }
}

// ─────────────────────────── names that matter ────────────────────────

/// The method and accessor names of data frames, which are no columns.
pub open spec fn is_df_method(s: Seq<char>) -> bool {
    ||| s == "to_sql"@
    ||| s == "to_parquet"@
    ||| s == "to_csv"@
    ||| s == "merge"@
    ||| s == "join"@
    ||| s == "groupby"@
    ||| s == "agg"@
    ||| s == "apply"@
    ||| s == "rename"@
    ||| s == "assign"@
    ||| s == "astype"@
    ||| s == "fillna"@
    ||| s == "dropna"@
    ||| s == "drop"@
    ||| s == "reset_index"@
    ||| s == "copy"@
    ||| s == "columns"@
    ||| s == "values"@
    ||| s == "loc"@
    ||| s == "iloc"@
    ||| s == "head"@
    ||| s == "tail"@
    ||| s == "map"@
    ||| s == "round"@
    ||| s == "str"@
    ||| s == "dt"@
    ||| s == "alias"@
    ||| s == "cast"@
    ||| s == "withColumn"@
    ||| s == "withColumnRenamed"@
    ||| s == "select"@
    ||| s == "selectExpr"@
    ||| s == "filter"@
    ||| s == "where"@
    ||| s == "write"@
    ||| s == "read"@
    ||| s == "sql"@
    ||| s == "table"@
    ||| s == "parquet"@
    ||| s == "load"@
    ||| s == "format"@
    ||| s == "mode"@
    ||| s == "saveAsTable"@
    ||| s == "insertInto"@
    ||| s == "distinct"@
    ||| s == "limit"@
    ||| s == "orderBy"@
    ||| s == "sort"@
    ||| s == "union"@
    ||| s == "pivot"@
    ||| s == "melt"@
    ||| s == "explode"@
    ||| s == "withColumnsRenamed"@
}

pub(crate) fn df_method(s: &str) -> (r: bool)
    ensures
        r == is_df_method(s@),
{
    str_eq(s, "to_sql")
        || str_eq(s, "to_parquet")
        || str_eq(s, "to_csv")
        || str_eq(s, "merge")
        || str_eq(s, "join")
        || str_eq(s, "groupby")
        || str_eq(s, "agg")
        || str_eq(s, "apply")
        || str_eq(s, "rename")
        || str_eq(s, "assign")
        || str_eq(s, "astype")
        || str_eq(s, "fillna")
        || str_eq(s, "dropna")
        || str_eq(s, "drop")
        || str_eq(s, "reset_index")
        || str_eq(s, "copy")
        || str_eq(s, "columns")
        || str_eq(s, "values")
        || str_eq(s, "loc")
        || str_eq(s, "iloc")
        || str_eq(s, "head")
        || str_eq(s, "tail")
        || str_eq(s, "map")
        || str_eq(s, "round")
        || str_eq(s, "str")
        || str_eq(s, "dt")
        || str_eq(s, "alias")
        || str_eq(s, "cast")
        || str_eq(s, "withColumn")
        || str_eq(s, "withColumnRenamed")
        || str_eq(s, "select")
        || str_eq(s, "selectExpr")
        || str_eq(s, "filter")
        || str_eq(s, "where")
        || str_eq(s, "write")
        || str_eq(s, "read")
        || str_eq(s, "sql")
        || str_eq(s, "table")
        || str_eq(s, "parquet")
        || str_eq(s, "load")
        || str_eq(s, "format")
        || str_eq(s, "mode")
        || str_eq(s, "saveAsTable")
        || str_eq(s, "insertInto")
        || str_eq(s, "distinct")
        || str_eq(s, "limit")
        || str_eq(s, "orderBy")
        || str_eq(s, "sort")
        || str_eq(s, "union")
        || str_eq(s, "pivot")
        || str_eq(s, "melt")
        || str_eq(s, "explode")
        || str_eq(s, "withColumnsRenamed")
}

/// The readers whose argument is a query.
pub open spec fn reads_sql(s: Seq<char>) -> bool {
    ||| s == "read_sql"@
    ||| s == "read_sql_query"@
    ||| s == "sql"@
}

pub(crate) fn reads_sql_text(s: &str) -> (r: bool)
    ensures
        r == reads_sql(s@),
{
    str_eq(s, "read_sql")
        || str_eq(s, "read_sql_query")
        || str_eq(s, "sql")
}

/// The readers whose argument is a table name.
pub open spec fn reads_table(s: Seq<char>) -> bool {
    ||| s == "read_sql_table"@
    ||| s == "read_table"@
    ||| s == "table"@
}

pub(crate) fn reads_table_name(s: &str) -> (r: bool)
    ensures
        r == reads_table(s@),
{
    str_eq(s, "read_sql_table")
        || str_eq(s, "read_table")
        || str_eq(s, "table")
}

/// The readers whose argument is a path.
pub open spec fn reads_path(s: Seq<char>) -> bool {
    ||| s == "read_parquet"@
    ||| s == "read_csv"@
    ||| s == "read_json"@
    ||| s == "parquet"@
    ||| s == "load"@
    ||| s == "json"@
    ||| s == "csv"@
}

pub(crate) fn reads_from_path(s: &str) -> (r: bool)
    ensures
        r == reads_path(s@),
{
    str_eq(s, "read_parquet")
        || str_eq(s, "read_csv")
        || str_eq(s, "read_json")
        || str_eq(s, "parquet")
        || str_eq(s, "load")
        || str_eq(s, "json")
        || str_eq(s, "csv")
}

/// The readers of pandas.
pub open spec fn is_pandas_reader(s: Seq<char>) -> bool {
    ||| s == "read_sql"@
    ||| s == "read_sql_query"@
    ||| s == "read_sql_table"@
    ||| s == "read_parquet"@
    ||| s == "read_csv"@
    ||| s == "read_json"@
    ||| s == "read_table"@
}

pub(crate) fn pandas_reader(s: &str) -> (r: bool)
    ensures
        r == is_pandas_reader(s@),
{
    str_eq(s, "read_sql")
        || str_eq(s, "read_sql_query")
        || str_eq(s, "read_sql_table")
        || str_eq(s, "read_parquet")
        || str_eq(s, "read_csv")
        || str_eq(s, "read_json")
        || str_eq(s, "read_table")
}

/// The operations that keep the columns of a frame.
pub open spec fn is_passthrough_op(s: Seq<char>) -> bool {
    ||| s == "filter"@
    ||| s == "where"@
    ||| s == "orderBy"@
    ||| s == "sort"@
    ||| s == "limit"@
    ||| s == "distinct"@
    ||| s == "dropDuplicates"@
    ||| s == "cache"@
    ||| s == "persist"@
    ||| s == "repartition"@
    ||| s == "coalesce"@
    ||| s == "alias"@
    ||| s == "fillna"@
    ||| s == "dropna"@
    ||| s == "na"@
}

pub(crate) fn passthrough_op(s: &str) -> (r: bool)
    ensures
        r == is_passthrough_op(s@),
{
    str_eq(s, "filter")
        || str_eq(s, "where")
        || str_eq(s, "orderBy")
        || str_eq(s, "sort")
        || str_eq(s, "limit")
        || str_eq(s, "distinct")
        || str_eq(s, "dropDuplicates")
        || str_eq(s, "cache")
        || str_eq(s, "persist")
        || str_eq(s, "repartition")
        || str_eq(s, "coalesce")
        || str_eq(s, "alias")
        || str_eq(s, "fillna")
        || str_eq(s, "dropna")
        || str_eq(s, "na")
}

/// The operations whose columns depend on data or on a callable.
pub open spec fn is_opaque_op(s: Seq<char>) -> bool {
    ||| s == "merge"@
    ||| s == "join"@
    ||| s == "apply"@
    ||| s == "applymap"@
    ||| s == "pivot"@
    ||| s == "melt"@
    ||| s == "explode"@
    ||| s == "stack"@
    ||| s == "unstack"@
    ||| s == "transform"@
    ||| s == "pipe"@
    ||| s == "rdd"@
}

pub(crate) fn opaque_op(s: &str) -> (r: bool)
    ensures
        r == is_opaque_op(s@),
{
    str_eq(s, "merge")
        || str_eq(s, "join")
        || str_eq(s, "apply")
        || str_eq(s, "applymap")
        || str_eq(s, "pivot")
        || str_eq(s, "melt")
        || str_eq(s, "explode")
        || str_eq(s, "stack")
        || str_eq(s, "unstack")
        || str_eq(s, "transform")
        || str_eq(s, "pipe")
        || str_eq(s, "rdd")
}

/// The operations that make columns of a frame.
pub open spec fn is_column_op(s: Seq<char>) -> bool {
    ||| s == "groupby"@
    ||| s == "groupBy"@
    ||| s == "agg"@
    ||| s == "withColumn"@
    ||| s == "selectExpr"@
    ||| s == "withColumnRenamed"@
    ||| s == "rename"@
    ||| s == "assign"@
    ||| s == "select"@
}

pub(crate) fn column_op(s: &str) -> (r: bool)
    ensures
        r == is_column_op(s@),
{
    str_eq(s, "groupby")
        || str_eq(s, "groupBy")
        || str_eq(s, "agg")
        || str_eq(s, "withColumn")
        || str_eq(s, "selectExpr")
        || str_eq(s, "withColumnRenamed")
        || str_eq(s, "rename")
        || str_eq(s, "assign")
        || str_eq(s, "select")
}

/// The calls that write a frame, or make a view of it.
pub open spec fn is_writer(s: Seq<char>) -> bool {
    ||| s == "to_sql"@
    ||| s == "saveAsTable"@
    ||| s == "insertInto"@
    ||| s == "to_parquet"@
    ||| s == "to_csv"@
    ||| s == "parquet"@
    ||| s == "csv"@
    ||| s == "save"@
    ||| s == "createOrReplaceTempView"@
}

pub(crate) fn writer(s: &str) -> (r: bool)
    ensures
        r == is_writer(s@),
{
    str_eq(s, "to_sql")
        || str_eq(s, "saveAsTable")
        || str_eq(s, "insertInto")
        || str_eq(s, "to_parquet")
        || str_eq(s, "to_csv")
        || str_eq(s, "parquet")
        || str_eq(s, "csv")
        || str_eq(s, "save")
        || str_eq(s, "createOrReplaceTempView")
}

pub open spec fn is_reader(s: Seq<char>) -> bool {
    reads_sql(s) || reads_table(s) || reads_path(s)
}

// ──────────────────────────── small readings ──────────────────────────

/// The text of a string literal.
pub open spec fn const_text(e: PyExprTree) -> Option<Seq<char>> {
    match e {
        PyExprTree::Str(_, s) => Some(s),
        _ => None,
    }
}

/// The text of the `i`-th argument, when it is a string literal.
pub open spec fn arg_text(args: Seq<PyExprTree>, i: int) -> Option<Seq<char>> {
    if 0 <= i < args.len() {
        const_text(args[i])
    } else {
        None
    }
}

/// The last segment of a dotted callee.
pub open spec fn final_segment(e: PyExprTree) -> Option<Seq<char>> {
    match e {
        PyExprTree::Name(_, n) => Some(n),
        PyExprTree::Attribute(_, _, a) => Some(a),
        _ => None,
    }
}

/// True when the callee of `c` ends in the segment.
pub open spec fn calls(c: PyCallTree, seg: Seq<char>) -> bool {
    final_segment(*c.func) == Some(seg)
}

/// True for a literal.
pub open spec fn is_literal(e: PyExprTree) -> bool {
    e is Str || e is NoneLiteral || e is Literal
}

/// True for a reference to a single column with nothing around it.
pub open spec fn is_pure_ref(e: PyExprTree) -> bool {
    match e {
        PyExprTree::Subscript(_, _, _) => true,
        PyExprTree::Attribute(_, _, _) => true,
        PyExprTree::Call(c) => calls(c, "col"@) || calls(c, "column"@),
        _ => false,
    }
}

/// The variable that a chain of attributes, calls and subscripts starts from.
pub open spec fn innermost(e: PyExprTree) -> Option<Seq<char>>
    decreases e,
{
    match e {
        PyExprTree::Name(_, n) => Some(n),
        PyExprTree::Attribute(_, v, _) => innermost(*v),
        PyExprTree::Call(c) => innermost(*c.func),
        PyExprTree::Subscript(_, v, _) => innermost(*v),
        _ => None,
    }
}

/// The texts of a non-empty list of string literals.
pub open spec fn all_texts(elts: Seq<PyExprTree>) -> Option<Seq<Seq<char>>> {
    if elts.len() > 0 && forall|i: int| 0 <= i < elts.len() ==> #[trigger] elts[i] is Str {
        Some(Seq::new(elts.len(), |i: int| elts[i]->Str_1))
    } else {
        None
    }
}

/// The texts of a list or tuple display of string literals.
pub open spec fn string_list(e: PyExprTree) -> Option<Seq<Seq<char>>> {
    match e {
        PyExprTree::List(_, v) => all_texts(v),
        PyExprTree::Tuple(_, v) => all_texts(v),
        _ => None,
    }
}

/// The method calls of a chain, innermost first.
pub open spec fn chain_calls(e: PyExprTree) -> Seq<PyCallTree>
    decreases e,
{
    match e {
        PyExprTree::Call(c) => match *c.func {
            PyExprTree::Attribute(_, v, _) => chain_calls(*v).push(c),
            _ => Seq::empty(),
        },
        _ => Seq::empty(),
    }
}

/// What the methods of a chain are called on in the end.
pub open spec fn chain_base(e: PyExprTree) -> PyExprTree
    decreases e,
{
    match e {
        PyExprTree::Call(c) => match *c.func {
            PyExprTree::Attribute(_, v, _) => chain_base(*v),
            _ => e,
        },
        _ => e,
    }
}

/// The segment of a call of a chain.
pub open spec fn method_of(c: PyCallTree) -> Seq<char> {
    match *c.func {
        PyExprTree::Attribute(_, _, a) => a,
        _ => Seq::empty(),
    }
}

/// True when an operation that makes columns is called somewhere in a chain of
/// calls, attributes and subscripts, or, if asked, one whose columns depend on
/// data.
pub open spec fn rewrites(e: PyExprTree, opaque: bool) -> bool
    decreases e,
{
    match e {
        PyExprTree::Call(c) => is_column_op(method_of(c)) || (opaque && is_opaque_op(method_of(c)))
            || rewrites(*c.func, opaque),
        PyExprTree::Attribute(_, v, _) => rewrites(*v, opaque),
        PyExprTree::Subscript(_, v, _) => rewrites(*v, opaque),
        _ => false,
    }
}

// ─────────────────────────────── the state ────────────────────────────

/// What names stand for.
#[verifier::ext_equal]
pub struct Scope {
    /// Module-level string constants.
    pub consts: Map<Seq<char>, Seq<char>>,
    /// The table that a variable holds, where it is known.
    pub frames: Map<Seq<char>, Option<Seq<char>>>,
    /// The string that a variable holds, where it is known.
    pub locals: Map<Seq<char>, Option<Seq<char>>>,
    /// The variable of the loop that is being unrolled, and its value.
    pub loop_var: Option<(Seq<char>, Seq<char>)>,
    /// The parameter of the row lambda that is being read, and its table.
    pub row: Option<(Seq<char>, Option<Seq<char>>)>,
}

/// The state of an analysis.
#[verifier::ext_equal]
pub struct Flow {
    pub source: Seq<char>,
    pub scope: Scope,
    /// The columns made so far, each with the variable that holds them.
    pub columns: Seq<(Seq<char>, InferredColumnView)>,
    /// The table that a variable was written to; none for a path.
    pub writes: Map<Seq<char>, Option<Seq<char>>>,
    /// The table behind a temporary view, where it is known.
    pub temp_views: Map<Seq<char>, Option<Seq<char>>>,
    pub opaque: Seq<OpaqueNoteView>,
    pub inputs: Seq<Seq<char>>,
    pub outputs: Seq<Seq<char>>,
    pub engine: Option<Seq<char>>,
}

/// The table that a variable holds, where it is known.
pub open spec fn frame_table(sc: Scope, id: Seq<char>) -> Option<Seq<char>> {
    if sc.frames.contains_key(id) {
        sc.frames[id]
    } else {
        None
    }
}

/// The table behind a variable that columns can be read from: a data frame or
/// the row of a lambda. None when it is neither.
pub open spec fn base_table(sc: Scope, id: Seq<char>) -> Option<Option<Seq<char>>> {
    if sc.frames.contains_key(id) {
        Some(sc.frames[id])
    } else {
        match sc.row {
            Some((param, table)) => if param == id {
                Some(table)
            } else {
                None
            },
            None => None,
        }
    }
}

/// The string that a local variable or else a module constant holds.
pub open spec fn stored_value(sc: Scope, id: Seq<char>) -> Option<Seq<char>> {
    if sc.locals.contains_key(id) {
        sc.locals[id]
    } else if sc.consts.contains_key(id) {
        Some(sc.consts[id])
    } else {
        None
    }
}

/// The string that a name stands for at compile time.
pub open spec fn name_value(sc: Scope, id: Seq<char>) -> Option<Seq<char>> {
    match sc.loop_var {
        Some((var, value)) => if var == id {
            Some(value)
        } else {
            stored_value(sc, id)
        },
        None => stored_value(sc, id),
    }
}

/// The column that a subscript names at compile time.
pub open spec fn col_name(sc: Scope, e: PyExprTree) -> Option<Seq<char>> {
    match e {
        PyExprTree::Str(_, s) => Some(s),
        PyExprTree::Name(_, n) => name_value(sc, n),
        _ => None,
    }
}

/// What stands in a folded string for a value that only exists at run time.
pub open spec fn placeholder() -> Seq<char> {
    "tw_tmpl"@
}

/// The text of one part of an f-string.
pub open spec fn part_text(sc: Scope, e: PyExprTree) -> Seq<char> {
    match e {
        PyExprTree::Str(_, s) => s,
        PyExprTree::Formatted(_, v) => match *v {
            PyExprTree::Name(_, n) => match name_value(sc, n) {
                Some(s) => s,
                None => placeholder(),
            },
            PyExprTree::Str(_, s) => s,
            _ => placeholder(),
        },
        _ => placeholder(),
    }
}

/// The text of the first `n` parts of an f-string.
pub open spec fn folded(sc: Scope, parts: Seq<PyExprTree>, n: int) -> Seq<char>
    decreases n,
{
    if n <= 0 {
        Seq::empty()
    } else {
        folded(sc, parts, n - 1) + part_text(sc, parts[n - 1])
    }
}

/// The text that an expression stands for, values of run time being replaced
/// by the placeholder inside f-strings.
pub open spec fn text_value(sc: Scope, e: PyExprTree) -> Option<Seq<char>> {
    match e {
        PyExprTree::Str(_, s) => Some(s),
        PyExprTree::Name(_, n) => name_value(sc, n),
        PyExprTree::FString(_, parts) => Some(folded(sc, parts, parts.len() as int)),
        _ => None,
    }
}

pub open spec fn first_text_value(sc: Scope, args: Seq<PyExprTree>) -> Option<Seq<char>> {
    if args.len() > 0 {
        text_value(sc, args[0])
    } else {
        None
    }
}

// ─────────────────────────── column references ────────────────────────

/// A reference as `table.column`, or as `column` without a table.
pub open spec fn rendered(r: SqlColRefView) -> Seq<char> {
    match r.table {
        Some(t) => t + "."@ + r.column,
        None => r.column,
    }
}

/// The sources of the first `n` mappings, one after the other.
pub open spec fn mapping_refs(ms: Seq<SqlMappingView>, n: int) -> Seq<SqlColRefView>
    decreases n,
{
    if n <= 0 {
        Seq::empty()
    } else {
        mapping_refs(ms, n - 1) + ms[n - 1].sources
    }
}

/// The mappings of an item of a projection.
pub open spec fn fragment_mappings(item: Seq<char>) -> Seq<SqlMappingView> {
    sql_lineage("SELECT "@ + item).mappings
}

/// The references of a SQL expression, read with a throw-away alias.
pub open spec fn fragment_refs(frag: Seq<char>) -> Seq<SqlColRefView> {
    let ms = fragment_mappings(frag + " AS __tw_expr"@);
    mapping_refs(ms, ms.len() as int)
}

/// `out` followed by the column references of an expression.
pub open spec fn cols_of(sc: Scope, e: PyExprTree, out: Seq<SqlColRefView>) -> Seq<SqlColRefView>
    decreases e, 0int,
{
    match e {
        PyExprTree::Subscript(_, v, s) => match *v {
            PyExprTree::Name(_, n) => match (base_table(sc, n), col_name(sc, *s)) {
                (Some(table), Some(column)) => out.push(SqlColRefView { table, column }),
                _ => out,
            },
            _ => cols_of(sc, *v, out),
        },
        PyExprTree::Attribute(_, v, a) => match *v {
            PyExprTree::Name(_, n) => match base_table(sc, n) {
                Some(table) => if is_df_method(a) {
                    out
                } else {
                    out.push(SqlColRefView { table, column: a })
                },
                None => out,
            },
            _ => cols_of(sc, *v, out),
        },
        PyExprTree::Call(c) => if c.args.len() == 1 && (calls(c, "col"@) || calls(c, "column"@))
            && c.args[0] is Str {
            out.push(SqlColRefView { table: None, column: c.args[0]->Str_1 })
        } else if c.args.len() == 1 && calls(c, "expr"@) && c.args[0] is Str {
            out + fragment_refs(c.args[0]->Str_1)
        } else {
            let received = match *c.func {
                PyExprTree::Attribute(_, v, _) => cols_of(sc, *v, out),
                _ => out,
            };
            keyword_cols(
                sc,
                c.keywords,
                c.keywords.len() as int,
                list_cols(sc, c.args, c.args.len() as int, received),
            )
        },
        PyExprTree::BinOp(_, l, r) => cols_of(sc, *r, cols_of(sc, *l, out)),
        PyExprTree::UnaryOp(_, o) => cols_of(sc, *o, out),
        PyExprTree::Compare(_, l, v) => list_cols(sc, v, v.len() as int, cols_of(sc, *l, out)),
        PyExprTree::List(_, v) => list_cols(sc, v, v.len() as int, out),
        PyExprTree::Tuple(_, v) => list_cols(sc, v, v.len() as int, out),
        _ => out,
    }
}

pub open spec fn list_cols(
    sc: Scope,
    v: Seq<PyExprTree>,
    n: int,
    out: Seq<SqlColRefView>,
) -> Seq<SqlColRefView>
    decreases v, n,
{
    if n <= 0 || n > v.len() {
        out
    } else {
        cols_of(sc, v[n - 1], list_cols(sc, v, n - 1, out))
    }
}

pub open spec fn keyword_cols(
    sc: Scope,
    k: Seq<PyKeywordTree>,
    n: int,
    out: Seq<SqlColRefView>,
) -> Seq<SqlColRefView>
    decreases k, n,
{
    if n <= 0 || n > k.len() {
        out
    } else {
        cols_of(sc, k[n - 1].value, keyword_cols(sc, k, n - 1, out))
    }
}

/// True for the text of an aggregation.
pub open spec fn looks_aggregate(label: Seq<char>) -> bool {
    let l = ascii_lower(label);
    ||| contains_text(l, "sum("@)
    ||| contains_text(l, "mean("@)
    ||| contains_text(l, "avg("@)
    ||| contains_text(l, "count("@)
    ||| contains_text(l, "min("@)
    ||| contains_text(l, "max("@)
    ||| contains_text(l, ".agg("@)
    ||| contains_text(l, "groupby"@)
}

/// How an expression with these sources produces its column.
pub open spec fn flow_kind(source: Seq<char>, e: PyExprTree, srcs: Seq<SqlColRefView>) -> TransformType {
    if is_pure_ref(e) && srcs.len() == 1 {
        TransformType::Identity
    } else if looks_aggregate(label_of(source, span_of(e))) {
        TransformType::Aggregation
    } else {
        TransformType::Transformation
    }
}

// ───────────────────────────────── steps ──────────────────────────────

/// The state with a note added for a place in the source.
pub open spec fn noted(f: Flow, span: Span, detail: Seq<char>) -> Flow {
    Flow {
        opaque: f.opaque.push(
            OpaqueNoteView { line: Some(line_at(f.source, span.start)), detail },
        ),
        ..f
    }
}

/// The state with a column added to a variable.
pub open spec fn with_column(f: Flow, owner: Seq<char>, c: InferredColumnView) -> Flow {
    Flow { columns: f.columns.push((owner, c)), ..f }
}

/// The state with a variable bound to a table and to a string.
pub open spec fn bound(f: Flow, var: Seq<char>, table: Option<Seq<char>>, text: Option<Seq<char>>) -> Flow {
    Flow {
        scope: Scope {
            frames: f.scope.frames.insert(var, table),
            locals: f.scope.locals.insert(var, text),
            ..f.scope
        },
        ..f
    }
}

/// The state after an operation that tells the engine.
pub open spec fn engine_seen(f: Flow, engine: Seq<char>) -> Flow {
    Flow { engine: either(f.engine, Some(engine)), ..f }
}

/// The reference with the base table where it has none.
pub open spec fn defaulted(r: SqlColRefView, table: Option<Seq<char>>) -> SqlColRefView {
    SqlColRefView { table: either(r.table, table), column: r.column }
}

/// The rendered references, each with the base table where it has none.
pub open spec fn rendered_refs(srcs: Seq<SqlColRefView>, table: Option<Seq<char>>) -> Seq<Seq<char>> {
    Seq::new(srcs.len(), |i: int| rendered(defaulted(srcs[i], table)))
}

/// The state with a column added by an operation on a frame.
pub open spec fn op_column(
    f: Flow,
    owner: Seq<char>,
    target: Seq<char>,
    srcs: Seq<SqlColRefView>,
    table: Option<Seq<char>>,
    kind: TransformType,
    function: Option<Seq<char>>,
) -> Flow {
    with_column(
        f,
        owner,
        InferredColumnView {
            sources: rendered_refs(srcs, table),
            target,
            function,
            transform_type: kind,
            output_table: None,
        },
    )
}

/// A reference to a column of the base table.
pub open spec fn base_ref(table: Option<Seq<char>>, column: Seq<char>) -> Seq<SqlColRefView> {
    seq![SqlColRefView { table, column }]
}

/// True for `<receiver>.apply(…)`.
pub open spec fn is_apply(e: PyExprTree) -> bool {
    match e {
        PyExprTree::Call(c) => match *c.func {
            PyExprTree::Attribute(_, _, a) => a == "apply"@,
            _ => false,
        },
        _ => false,
    }
}

/// The references of the body of an inline row lambda; none for a callable
/// that is named.
pub open spec fn lambda_refs(sc: Scope, e: PyExprTree) -> Seq<SqlColRefView> {
    match e {
        PyExprTree::Call(c) => match *c.func {
            PyExprTree::Attribute(_, v, _) => {
                let table = match innermost(*v) {
                    Some(n) => frame_table(sc, n),
                    None => None,
                };
                if c.args.len() > 0 {
                    match c.args[0] {
                        PyExprTree::Lambda(_, Some(param), body) => cols_of(
                            Scope { row: Some((param, table)), ..sc },
                            *body,
                            Seq::empty(),
                        ),
                        _ => Seq::empty(),
                    }
                } else {
                    Seq::empty()
                }
            },
            _ => Seq::empty(),
        },
        _ => Seq::empty(),
    }
}

/// The references of the right side of a column assignment.
pub open spec fn value_refs(sc: Scope, value: PyExprTree) -> Seq<SqlColRefView> {
    if is_apply(value) {
        lambda_refs(sc, value)
    } else {
        cols_of(sc, value, Seq::empty())
    }
}

/// `owner["col"] = value`
pub open spec fn recorded(f: Flow, owner: Seq<char>, col: Seq<char>, value: PyExprTree) -> Flow {
    let srcs = value_refs(f.scope, value);
    if srcs.len() == 0 && !is_literal(value) {
        noted(
            f,
            span_of(value),
            "couldn't trace sources of `"@ + owner + "[\""@ + col
                + "\"]` — declare it in column_map"@,
        )
    } else {
        with_column(
            f,
            owner,
            InferredColumnView {
                sources: Seq::new(srcs.len(), |i: int| rendered(srcs[i])),
                target: col,
                function: Some(label_of(f.source, span_of(value))),
                transform_type: flow_kind(f.source, value, srcs),
                output_table: frame_table(f.scope, owner),
            },
        )
    }
}

/// `var = src[["a", "b"]]`: the first `n` columns pass through.
pub open spec fn subset(
    f: Flow,
    var: Seq<char>,
    table: Option<Seq<char>>,
    cols: Seq<Seq<char>>,
    n: int,
) -> Flow
    decreases n,
{
    if n <= 0 {
        f
    } else {
        with_column(
            subset(f, var, table, cols, n - 1),
            var,
            InferredColumnView {
                sources: seq![rendered(SqlColRefView { table, column: cols[n - 1] })],
                target: cols[n - 1],
                function: None,
                transform_type: TransformType::Identity,
                output_table: None,
            },
        )
    }
}

/// The table that a name in a query stands for: the one behind a temporary
/// view where that is known.
pub open spec fn resolved_table(f: Flow, name: Seq<char>) -> Seq<char> {
    if f.temp_views.contains_key(name) {
        match f.temp_views[name] {
            Some(t) => t,
            None => name,
        }
    } else {
        name
    }
}

pub open spec fn resolved_tables(f: Flow, names: Seq<Seq<char>>) -> Seq<Seq<char>> {
    Seq::new(names.len(), |i: int| resolved_table(f, names[i]))
}

/// The text of the first argument of a reader call. A query that Spark runs
/// may be an f-string or a local string; elsewhere it is a literal or a
/// constant of the module.
pub open spec fn reader_text(f: Flow, seg: Seq<char>, c: PyCallTree) -> Option<Seq<char>> {
    if seg == "sql"@ {
        first_text_value(f.scope, c.args)
    } else if c.args.len() > 0 {
        resolved_text(f.scope.consts, c.args[0])
    } else {
        None
    }
}

/// The tables that a reader call reads.
pub open spec fn reader_tables(f: Flow, seg: Seq<char>, c: PyCallTree) -> Seq<Seq<char>> {
    match reader_text(f, seg, c) {
        Some(t) => if reads_sql(seg) {
            resolved_tables(f, sql_lineage(t).source_tables)
        } else if reads_table(seg) {
            seq![resolved_table(f, t)]
        } else {
            Seq::empty()
        },
        None => Seq::empty(),
    }
}

/// The state after a reader call.
pub open spec fn read(f: Flow, seg: Seq<char>, c: PyCallTree) -> Flow {
    let tables = reader_tables(f, seg, c);
    engine_seen(
        Flow { inputs: extended_new(f.inputs, tables, tables.len() as int), ..f },
        if is_pandas_reader(seg) {
            "pandas"@
        } else {
            "spark"@
        },
    )
}

/// The first of a list of tables.
pub open spec fn first_table(tables: Seq<Seq<char>>) -> Option<Seq<char>> {
    if tables.len() > 0 {
        Some(tables[0])
    } else {
        None
    }
}

/// The names of the first `n` grouping arguments.
pub open spec fn group_names(sc: Scope, args: Seq<PyExprTree>, n: int) -> Seq<Seq<char>>
    decreases n,
{
    if n <= 0 {
        Seq::empty()
    } else {
        let prev = group_names(sc, args, n - 1);
        match const_text(args[n - 1]) {
            Some(s) => prev.push(s),
            None => {
                let refs = cols_of(sc, args[n - 1], Seq::empty());
                prev + Seq::new(refs.len(), |i: int| refs[i].column)
            },
        }
    }
}

/// The first `n` grouping columns pass through.
pub open spec fn grouped(
    f: Flow,
    owner: Seq<char>,
    names: Seq<Seq<char>>,
    table: Option<Seq<char>>,
    n: int,
) -> Flow
    decreases n,
{
    if n <= 0 {
        f
    } else {
        op_column(
            grouped(f, owner, names, table, n - 1),
            owner,
            names[n - 1],
            base_ref(table, names[n - 1]),
            table,
            TransformType::Identity,
            None,
        )
    }
}

/// The state after a note for each of the first `n` grouping arguments that
/// names no column.
pub open spec fn keys_noted(f: Flow, args: Seq<PyExprTree>, n: int) -> Flow
    decreases n,
{
    if n <= 0 {
        f
    } else {
        let prev = keys_noted(f, args, n - 1);
        if const_text(args[n - 1]) is None && cols_of(f.scope, args[n - 1], Seq::empty()).len()
            == 0 {
            key_note(prev, span_of(args[n - 1]))
        } else {
            prev
        }
    }
}

/// The state after a note for each of the first `n` keywords that gives keys.
pub open spec fn by_noted(f: Flow, k: Seq<PyKeywordTree>, n: int) -> Flow
    decreases n,
{
    if n <= 0 {
        f
    } else {
        let prev = by_noted(f, k, n - 1);
        if k[n - 1].name == Some("by"@) {
            key_note(prev, span_of(k[n - 1].value))
        } else {
            prev
        }
    }
}

pub open spec fn key_note(f: Flow, span: Span) -> Flow {
    noted(
        f,
        span,
        "a key of groupby(…) is not a literal column name — declare it in column_map"@,
    )
}

/// `groupby("k")`: the keys pass through.
pub open spec fn keyed(f: Flow, owner: Seq<char>, c: PyCallTree, table: Option<Seq<char>>) -> Flow {
    let names = group_names(f.scope, c.args, c.args.len() as int);
    by_noted(
        keys_noted(
            grouped(f, owner, names, table, names.len() as int),
            c.args,
            c.args.len() as int,
        ),
        c.keywords,
        c.keywords.len() as int,
    )
}

/// The name of an aggregation; `agg` when it is not a literal.
pub open spec fn agg_name(o: Option<Seq<char>>) -> Seq<char> {
    match o {
        Some(s) => s,
        None => "agg"@,
    }
}

pub open spec fn agg_note(f: Flow, span: Span) -> Flow {
    noted(f, span, "an aggregation without a literal column name — declare it in column_map"@)
}

/// `agg({"amount": "sum"})`: the first `n` entries of the dict.
pub open spec fn agg_dict(
    f: Flow,
    owner: Seq<char>,
    keys: Seq<Option<PyExprTree>>,
    values: Seq<PyExprTree>,
    table: Option<Seq<char>>,
    n: int,
) -> Flow
    decreases n,
{
    if n <= 0 {
        f
    } else {
        let prev = agg_dict(f, owner, keys, values, table, n - 1);
        match keys[n - 1] {
            Some(PyExprTree::Str(_, col)) => op_column(
                prev,
                owner,
                col,
                base_ref(table, col),
                table,
                TransformType::Aggregation,
                Some(agg_name(const_text(values[n - 1]))),
            ),
            _ => agg_note(prev, span_of(values[n - 1])),
        }
    }
}

/// `agg(total=("amount", "sum"))`: the first `n` keywords.
pub open spec fn agg_named(
    f: Flow,
    owner: Seq<char>,
    k: Seq<PyKeywordTree>,
    table: Option<Seq<char>>,
    n: int,
) -> Flow
    decreases n,
{
    if n <= 0 {
        f
    } else {
        let prev = agg_named(f, owner, k, table, n - 1);
        match (k[n - 1].name, k[n - 1].value) {
            (Some(name), PyExprTree::Tuple(_, t)) => match arg_text(t, 0) {
                Some(col) => op_column(
                    prev,
                    owner,
                    name,
                    base_ref(table, col),
                    table,
                    TransformType::Aggregation,
                    Some(agg_name(arg_text(t, 1))),
                ),
                None => agg_note(prev, span_of(k[n - 1].value)),
            },
            _ => agg_note(prev, span_of(k[n - 1].value)),
        }
    }
}

/// `<expr>.alias("name")`: the expression and the name.
pub open spec fn aliased(c: PyCallTree) -> Option<(PyExprTree, Seq<char>)> {
    match (*c.func, arg_text(c.args, 0)) {
        (PyExprTree::Attribute(_, v, a), Some(name)) => if a == "alias"@ {
            Some((*v, name))
        } else {
            None
        },
        _ => None,
    }
}

pub open spec fn alias_note(f: Flow, span: Span) -> Flow {
    noted(f, span, "`.alias(…)` has a non-literal name — declare it in column_map"@)
}

/// True for `<expr>.alias(…)`.
pub open spec fn is_alias(c: PyCallTree) -> bool {
    method_of(c) == "alias"@
}

/// `agg(F.sum(col("amount")).alias("total"))`: the first `n` arguments. A dict
/// in front was read already.
pub open spec fn agg_aliased(
    f: Flow,
    owner: Seq<char>,
    args: Seq<PyExprTree>,
    table: Option<Seq<char>>,
    n: int,
) -> Flow
    decreases n,
{
    if n <= 0 {
        f
    } else {
        let prev = agg_aliased(f, owner, args, table, n - 1);
        match args[n - 1] {
            PyExprTree::Call(c) => if calls(c, "alias"@) {
                match aliased(c) {
                    Some((v, name)) => op_column(
                        prev,
                        owner,
                        name,
                        cols_of(f.scope, v, Seq::empty()),
                        table,
                        TransformType::Aggregation,
                        Some(label_of(f.source, span_of(v))),
                    ),
                    None => alias_note(prev, c.span),
                }
            } else {
                noted(
                    prev,
                    c.span,
                    "aggregate without .alias() — name it (.alias(\"x\")) or declare it"@,
                )
            },
            _ => if n == 1 && args[0] is Dict {
                prev
            } else {
                agg_note(prev, span_of(args[n - 1]))
            },
        }
    }
}

/// `.agg(…)` in any of its forms.
pub open spec fn aggregated(
    f: Flow,
    owner: Seq<char>,
    c: PyCallTree,
    table: Option<Seq<char>>,
) -> Flow {
    let dict = if c.args.len() > 0 {
        match c.args[0] {
            PyExprTree::Dict(_, keys, values) => agg_dict(
                f,
                owner,
                keys,
                values,
                table,
                shorter(keys.len(), values.len()),
            ),
            _ => f,
        }
    } else {
        f
    };
    let named = agg_named(dict, owner, c.keywords, table, c.keywords.len() as int);
    agg_aliased(named, owner, c.args, table, c.args.len() as int)
}

pub open spec fn shorter(a: nat, b: nat) -> int {
    if a < b {
        a as int
    } else {
        b as int
    }
}

/// `withColumn("c", expr)`
pub open spec fn added_column(
    f: Flow,
    owner: Seq<char>,
    c: PyCallTree,
    table: Option<Seq<char>>,
) -> Flow {
    match arg_text(c.args, 0) {
        Some(target) => {
            let srcs = if c.args.len() > 1 {
                cols_of(f.scope, c.args[1], Seq::empty())
            } else {
                Seq::empty()
            };
            if srcs.len() == 0 && !(c.args.len() > 1 && is_literal(c.args[1])) {
                noted(
                    f,
                    c.span,
                    "couldn't trace sources of withColumn(\""@ + target
                        + "\", …) — declare it in column_map"@,
                )
            } else {
                op_column(
                    f,
                    owner,
                    target,
                    srcs,
                    table,
                    flow_kind(f.source, c.args[1], srcs),
                    Some(label_of(f.source, span_of(c.args[1]))),
                )
            }
        },
        None => noted(
            f,
            c.span,
            "withColumn(…) has a non-literal column name — declare it in column_map"@,
        ),
    }
}

/// The first `n` mappings of a SQL item; one without a target is noted.
pub open spec fn sql_items(
    f: Flow,
    owner: Seq<char>,
    ms: Seq<SqlMappingView>,
    frag: Seq<char>,
    span: Span,
    table: Option<Seq<char>>,
    n: int,
) -> Flow
    decreases n,
{
    if n <= 0 {
        f
    } else {
        let prev = sql_items(f, owner, ms, frag, span, table, n - 1);
        if ms[n - 1].target.len() > 0 {
            op_column(
                prev,
                owner,
                ms[n - 1].target,
                ms[n - 1].sources,
                table,
                ms[n - 1].transform_type,
                Some(frag),
            )
        } else {
            noted(
                prev,
                span,
                "selectExpr(\""@ + frag + "\") has no name — add AS, or declare it in column_map"@,
            )
        }
    }
}

/// `selectExpr("amount * 2 AS double")`: the first `n` arguments.
pub open spec fn selected_sql(
    f: Flow,
    owner: Seq<char>,
    c: PyCallTree,
    table: Option<Seq<char>>,
    n: int,
) -> Flow
    decreases n,
{
    if n <= 0 {
        f
    } else {
        let prev = selected_sql(f, owner, c, table, n - 1);
        match const_text(c.args[n - 1]) {
            Some(frag) => {
                let ms = fragment_mappings(frag);
                let start = if ms.len() == 0 {
                    noted(
                        prev,
                        c.span,
                        "selectExpr(\""@ + frag
                            + "\") couldn't be parsed — declare it in column_map"@,
                    )
                } else {
                    prev
                };
                sql_items(start, owner, ms, frag, c.span, table, ms.len() as int)
            },
            None => noted(
                prev,
                span_of(c.args[n - 1]),
                "selectExpr(…) has an argument that is not a literal — declare it in column_map"@,
            ),
        }
    }
}

/// A column renamed.
pub open spec fn renamed_column(
    f: Flow,
    owner: Seq<char>,
    from: Seq<char>,
    to: Seq<char>,
    table: Option<Seq<char>>,
) -> Flow {
    op_column(
        f,
        owner,
        to,
        base_ref(table, from),
        table,
        TransformType::Identity,
        Some("rename"@),
    )
}

/// `withColumnRenamed("a", "b")`
pub open spec fn renamed_one(
    f: Flow,
    owner: Seq<char>,
    c: PyCallTree,
    table: Option<Seq<char>>,
) -> Flow {
    match (arg_text(c.args, 0), arg_text(c.args, 1)) {
        (Some(from), Some(to)) => renamed_column(f, owner, from, to, table),
        _ => noted(
            f,
            c.span,
            "withColumnRenamed(…) has a non-literal column name — declare it in column_map"@,
        ),
    }
}

pub open spec fn rename_note(f: Flow, span: Span) -> Flow {
    noted(f, span, "rename(…) has a non-literal column name — declare it in column_map"@)
}

/// The first `n` entries of a dict of renames.
pub open spec fn renamed_dict(
    f: Flow,
    owner: Seq<char>,
    keys: Seq<Option<PyExprTree>>,
    values: Seq<PyExprTree>,
    table: Option<Seq<char>>,
    n: int,
) -> Flow
    decreases n,
{
    if n <= 0 {
        f
    } else {
        let prev = renamed_dict(f, owner, keys, values, table, n - 1);
        match (keys[n - 1], const_text(values[n - 1])) {
            (Some(PyExprTree::Str(_, from)), Some(to)) => renamed_column(
                prev,
                owner,
                from,
                to,
                table,
            ),
            _ => rename_note(prev, span_of(values[n - 1])),
        }
    }
}

/// `rename(columns={"a": "b"})`: the first `n` keywords.
pub open spec fn renamed(
    f: Flow,
    owner: Seq<char>,
    c: PyCallTree,
    table: Option<Seq<char>>,
    n: int,
) -> Flow
    decreases n,
{
    if n <= 0 {
        f
    } else {
        let prev = renamed(f, owner, c, table, n - 1);
        if c.keywords[n - 1].name == Some("columns"@) {
            match c.keywords[n - 1].value {
                PyExprTree::Dict(_, keys, values) => renamed_dict(
                    prev,
                    owner,
                    keys,
                    values,
                    table,
                    shorter(keys.len(), values.len()),
                ),
                _ => noted(
                    prev,
                    c.span,
                    "rename(columns=…) is not a literal dict — declare the renames in column_map"@,
                ),
            }
        } else if c.keywords[n - 1].name is None {
            rename_note(prev, span_of(c.keywords[n - 1].value))
        } else {
            prev
        }
    }
}

/// `rename(…)`; what it renames by position is not known.
pub open spec fn renamed_all(
    f: Flow,
    owner: Seq<char>,
    c: PyCallTree,
    table: Option<Seq<char>>,
) -> Flow {
    let named = renamed(f, owner, c, table, c.keywords.len() as int);
    if c.args.len() > 0 {
        rename_note(named, c.span)
    } else {
        named
    }
}

/// `assign(c=expr)`: the first `n` keywords.
pub open spec fn assigned_columns(
    f: Flow,
    owner: Seq<char>,
    k: Seq<PyKeywordTree>,
    table: Option<Seq<char>>,
    n: int,
) -> Flow
    decreases n,
{
    if n <= 0 {
        f
    } else {
        let prev = assigned_columns(f, owner, k, table, n - 1);
        match k[n - 1].name {
            Some(name) => {
                let srcs = cols_of(f.scope, k[n - 1].value, Seq::empty());
                op_column(
                    prev,
                    owner,
                    name,
                    srcs,
                    table,
                    flow_kind(f.source, k[n - 1].value, srcs),
                    Some(label_of(f.source, span_of(k[n - 1].value))),
                )
            },
            None => noted(
                prev,
                span_of(k[n - 1].value),
                "assign(**…) has no literal column names — declare them in column_map"@,
            ),
        }
    }
}

/// One argument of a `select(…)`. A single column whose alias is not a literal
/// passes under its own name, and is noted.
pub open spec fn selected_one(
    f: Flow,
    owner: Seq<char>,
    arg: PyExprTree,
    table: Option<Seq<char>>,
) -> Flow {
    let srcs = cols_of(f.scope, arg, Seq::empty());
    let single = if srcs.len() == 1 {
        op_column(f, owner, srcs[0].column, srcs, table, TransformType::Identity, None)
    } else {
        f
    };
    let plain = if srcs.len() == 1 {
        single
    } else {
        noted(
            f,
            span_of(arg),
            "an item of select(…) can't be traced — name a column, or declare it in column_map"@,
        )
    };
    match arg {
        PyExprTree::Str(_, name) => op_column(
            f,
            owner,
            name,
            base_ref(table, name),
            table,
            TransformType::Identity,
            None,
        ),
        PyExprTree::Call(c) => match aliased(c) {
            Some((v, name)) => op_column(
                f,
                owner,
                name,
                cols_of(f.scope, v, Seq::empty()),
                table,
                if is_pure_ref(v) {
                    TransformType::Identity
                } else {
                    TransformType::Transformation
                },
                Some(label_of(f.source, span_of(v))),
            ),
            None => if is_alias(c) {
                alias_note(single, c.span)
            } else {
                plain
            },
        },
        _ => plain,
    }
}

/// `select(…)`: the first `n` arguments.
pub open spec fn selected(
    f: Flow,
    owner: Seq<char>,
    args: Seq<PyExprTree>,
    table: Option<Seq<char>>,
    n: int,
) -> Flow
    decreases n,
{
    if n <= 0 {
        f
    } else {
        selected_one(selected(f, owner, args, table, n - 1), owner, args[n - 1], table)
    }
}

/// One operation of a chain on a frame.
pub open spec fn operated(
    f: Flow,
    owner: Seq<char>,
    c: PyCallTree,
    table: Option<Seq<char>>,
) -> Flow {
    let seg = method_of(c);
    if seg == "groupby"@ || seg == "groupBy"@ {
        keyed(f, owner, c, table)
    } else if seg == "agg"@ {
        aggregated(f, owner, c, table)
    } else if seg == "withColumn"@ {
        added_column(f, owner, c, table)
    } else if seg == "selectExpr"@ {
        selected_sql(f, owner, c, table, c.args.len() as int)
    } else if seg == "withColumnRenamed"@ {
        renamed_one(f, owner, c, table)
    } else if seg == "rename"@ {
        renamed_all(f, owner, c, table)
    } else if seg == "assign"@ {
        assigned_columns(f, owner, c.keywords, table, c.keywords.len() as int)
    } else if seg == "select"@ {
        selected(f, owner, c.args, table, c.args.len() as int)
    } else if is_passthrough_op(seg) {
        f
    } else if is_opaque_op(seg) {
        noted(
            f,
            c.span,
            "`."@ + seg + "(…)` can't be traced statically — declare the columns it produces"@,
        )
    } else {
        f
    }
}

/// The operations of a chain from `start` up to `n`.
pub open spec fn operated_chain(
    f: Flow,
    owner: Seq<char>,
    ops: Seq<PyCallTree>,
    table: Option<Seq<char>>,
    start: int,
    n: int,
) -> Flow
    decreases n,
{
    if n <= start || n <= 0 {
        f
    } else {
        operated(operated_chain(f, owner, ops, table, start, n - 1), owner, ops[n - 1], table)
    }
}

/// `var = <chain of calls>`
pub open spec fn bound_call(f: Flow, var: Seq<char>, rhs: PyExprTree) -> Flow {
    let ops = chain_calls(rhs);
    if ops.len() > 0 && is_reader(method_of(ops[0])) {
        let table = first_table(reader_tables(f, method_of(ops[0]), ops[0]));
        let after = operated_chain(
            read(f, method_of(ops[0]), ops[0]),
            var,
            ops,
            table,
            1,
            ops.len() as int,
        );
        bound(after, var, table, None)
    } else {
        let table = match chain_base(rhs) {
            PyExprTree::Name(_, n) => frame_table(f.scope, n),
            _ => None,
        };
        let after = operated_chain(f, var, ops, table, 0, ops.len() as int);
        bound(after, var, table, None)
    }
}

/// `var = rhs`
pub open spec fn bound_to(f: Flow, var: Seq<char>, rhs: PyExprTree) -> Flow {
    match rhs {
        PyExprTree::Name(_, n) => bound(
            f,
            var,
            frame_table(f.scope, n),
            name_value(f.scope, n),
        ),
        PyExprTree::Str(_, s) => bound(f, var, None, Some(s)),
        PyExprTree::Subscript(_, v, s) => match (*v, string_list(*s)) {
            (PyExprTree::Name(_, n), Some(cols)) => {
                let table = frame_table(f.scope, n);
                bound(subset(f, var, table, cols, cols.len() as int), var, table, None)
            },
            _ => bound(f, var, None, None),
        },
        PyExprTree::Call(_) => bound_call(f, var, rhs),
        _ => bound(f, var, None, None),
    }
}

/// `target = value`
pub open spec fn assigned_to(f: Flow, target: PyExprTree, value: PyExprTree) -> Flow {
    match target {
        PyExprTree::Subscript(_, v, s) => match *v {
            PyExprTree::Name(_, owner) => match col_name(f.scope, *s) {
                Some(col) => recorded(f, owner, col, value),
                None => noted(
                    f,
                    span_of(target),
                    "`"@ + owner
                        + "[…] = …` has a non-literal column name — declare it in column_map"@,
                ),
            },
            _ => match innermost(*v) {
                Some(owner) => if f.scope.frames.contains_key(owner) {
                    noted(
                        f,
                        span_of(target),
                        "an assignment into `"@ + owner
                            + "` that names no column of it — declare it in column_map"@,
                    )
                } else {
                    f
                },
                None => f,
            },
        },
        PyExprTree::Name(_, n) => bound_to(f, n, value),
        PyExprTree::Attribute(_, v, a) => match *v {
            PyExprTree::Name(_, owner) => if a == "columns"@ && f.scope.frames.contains_key(
                owner,
            ) {
                noted(
                    f,
                    span_of(target),
                    "`"@ + owner
                        + ".columns = …` rewrites columns positionally — declare them in column_map"@,
                )
            } else {
                f
            },
            _ => f,
        },
        _ => f,
    }
}

/// A variable written to a table, or to a path when there is none.
pub open spec fn written(
    f: Flow,
    base: PyExprTree,
    table: Option<Seq<char>>,
    engine: Seq<char>,
) -> Flow {
    match innermost(base) {
        Some(var) => engine_seen(
            Flow {
                writes: f.writes.insert(var, table),
                outputs: match table {
                    Some(t) => push_new(f.outputs, t),
                    None => f.outputs,
                },
                ..f
            },
            engine,
        ),
        None => f,
    }
}

/// A temporary view made of the frame that `base` starts from.
pub open spec fn viewed(f: Flow, base: PyExprTree, name: Option<Seq<char>>) -> Flow {
    match (innermost(base), name) {
        (Some(var), Some(v)) => Flow {
            temp_views: f.temp_views.insert(v, frame_table(f.scope, var)),
            ..f
        },
        _ => f,
    }
}

/// The source of a column of a query: its qualifier, or else the only table.
pub open spec fn query_ref(f: Flow, r: SqlColRefView, tables: Seq<Seq<char>>) -> SqlColRefView {
    SqlColRefView {
        table: match r.table {
            Some(q) => Some(resolved_table(f, q)),
            None => if tables.len() == 1 {
                Some(tables[0])
            } else {
                None
            },
        },
        column: r.column,
    }
}

/// The columns of the first `n` mappings of a statement that writes `table`.
pub open spec fn query_columns(
    f: Flow,
    ms: Seq<SqlMappingView>,
    tables: Seq<Seq<char>>,
    table: Seq<char>,
    n: int,
) -> Flow
    decreases n,
{
    if n <= 0 {
        f
    } else {
        let m = ms[n - 1];
        with_column(
            query_columns(f, ms, tables, table, n - 1),
            Seq::empty(),
            InferredColumnView {
                sources: Seq::new(
                    m.sources.len(),
                    |i: int| rendered(query_ref(f, m.sources[i], tables)),
                ),
                target: m.target,
                function: Some(m.function),
                transform_type: m.transform_type,
                output_table: Some(table),
            },
        )
    }
}

/// A query that is run for its effect: the columns of the table it writes.
pub open spec fn queried(f: Flow, c: PyCallTree) -> Flow {
    match first_text_value(f.scope, c.args) {
        Some(q) => {
            let l = sql_lineage(q);
            match l.target_table {
                Some(t) => {
                    let tables = resolved_tables(f, l.source_tables);
                    let start = engine_seen(
                        Flow {
                            inputs: extended_new(f.inputs, tables, tables.len() as int),
                            outputs: push_new(f.outputs, t),
                            ..f
                        },
                        "spark"@,
                    );
                    let after = query_columns(
                        start,
                        l.mappings,
                        tables,
                        t,
                        l.mappings.len() as int,
                    );
                    if l.wildcard_in_projection || l.arity_mismatch is Some {
                        noted(
                            after,
                            c.span,
                            "the projection of this query can't be paired with its target columns — declare them in column_map"@,
                        )
                    } else {
                        after
                    }
                },
                None => f,
            }
        },
        None => if c.args.len() > 0 {
            noted(
                f,
                c.span,
                "a query that is built at run time can't be traced — declare its columns in column_map"@,
            )
        } else {
            f
        },
    }
}

/// The state after a note when columns are made in an expression that is
/// written without being held by a variable.
pub open spec fn inline_noted(f: Flow, e: PyExprTree) -> Flow {
    if rewrites(e, true) {
        noted(
            f,
            span_of(e),
            "columns are made in the expression that is written — assign it to a variable first, or declare them in column_map"@,
        )
    } else {
        f
    }
}

/// An expression statement: a write, a temporary view or a query.
pub open spec fn stated(f: Flow, e: PyExprTree) -> Flow {
    let ops = chain_calls(e);
    if ops.len() == 0 {
        f
    } else {
        let c = ops.last();
        let seg = method_of(c);
        let base = chain_base(e);
        let after = if seg == "to_sql"@ {
            written(f, base, arg_text(c.args, 0), "pandas"@)
        } else if seg == "saveAsTable"@ || seg == "insertInto"@ {
            written(f, base, arg_text(c.args, 0), "spark"@)
        } else if seg == "to_parquet"@ || seg == "to_csv"@ {
            written(f, base, None, "pandas"@)
        } else if seg == "parquet"@ || seg == "csv"@ || seg == "save"@ {
            written(f, base, None, "spark"@)
        } else if seg == "createOrReplaceTempView"@ {
            viewed(f, base, first_text_value(f.scope, c.args))
        } else if seg == "sql"@ {
            queried(f, c)
        } else {
            f
        };
        if is_writer(seg) {
            inline_noted(after, e)
        } else {
            after
        }
    }
}

// ────────────────────────────── statements ────────────────────────────

/// True when one of the targets is a subscript.
pub open spec fn any_subscript(t: Seq<PyExprTree>) -> bool {
    exists|i: int| 0 <= i < t.len() && #[trigger] t[i] is Subscript
}

/// True when an expression statement makes columns: it runs a query that
/// writes a table, or whose text is not known, or writes columns that are made
/// on the spot.
pub open spec fn states_columns(sc: Scope, e: PyExprTree) -> bool {
    let ops = chain_calls(e);
    ops.len() > 0 && {
        let c = ops.last();
        let seg = method_of(c);
        ||| is_writer(seg) && rewrites(e, true)
        ||| seg == "sql"@ && c.args.len() > 0 && match first_text_value(sc, c.args) {
            Some(q) => sql_lineage(q).target_table is Some,
            None => true,
        }
    }
}

/// True when a statement makes columns of a frame.
pub open spec fn makes_columns(sc: Scope, s: PyStmtTree) -> bool
    decreases s, 0int,
{
    match s {
        PyStmtTree::Assign(t, v) => any_subscript(t) || rewrites(v, false),
        PyStmtTree::AugAssign(t, _) => t is Subscript,
        PyStmtTree::AnnAssign(t, v) => match v {
            Some(v) => t is Subscript || rewrites(v, false),
            None => false,
        },
        PyStmtTree::Expr(e) => states_columns(sc, e),
        PyStmtTree::If(b, o) => block_makes(sc, b, b.len() as int) || block_makes(
            sc,
            o,
            o.len() as int,
        ),
        PyStmtTree::With(_, b) => block_makes(sc, b, b.len() as int),
        PyStmtTree::For(x) => block_makes(sc, x.body, x.body.len() as int) || block_makes(
            sc,
            x.orelse,
            x.orelse.len() as int,
        ),
        PyStmtTree::While(_, b, o) => block_makes(sc, b, b.len() as int) || block_makes(
            sc,
            o,
            o.len() as int,
        ),
        PyStmtTree::Try(_, b, h, o, x) => {
            ||| block_makes(sc, b, b.len() as int)
            ||| handlers_make(sc, h, h.len() as int)
            ||| block_makes(sc, o, o.len() as int)
            ||| block_makes(sc, x, x.len() as int)
        },
        _ => false,
    }
}

/// True when one of the first `n` statements makes columns of a frame.
pub open spec fn block_makes(sc: Scope, b: Seq<PyStmtTree>, n: int) -> bool
    decreases b, n,
{
    if n <= 0 || n > b.len() {
        false
    } else {
        block_makes(sc, b, n - 1) || makes_columns(sc, b[n - 1])
    }
}

/// True when one of the first `n` `except` parts makes columns of a frame.
pub open spec fn handlers_make(sc: Scope, h: Seq<PyHandlerTree>, n: int) -> bool
    decreases h, n,
{
    if n <= 0 || n > h.len() {
        false
    } else {
        handlers_make(sc, h, n - 1) || block_makes(
            sc,
            h[n - 1].body,
            h[n - 1].body.len() as int,
        )
    }
}

pub open spec fn loop_note(f: Flow, span: Span) -> Flow {
    noted(
        f,
        span,
        "column assigned in a loop the analyzer can't unroll — declare it, or iterate a literal list: `for c in [\"a\", \"b\"]:`"@,
    )
}

/// The state after a statement that is not followed: it is noted when it makes
/// columns.
pub open spec fn passed_over(f: Flow, s: PyStmtTree) -> Flow {
    if makes_columns(f.scope, s) {
        match s {
            PyStmtTree::Assign(_, v) => noted(
                f,
                span_of(v),
                "an assignment to several targets can't be traced — declare its columns in column_map"@,
            ),
            PyStmtTree::AugAssign(t, _) => noted(
                f,
                span_of(t),
                "a column that is updated in place can't be traced — declare it in column_map"@,
            ),
            PyStmtTree::AnnAssign(t, _) => noted(
                f,
                span_of(t),
                "an assignment with a type can't be traced — declare its columns in column_map"@,
            ),
            PyStmtTree::While(sp, _, _) => loop_note(f, sp),
            PyStmtTree::Try(sp, _, _, _, _) => noted(
                f,
                sp,
                "columns made in a `try` statement can't be traced — declare them in column_map"@,
            ),
            _ => f,
        }
    } else {
        f
    }
}

/// The state after the `else` part of a loop, which is not followed.
pub open spec fn loop_left(f: Flow, x: PyForTree) -> Flow {
    if block_makes(f.scope, x.orelse, x.orelse.len() as int) {
        loop_note(f, x.span)
    } else {
        f
    }
}

/// The state after a statement.
pub open spec fn stepped(f: Flow, s: PyStmtTree) -> Flow
    decreases s, 0int, 0int,
{
    match s {
        PyStmtTree::Assign(t, v) => if t.len() == 1 {
            assigned_to(f, t[0], v)
        } else {
            passed_over(f, s)
        },
        PyStmtTree::Expr(e) => stated(f, e),
        PyStmtTree::With(_, b) => walked(f, b, b.len() as int),
        PyStmtTree::If(b, o) => walked(walked(f, b, b.len() as int), o, o.len() as int),
        PyStmtTree::For(x) => {
            let after = if block_makes(f.scope, x.body, x.body.len() as int) {
                match (x.target, string_list(x.iter)) {
                    (PyExprTree::Name(_, var), Some(values)) => if f.scope.loop_var is None {
                        let last = unrolled(f, var, values, values.len() as int, x.body);
                        Flow { scope: Scope { loop_var: None, ..last.scope }, ..last }
                    } else {
                        loop_note(f, x.span)
                    },
                    _ => loop_note(f, x.span),
                }
            } else {
                f
            };
            loop_left(after, x)
        },
        _ => passed_over(f, s),
    }
}

/// The state after the first `n` statements of a block.
pub open spec fn walked(f: Flow, b: Seq<PyStmtTree>, n: int) -> Flow
    decreases b, 0int, n,
{
    if n <= 0 || n > b.len() {
        f
    } else {
        stepped(walked(f, b, n - 1), b[n - 1])
    }
}

/// The state after a block was run for the first `n` values of a loop
/// variable.
pub open spec fn unrolled(
    f: Flow,
    var: Seq<char>,
    values: Seq<Seq<char>>,
    n: int,
    body: Seq<PyStmtTree>,
) -> Flow
    decreases body, 1int, n,
{
    if n <= 0 {
        f
    } else {
        let prev = unrolled(f, var, values, n - 1, body);
        walked(
            Flow { scope: Scope { loop_var: Some((var, values[n - 1])), ..prev.scope }, ..prev },
            body,
            body.len() as int,
        )
    }
}

// ─────────────────────────────── the result ───────────────────────────

/// The column with the table that its variable was written to.
pub open spec fn placed(
    writes: Map<Seq<char>, Option<Seq<char>>>,
    owner: Seq<char>,
    c: InferredColumnView,
) -> InferredColumnView {
    if writes.contains_key(owner) {
        InferredColumnView { output_table: writes[owner], ..c }
    } else {
        c
    }
}

/// The first `n` columns with their output tables, each once.
pub open spec fn placed_columns(f: Flow, n: int) -> Seq<InferredColumnView>
    decreases n,
{
    if n <= 0 {
        Seq::empty()
    } else {
        push_new(
            placed_columns(f, n - 1),
            placed(f.writes, f.columns[n - 1].0, f.columns[n - 1].1),
        )
    }
}

/// The result of an analysis that ended in a state.
pub open spec fn finished(f: Flow) -> DataflowResultView {
    DataflowResultView {
        columns: placed_columns(f, f.columns.len() as int),
        opaque: f.opaque,
        inputs: f.inputs,
        outputs: f.outputs,
        engine: f.engine,
    }
}

/// The state in which an analysis begins.
pub open spec fn fresh_flow(consts: Map<Seq<char>, Seq<char>>, source: Seq<char>) -> Flow {
    Flow {
        source,
        scope: Scope {
            consts,
            frames: Map::empty(),
            locals: Map::empty(),
            loop_var: None,
            row: None,
        },
        columns: Seq::empty(),
        writes: Map::empty(),
        temp_views: Map::empty(),
        opaque: Seq::empty(),
        inputs: Seq::empty(),
        outputs: Seq::empty(),
        engine: None,
    }
}

/// What a function body says about columns.
pub open spec fn dataflow_of(
    body: Seq<PyStmtTree>,
    consts: Map<Seq<char>, Seq<char>>,
    source: Seq<char>,
) -> DataflowResultView {
    finished(walked(fresh_flow(consts, source), body, body.len() as int))
}

// ──────────────────────────────── laws ────────────────────────────────

/// True when `b` begins with `a`.
pub open spec fn begins<A>(a: Seq<A>, b: Seq<A>) -> bool {
    a.len() <= b.len() && b.subrange(0, a.len() as int) == a
}

/// True when nothing that `f` knows is lost in `g`: columns and notes stay in
/// their order, and so do the tables, of which none is there twice.
pub open spec fn advances(f: Flow, g: Flow) -> bool {
    &&& begins(f.columns, g.columns)
    &&& begins(f.opaque, g.opaque)
    &&& begins(f.inputs, g.inputs)
    &&& begins(f.outputs, g.outputs)
    &&& f.inputs.no_duplicates() ==> g.inputs.no_duplicates()
    &&& f.outputs.no_duplicates() ==> g.outputs.no_duplicates()
}

pub(crate) proof fn begins_self<A>(a: Seq<A>)
    ensures
        begins(a, a),
{
    assert(a.subrange(0, a.len() as int) =~= a);
}

pub(crate) proof fn begins_push<A>(a: Seq<A>, x: A)
    ensures
        begins(a, a.push(x)),
{
    assert(a.push(x).subrange(0, a.len() as int) =~= a);
}

pub(crate) proof fn begins_chain<A>(a: Seq<A>, b: Seq<A>, c: Seq<A>)
    requires
        begins(a, b),
        begins(b, c),
    ensures
        begins(a, c),
{
    assert(c.subrange(0, a.len() as int) =~= c.subrange(0, b.len() as int).subrange(
        0,
        a.len() as int,
    ));
}

proof fn begins_push_new<A>(a: Seq<A>, x: A)
    ensures
        begins(a, push_new(a, x)),
        a.no_duplicates() ==> push_new(a, x).no_duplicates(),
{
    begins_self(a);
    begins_push(a, x);
}

proof fn begins_extended<A>(a: Seq<A>, more: Seq<A>, n: int)
    ensures
        begins(a, extended_new(a, more, n)),
        a.no_duplicates() ==> extended_new(a, more, n).no_duplicates(),
    decreases n,
{
    begins_self(a);
    if n > 0 {
        begins_extended(a, more, n - 1);
        let s = extended_new(a, more, n - 1);
        begins_push_new(s, more[n - 1]);
        begins_chain(a, s, push_new(s, more[n - 1]));
    }
}

pub(crate) proof fn advances_self(f: Flow)
    ensures
        advances(f, f),
{
    begins_self(f.columns);
    begins_self(f.opaque);
    begins_self(f.inputs);
    begins_self(f.outputs);
}

/// A change of anything but what counts advances.
proof fn advances_same(f: Flow, g: Flow)
    requires
        f.columns == g.columns,
        f.opaque == g.opaque,
        f.inputs == g.inputs,
        f.outputs == g.outputs,
    ensures
        advances(f, g),
{
    advances_self(f);
}

pub(crate) proof fn advances_chain(f: Flow, g: Flow, h: Flow)
    requires
        advances(f, g),
        advances(g, h),
    ensures
        advances(f, h),
{
    begins_chain(f.columns, g.columns, h.columns);
    begins_chain(f.opaque, g.opaque, h.opaque);
    begins_chain(f.inputs, g.inputs, h.inputs);
    begins_chain(f.outputs, g.outputs, h.outputs);
}

proof fn advances_noted(f: Flow, span: Span, detail: Seq<char>)
    ensures
        advances(f, noted(f, span, detail)),
{
    advances_self(f);
    begins_push(
        f.opaque,
        OpaqueNoteView { line: Some(line_at(f.source, span.start)), detail },
    );
}

proof fn advances_column(f: Flow, owner: Seq<char>, c: InferredColumnView)
    ensures
        advances(f, with_column(f, owner, c)),
{
    advances_self(f);
    begins_push(f.columns, (owner, c));
}

/// A step that only adds columns and notes, or nothing, advances.
proof fn advances_step(f: Flow, prev: Flow, g: Flow)
    requires
        advances(f, prev),
        g == prev || (exists|o: Seq<char>, c: InferredColumnView| g == #[trigger] with_column(prev, o, c))
            || (exists|s: Span, d: Seq<char>| g == #[trigger] noted(prev, s, d)),
    ensures
        advances(f, g),
{
    if g != prev {
        if exists|o: Seq<char>, c: InferredColumnView| g == #[trigger] with_column(prev, o, c) {
            let (o, c) = choose|o: Seq<char>, c: InferredColumnView| g == #[trigger] with_column(
                prev,
                o,
                c,
            );
            advances_column(prev, o, c);
        } else {
            let (s, d) = choose|s: Span, d: Seq<char>| g == #[trigger] noted(prev, s, d);
            advances_noted(prev, s, d);
        }
        advances_chain(f, prev, g);
    }
}

pub(crate) proof fn subset_advances(f: Flow, var: Seq<char>, table: Option<Seq<char>>, cols: Seq<Seq<char>>, n: int)
    ensures
        advances(f, subset(f, var, table, cols, n)),
    decreases n,
{
    advances_self(f);
    if n > 0 {
        subset_advances(f, var, table, cols, n - 1);
        let prev = subset(f, var, table, cols, n - 1);
        advances_step(f, prev, subset(f, var, table, cols, n));
    }
}

pub(crate) proof fn grouped_advances(f: Flow, owner: Seq<char>, names: Seq<Seq<char>>, table: Option<Seq<char>>, n: int)
    ensures
        advances(f, grouped(f, owner, names, table, n)),
    decreases n,
{
    advances_self(f);
    if n > 0 {
        grouped_advances(f, owner, names, table, n - 1);
        let prev = grouped(f, owner, names, table, n - 1);
        advances_step(f, prev, grouped(f, owner, names, table, n));
    }
}

pub(crate) proof fn agg_dict_advances(f: Flow, owner: Seq<char>, keys: Seq<Option<PyExprTree>>, values: Seq<PyExprTree>, table: Option<Seq<char>>, n: int)
    ensures
        advances(f, agg_dict(f, owner, keys, values, table, n)),
    decreases n,
{
    advances_self(f);
    if n > 0 {
        agg_dict_advances(f, owner, keys, values, table, n - 1);
        let prev = agg_dict(f, owner, keys, values, table, n - 1);
        advances_step(f, prev, agg_dict(f, owner, keys, values, table, n));
    }
}

pub(crate) proof fn agg_named_advances(f: Flow, owner: Seq<char>, k: Seq<PyKeywordTree>, table: Option<Seq<char>>, n: int)
    ensures
        advances(f, agg_named(f, owner, k, table, n)),
    decreases n,
{
    advances_self(f);
    if n > 0 {
        agg_named_advances(f, owner, k, table, n - 1);
        let prev = agg_named(f, owner, k, table, n - 1);
        advances_step(f, prev, agg_named(f, owner, k, table, n));
    }
}

pub(crate) proof fn agg_aliased_advances(f: Flow, owner: Seq<char>, args: Seq<PyExprTree>, table: Option<Seq<char>>, n: int)
    ensures
        advances(f, agg_aliased(f, owner, args, table, n)),
    decreases n,
{
    advances_self(f);
    if n > 0 {
        agg_aliased_advances(f, owner, args, table, n - 1);
        let prev = agg_aliased(f, owner, args, table, n - 1);
        advances_step(f, prev, agg_aliased(f, owner, args, table, n));
    }
}

pub(crate) proof fn sql_items_advances(f: Flow, owner: Seq<char>, ms: Seq<SqlMappingView>, frag: Seq<char>, span: Span, table: Option<Seq<char>>, n: int)
    ensures
        advances(f, sql_items(f, owner, ms, frag, span, table, n)),
    decreases n,
{
    advances_self(f);
    if n > 0 {
        sql_items_advances(f, owner, ms, frag, span, table, n - 1);
        let prev = sql_items(f, owner, ms, frag, span, table, n - 1);
        advances_step(f, prev, sql_items(f, owner, ms, frag, span, table, n));
    }
}

pub(crate) proof fn keys_noted_advances(f: Flow, args: Seq<PyExprTree>, n: int)
    ensures
        advances(f, keys_noted(f, args, n)),
    decreases n,
{
    advances_self(f);
    if n > 0 {
        keys_noted_advances(f, args, n - 1);
        advances_step(f, keys_noted(f, args, n - 1), keys_noted(f, args, n));
    }
}

pub(crate) proof fn by_noted_advances(f: Flow, k: Seq<PyKeywordTree>, n: int)
    ensures
        advances(f, by_noted(f, k, n)),
    decreases n,
{
    advances_self(f);
    if n > 0 {
        by_noted_advances(f, k, n - 1);
        advances_step(f, by_noted(f, k, n - 1), by_noted(f, k, n));
    }
}

pub(crate) proof fn keyed_advances(f: Flow, owner: Seq<char>, c: PyCallTree, table: Option<Seq<char>>)
    ensures
        advances(f, keyed(f, owner, c, table)),
{
    let names = group_names(f.scope, c.args, c.args.len() as int);
    let g = grouped(f, owner, names, table, names.len() as int);
    let h = keys_noted(g, c.args, c.args.len() as int);
    grouped_advances(f, owner, names, table, names.len() as int);
    keys_noted_advances(g, c.args, c.args.len() as int);
    by_noted_advances(h, c.keywords, c.keywords.len() as int);
    advances_chain(f, g, h);
    advances_chain(f, h, keyed(f, owner, c, table));
}

pub(crate) proof fn selected_one_advances(f: Flow, owner: Seq<char>, arg: PyExprTree, table: Option<Seq<char>>)
    ensures
        advances(f, selected_one(f, owner, arg, table)),
{
    advances_self(f);
    let srcs = cols_of(f.scope, arg, Seq::empty());
    let single = if srcs.len() == 1 {
        op_column(f, owner, srcs[0].column, srcs, table, TransformType::Identity, None)
    } else {
        f
    };
    advances_step(f, f, single);
    let r = selected_one(f, owner, arg, table);
    match arg {
        PyExprTree::Call(c) => {
            if aliased(c) is None && is_alias(c) {
                advances_step(f, single, r);
            } else {
                advances_step(f, f, r);
            }
        },
        _ => {
            advances_step(f, f, r);
        },
    }
}

pub(crate) proof fn renamed_dict_advances(f: Flow, owner: Seq<char>, keys: Seq<Option<PyExprTree>>, values: Seq<PyExprTree>, table: Option<Seq<char>>, n: int)
    ensures
        advances(f, renamed_dict(f, owner, keys, values, table, n)),
    decreases n,
{
    advances_self(f);
    if n > 0 {
        renamed_dict_advances(f, owner, keys, values, table, n - 1);
        let prev = renamed_dict(f, owner, keys, values, table, n - 1);
        advances_step(f, prev, renamed_dict(f, owner, keys, values, table, n));
    }
}

pub(crate) proof fn assigned_columns_advances(f: Flow, owner: Seq<char>, k: Seq<PyKeywordTree>, table: Option<Seq<char>>, n: int)
    ensures
        advances(f, assigned_columns(f, owner, k, table, n)),
    decreases n,
{
    advances_self(f);
    if n > 0 {
        assigned_columns_advances(f, owner, k, table, n - 1);
        let prev = assigned_columns(f, owner, k, table, n - 1);
        advances_step(f, prev, assigned_columns(f, owner, k, table, n));
    }
}

pub(crate) proof fn selected_advances(f: Flow, owner: Seq<char>, args: Seq<PyExprTree>, table: Option<Seq<char>>, n: int)
    ensures
        advances(f, selected(f, owner, args, table, n)),
    decreases n,
{
    advances_self(f);
    if n > 0 {
        selected_advances(f, owner, args, table, n - 1);
        let prev = selected(f, owner, args, table, n - 1);
        selected_one_advances(prev, owner, args[n - 1], table);
        advances_chain(f, prev, selected(f, owner, args, table, n));
    }
}

pub(crate) proof fn query_columns_advances(f: Flow, ms: Seq<SqlMappingView>, tables: Seq<Seq<char>>, table: Seq<char>, n: int)
    ensures
        advances(f, query_columns(f, ms, tables, table, n)),
    decreases n,
{
    advances_self(f);
    if n > 0 {
        query_columns_advances(f, ms, tables, table, n - 1);
        let prev = query_columns(f, ms, tables, table, n - 1);
        advances_step(f, prev, query_columns(f, ms, tables, table, n));
    }
}

pub(crate) proof fn aggregated_advances(f: Flow, owner: Seq<char>, c: PyCallTree, table: Option<Seq<char>>)
    ensures
        advances(f, aggregated(f, owner, c, table)),
{
    advances_self(f);
    let dict = if c.args.len() > 0 {
        match c.args[0] {
            PyExprTree::Dict(_, keys, values) => {
                let n = shorter(keys.len(), values.len());
                agg_dict_advances(f, owner, keys, values, table, n);
                agg_dict(f, owner, keys, values, table, n)
            },
            _ => f,
        }
    } else {
        f
    };
    agg_named_advances(dict, owner, c.keywords, table, c.keywords.len() as int);
    let named = agg_named(dict, owner, c.keywords, table, c.keywords.len() as int);
    agg_aliased_advances(named, owner, c.args, table, c.args.len() as int);
    advances_chain(f, dict, named);
    advances_chain(f, named, aggregated(f, owner, c, table));
}

pub(crate) proof fn selected_sql_advances(
    f: Flow,
    owner: Seq<char>,
    c: PyCallTree,
    table: Option<Seq<char>>,
    n: int,
)
    ensures
        advances(f, selected_sql(f, owner, c, table, n)),
    decreases n,
{
    advances_self(f);
    if n > 0 {
        selected_sql_advances(f, owner, c, table, n - 1);
        let prev = selected_sql(f, owner, c, table, n - 1);
        if let Some(frag) = const_text(c.args[n - 1]) {
            let ms = fragment_mappings(frag);
            let note = "selectExpr(\""@ + frag
                + "\") couldn't be parsed — declare it in column_map"@;
            let start = if ms.len() == 0 {
                noted(prev, c.span, note)
            } else {
                prev
            };
            advances_noted(prev, c.span, note);
            advances_self(prev);
            advances_chain(f, prev, start);
            sql_items_advances(start, owner, ms, frag, c.span, table, ms.len() as int);
            advances_chain(f, start, selected_sql(f, owner, c, table, n));
        } else {
            advances_step(f, prev, selected_sql(f, owner, c, table, n));
        }
    }
}

pub(crate) proof fn renamed_advances(
    f: Flow,
    owner: Seq<char>,
    c: PyCallTree,
    table: Option<Seq<char>>,
    n: int,
)
    ensures
        advances(f, renamed(f, owner, c, table, n)),
    decreases n,
{
    advances_self(f);
    if n > 0 {
        renamed_advances(f, owner, c, table, n - 1);
        let prev = renamed(f, owner, c, table, n - 1);
        let r = renamed(f, owner, c, table, n);
        if c.keywords[n - 1].name != Some("columns"@) {
            advances_step(f, prev, r);
        } else {
            match c.keywords[n - 1].value {
                PyExprTree::Dict(_, keys, values) => {
                    renamed_dict_advances(
                        prev,
                        owner,
                        keys,
                        values,
                        table,
                        shorter(keys.len(), values.len()),
                    );
                    advances_chain(f, prev, r);
                },
                _ => {
                    advances_step(f, prev, r);
                },
            }
        }
    }
}

pub(crate) proof fn operated_advances(f: Flow, owner: Seq<char>, c: PyCallTree, table: Option<Seq<char>>)
    ensures
        advances(f, operated(f, owner, c, table)),
{
    advances_self(f);
    keyed_advances(f, owner, c, table);
    aggregated_advances(f, owner, c, table);
    selected_sql_advances(f, owner, c, table, c.args.len() as int);
    renamed_advances(f, owner, c, table, c.keywords.len() as int);
    advances_step(
        f,
        renamed(f, owner, c, table, c.keywords.len() as int),
        renamed_all(f, owner, c, table),
    );
    assigned_columns_advances(f, owner, c.keywords, table, c.keywords.len() as int);
    selected_advances(f, owner, c.args, table, c.args.len() as int);
    advances_step(f, f, added_column(f, owner, c, table));
    advances_step(f, f, renamed_one(f, owner, c, table));
    advances_noted(
        f,
        c.span,
        "`."@ + method_of(c) + "(…)` can't be traced statically — declare the columns it produces"@,
    );
}

pub(crate) proof fn chain_advances(
    f: Flow,
    owner: Seq<char>,
    ops: Seq<PyCallTree>,
    table: Option<Seq<char>>,
    start: int,
    n: int,
)
    ensures
        advances(f, operated_chain(f, owner, ops, table, start, n)),
    decreases n,
{
    advances_self(f);
    if n > start && n > 0 {
        chain_advances(f, owner, ops, table, start, n - 1);
        let prev = operated_chain(f, owner, ops, table, start, n - 1);
        operated_advances(prev, owner, ops[n - 1], table);
        advances_chain(f, prev, operated_chain(f, owner, ops, table, start, n));
    }
}

proof fn read_advances(f: Flow, seg: Seq<char>, c: PyCallTree)
    ensures
        advances(f, read(f, seg, c)),
{
    let tables = reader_tables(f, seg, c);
    advances_self(f);
    begins_extended(f.inputs, tables, tables.len() as int);
}

proof fn bound_call_advances(f: Flow, var: Seq<char>, rhs: PyExprTree)
    ensures
        advances(f, bound_call(f, var, rhs)),
{
    let ops = chain_calls(rhs);
    let r = bound_call(f, var, rhs);
    if ops.len() > 0 && is_reader(method_of(ops[0])) {
        let table = first_table(reader_tables(f, method_of(ops[0]), ops[0]));
        let g = read(f, method_of(ops[0]), ops[0]);
        read_advances(f, method_of(ops[0]), ops[0]);
        chain_advances(g, var, ops, table, 1, ops.len() as int);
        let after = operated_chain(g, var, ops, table, 1, ops.len() as int);
        advances_chain(f, g, after);
        advances_same(after, r);
        advances_chain(f, after, r);
    } else {
        let table = match chain_base(rhs) {
            PyExprTree::Name(_, n) => frame_table(f.scope, n),
            _ => None,
        };
        chain_advances(f, var, ops, table, 0, ops.len() as int);
        let after = operated_chain(f, var, ops, table, 0, ops.len() as int);
        advances_same(after, r);
        advances_chain(f, after, r);
    }
}

proof fn bound_to_advances(f: Flow, var: Seq<char>, rhs: PyExprTree)
    ensures
        advances(f, bound_to(f, var, rhs)),
{
    let r = bound_to(f, var, rhs);
    advances_self(f);
    match rhs {
        PyExprTree::Call(_) => {
            bound_call_advances(f, var, rhs);
        },
        PyExprTree::Subscript(_, v, s) => {
            match (*v, string_list(*s)) {
                (PyExprTree::Name(_, n), Some(cols)) => {
                    let table = frame_table(f.scope, n);
                    let after = subset(f, var, table, cols, cols.len() as int);
                    subset_advances(f, var, table, cols, cols.len() as int);
                    advances_same(after, r);
                    advances_chain(f, after, r);
                },
                _ => {
                    advances_same(f, r);
                },
            }
        },
        _ => {
            advances_same(f, r);
        },
    }
}

proof fn assigned_to_advances(f: Flow, target: PyExprTree, value: PyExprTree)
    ensures
        advances(f, assigned_to(f, target, value)),
{
    advances_self(f);
    match target {
        PyExprTree::Name(_, n) => {
            bound_to_advances(f, n, value);
        },
        _ => {
            advances_step(f, f, assigned_to(f, target, value));
        },
    }
}

proof fn written_advances(f: Flow, base: PyExprTree, table: Option<Seq<char>>, engine: Seq<char>)
    ensures
        advances(f, written(f, base, table, engine)),
{
    advances_self(f);
    if let Some(t) = table {
        begins_push_new(f.outputs, t);
    }
}

proof fn queried_advances(f: Flow, c: PyCallTree)
    ensures
        advances(f, queried(f, c)),
{
    advances_self(f);
    if let Some(q) = first_text_value(f.scope, c.args) {
        let l = sql_lineage(q);
        if let Some(t) = l.target_table {
            let tables = resolved_tables(f, l.source_tables);
            let start = engine_seen(
                Flow {
                    inputs: extended_new(f.inputs, tables, tables.len() as int),
                    outputs: push_new(f.outputs, t),
                    ..f
                },
                "spark"@,
            );
            begins_extended(f.inputs, tables, tables.len() as int);
            begins_push_new(f.outputs, t);
            assert(advances(f, start));
            let after = query_columns(start, l.mappings, tables, t, l.mappings.len() as int);
            query_columns_advances(start, l.mappings, tables, t, l.mappings.len() as int);
            advances_chain(f, start, after);
            advances_step(f, after, queried(f, c));
        }
    } else {
        advances_step(f, f, queried(f, c));
    }
}

proof fn stated_advances(f: Flow, e: PyExprTree)
    ensures
        advances(f, stated(f, e)),
{
    advances_self(f);
    let ops = chain_calls(e);
    if ops.len() > 0 {
        let c = ops.last();
        let base = chain_base(e);
        let table = arg_text(c.args, 0);
        let pandas = written(f, base, table, "pandas"@);
        let spark = written(f, base, table, "spark"@);
        let pandas_path = written(f, base, None, "pandas"@);
        let spark_path = written(f, base, None, "spark"@);
        let view = viewed(f, base, first_text_value(f.scope, c.args));
        written_advances(f, base, table, "pandas"@);
        written_advances(f, base, table, "spark"@);
        written_advances(f, base, None, "pandas"@);
        written_advances(f, base, None, "spark"@);
        advances_same(f, view);
        queried_advances(f, c);
        advances_step(f, pandas, inline_noted(pandas, e));
        advances_step(f, spark, inline_noted(spark, e));
        advances_step(f, pandas_path, inline_noted(pandas_path, e));
        advances_step(f, spark_path, inline_noted(spark_path, e));
        advances_step(f, view, inline_noted(view, e));
    }
}

pub(crate) proof fn stepped_advances(f: Flow, s: PyStmtTree)
    ensures
        advances(f, stepped(f, s)),
    decreases s, 0int, 0int,
{
    advances_self(f);
    match s {
        PyStmtTree::Assign(t, v) => {
            if t.len() == 1 {
                assigned_to_advances(f, t[0], v);
            } else {
                advances_step(f, f, passed_over(f, s));
            }
        },
        PyStmtTree::Expr(e) => {
            stated_advances(f, e);
        },
        PyStmtTree::With(_, b) => {
            walked_advances(f, b, b.len() as int);
        },
        PyStmtTree::If(b, o) => {
            walked_advances(f, b, b.len() as int);
            let g = walked(f, b, b.len() as int);
            walked_advances(g, o, o.len() as int);
            advances_chain(f, g, walked(g, o, o.len() as int));
        },
        PyStmtTree::For(x) => {
            advances_step(f, f, loop_note(f, x.span));
            advances_step(f, f, loop_left(f, x));
            let h = loop_note(f, x.span);
            advances_step(f, h, loop_left(h, x));
            match (x.target, string_list(x.iter)) {
                (PyExprTree::Name(_, var), Some(values)) => {
                    unrolled_advances(f, var, values, values.len() as int, x.body);
                    let after = unrolled(f, var, values, values.len() as int, x.body);
                    let g = Flow { scope: Scope { loop_var: None, ..after.scope }, ..after };
                    advances_same(after, g);
                    advances_chain(f, after, g);
                    advances_step(f, g, loop_left(g, x));
                },
                _ => {},
            }
        },
        _ => {
            advances_step(f, f, passed_over(f, s));
        },
    }
}

pub(crate) proof fn walked_advances(f: Flow, b: Seq<PyStmtTree>, n: int)
    ensures
        advances(f, walked(f, b, n)),
    decreases b, 0int, n,
{
    advances_self(f);
    if 0 < n <= b.len() {
        walked_advances(f, b, n - 1);
        let prev = walked(f, b, n - 1);
        stepped_advances(prev, b[n - 1]);
        advances_chain(f, prev, walked(f, b, n));
    }
}

pub(crate) proof fn unrolled_advances(
    f: Flow,
    var: Seq<char>,
    values: Seq<Seq<char>>,
    n: int,
    body: Seq<PyStmtTree>,
)
    ensures
        advances(f, unrolled(f, var, values, n, body)),
    decreases body, 1int, n,
{
    advances_self(f);
    if n > 0 {
        unrolled_advances(f, var, values, n - 1, body);
        let prev = unrolled(f, var, values, n - 1, body);
        let g = Flow {
            scope: Scope { loop_var: Some((var, values[n - 1])), ..prev.scope },
            ..prev
        };
        advances_same(prev, g);
        advances_chain(f, prev, g);
        walked_advances(g, body, body.len() as int);
        advances_chain(f, g, unrolled(f, var, values, n, body));
    }
}

/// Nothing is dropped on the way: what an analysis traced or noted in the
/// first statements of a body is still there after the following ones.
pub proof fn analysis_forgets_nothing(f: Flow, b: Seq<PyStmtTree>, m: int, n: int)
    requires
        0 <= m <= n <= b.len(),
    ensures
        advances(walked(f, b, m), walked(f, b, n)),
    decreases n - m,
{
    advances_self(walked(f, b, m));
    if m < n {
        analysis_forgets_nothing(f, b, m, n - 1);
        stepped_advances(walked(f, b, n - 1), b[n - 1]);
        advances_chain(walked(f, b, m), walked(f, b, n - 1), walked(f, b, n));
    }
}

/// Every assignment to a column of a variable is traced or noted: it adds one
/// column, or one note that says where it is.
pub proof fn column_assignment_is_traced_or_noted(
    f: Flow,
    span: Span,
    owner_span: Span,
    owner: Seq<char>,
    key: PyExprTree,
    value: PyExprTree,
)
    ensures
        ({
            let target = PyExprTree::Subscript(
                span,
                Box::new(PyExprTree::Name(owner_span, owner)),
                Box::new(key),
            );
            let r = assigned_to(f, target, value);
            r.columns.len() + r.opaque.len() == f.columns.len() + f.opaque.len() + 1
        }),
{
}

/// How many columns were traced and spots noted.
pub open spec fn found(f: Flow) -> nat {
    f.columns.len() + f.opaque.len()
}

proof fn folds_find(
    f: Flow,
    owner: Seq<char>,
    c: PyCallTree,
    table: Option<Seq<char>>,
    n: int,
)
    requires
        0 <= n,
    ensures
        n <= c.args.len() ==> found(selected_sql(f, owner, c, table, n)) >= found(f) + n,
        n <= c.args.len() ==> found(selected(f, owner, c.args, table, n)) >= found(f) + n,
        n <= c.args.len() ==> found(agg_aliased(f, owner, c.args, table, n)) == found(f) + n - if n
            > 0 && c.args[0] is Dict {
            1int
        } else {
            0
        },
        n <= c.keywords.len() ==> found(agg_named(f, owner, c.keywords, table, n)) == found(f) + n,
        n <= c.keywords.len() ==> found(assigned_columns(f, owner, c.keywords, table, n)) == found(
            f,
        ) + n,
    decreases n,
{
    if n > 0 {
        folds_find(f, owner, c, table, n - 1);
        if n <= c.args.len() {
            let prev = selected_sql(f, owner, c, table, n - 1);
            if let Some(frag) = const_text(c.args[n - 1]) {
                let ms = fragment_mappings(frag);
                let start = if ms.len() == 0 {
                    noted(
                        prev,
                        c.span,
                        "selectExpr(\""@ + frag
                            + "\") couldn't be parsed — declare it in column_map"@,
                    )
                } else {
                    prev
                };
                sql_items_find(start, owner, ms, frag, c.span, table, ms.len() as int);
            }
        }
    }
}

proof fn sql_items_find(f: Flow, owner: Seq<char>, ms: Seq<SqlMappingView>, frag: Seq<char>, span: Span, table: Option<Seq<char>>, n: int)
    requires
        0 <= n,
    ensures
        found(sql_items(f, owner, ms, frag, span, table, n)) == found(f) + n,
    decreases n,
{
    if n > 0 {
        sql_items_find(f, owner, ms, frag, span, table, n - 1);
    }
}

proof fn dicts_find(
    f: Flow,
    owner: Seq<char>,
    keys: Seq<Option<PyExprTree>>,
    values: Seq<PyExprTree>,
    table: Option<Seq<char>>,
    n: int,
)
    requires
        0 <= n,
    ensures
        found(agg_dict(f, owner, keys, values, table, n)) == found(f) + n,
        found(renamed_dict(f, owner, keys, values, table, n)) == found(f) + n,
    decreases n,
{
    if n > 0 {
        dicts_find(f, owner, keys, values, table, n - 1);
    }
}

proof fn grouped_finds(f: Flow, owner: Seq<char>, names: Seq<Seq<char>>, table: Option<Seq<char>>, n: int)
    requires
        0 <= n,
    ensures
        found(grouped(f, owner, names, table, n)) == found(f) + n,
        grouped(f, owner, names, table, n).scope == f.scope,
    decreases n,
{
    if n > 0 {
        grouped_finds(f, owner, names, table, n - 1);
    }
}

proof fn keys_find(f: Flow, sc: Scope, args: Seq<PyExprTree>, n: int)
    requires
        0 <= n <= args.len(),
        f.scope == sc,
    ensures
        found(keys_noted(f, args, n)) + group_names(sc, args, n).len() >= found(f) + n,
    decreases n,
{
    if n > 0 {
        keys_find(f, sc, args, n - 1);
    }
}

proof fn renamed_finds(f: Flow, owner: Seq<char>, c: PyCallTree, table: Option<Seq<char>>, i: int, n: int)
    requires
        0 <= i < n <= c.keywords.len(),
        c.keywords[i].name == Some("columns"@),
    ensures
        found(renamed(f, owner, c, table, n)) >= found(f) + match c.keywords[i].value {
            PyExprTree::Dict(_, keys, values) => shorter(keys.len(), values.len()),
            _ => 1,
        },
    decreases n,
{
    let prev = renamed(f, owner, c, table, n - 1);
    if let PyExprTree::Dict(_, keys, values) = c.keywords[n - 1].value {
        dicts_find(prev, owner, keys, values, table, shorter(keys.len(), values.len()));
    }
    if i < n - 1 {
        renamed_finds(f, owner, c, table, i, n - 1);
    } else {
        renamed_advances(f, owner, c, table, n - 1);
    }
}

/// The aggregations of a call: the entries of a dict in front, the other
/// arguments, and the keywords.
pub open spec fn aggregations(c: PyCallTree) -> int {
    c.keywords.len() + c.args.len() + if c.args.len() > 0 {
        match c.args[0] {
            PyExprTree::Dict(_, keys, values) => shorter(keys.len(), values.len()) - 1,
            _ => 0,
        }
    } else {
        0
    }
}

/// True when a word has a length and begins with two characters.
pub(crate) open spec fn begins_with(s: Seq<char>, n: nat, a: char, b: char) -> bool {
    s.len() == n && s[0] == a && s[1] == b
}

/// How the operations that make columns are spelled.
pub(crate) proof fn column_op_heads()
    ensures
        begins_with("groupby"@, 7, 'g', 'r'),
        begins_with("groupBy"@, 7, 'g', 'r'),
        begins_with("agg"@, 3, 'a', 'g'),
        begins_with("withColumn"@, 10, 'w', 'i'),
        begins_with("selectExpr"@, 10, 's', 'e'),
        begins_with("withColumnRenamed"@, 17, 'w', 'i'),
        begins_with("rename"@, 6, 'r', 'e'),
        begins_with("assign"@, 6, 'a', 's'),
        begins_with("select"@, 6, 's', 'e'),
{
    reveal_strlit("groupby");
    reveal_strlit("groupBy");
    reveal_strlit("agg");
    reveal_strlit("withColumn");
    reveal_strlit("selectExpr");
    reveal_strlit("withColumnRenamed");
    reveal_strlit("rename");
    reveal_strlit("assign");
    reveal_strlit("select");
}

/// How the operations that depend on data are spelled.
proof fn opaque_op_heads()
    ensures
        begins_with("merge"@, 5, 'm', 'e'),
        begins_with("join"@, 4, 'j', 'o'),
        begins_with("apply"@, 5, 'a', 'p'),
        begins_with("applymap"@, 8, 'a', 'p'),
        begins_with("pivot"@, 5, 'p', 'i'),
        begins_with("melt"@, 4, 'm', 'e'),
        begins_with("explode"@, 7, 'e', 'x'),
        begins_with("stack"@, 5, 's', 't'),
        begins_with("unstack"@, 7, 'u', 'n'),
        begins_with("transform"@, 9, 't', 'r'),
        begins_with("pipe"@, 4, 'p', 'i'),
        begins_with("rdd"@, 3, 'r', 'd'),
{
    reveal_strlit("merge");
    reveal_strlit("join");
    reveal_strlit("apply");
    reveal_strlit("applymap");
    reveal_strlit("pivot");
    reveal_strlit("melt");
    reveal_strlit("explode");
    reveal_strlit("stack");
    reveal_strlit("unstack");
    reveal_strlit("transform");
    reveal_strlit("pipe");
    reveal_strlit("rdd");
}

/// How the operations that keep columns are spelled.
proof fn passthrough_op_heads()
    ensures
        begins_with("filter"@, 6, 'f', 'i'),
        begins_with("where"@, 5, 'w', 'h'),
        begins_with("orderBy"@, 7, 'o', 'r'),
        begins_with("sort"@, 4, 's', 'o'),
        begins_with("limit"@, 5, 'l', 'i'),
        begins_with("distinct"@, 8, 'd', 'i'),
        begins_with("dropDuplicates"@, 14, 'd', 'r'),
        begins_with("cache"@, 5, 'c', 'a'),
        begins_with("persist"@, 7, 'p', 'e'),
        begins_with("repartition"@, 11, 'r', 'e'),
        begins_with("coalesce"@, 8, 'c', 'o'),
        begins_with("alias"@, 5, 'a', 'l'),
        begins_with("fillna"@, 6, 'f', 'i'),
        begins_with("dropna"@, 6, 'd', 'r'),
        begins_with("na"@, 2, 'n', 'a'),
{
    reveal_strlit("filter");
    reveal_strlit("where");
    reveal_strlit("orderBy");
    reveal_strlit("sort");
    reveal_strlit("limit");
    reveal_strlit("distinct");
    reveal_strlit("dropDuplicates");
    reveal_strlit("cache");
    reveal_strlit("persist");
    reveal_strlit("repartition");
    reveal_strlit("coalesce");
    reveal_strlit("alias");
    reveal_strlit("fillna");
    reveal_strlit("dropna");
    reveal_strlit("na");
}

proof fn added_finds(f: Flow, owner: Seq<char>, c: PyCallTree, table: Option<Seq<char>>)
    requires
        method_of(c) == "withColumn"@ || method_of(c) == "withColumnRenamed"@,
    ensures
        found(operated(f, owner, c, table)) == found(f) + 1,
{
    column_op_heads();
}

proof fn selection_finds(f: Flow, owner: Seq<char>, c: PyCallTree, table: Option<Seq<char>>)
    requires
        method_of(c) == "select"@ || method_of(c) == "selectExpr"@,
    ensures
        found(operated(f, owner, c, table)) >= found(f) + c.args.len(),
{
    column_op_heads();
    folds_find(f, owner, c, table, c.args.len() as int);
}

proof fn aggregation_finds(f: Flow, owner: Seq<char>, c: PyCallTree, table: Option<Seq<char>>)
    ensures
        found(aggregated(f, owner, c, table)) == found(f) + aggregations(c),
{
    let na = c.args.len() as int;
    let nk = c.keywords.len() as int;
    let dict = if na > 0 {
        match c.args[0] {
            PyExprTree::Dict(_, keys, values) => {
                let n = shorter(keys.len(), values.len());
                dicts_find(f, owner, keys, values, table, n);
                agg_dict(f, owner, keys, values, table, n)
            },
            _ => f,
        }
    } else {
        f
    };
    folds_find(dict, owner, c, table, nk);
    folds_find(agg_named(dict, owner, c.keywords, table, nk), owner, c, table, na);
}

proof fn keying_finds(f: Flow, owner: Seq<char>, c: PyCallTree, table: Option<Seq<char>>)
    ensures
        found(keyed(f, owner, c, table)) >= found(f) + c.args.len(),
{
    let na = c.args.len() as int;
    let names = group_names(f.scope, c.args, na);
    let g = grouped(f, owner, names, table, names.len() as int);
    grouped_finds(f, owner, names, table, names.len() as int);
    keys_find(g, f.scope, c.args, na);
    by_noted_advances(keys_noted(g, c.args, na), c.keywords, c.keywords.len() as int);
}

proof fn opaque_finds(f: Flow, owner: Seq<char>, c: PyCallTree, table: Option<Seq<char>>)
    requires
        is_opaque_op(method_of(c)),
    ensures
        found(operated(f, owner, c, table)) == found(f) + 1,
{
    column_op_heads();
    opaque_op_heads();
    passthrough_op_heads();
}

/// Nothing that an operation makes is dropped: each column that is added or
/// renamed, each argument of a selection, each aggregation, each grouping key
/// and each rename gives a column, or a note that says where it is, and so does
/// an operation whose columns depend on data.
pub proof fn operation_is_traced_or_noted(
    f: Flow,
    owner: Seq<char>,
    c: PyCallTree,
    table: Option<Seq<char>>,
)
    ensures
        ({
            let seg = method_of(c);
            let r = found(operated(f, owner, c, table));
            &&& seg == "withColumn"@ || seg == "withColumnRenamed"@ ==> r == found(f) + 1
            &&& seg == "select"@ || seg == "selectExpr"@ ==> r >= found(f) + c.args.len()
            &&& seg == "agg"@ ==> r == found(f) + aggregations(c)
            &&& seg == "assign"@ ==> r == found(f) + c.keywords.len()
            &&& seg == "groupby"@ || seg == "groupBy"@ ==> r >= found(f) + c.args.len()
            &&& seg == "rename"@ ==> forall|i: int|
                0 <= i < c.keywords.len() && (#[trigger] c.keywords[i]).name == Some("columns"@)
                    ==> r >= found(f) + match c.keywords[i].value {
                    PyExprTree::Dict(_, keys, values) => shorter(keys.len(), values.len()),
                    _ => 1,
                }
            &&& is_opaque_op(seg) ==> r == found(f) + 1
        }),
{
    let seg = method_of(c);
    column_op_heads();
    if seg == "withColumn"@ || seg == "withColumnRenamed"@ {
        added_finds(f, owner, c, table);
    } else if seg == "select"@ || seg == "selectExpr"@ {
        selection_finds(f, owner, c, table);
    } else if seg == "agg"@ {
        aggregation_finds(f, owner, c, table);
    } else if seg == "assign"@ {
        folds_find(f, owner, c, table, c.keywords.len() as int);
    } else if seg == "groupby"@ || seg == "groupBy"@ {
        keying_finds(f, owner, c, table);
    } else if seg == "rename"@ {
        assert forall|i: int|
            0 <= i < c.keywords.len() && (#[trigger] c.keywords[i]).name == Some("columns"@) implies
            found(renamed_all(f, owner, c, table)) >= found(f) + match c.keywords[i].value {
            PyExprTree::Dict(_, keys, values) => shorter(keys.len(), values.len()),
            _ => 1,
        } by {
            renamed_finds(f, owner, c, table, i, c.keywords.len() as int);
        }
    }
    if is_opaque_op(seg) {
        opaque_op_heads();
        opaque_finds(f, owner, c, table);
    }
}

/// True for `variable[…]`.
pub open spec fn names_column(t: PyExprTree) -> bool {
    match t {
        PyExprTree::Subscript(_, v, _) => *v is Name,
        _ => false,
    }
}

/// True when a statement, or one of its blocks, sets a column of a variable, or
/// writes columns that are made on the spot.
pub open spec fn sets_columns(s: PyStmtTree) -> bool
    decreases s, 0int,
{
    match s {
        PyStmtTree::Assign(t, _) => if t.len() == 1 {
            names_column(t[0])
        } else {
            any_subscript(t)
        },
        PyStmtTree::AugAssign(t, _) => t is Subscript,
        PyStmtTree::AnnAssign(t, v) => t is Subscript && v is Some,
        PyStmtTree::Expr(e) => chain_calls(e).len() > 0 && is_writer(
            method_of(chain_calls(e).last()),
        ) && rewrites(e, true),
        PyStmtTree::If(b, o) => block_sets(b, b.len() as int) || block_sets(o, o.len() as int),
        PyStmtTree::With(_, b) => block_sets(b, b.len() as int),
        PyStmtTree::For(x) => block_sets(x.body, x.body.len() as int) || block_sets(
            x.orelse,
            x.orelse.len() as int,
        ),
        PyStmtTree::While(_, b, o) => block_sets(b, b.len() as int) || block_sets(
            o,
            o.len() as int,
        ),
        PyStmtTree::Try(_, b, h, o, x) => {
            ||| block_sets(b, b.len() as int)
            ||| handlers_set(h, h.len() as int)
            ||| block_sets(o, o.len() as int)
            ||| block_sets(x, x.len() as int)
        },
        _ => false,
    }
}

/// True when one of the first `n` statements sets a column.
pub open spec fn block_sets(b: Seq<PyStmtTree>, n: int) -> bool
    decreases b, n,
{
    if n <= 0 || n > b.len() {
        false
    } else {
        block_sets(b, n - 1) || sets_columns(b[n - 1])
    }
}

/// True when one of the first `n` `except` parts sets a column.
pub open spec fn handlers_set(h: Seq<PyHandlerTree>, n: int) -> bool
    decreases h, n,
{
    if n <= 0 || n > h.len() {
        false
    } else {
        handlers_set(h, n - 1) || block_sets(h[n - 1].body, h[n - 1].body.len() as int)
    }
}

proof fn sets_makes(sc: Scope, s: PyStmtTree)
    requires
        sets_columns(s),
    ensures
        makes_columns(sc, s),
    decreases s, 0int,
{
    match s {
        PyStmtTree::Assign(t, _) => {
            if t.len() == 1 {
                assert(t[0] is Subscript);
            }
        },
        PyStmtTree::If(b, o) => {
            block_sets_makes(sc, b, b.len() as int);
            block_sets_makes(sc, o, o.len() as int);
        },
        PyStmtTree::With(_, b) => {
            block_sets_makes(sc, b, b.len() as int);
        },
        PyStmtTree::For(x) => {
            block_sets_makes(sc, x.body, x.body.len() as int);
            block_sets_makes(sc, x.orelse, x.orelse.len() as int);
        },
        PyStmtTree::While(_, b, o) => {
            block_sets_makes(sc, b, b.len() as int);
            block_sets_makes(sc, o, o.len() as int);
        },
        PyStmtTree::Try(_, b, h, o, x) => {
            block_sets_makes(sc, b, b.len() as int);
            handlers_set_makes(sc, h, h.len() as int);
            block_sets_makes(sc, o, o.len() as int);
            block_sets_makes(sc, x, x.len() as int);
        },
        _ => {},
    }
}

proof fn block_sets_makes(sc: Scope, b: Seq<PyStmtTree>, n: int)
    ensures
        block_sets(b, n) ==> block_makes(sc, b, n),
    decreases b, n,
{
    if 0 < n <= b.len() {
        block_sets_makes(sc, b, n - 1);
        if sets_columns(b[n - 1]) {
            sets_makes(sc, b[n - 1]);
        }
    }
}

proof fn handlers_set_makes(sc: Scope, h: Seq<PyHandlerTree>, n: int)
    ensures
        handlers_set(h, n) ==> handlers_make(sc, h, n),
    decreases h, n,
{
    if 0 < n <= h.len() {
        handlers_set_makes(sc, h, n - 1);
        assert(decreases_to!(h => h[n - 1]));
        assert(decreases_to!(h[n - 1] => h[n - 1].body));
        block_sets_makes(sc, h[n - 1].body, h[n - 1].body.len() as int);
    }
}

proof fn walk_finds(f: Flow, b: Seq<PyStmtTree>, n: int)
    requires
        block_sets(b, n),
    ensures
        found(walked(f, b, n)) > found(f),
    decreases b, 0int, n,
{
    let prev = walked(f, b, n - 1);
    walked_advances(f, b, n - 1);
    stepped_advances(prev, b[n - 1]);
    if block_sets(b, n - 1) {
        walk_finds(f, b, n - 1);
    } else {
        statement_is_traced_or_noted(prev, b[n - 1]);
    }
}

proof fn unroll_finds(
    f: Flow,
    var: Seq<char>,
    values: Seq<Seq<char>>,
    n: int,
    body: Seq<PyStmtTree>,
)
    requires
        block_sets(body, body.len() as int),
        0 < n,
    ensures
        found(unrolled(f, var, values, n, body)) > found(f),
    decreases body, 1int, n,
{
    let prev = unrolled(f, var, values, n - 1, body);
    unrolled_advances(f, var, values, n - 1, body);
    let g = Flow { scope: Scope { loop_var: Some((var, values[n - 1])), ..prev.scope }, ..prev };
    walk_finds(g, body, body.len() as int);
}

/// No statement that sets a column is dropped: wherever it stands, in a branch,
/// a loop or a `try`, it gives a column, or a note that says where it is.
pub proof fn statement_is_traced_or_noted(f: Flow, s: PyStmtTree)
    requires
        sets_columns(s),
    ensures
        found(stepped(f, s)) > found(f),
    decreases s, 0int, 0int,
{
    sets_makes(f.scope, s);
    match s {
        PyStmtTree::Assign(t, v) => {
            if t.len() == 1 {
                if let PyExprTree::Subscript(span, o, key) = t[0] {
                    if let PyExprTree::Name(at, owner) = *o {
                        column_assignment_is_traced_or_noted(f, span, at, owner, *key, v);
                    }
                }
            }
        },
        PyStmtTree::Expr(e) => {
            writes_find(f, e);
        },
        PyStmtTree::With(_, b) => {
            walk_finds(f, b, b.len() as int);
        },
        PyStmtTree::If(b, o) => {
            let g = walked(f, b, b.len() as int);
            walked_advances(f, b, b.len() as int);
            walked_advances(g, o, o.len() as int);
            if block_sets(b, b.len() as int) {
                walk_finds(f, b, b.len() as int);
            } else {
                walk_finds(g, o, o.len() as int);
            }
        },
        PyStmtTree::For(x) => {
            let n = x.body.len() as int;
            block_sets_makes(f.scope, x.body, n);
            let after = if block_makes(f.scope, x.body, n) {
                match (x.target, string_list(x.iter)) {
                    (PyExprTree::Name(_, var), Some(values)) => if f.scope.loop_var is None {
                        let last = unrolled(f, var, values, values.len() as int, x.body);
                        unrolled_advances(f, var, values, values.len() as int, x.body);
                        if block_sets(x.body, n) {
                            assert(values.len() > 0);
                            unroll_finds(f, var, values, values.len() as int, x.body);
                        }
                        Flow { scope: Scope { loop_var: None, ..last.scope }, ..last }
                    } else {
                        loop_note(f, x.span)
                    },
                    _ => loop_note(f, x.span),
                }
            } else {
                f
            };
            block_sets_makes(after.scope, x.orelse, x.orelse.len() as int);
            assert(stepped(f, s) == loop_left(after, x));
        },
        _ => {},
    }
}

/// How the calls that write, and the one that runs a query, are spelled.
proof fn writer_heads()
    ensures
        begins_with("sql"@, 3, 's', 'q'),
        begins_with("to_sql"@, 6, 't', 'o'),
        begins_with("saveAsTable"@, 11, 's', 'a'),
        begins_with("insertInto"@, 10, 'i', 'n'),
        begins_with("to_parquet"@, 10, 't', 'o'),
        begins_with("to_csv"@, 6, 't', 'o'),
        begins_with("parquet"@, 7, 'p', 'a'),
        begins_with("csv"@, 3, 'c', 's'),
        begins_with("save"@, 4, 's', 'a'),
        begins_with("createOrReplaceTempView"@, 23, 'c', 'r'),
{
    reveal_strlit("sql");
    reveal_strlit("to_sql");
    reveal_strlit("saveAsTable");
    reveal_strlit("insertInto");
    reveal_strlit("to_parquet");
    reveal_strlit("to_csv");
    reveal_strlit("parquet");
    reveal_strlit("csv");
    reveal_strlit("save");
    reveal_strlit("createOrReplaceTempView");
}

proof fn writes_find(f: Flow, e: PyExprTree)
    requires
        chain_calls(e).len() > 0,
        is_writer(method_of(chain_calls(e).last())),
        rewrites(e, true),
    ensures
        found(stated(f, e)) > found(f),
{
    let c = chain_calls(e).last();
    let seg = method_of(c);
    let base = chain_base(e);
    writer_heads();
    let table = arg_text(c.args, 0);
    written_advances(f, base, table, "pandas"@);
    written_advances(f, base, table, "spark"@);
    written_advances(f, base, None, "pandas"@);
    written_advances(f, base, None, "spark"@);
}

proof fn placed_columns_unique(f: Flow, n: int)
    ensures
        placed_columns(f, n).no_duplicates(),
    decreases n,
{
    if n > 0 {
        placed_columns_unique(f, n - 1);
        begins_push_new(
            placed_columns(f, n - 1),
            placed(f.writes, f.columns[n - 1].0, f.columns[n - 1].1),
        );
    }
}

/// Nothing is reported twice: the columns that a body yields, the tables that
/// it reads and the tables that it writes are each there once.
pub proof fn results_are_unique(
    body: Seq<PyStmtTree>,
    consts: Map<Seq<char>, Seq<char>>,
    source: Seq<char>,
)
    ensures
        dataflow_of(body, consts, source).columns.no_duplicates(),
        dataflow_of(body, consts, source).inputs.no_duplicates(),
        dataflow_of(body, consts, source).outputs.no_duplicates(),
{
    let f = fresh_flow(consts, source);
    let g = walked(f, body, body.len() as int);
    walked_advances(f, body, body.len() as int);
    placed_columns_unique(g, g.columns.len() as int);
}

} // verus!

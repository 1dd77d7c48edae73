//! Column-level lineage of a SQL text.
//!
//! Each target column of an `INSERT … SELECT`, a `CREATE TABLE … AS`, a
//! `MERGE` or a bare `SELECT` is mapped back to the columns that its
//! expression refers to. Where a projection cannot be paired with the target
//! columns without guessing, no mapping is made and a flag says why.

use vstd::prelude::*;

use crate::model::TransformType;
use crate::sqlast::{
    arg_views, parse_sql, sql_parse, texts, texts_list, unfold_body, unfold_factor, unfold_sql,
    unfold_tables, SqlAssignment, SqlAssignmentTree, SqlBody, SqlBodyTree, SqlBranch, SqlBranchTree,
    SqlExpr, SqlExprTree, SqlFactor, SqlFactorTree, SqlItem, SqlItemTree, SqlMergeAction,
    SqlMergeActionTree, SqlStatement, SqlStatementTree, SqlTables, SqlTablesTree, SqlValue,
    SqlValueTree,
};
use crate::text::{
    ascii_upper, group_views, opt_text, push_new, replicate_opt, same_opt, squeeze, squeezed,
    str_eq, to_upper, vec_push_new, views, Replicate, Same,
};

verus! {

// ─────────────────────────────── results ──────────────────────────────

/// A column reference: an optional table qualifier and a column name.
#[derive(Debug, Clone, PartialEq)]
pub struct SqlColRef {
    pub table: Option<String>,
    pub column: String,
}

#[verifier::ext_equal]
pub struct SqlColRefView {
    pub table: Option<Seq<char>>,
    pub column: Seq<char>,
}

impl View for SqlColRef {
    type V = SqlColRefView;

    open spec fn view(&self) -> SqlColRefView {
        SqlColRefView { table: opt_text(self.table), column: self.column@ }
    }
}

impl Replicate for SqlColRef {
    fn replicate(&self) -> (r: Self) {
        SqlColRef { table: replicate_opt(&self.table), column: self.column.clone() }
    }
}

impl Same for SqlColRef {
    fn same(&self, other: &Self) -> (b: bool) {
        same_opt(&self.table, &other.table) && self.column == other.column
    }
}

/// One target column with its sources.
#[derive(Debug, Clone, PartialEq)]
pub struct SqlMapping {
    pub sources: Vec<SqlColRef>,
    pub target: String,
    /// The expression as a one-line label.
    pub function: String,
    pub transform_type: TransformType,
}

#[verifier::ext_equal]
pub struct SqlMappingView {
    pub sources: Seq<SqlColRefView>,
    pub target: Seq<char>,
    pub function: Seq<char>,
    pub transform_type: TransformType,
}

impl View for SqlMapping {
    type V = SqlMappingView;

    open spec fn view(&self) -> SqlMappingView {
        SqlMappingView {
            sources: views(self.sources@),
            target: self.target@,
            function: self.function@,
            transform_type: self.transform_type,
        }
    }
}

/// The lineage of one statement.
#[derive(Debug, Clone, PartialEq)]
pub struct SqlColumnLineage {
    /// The table that is written, if any.
    pub target_table: Option<String>,
    /// The tables that are read.
    pub source_tables: Vec<String>,
    pub mappings: Vec<SqlMapping>,
    /// Set when a wildcard stands in the projection of an `INSERT` with a
    /// column list: the columns cannot be paired.
    pub wildcard_in_projection: bool,
    /// The numbers of projected and of target columns, when they differ.
    pub arity_mismatch: Option<(usize, usize)>,
}

#[verifier::ext_equal]
pub struct SqlColumnLineageView {
    pub target_table: Option<Seq<char>>,
    pub source_tables: Seq<Seq<char>>,
    pub mappings: Seq<SqlMappingView>,
    pub wildcard_in_projection: bool,
    pub arity_mismatch: Option<(usize, usize)>,
}

impl View for SqlColumnLineage {
    type V = SqlColumnLineageView;

    open spec fn view(&self) -> SqlColumnLineageView {
        SqlColumnLineageView {
            target_table: opt_text(self.target_table),
            source_tables: views(self.source_tables@),
            mappings: views(self.mappings@),
            wildcard_in_projection: self.wildcard_in_projection,
            arity_mismatch: self.arity_mismatch,
        }
    }
}

pub open spec fn no_lineage() -> SqlColumnLineageView {
    SqlColumnLineageView {
        target_table: None,
        source_tables: Seq::empty(),
        mappings: Seq::empty(),
        wildcard_in_projection: false,
        arity_mismatch: None,
    }
}

impl Default for SqlColumnLineage {
    fn default() -> (r: Self)
        ensures
            r@ == no_lineage(),
    {
        broadcast use group_views;

        SqlColumnLineage {
            target_table: None,
            source_tables: Vec::new(),
            mappings: Vec::new(),
            wildcard_in_projection: false,
            arity_mismatch: None,
        }
    }
}

// ─────────────────────────────── reading names ────────────────────────

/// The last part of a dotted name; empty when there is none.
pub open spec fn last_part(name: Seq<Seq<char>>) -> Seq<char> {
    if name.len() == 0 {
        Seq::empty()
    } else {
        name.last()
    }
}

fn object_name_last(name: &Vec<String>) -> (r: String)
    ensures
        r@ == last_part(texts(name@)),
        r@ == last_part(views(name@)),
{
    if name.len() == 0 {
        String::new()
    } else {
        name[name.len() - 1].clone()
    }
}

// ─────────────────────────── column references ────────────────────────

/// The reference that a dotted identifier makes: the column, and the part
/// before it as the table.
pub open spec fn compound_ref(parts: Seq<Seq<char>>) -> SqlColRefView {
    SqlColRefView {
        table: if parts.len() >= 2 {
            Some(parts[parts.len() - 2])
        } else {
            None
        },
        column: parts.last(),
    }
}

/// `out` followed by the new column references of `e` in reading order.
pub open spec fn refs_of(e: SqlExprTree, out: Seq<SqlColRefView>) -> Seq<SqlColRefView>
    decreases e, 0int,
{
    match e {
        SqlExprTree::Identifier(n) => push_new(out, SqlColRefView { table: None, column: n }),
        SqlExprTree::Compound(p) => if p.len() == 0 {
            out
        } else {
            push_new(out, compound_ref(p))
        },
        SqlExprTree::Nested(x) => refs_of(*x, out),
        SqlExprTree::Cast(x) => refs_of(*x, out),
        SqlExprTree::Unary(x) => refs_of(*x, out),
        SqlExprTree::Binary(l, r) => refs_of(*r, refs_of(*l, out)),
        SqlExprTree::Between(x, l, h) => refs_of(*h, refs_of(*l, refs_of(*x, out))),
        SqlExprTree::Case(o, b, x) => {
            let first = match o {
                Some(y) => refs_of(*y, out),
                None => out,
            };
            let middle = branch_refs(b, b.len() as int, first);
            match x {
                Some(y) => refs_of(*y, middle),
                None => middle,
            }
        },
        SqlExprTree::Function(_, a) => arg_refs(a, a.len() as int, out),
        SqlExprTree::InList(x, v) => list_refs(v, v.len() as int, refs_of(*x, out)),
        SqlExprTree::Other => out,
    }
}

pub open spec fn branch_refs(b: Seq<SqlBranchTree>, n: int, out: Seq<SqlColRefView>) -> Seq<
    SqlColRefView,
>
    decreases b, n,
{
    if n <= 0 || n > b.len() {
        out
    } else {
        let prev = branch_refs(b, n - 1, out);
        refs_of(b[n - 1].result, refs_of(b[n - 1].condition, prev))
    }
}

pub open spec fn arg_refs(a: Seq<Option<SqlExprTree>>, n: int, out: Seq<SqlColRefView>) -> Seq<
    SqlColRefView,
>
    decreases a, n,
{
    if n <= 0 || n > a.len() {
        out
    } else {
        let prev = arg_refs(a, n - 1, out);
        match a[n - 1] {
            Some(e) => refs_of(e, prev),
            None => prev,
        }
    }
}

pub open spec fn list_refs(v: Seq<SqlExprTree>, n: int, out: Seq<SqlColRefView>) -> Seq<
    SqlColRefView,
>
    decreases v, n,
{
    if n <= 0 || n > v.len() {
        out
    } else {
        refs_of(v[n - 1], list_refs(v, n - 1, out))
    }
}

/// Adds every column reference of an expression that is not yet there.
fn collect_col_refs(expr: &SqlExpr, out: &mut Vec<SqlColRef>)
    ensures
        views(final(out)@) == refs_of(expr@, views(old(out)@)),
    decreases expr,
{
    broadcast use group_views;

    proof {
        unfold_sql(*expr);
    }
    match expr {
        SqlExpr::Identifier(n) => {
            vec_push_new(out, SqlColRef { table: None, column: n.clone() });
        },
        SqlExpr::Compound(p) => {
            if p.len() > 0 {
                let table = if p.len() >= 2 {
                    Some(p[p.len() - 2].clone())
                } else {
                    None
                };
                vec_push_new(out, SqlColRef { table, column: p[p.len() - 1].clone() });
            }
        },
        SqlExpr::Nested(x) => collect_col_refs(x, out),
        SqlExpr::Cast(x) => collect_col_refs(x, out),
        SqlExpr::Unary(x) => collect_col_refs(x, out),
        SqlExpr::Binary(l, r) => {
            collect_col_refs(l, out);
            collect_col_refs(r, out);
        },
        SqlExpr::Between(x, l, h) => {
            collect_col_refs(x, out);
            collect_col_refs(l, out);
            collect_col_refs(h, out);
        },
        SqlExpr::Case(o, b, x) => {
            if let Some(y) = o {
                collect_col_refs(y, out);
            }
            collect_branches(b, out);
            if let Some(y) = x {
                collect_col_refs(y, out);
            }
        },
        SqlExpr::Function(_, a) => collect_args(a, out),
        SqlExpr::InList(x, v) => {
            collect_col_refs(x, out);
            collect_list(v, out);
        },
        SqlExpr::Other => {},
    }
}

fn collect_branches(b: &Vec<SqlBranch>, out: &mut Vec<SqlColRef>)
    ensures
        views(final(out)@) == branch_refs(views(b@), b@.len() as int, views(old(out)@)),
    decreases b,
{
    let ghost start = views(out@);
    let mut i: usize = 0;
    while i < b.len()
        invariant
            i <= b@.len(),
            views(out@) == branch_refs(views(b@), i as int, start),
        decreases b@.len() - i,
    {
        assert(decreases_to!(b => b@[i as int]));
        assert(decreases_to!(b@[i as int] => b@[i as int].condition));
        assert(decreases_to!(b@[i as int] => b@[i as int].result));
        assert(views(b@)[i as int] == b@[i as int]@);
        collect_col_refs(&b[i].condition, out);
        collect_col_refs(&b[i].result, out);
        i = i + 1;
    }
}

fn collect_args(a: &Vec<Option<SqlExpr>>, out: &mut Vec<SqlColRef>)
    ensures
        views(final(out)@) == arg_refs(arg_views(a@), a@.len() as int, views(old(out)@)),
    decreases a,
{
    let ghost start = views(out@);
    let mut i: usize = 0;
    while i < a.len()
        invariant
            i <= a@.len(),
            views(out@) == arg_refs(arg_views(a@), i as int, start),
        decreases a@.len() - i,
    {
        assert(decreases_to!(a => a@[i as int]));
        if let Some(e) = &a[i] {
            collect_col_refs(e, out);
        }
        i = i + 1;
    }
}

fn collect_list(v: &Vec<SqlExpr>, out: &mut Vec<SqlColRef>)
    ensures
        views(final(out)@) == list_refs(views(v@), v@.len() as int, views(old(out)@)),
    decreases v,
{
    let ghost start = views(out@);
    let mut i: usize = 0;
    while i < v.len()
        invariant
            i <= v@.len(),
            views(out@) == list_refs(views(v@), i as int, start),
        decreases v@.len() - i,
    {
        assert(decreases_to!(v => v@[i as int]));
        assert(views(v@)[i as int] == v@[i as int]@);
        collect_col_refs(&v[i], out);
        i = i + 1;
    }
}

// ───────────────────────────── classification ─────────────────────────

/// The output name of an expression without alias: its column. A cast is
/// looked through only where `through_cast` says so.
pub open spec fn implicit_name(e: SqlExprTree, through_cast: bool) -> Option<Seq<char>>
    decreases e,
{
    match e {
        SqlExprTree::Identifier(n) => Some(n),
        SqlExprTree::Compound(p) => if p.len() == 0 {
            None
        } else {
            Some(p.last())
        },
        SqlExprTree::Nested(x) => implicit_name(*x, through_cast),
        SqlExprTree::Cast(x) => if through_cast {
            implicit_name(*x, through_cast)
        } else {
            None
        },
        _ => None,
    }
}

fn implicit_target_name(expr: &SqlExpr, through_cast: bool) -> (r: Option<String>)
    ensures
        opt_text(r) == implicit_name(expr@, through_cast),
    decreases expr,
{
    proof {
        unfold_sql(*expr);
    }
    match expr {
        SqlExpr::Identifier(n) => Some(n.clone()),
        SqlExpr::Compound(p) => if p.len() == 0 {
            None
        } else {
            Some(p[p.len() - 1].clone())
        },
        SqlExpr::Nested(x) => implicit_target_name(x, through_cast),
        SqlExpr::Cast(x) => if through_cast {
            implicit_target_name(x, through_cast)
        } else {
            None
        },
        _ => None,
    }
}

/// True for the name of an aggregate function, whatever its case.
pub open spec fn names_aggregate(name: Seq<char>) -> bool {
    let n = ascii_upper(name);
    n == "COUNT"@ || n == "SUM"@ || n == "AVG"@ || n == "MIN"@ || n == "MAX"@
}

/// True when the outermost expression, parentheses aside, is an aggregate.
pub open spec fn is_aggregate(e: SqlExprTree) -> bool
    decreases e,
{
    match e {
        SqlExprTree::Function(n, _) => names_aggregate(last_part(n)),
        SqlExprTree::Nested(x) => is_aggregate(*x),
        _ => false,
    }
}

fn top_function_is_aggregate(expr: &SqlExpr) -> (r: bool)
    ensures
        r == is_aggregate(expr@),
    decreases expr,
{
    proof {
        unfold_sql(*expr);
    }
    match expr {
        SqlExpr::Function(n, _) => {
            let last = object_name_last(n);
            let upper = to_upper(last.as_str());
            let u = upper.as_str();
            str_eq(u, "COUNT") || str_eq(u, "SUM") || str_eq(u, "AVG") || str_eq(u, "MIN")
                || str_eq(u, "MAX")
        },
        SqlExpr::Nested(x) => top_function_is_aggregate(x),
        _ => false,
    }
}

/// An aggregate, a plain column, or anything else.
pub open spec fn kind_of(e: SqlExprTree) -> TransformType
    decreases e,
{
    if is_aggregate(e) {
        TransformType::Aggregation
    } else {
        match e {
            SqlExprTree::Identifier(_) => TransformType::Identity,
            SqlExprTree::Compound(_) => TransformType::Identity,
            SqlExprTree::Nested(x) => kind_of(*x),
            _ => TransformType::Transformation,
        }
    }
}

fn classify_expr(expr: &SqlExpr) -> (r: TransformType)
    ensures
        r == kind_of(expr@),
    decreases expr,
{
    proof {
        unfold_sql(*expr);
    }
    if top_function_is_aggregate(expr) {
        return TransformType::Aggregation;
    }
    match expr {
        SqlExpr::Identifier(_) => TransformType::Identity,
        SqlExpr::Compound(_) => TransformType::Identity,
        SqlExpr::Nested(x) => classify_expr(x),
        _ => TransformType::Transformation,
    }
}

// ─────────────────────────────── tables read ──────────────────────────

/// `out` followed by the first `n` of `more` that are new.
pub open spec fn extended_new<A>(out: Seq<A>, more: Seq<A>, n: int) -> Seq<A>
    decreases n,
{
    if n <= 0 {
        out
    } else {
        push_new(extended_new(out, more, n - 1), more[n - 1])
    }
}

fn extend_new(out: &mut Vec<String>, more: &Vec<String>)
    ensures
        views(final(out)@) == extended_new(views(old(out)@), views(more@), more@.len() as int),
{
    let ghost start = views(out@);
    let mut i: usize = 0;
    while i < more.len()
        invariant
            i <= more@.len(),
            views(out@) == extended_new(start, views(more@), i as int),
        decreases more@.len() - i,
    {
        vec_push_new(out, more[i].clone());
        i = i + 1;
    }
}

/// `out` followed by the new tables of a relation.
pub open spec fn factor_tables(f: SqlFactorTree, out: Seq<Seq<char>>) -> Seq<Seq<char>>
    decreases f, 0int,
{
    match f {
        SqlFactorTree::Table(n, _) => push_new(out, last_part(n)),
        SqlFactorTree::Derived(b, _) => {
            let inner = body_tables(*b);
            extended_new(out, inner, inner.len() as int)
        },
        SqlFactorTree::Join(t) => {
            let inner = tables_of(*t, Seq::empty());
            extended_new(out, inner, inner.len() as int)
        },
        SqlFactorTree::Other => out,
    }
}

/// `out` followed by the new tables of a relation and its joins.
pub open spec fn tables_of(t: SqlTablesTree, out: Seq<Seq<char>>) -> Seq<Seq<char>>
    decreases t, 0int,
{
    joined_tables(t.joins, t.joins.len() as int, factor_tables(t.relation, out))
}

pub open spec fn joined_tables(j: Seq<SqlFactorTree>, n: int, out: Seq<Seq<char>>) -> Seq<Seq<char>>
    decreases j, n,
{
    if n <= 0 || n > j.len() {
        out
    } else {
        factor_tables(j[n - 1], joined_tables(j, n - 1, out))
    }
}

/// The tables of the first `n` relations of a `FROM` clause.
pub open spec fn from_tables(from: Seq<SqlTablesTree>, n: int) -> Seq<Seq<char>>
    decreases from, n,
{
    if n <= 0 || n > from.len() {
        Seq::empty()
    } else {
        tables_of(from[n - 1], from_tables(from, n - 1))
    }
}

/// The tables of the leading `SELECT` of a query body.
pub open spec fn body_tables(b: SqlBodyTree) -> Seq<Seq<char>>
    decreases b, 0int,
{
    match b {
        SqlBodyTree::Select(_, from) => from_tables(from, from.len() as int),
        SqlBodyTree::Inner(x) => body_tables(*x),
        SqlBodyTree::Other => Seq::empty(),
    }
}

fn collect_factor_tables(f: &SqlFactor, out: &mut Vec<String>)
    ensures
        views(final(out)@) == factor_tables(f@, views(old(out)@)),
    decreases f,
{
    proof {
        unfold_factor(*f);
    }
    match f {
        SqlFactor::Table(n, _) => {
            let t = object_name_last(n);
            vec_push_new(out, t);
        },
        SqlFactor::Derived(b, _) => {
            let inner = collect_body_tables(b);
            extend_new(out, &inner);
        },
        SqlFactor::Join(t) => {
            let mut inner: Vec<String> = Vec::new();
            assert(views(inner@) =~= Seq::<Seq<char>>::empty());
            collect_tables(t, &mut inner);
            extend_new(out, &inner);
        },
        SqlFactor::Other => {},
    }
}

fn collect_tables(t: &SqlTables, out: &mut Vec<String>)
    ensures
        views(final(out)@) == tables_of(t@, views(old(out)@)),
    decreases t,
{
    proof {
        unfold_tables(*t);
    }
    collect_factor_tables(&t.relation, out);
    let ghost start = views(out@);
    let mut i: usize = 0;
    while i < t.joins.len()
        invariant
            i <= t.joins@.len(),
            views(out@) == joined_tables(views(t.joins@), i as int, start),
        decreases t.joins@.len() - i,
    {
        assert(decreases_to!(t => t.joins));
        assert(decreases_to!(t.joins => t.joins@[i as int]));
        assert(views(t.joins@)[i as int] == t.joins@[i as int]@);
        collect_factor_tables(&t.joins[i], out);
        i = i + 1;
    }
}

fn collect_source_tables(from: &Vec<SqlTables>) -> (r: Vec<String>)
    ensures
        views(r@) == from_tables(views(from@), from@.len() as int),
    decreases from,
{
    broadcast use group_views;

    let mut out: Vec<String> = Vec::new();
    let mut i: usize = 0;
    while i < from.len()
        invariant
            i <= from@.len(),
            views(out@) == from_tables(views(from@), i as int),
        decreases from@.len() - i,
    {
        assert(decreases_to!(from => from@[i as int]));
        assert(views(from@)[i as int] == from@[i as int]@);
        collect_tables(&from[i], &mut out);
        i = i + 1;
    }
    out
}

fn collect_body_tables(b: &SqlBody) -> (r: Vec<String>)
    ensures
        views(r@) == body_tables(b@),
    decreases b,
{
    broadcast use group_views;

    proof {
        unfold_body(*b);
    }
    match b {
        SqlBody::Select(_, from) => collect_source_tables(from),
        SqlBody::Inner(x) => collect_body_tables(x),
        SqlBody::Other => Vec::new(),
    }
}

// ─────────────────────────────── projections ──────────────────────────

/// The mapping of one expression to a target.
pub open spec fn mapping_of(e: SqlExprTree, text: Seq<char>, target: Seq<char>) -> SqlMappingView {
    SqlMappingView {
        sources: refs_of(e, Seq::empty()),
        target,
        function: squeezed(text),
        transform_type: kind_of(e),
    }
}

fn build_mapping(expr: &SqlExpr, text: &str, target: String) -> (r: SqlMapping)
    ensures
        r@ == mapping_of(expr@, text@, target@),
{
    broadcast use group_views;

    let mut sources: Vec<SqlColRef> = Vec::new();
    collect_col_refs(expr, &mut sources);
    SqlMapping {
        sources,
        target,
        function: squeeze(text),
        transform_type: classify_expr(expr),
    }
}

/// The name of an item of a projection: its alias or its implicit name.
pub open spec fn item_name(i: SqlItemTree, through_cast: bool) -> Option<Seq<char>> {
    match i {
        SqlItemTree::Expr(e, _, a) => match a {
            Some(n) => Some(n),
            None => implicit_name(e, through_cast),
        },
        _ => None,
    }
}

/// The mappings of the first `n` items that have a name.
pub open spec fn named_mappings(p: Seq<SqlItemTree>, n: int, through_cast: bool) -> Seq<
    SqlMappingView,
>
    decreases n,
{
    if n <= 0 {
        Seq::empty()
    } else {
        let prev = named_mappings(p, n - 1, through_cast);
        match (p[n - 1], item_name(p[n - 1], through_cast)) {
            (SqlItemTree::Expr(e, text, _), Some(target)) => prev.push(
                mapping_of(e, text, target),
            ),
            _ => prev,
        }
    }
}

/// The lineage of a projection into the listed target columns, or by name when
/// none are listed.
pub open spec fn select_lineage(
    p: Seq<SqlItemTree>,
    from: Seq<SqlTablesTree>,
    cols: Seq<Seq<char>>,
    through_cast: bool,
) -> SqlColumnLineageView {
    let base = SqlColumnLineageView {
        source_tables: from_tables(from, from.len() as int),
        ..no_lineage()
    };
    if cols.len() == 0 {
        SqlColumnLineageView { mappings: named_mappings(p, p.len() as int, through_cast), ..base }
    } else if exists|i: int| 0 <= i < p.len() && #[trigger] p[i] is Wildcard {
        SqlColumnLineageView { wildcard_in_projection: true, ..base }
    } else if p.len() != cols.len() || exists|i: int| 0 <= i < p.len() && #[trigger] p[i] is Other {
        SqlColumnLineageView {
            arity_mismatch: Some((p.len() as usize, cols.len() as usize)),
            ..base
        }
    } else {
        SqlColumnLineageView {
            mappings: Seq::new(
                p.len(),
                |i: int| mapping_of(p[i]->Expr_0, p[i]->Expr_1, cols[i]),
            ),
            ..base
        }
    }
}

fn has_wildcard(p: &Vec<SqlItem>) -> (r: bool)
    ensures
        r == exists|i: int| 0 <= i < views(p@).len() && #[trigger] views(p@)[i] is Wildcard,
{
    let mut i: usize = 0;
    while i < p.len()
        invariant
            i <= p@.len(),
            forall|k: int| 0 <= k < i ==> !(#[trigger] views(p@)[k] is Wildcard),
        decreases p@.len() - i,
    {
        if let SqlItem::Wildcard = &p[i] {
            assert(views(p@)[i as int] is Wildcard);
            return true;
        }
        i = i + 1;
    }
    false
}

fn positional_lineage(p: &Vec<SqlItem>, from: &Vec<SqlTables>, cols: &Vec<String>) -> (r:
    SqlColumnLineage)
    requires
        cols@.len() > 0,
    ensures
        r@ == select_lineage(views(p@), views(from@), views(cols@), false),
        r@ == select_lineage(views(p@), views(from@), views(cols@), true),
{
    broadcast use group_views;

    let ghost pv = views(p@);
    let mut out = SqlColumnLineage::default();
    out.source_tables = collect_source_tables(from);
    if has_wildcard(p) {
        out.wildcard_in_projection = true;
        return out;
    }
    if p.len() != cols.len() {
        out.arity_mismatch = Some((p.len(), cols.len()));
        return out;
    }
    let ghost tables = views(out.source_tables@);
    let mut i: usize = 0;
    while i < p.len()
        invariant
            i <= p@.len(),
            pv == views(p@),
            p@.len() == cols@.len(),
            cols@.len() > 0,
            tables == from_tables(views(from@), from@.len() as int),
            forall|k: int| 0 <= k < p@.len() ==> !(#[trigger] pv[k] is Wildcard),
            forall|k: int| 0 <= k < i ==> #[trigger] pv[k] is Expr,
            views(out.mappings@) == Seq::new(
                i as nat,
                |k: int| mapping_of(pv[k]->Expr_0, pv[k]->Expr_1, views(cols@)[k]),
            ),
            out@ == (SqlColumnLineageView {
                source_tables: tables,
                mappings: views(out.mappings@),
                ..no_lineage()
            }),
        decreases p@.len() - i,
    {
        broadcast use group_views;

        assert(!(pv[i as int] is Wildcard));
        match &p[i] {
            SqlItem::Expr(e, text, _) => {
                let m = build_mapping(e, text.as_str(), cols[i].clone());
                out.mappings.push(m);
                assert(views(out.mappings@) =~= Seq::new(
                    (i + 1) as nat,
                    |k: int| mapping_of(pv[k]->Expr_0, pv[k]->Expr_1, views(cols@)[k]),
                ));
            },
            _ => {
                assert(pv[i as int] is Other);
                let mut refused = SqlColumnLineage::default();
                refused.source_tables = out.source_tables;
                refused.arity_mismatch = Some((p.len(), cols.len()));
                return refused;
            },
        }
        i = i + 1;
    }
    assert(out@.mappings =~= Seq::new(
        pv.len(),
        |k: int| mapping_of(pv[k]->Expr_0, pv[k]->Expr_1, views(cols@)[k]),
    ));
    out
}

fn named_lineage(p: &Vec<SqlItem>, from: &Vec<SqlTables>, through_cast: bool) -> (r:
    SqlColumnLineage)
    ensures
        r@ == select_lineage(views(p@), views(from@), Seq::empty(), through_cast),
{
    broadcast use group_views;

    let ghost pv = views(p@);
    let mut out = SqlColumnLineage::default();
    out.source_tables = collect_source_tables(from);
    let ghost tables = views(out.source_tables@);
    let mut i: usize = 0;
    while i < p.len()
        invariant
            i <= p@.len(),
            pv == views(p@),
            out@ == (SqlColumnLineageView {
                source_tables: tables,
                mappings: named_mappings(pv, i as int, through_cast),
                ..no_lineage()
            }),
        decreases p@.len() - i,
    {
        broadcast use group_views;

        assert(pv[i as int] == p@[i as int]@);
        if let SqlItem::Expr(e, text, alias) = &p[i] {
            let name = match alias {
                Some(a) => Some(a.clone()),
                None => implicit_target_name(e, through_cast),
            };
            if let Some(target) = name {
                let m = build_mapping(e, text.as_str(), target);
                out.mappings.push(m);
            }
        }
        i = i + 1;
    }
    out
}

/// The lineage of the leading `SELECT` of a query body.
pub open spec fn body_lineage(b: SqlBodyTree, cols: Seq<Seq<char>>, through_cast: bool) -> SqlColumnLineageView
    decreases b,
{
    match b {
        SqlBodyTree::Select(p, from) => select_lineage(p, from, cols, through_cast),
        SqlBodyTree::Inner(x) => body_lineage(*x, cols, through_cast),
        SqlBodyTree::Other => no_lineage(),
    }
}

/// The lineage of a query: by position into `target_cols`, or by name when
/// there are none.
pub fn lineage_from_query(query: &SqlBody, target_cols: &Vec<String>, through_cast: bool) -> (r:
    SqlColumnLineage)
    ensures
        r@ == body_lineage(query@, views(target_cols@), through_cast),
    decreases query,
{
    proof {
        unfold_body(*query);
    }
    match query {
        SqlBody::Select(p, from) => if target_cols.len() == 0 {
            assert(views(target_cols@) =~= Seq::<Seq<char>>::empty());
            named_lineage(p, from, through_cast)
        } else {
            positional_lineage(p, from, target_cols)
        },
        SqlBody::Inner(x) => lineage_from_query(x, target_cols, through_cast),
        SqlBody::Other => SqlColumnLineage::default(),
    }
}

// ──────────────────────────────── MERGE ───────────────────────────────

/// The name that a relation is referred to by, where it has an alias.
pub open spec fn factor_alias(f: SqlFactorTree) -> Option<Seq<char>> {
    match f {
        SqlFactorTree::Table(_, a) => a,
        SqlFactorTree::Derived(_, a) => a,
        _ => None,
    }
}

/// The reference without a qualifier that is the alias.
pub open spec fn unqualified(r: SqlColRefView, alias: Option<Seq<char>>) -> SqlColRefView {
    if alias is Some && r.table == alias {
        SqlColRefView { table: None, column: r.column }
    } else {
        r
    }
}

/// The first `n` references without the alias, each once.
pub open spec fn unqualified_refs(
    refs: Seq<SqlColRefView>,
    alias: Option<Seq<char>>,
    n: int,
) -> Seq<SqlColRefView>
    decreases n,
{
    if n <= 0 {
        Seq::empty()
    } else {
        push_new(unqualified_refs(refs, alias, n - 1), unqualified(refs[n - 1], alias))
    }
}

/// The mapping of a value of a `MERGE` to a target column.
pub open spec fn merge_mapping(
    v: SqlValueTree,
    alias: Option<Seq<char>>,
    target: Seq<char>,
) -> SqlMappingView {
    let m = mapping_of(v.expr, v.text, target);
    SqlMappingView { sources: unqualified_refs(m.sources, alias, m.sources.len() as int), ..m }
}

/// True when a mapping has the target.
pub open spec fn maps_target(ms: Seq<SqlMappingView>, target: Seq<char>) -> bool {
    exists|i: int| 0 <= i < ms.len() && (#[trigger] ms[i]).target == target
}

pub open spec fn add_mapping(ms: Seq<SqlMappingView>, m: SqlMappingView) -> Seq<SqlMappingView> {
    if maps_target(ms, m.target) {
        ms
    } else {
        ms.push(m)
    }
}

/// `ms` followed by the mappings of the first `n` assignments to new targets.
pub open spec fn assigned(
    a: Seq<SqlAssignmentTree>,
    alias: Option<Seq<char>>,
    n: int,
    ms: Seq<SqlMappingView>,
) -> Seq<SqlMappingView>
    decreases n,
{
    if n <= 0 {
        ms
    } else {
        let prev = assigned(a, alias, n - 1, ms);
        match a[n - 1].column {
            Some(c) => add_mapping(prev, merge_mapping(a[n - 1].value, alias, last_part(c))),
            None => prev,
        }
    }
}

/// The mappings of the `UPDATE` clauses among the first `n`.
pub open spec fn updated(
    acts: Seq<SqlMergeActionTree>,
    alias: Option<Seq<char>>,
    n: int,
) -> Seq<SqlMappingView>
    decreases n,
{
    if n <= 0 {
        Seq::empty()
    } else {
        let prev = updated(acts, alias, n - 1);
        match acts[n - 1] {
            SqlMergeActionTree::Update(a) => assigned(a, alias, a.len() as int, prev),
            _ => prev,
        }
    }
}

/// `ms` followed by the mappings of the first `n` values to new targets.
pub open spec fn inserted_values(
    cols: Seq<Seq<Seq<char>>>,
    vals: Seq<SqlValueTree>,
    alias: Option<Seq<char>>,
    n: int,
    ms: Seq<SqlMappingView>,
) -> Seq<SqlMappingView>
    decreases n,
{
    if n <= 0 {
        ms
    } else {
        add_mapping(
            inserted_values(cols, vals, alias, n - 1, ms),
            merge_mapping(vals[n - 1], alias, last_part(cols[n - 1])),
        )
    }
}

/// `ms` followed by the mappings of the `INSERT` clauses among the first `n`;
/// one whose columns and values do not pair up is left out.
pub open spec fn inserted(
    acts: Seq<SqlMergeActionTree>,
    alias: Option<Seq<char>>,
    n: int,
    ms: Seq<SqlMappingView>,
) -> Seq<SqlMappingView>
    decreases n,
{
    if n <= 0 {
        ms
    } else {
        let prev = inserted(acts, alias, n - 1, ms);
        match acts[n - 1] {
            SqlMergeActionTree::Insert(c, v) => if c.len() == v.len() {
                inserted_values(c, v, alias, c.len() as int, prev)
            } else {
                prev
            },
            _ => prev,
        }
    }
}

/// The lineage of a `MERGE`: the assignments of its `UPDATE` clauses, then the
/// values of its `INSERT` clauses for the columns that no `UPDATE` assigns.
pub open spec fn merge_lineage(
    table: Seq<Seq<char>>,
    source: SqlFactorTree,
    acts: Seq<SqlMergeActionTree>,
) -> SqlColumnLineageView {
    let alias = factor_alias(source);
    let n = acts.len() as int;
    SqlColumnLineageView {
        target_table: Some(last_part(table)),
        source_tables: factor_tables(source, Seq::empty()),
        mappings: inserted(acts, alias, n, updated(acts, alias, n)),
        ..no_lineage()
    }
}

fn alias_of(f: &SqlFactor) -> (r: Option<String>)
    ensures
        opt_text(r) == factor_alias(f@),
{
    proof {
        unfold_factor(*f);
    }
    match f {
        SqlFactor::Table(_, a) => replicate_opt(a),
        SqlFactor::Derived(_, a) => replicate_opt(a),
        _ => None,
    }
}

fn build_merge_mapping(v: &SqlValue, alias: &Option<String>, target: String) -> (r: SqlMapping)
    ensures
        r@ == merge_mapping(v@, opt_text(*alias), target@),
{
    broadcast use group_views;

    let m = build_mapping(&v.expr, v.text.as_str(), target);
    let ghost mv = m@;
    let mut sources: Vec<SqlColRef> = Vec::new();
    let mut i: usize = 0;
    while i < m.sources.len()
        invariant
            i <= m.sources@.len(),
            mv.sources == views(m.sources@),
            views(sources@) == unqualified_refs(mv.sources, opt_text(*alias), i as int),
        decreases m.sources@.len() - i,
    {
        let c = m.sources[i].replicate();
        let x = if alias.is_some() && same_opt(&c.table, alias) {
            SqlColRef { table: None, column: c.column }
        } else {
            c
        };
        assert(x@ == unqualified(mv.sources[i as int], opt_text(*alias)));
        vec_push_new(&mut sources, x);
        i = i + 1;
    }
    SqlMapping {
        sources,
        target: m.target,
        function: m.function,
        transform_type: m.transform_type,
    }
}

fn push_mapping(ms: &mut Vec<SqlMapping>, m: SqlMapping)
    ensures
        views(final(ms)@) == add_mapping(views(old(ms)@), m@),
{
    broadcast use group_views;

    let ghost mv = views(ms@);
    let mut i: usize = 0;
    while i < ms.len()
        invariant
            i <= ms@.len(),
            mv == views(ms@),
            mv == views(old(ms)@),
            *ms == *old(ms),
            forall|k: int| 0 <= k < i ==> (#[trigger] mv[k]).target != m@.target,
        decreases ms@.len() - i,
    {
        if str_eq(ms[i].target.as_str(), m.target.as_str()) {
            assert(mv[i as int].target == m@.target);
            return;
        }
        i = i + 1;
    }
    ms.push(m);
}

fn push_assignments(a: &Vec<SqlAssignment>, alias: &Option<String>, ms: &mut Vec<SqlMapping>)
    ensures
        views(final(ms)@) == assigned(
            views(a@),
            opt_text(*alias),
            a@.len() as int,
            views(old(ms)@),
        ),
{
    let ghost start = views(ms@);
    let mut i: usize = 0;
    while i < a.len()
        invariant
            i <= a@.len(),
            views(ms@) == assigned(views(a@), opt_text(*alias), i as int, start),
        decreases a@.len() - i,
    {
        assert(views(a@)[i as int] == a@[i as int]@);
        if let Some(c) = &a[i].column {
            let target = object_name_last(c);
            let m = build_merge_mapping(&a[i].value, alias, target);
            push_mapping(ms, m);
        }
        i = i + 1;
    }
}

fn push_values(
    cols: &Vec<Vec<String>>,
    vals: &Vec<SqlValue>,
    alias: &Option<String>,
    ms: &mut Vec<SqlMapping>,
)
    requires
        cols@.len() == vals@.len(),
    ensures
        views(final(ms)@) == inserted_values(
            texts_list(cols@),
            views(vals@),
            opt_text(*alias),
            cols@.len() as int,
            views(old(ms)@),
        ),
{
    let ghost start = views(ms@);
    let mut i: usize = 0;
    while i < cols.len()
        invariant
            i <= cols@.len(),
            cols@.len() == vals@.len(),
            views(ms@) == inserted_values(
                texts_list(cols@),
                views(vals@),
                opt_text(*alias),
                i as int,
                start,
            ),
        decreases cols@.len() - i,
    {
        assert(views(vals@)[i as int] == vals@[i as int]@);
        assert(texts_list(cols@)[i as int] == texts(cols@[i as int]@));
        let target = object_name_last(&cols[i]);
        let m = build_merge_mapping(&vals[i], alias, target);
        push_mapping(ms, m);
        i = i + 1;
    }
}

fn lineage_from_merge(table: &Vec<String>, source: &SqlFactor, acts: &Vec<SqlMergeAction>) -> (r:
    SqlColumnLineage)
    ensures
        r@ == merge_lineage(views(table@), source@, views(acts@)),
{
    broadcast use group_views;

    let mut out = SqlColumnLineage::default();
    out.target_table = Some(object_name_last(table));
    let mut tables: Vec<String> = Vec::new();
    collect_factor_tables(source, &mut tables);
    out.source_tables = tables;
    let alias = alias_of(source);
    let mut ms: Vec<SqlMapping> = Vec::new();
    let mut i: usize = 0;
    while i < acts.len()
        invariant
            i <= acts@.len(),
            views(ms@) == updated(views(acts@), opt_text(alias), i as int),
        decreases acts@.len() - i,
    {
        assert(views(acts@)[i as int] == acts@[i as int]@);
        if let SqlMergeAction::Update(a) = &acts[i] {
            push_assignments(a, &alias, &mut ms);
        }
        i = i + 1;
    }
    let ghost start = views(ms@);
    let mut j: usize = 0;
    while j < acts.len()
        invariant
            j <= acts@.len(),
            views(ms@) == inserted(views(acts@), opt_text(alias), j as int, start),
        decreases acts@.len() - j,
    {
        assert(views(acts@)[j as int] == acts@[j as int]@);
        if let SqlMergeAction::Insert(c, v) = &acts[j] {
            if c.len() == v.len() {
                push_values(c, v, &alias, &mut ms);
            }
        }
        j = j + 1;
    }
    out.mappings = ms;
    out
}

// ────────────────────────────── statements ────────────────────────────

/// The lineage of a statement, when there is any to read from it.
pub open spec fn statement_lineage(s: SqlStatementTree) -> Option<SqlColumnLineageView> {
    match s {
        SqlStatementTree::Insert(Some(t), c, Some(q)) => Some(
            SqlColumnLineageView {
                target_table: Some(last_part(t)),
                ..body_lineage(q, Seq::new(c.len(), |i: int| last_part(c[i])), true)
            },
        ),
        SqlStatementTree::Query(q) => Some(body_lineage(q, Seq::empty(), false)),
        SqlStatementTree::CreateTable(t, Some(q)) => Some(
            SqlColumnLineageView {
                target_table: Some(last_part(t)),
                ..body_lineage(q, Seq::empty(), true)
            },
        ),
        SqlStatementTree::Merge(SqlFactorTree::Table(t, _), x, a) => Some(merge_lineage(t, x, a)),
        _ => None,
    }
}

/// The lineage of the first statement from `k` on that has any.
pub open spec fn first_lineage(s: Seq<SqlStatementTree>, k: int) -> SqlColumnLineageView
    decreases s.len() - k,
{
    if k >= s.len() {
        no_lineage()
    } else {
        match statement_lineage(s[k]) {
            Some(l) => l,
            None => first_lineage(s, k + 1),
        }
    }
}

/// The lineage of a parsed text.
pub open spec fn lineage_of(parsed: Option<Seq<SqlStatementTree>>) -> SqlColumnLineageView {
    match parsed {
        Some(s) => first_lineage(s, 0),
        None => no_lineage(),
    }
}

/// The lineage of a SQL text.
pub open spec fn sql_lineage(sql: Seq<char>) -> SqlColumnLineageView {
    lineage_of(sql_parse(sql))
}

/// The lineage of one statement; none when there is none to read from it.
pub fn lineage_from_statement(s: &SqlStatement) -> (r: Option<SqlColumnLineage>)
    ensures
        match r {
            Some(l) => statement_lineage(s@) == Some(l@),
            None => statement_lineage(s@) is None,
        },
{
    broadcast use group_views;

    match s {
        SqlStatement::Insert(Some(t), c, Some(q)) => {
            let mut cols: Vec<String> = Vec::new();
            let mut i: usize = 0;
            while i < c.len()
                invariant
                    i <= c@.len(),
                    views(cols@) == Seq::new(i as nat, |k: int| last_part(texts_list(c@)[k])),
                decreases c@.len() - i,
            {
                broadcast use group_views;

                let last = object_name_last(&c[i]);
                cols.push(last);
                i = i + 1;
                assert(views(cols@) =~= Seq::new(
                    i as nat,
                    |k: int| last_part(texts_list(c@)[k]),
                ));
            }
            let mut l = lineage_from_query(q, &cols, true);
            l.target_table = Some(object_name_last(t));
            Some(l)
        },
        SqlStatement::Query(q) => {
            let none: Vec<String> = Vec::new();
            Some(lineage_from_query(q, &none, false))
        },
        SqlStatement::CreateTable(t, Some(q)) => {
            let none: Vec<String> = Vec::new();
            let mut l = lineage_from_query(q, &none, true);
            l.target_table = Some(object_name_last(t));
            Some(l)
        },
        SqlStatement::Merge(t, x, a) => {
            proof {
                unfold_factor(*t);
            }
            match t {
                SqlFactor::Table(name, _) => Some(lineage_from_merge(name, x, a)),
                _ => None,
            }
        },
        _ => None,
    }
}

/// The lineage of the first statement that has any.
pub fn lineage_from_statements(statements: &Vec<SqlStatement>) -> (r: SqlColumnLineage)
    ensures
        r@ == first_lineage(views(statements@), 0),
{
    let ghost sv = views(statements@);
    let mut i: usize = 0;
    while i < statements.len()
        invariant
            i <= statements@.len(),
            sv == views(statements@),
            first_lineage(sv, 0) == first_lineage(sv, i as int),
        decreases statements@.len() - i,
    {
        assert(sv[i as int] == statements@[i as int]@);
        if let Some(l) = lineage_from_statement(&statements[i]) {
            return l;
        }
        i = i + 1;
    }
    SqlColumnLineage::default()
}

/// The column lineage of a SQL text. A text that cannot be parsed or mapped
/// has none; it is never an error.
pub fn column_lineage_from_sql(sql: &str) -> (r: Result<SqlColumnLineage, String>)
    ensures
        r is Ok,
        r->Ok_0@ == sql_lineage(sql@),
{
    match parse_sql(sql) {
        Some(statements) => Ok(lineage_from_statements(&statements)),
        None => Ok(SqlColumnLineage::default()),
    }
}

/// The mappings of a single item of a projection, such as `a + b AS c`.
pub fn select_expr_lineage(item: &str) -> (r: Vec<SqlMapping>)
    ensures
        views(r@) == sql_lineage("SELECT "@ + item@).mappings,
{
    let mut sql = "SELECT ".to_owned();
    sql.append(item);
    match parse_sql(sql.as_str()) {
        Some(statements) => lineage_from_statements(&statements).mappings,
        None => SqlColumnLineage::default().mappings,
    }
}

// ──────────────────────────────── laws ────────────────────────────────

/// True when the lineage was refused: its flags say why, and it maps nothing.
pub open spec fn refusal_maps_nothing(l: SqlColumnLineageView) -> bool {
    &&& (l.wildcard_in_projection || l.arity_mismatch is Some) ==> l.mappings.len() == 0
    &&& !(l.wildcard_in_projection && l.arity_mismatch is Some)
}

proof fn body_refusal(b: SqlBodyTree, cols: Seq<Seq<char>>, through_cast: bool)
    ensures
        refusal_maps_nothing(body_lineage(b, cols, through_cast)),
    decreases b,
{
    if let SqlBodyTree::Inner(x) = b {
        body_refusal(*x, cols, through_cast);
    }
}

proof fn statement_refusal(s: SqlStatementTree)
    ensures
        statement_lineage(s) matches Some(l) ==> refusal_maps_nothing(l),
{
    match s {
        SqlStatementTree::Insert(Some(t), c, Some(q)) => {
            body_refusal(q, Seq::new(c.len(), |i: int| last_part(c[i])), true);
        },
        SqlStatementTree::Query(q) => {
            body_refusal(q, Seq::empty(), false);
        },
        SqlStatementTree::CreateTable(t, Some(q)) => {
            body_refusal(q, Seq::empty(), true);
        },
        _ => {},
    }
}

proof fn first_refusal(s: Seq<SqlStatementTree>, k: int)
    requires
        0 <= k,
    ensures
        refusal_maps_nothing(first_lineage(s, k)),
    decreases s.len() - k,
{
    if k < s.len() {
        statement_refusal(s[k]);
        first_refusal(s, k + 1);
    }
}

/// A projection that cannot be paired with the target columns maps nothing:
/// where a wildcard or a count that differs is reported, there is no guess.
pub proof fn refused_projection_maps_nothing(sql: Seq<char>)
    ensures
        refusal_maps_nothing(sql_lineage(sql)),
{
    if let Some(s) = sql_parse(sql) {
        first_refusal(s, 0);
    }
}

/// True when the mappings go to the columns in their order, or there are none.
pub open spec fn in_order_or_none(ms: Seq<SqlMappingView>, cols: Seq<Seq<char>>) -> bool {
    ms.len() == 0 || (ms.len() == cols.len() && forall|i: int|
        0 <= i < ms.len() ==> (#[trigger] ms[i]).target == cols[i])
}

proof fn body_in_order(b: SqlBodyTree, cols: Seq<Seq<char>>, through_cast: bool)
    requires
        cols.len() > 0,
    ensures
        in_order_or_none(body_lineage(b, cols, through_cast).mappings, cols),
    decreases b,
{
    if let SqlBodyTree::Inner(x) = b {
        body_in_order(*x, cols, through_cast);
    }
}

/// An `INSERT` with a list of columns maps all of them, in their order, or
/// none: a column is never shifted, made up or left out.
pub proof fn insert_maps_all_columns_or_none(
    table: Seq<Seq<char>>,
    cols: Seq<Seq<Seq<char>>>,
    q: SqlBodyTree,
)
    requires
        cols.len() > 0,
    ensures
        statement_lineage(SqlStatementTree::Insert(Some(table), cols, Some(q))) matches Some(l)
            ==> in_order_or_none(l.mappings, Seq::new(cols.len(), |i: int| last_part(cols[i]))),
{
    body_in_order(q, Seq::new(cols.len(), |i: int| last_part(cols[i])), true);
}

/// True when no two mappings have the same target.
pub open spec fn targets_unique(ms: Seq<SqlMappingView>) -> bool {
    forall|i: int, j: int|
        0 <= i < j < ms.len() ==> (#[trigger] ms[i]).target != (#[trigger] ms[j]).target
}

/// True when `b` is `a` with mappings to new targets behind it.
pub open spec fn extends_mappings(a: Seq<SqlMappingView>, b: Seq<SqlMappingView>) -> bool {
    &&& a.len() <= b.len()
    &&& b.subrange(0, a.len() as int) == a
    &&& targets_unique(a) ==> targets_unique(b)
}

proof fn extends_chain(a: Seq<SqlMappingView>, b: Seq<SqlMappingView>, c: Seq<SqlMappingView>)
    requires
        extends_mappings(a, b),
        extends_mappings(b, c),
    ensures
        extends_mappings(a, c),
{
    assert(c.subrange(0, a.len() as int) =~= c.subrange(0, b.len() as int).subrange(
        0,
        a.len() as int,
    ));
}

proof fn add_extends(ms: Seq<SqlMappingView>, m: SqlMappingView)
    ensures
        extends_mappings(ms, add_mapping(ms, m)),
{
    let r = add_mapping(ms, m);
    assert(r.subrange(0, ms.len() as int) =~= ms);
    if targets_unique(ms) && r.len() > ms.len() {
        assert forall|i: int, j: int| 0 <= i < j < r.len() implies (#[trigger] r[i]).target != (
        #[trigger] r[j]).target by {
            if j < ms.len() {
                assert(ms[i].target != ms[j].target);
            } else {
                assert(ms[i].target != m.target);
            }
        }
    }
}

proof fn assigned_extends(
    a: Seq<SqlAssignmentTree>,
    alias: Option<Seq<char>>,
    n: int,
    ms: Seq<SqlMappingView>,
)
    ensures
        extends_mappings(ms, assigned(a, alias, n, ms)),
    decreases n,
{
    assert(ms.subrange(0, ms.len() as int) =~= ms);
    if n > 0 {
        assigned_extends(a, alias, n - 1, ms);
        let prev = assigned(a, alias, n - 1, ms);
        if let Some(c) = a[n - 1].column {
            let m = merge_mapping(a[n - 1].value, alias, last_part(c));
            add_extends(prev, m);
            extends_chain(ms, prev, add_mapping(prev, m));
        }
    }
}

proof fn updated_unique(acts: Seq<SqlMergeActionTree>, alias: Option<Seq<char>>, n: int)
    ensures
        targets_unique(updated(acts, alias, n)),
    decreases n,
{
    if n > 0 {
        updated_unique(acts, alias, n - 1);
        let prev = updated(acts, alias, n - 1);
        if let SqlMergeActionTree::Update(a) = acts[n - 1] {
            assigned_extends(a, alias, a.len() as int, prev);
        }
    }
}

proof fn values_extend(
    cols: Seq<Seq<Seq<char>>>,
    vals: Seq<SqlValueTree>,
    alias: Option<Seq<char>>,
    n: int,
    ms: Seq<SqlMappingView>,
)
    ensures
        extends_mappings(ms, inserted_values(cols, vals, alias, n, ms)),
    decreases n,
{
    assert(ms.subrange(0, ms.len() as int) =~= ms);
    if n > 0 {
        values_extend(cols, vals, alias, n - 1, ms);
        let prev = inserted_values(cols, vals, alias, n - 1, ms);
        let m = merge_mapping(vals[n - 1], alias, last_part(cols[n - 1]));
        add_extends(prev, m);
        extends_chain(ms, prev, add_mapping(prev, m));
    }
}

proof fn inserted_extends(
    acts: Seq<SqlMergeActionTree>,
    alias: Option<Seq<char>>,
    n: int,
    ms: Seq<SqlMappingView>,
)
    ensures
        extends_mappings(ms, inserted(acts, alias, n, ms)),
    decreases n,
{
    assert(ms.subrange(0, ms.len() as int) =~= ms);
    if n > 0 {
        inserted_extends(acts, alias, n - 1, ms);
        let prev = inserted(acts, alias, n - 1, ms);
        if let SqlMergeActionTree::Insert(c, v) = acts[n - 1] {
            if c.len() == v.len() {
                values_extend(c, v, alias, c.len() as int, prev);
                extends_chain(ms, prev, inserted_values(c, v, alias, c.len() as int, prev));
            }
        }
    }
}

/// A `MERGE` maps each target column once, and keeps the mapping of an
/// `UPDATE` over that of an `INSERT`.
pub proof fn merge_maps_each_target_once(
    table: Seq<Seq<char>>,
    source: SqlFactorTree,
    acts: Seq<SqlMergeActionTree>,
)
    ensures
        targets_unique(merge_lineage(table, source, acts).mappings),
        extends_mappings(
            updated(acts, factor_alias(source), acts.len() as int),
            merge_lineage(table, source, acts).mappings,
        ),
{
    let alias = factor_alias(source);
    let n = acts.len() as int;
    updated_unique(acts, alias, n);
    inserted_extends(acts, alias, n, updated(acts, alias, n));
}

} // verus!

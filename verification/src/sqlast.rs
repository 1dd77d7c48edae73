//! SQL syntax trees: the plain tree that the lineage analysis reads, and how
//! it is taken over from the parser's own nodes.

use sqlparser::ast::{
    Assignment, AssignmentTarget, Expr, FunctionArg, FunctionArgExpr, FunctionArguments,
    MergeAction, MergeClause, MergeInsertKind, MergeUpdateKind, ObjectName, ObjectNamePart, Query,
    SelectItem, SetExpr, Statement, TableFactor, TableObject, TableWithJoins,
};
use sqlparser::dialect::GenericDialect;
use sqlparser::parser::Parser;
use vstd::prelude::*;

use crate::text::{opt_text, views};

verus! {

// ─────────────────────────────── the tree ─────────────────────────────

/// An expression, as far as column references are read from it.
#[derive(Debug, PartialEq)]
pub enum SqlExpr {
    Identifier(String),
    /// The parts of a dotted identifier.
    Compound(Vec<String>),
    /// A parenthesised expression.
    Nested(Box<SqlExpr>),
    /// `CAST(expr AS type)` in any notation.
    Cast(Box<SqlExpr>),
    /// Another operator around one expression.
    Unary(Box<SqlExpr>),
    Binary(Box<SqlExpr>, Box<SqlExpr>),
    Between(Box<SqlExpr>, Box<SqlExpr>, Box<SqlExpr>),
    /// The operand, the branches and the `ELSE` result.
    Case(Option<Box<SqlExpr>>, Vec<SqlBranch>, Option<Box<SqlExpr>>),
    /// The dotted name and the arguments, absent where one is a wildcard.
    Function(Vec<String>, Vec<Option<SqlExpr>>),
    InList(Box<SqlExpr>, Vec<SqlExpr>),
    Other,
}

/// One `WHEN … THEN …` of a `CASE`.
#[derive(Debug, PartialEq)]
pub struct SqlBranch {
    pub condition: SqlExpr,
    pub result: SqlExpr,
}

/// One item of a projection.
#[derive(Debug, PartialEq)]
pub enum SqlItem {
    /// An expression, its text and its alias.
    Expr(SqlExpr, String, Option<String>),
    /// `*` or `t.*`
    Wildcard,
    Other,
}

/// A relation of a `FROM` clause.
#[derive(Debug, PartialEq)]
pub enum SqlFactor {
    /// The dotted name of a table, and its alias.
    Table(Vec<String>, Option<String>),
    /// A subquery, and its alias.
    Derived(Box<SqlBody>, Option<String>),
    /// A parenthesised join.
    Join(Box<SqlTables>),
    Other,
}

/// A relation with the relations joined to it.
#[derive(Debug, PartialEq)]
pub struct SqlTables {
    pub relation: SqlFactor,
    pub joins: Vec<SqlFactor>,
}

/// The body of a query.
#[derive(Debug, PartialEq)]
pub enum SqlBody {
    /// The projection and the `FROM` clause.
    Select(Vec<SqlItem>, Vec<SqlTables>),
    /// A parenthesised query, or the left operand of a set operation.
    Inner(Box<SqlBody>),
    Other,
}

/// One assignment of an `UPDATE SET`; the column is absent for a tuple.
#[derive(Debug, PartialEq)]
pub struct SqlAssignment {
    pub column: Option<Vec<String>>,
    pub value: SqlValue,
}

/// An expression with its text.
#[derive(Debug, PartialEq)]
pub struct SqlValue {
    pub expr: SqlExpr,
    pub text: String,
}

/// What a clause of a `MERGE` does.
#[derive(Debug, PartialEq)]
pub enum SqlMergeAction {
    Update(Vec<SqlAssignment>),
    /// The columns, and the values where there is exactly one row of them.
    Insert(Vec<Vec<String>>, Vec<SqlValue>),
    Other,
}

/// A statement, as far as lineage is read from it.
#[derive(Debug, PartialEq)]
pub enum SqlStatement {
    /// The table (absent where it is not a plain name), the columns and the
    /// query.
    Insert(Option<Vec<String>>, Vec<Vec<String>>, Option<SqlBody>),
    Query(SqlBody),
    /// The table and the query of a `CREATE TABLE … AS`.
    CreateTable(Vec<String>, Option<SqlBody>),
    /// The target, the source and the actions.
    Merge(SqlFactor, SqlFactor, Vec<SqlMergeAction>),
    Other,
}

// ────────────────────────────── its model ─────────────────────────────

#[verifier::ext_equal]
pub enum SqlExprTree {
    Identifier(Seq<char>),
    Compound(Seq<Seq<char>>),
    Nested(Box<SqlExprTree>),
    Cast(Box<SqlExprTree>),
    Unary(Box<SqlExprTree>),
    Binary(Box<SqlExprTree>, Box<SqlExprTree>),
    Between(Box<SqlExprTree>, Box<SqlExprTree>, Box<SqlExprTree>),
    Case(Option<Box<SqlExprTree>>, Seq<SqlBranchTree>, Option<Box<SqlExprTree>>),
    Function(Seq<Seq<char>>, Seq<Option<SqlExprTree>>),
    InList(Box<SqlExprTree>, Seq<SqlExprTree>),
    Other,
}

#[verifier::ext_equal]
pub struct SqlBranchTree {
    pub condition: SqlExprTree,
    pub result: SqlExprTree,
}

#[verifier::ext_equal]
pub enum SqlItemTree {
    Expr(SqlExprTree, Seq<char>, Option<Seq<char>>),
    Wildcard,
    Other,
}

#[verifier::ext_equal]
pub enum SqlFactorTree {
    Table(Seq<Seq<char>>, Option<Seq<char>>),
    Derived(Box<SqlBodyTree>, Option<Seq<char>>),
    Join(Box<SqlTablesTree>),
    Other,
}

#[verifier::ext_equal]
pub struct SqlTablesTree {
    pub relation: SqlFactorTree,
    pub joins: Seq<SqlFactorTree>,
}

#[verifier::ext_equal]
pub enum SqlBodyTree {
    Select(Seq<SqlItemTree>, Seq<SqlTablesTree>),
    Inner(Box<SqlBodyTree>),
    Other,
}

#[verifier::ext_equal]
pub struct SqlAssignmentTree {
    pub column: Option<Seq<Seq<char>>>,
    pub value: SqlValueTree,
}

#[verifier::ext_equal]
pub struct SqlValueTree {
    pub expr: SqlExprTree,
    pub text: Seq<char>,
}

#[verifier::ext_equal]
pub enum SqlMergeActionTree {
    Update(Seq<SqlAssignmentTree>),
    Insert(Seq<Seq<Seq<char>>>, Seq<SqlValueTree>),
    Other,
}

#[verifier::ext_equal]
pub enum SqlStatementTree {
    Insert(Option<Seq<Seq<char>>>, Seq<Seq<Seq<char>>>, Option<SqlBodyTree>),
    Query(SqlBodyTree),
    CreateTable(Seq<Seq<char>>, Option<SqlBodyTree>),
    Merge(SqlFactorTree, SqlFactorTree, Seq<SqlMergeActionTree>),
    Other,
}

/// The texts of a list of names.
pub open spec fn texts(s: Seq<String>) -> Seq<Seq<char>> {
    Seq::new(s.len(), |i: int| s[i]@)
}

/// The texts of a list of dotted names.
pub open spec fn texts_list(s: Seq<Vec<String>>) -> Seq<Seq<Seq<char>>> {
    Seq::new(s.len(), |i: int| texts(s[i]@))
}

pub open spec fn opt_texts(o: Option<Vec<String>>) -> Option<Seq<Seq<char>>> {
    match o {
        Some(v) => Some(texts(v@)),
        None => None,
    }
}

pub open spec fn sql_tree(e: SqlExpr) -> SqlExprTree
    decreases e,
{
    match e {
        SqlExpr::Identifier(s) => SqlExprTree::Identifier(s@),
        SqlExpr::Compound(v) => SqlExprTree::Compound(texts(v@)),
        SqlExpr::Nested(x) => SqlExprTree::Nested(Box::new(sql_tree(*x))),
        SqlExpr::Cast(x) => SqlExprTree::Cast(Box::new(sql_tree(*x))),
        SqlExpr::Unary(x) => SqlExprTree::Unary(Box::new(sql_tree(*x))),
        SqlExpr::Binary(l, r) => SqlExprTree::Binary(
            Box::new(sql_tree(*l)),
            Box::new(sql_tree(*r)),
        ),
        SqlExpr::Between(x, l, h) => SqlExprTree::Between(
            Box::new(sql_tree(*x)),
            Box::new(sql_tree(*l)),
            Box::new(sql_tree(*h)),
        ),
        SqlExpr::Case(o, b, x) => SqlExprTree::Case(
            match o {
                Some(y) => Some(Box::new(sql_tree(*y))),
                None => None,
            },
            Seq::new(
                b@.len(),
                |i: int|
                    if 0 <= i < b@.len() {
                        SqlBranchTree {
                            condition: sql_tree(b@[i].condition),
                            result: sql_tree(b@[i].result),
                        }
                    } else {
                        arbitrary()
                    },
            ),
            match x {
                Some(y) => Some(Box::new(sql_tree(*y))),
                None => None,
            },
        ),
        SqlExpr::Function(n, a) => SqlExprTree::Function(
            texts(n@),
            Seq::new(
                a@.len(),
                |i: int|
                    if 0 <= i < a@.len() {
                        match a@[i] {
                            Some(y) => Some(sql_tree(y)),
                            None => None,
                        }
                    } else {
                        arbitrary()
                    },
            ),
        ),
        SqlExpr::InList(x, v) => SqlExprTree::InList(
            Box::new(sql_tree(*x)),
            Seq::new(
                v@.len(),
                |i: int|
                    if 0 <= i < v@.len() {
                        sql_tree(v@[i])
                    } else {
                        arbitrary()
                    },
            ),
        ),
        SqlExpr::Other => SqlExprTree::Other,
    }
}

impl View for SqlExpr {
    type V = SqlExprTree;

    open spec fn view(&self) -> SqlExprTree {
        sql_tree(*self)
    }
}

impl View for SqlBranch {
    type V = SqlBranchTree;

    open spec fn view(&self) -> SqlBranchTree {
        SqlBranchTree { condition: self.condition@, result: self.result@ }
    }
}

impl View for SqlItem {
    type V = SqlItemTree;

    open spec fn view(&self) -> SqlItemTree {
        match *self {
            SqlItem::Expr(e, t, a) => SqlItemTree::Expr(e@, t@, opt_text(a)),
            SqlItem::Wildcard => SqlItemTree::Wildcard,
            SqlItem::Other => SqlItemTree::Other,
        }
    }
}

pub open spec fn items_tree(s: Seq<SqlItem>) -> Seq<SqlItemTree> {
    Seq::new(s.len(), |i: int| s[i]@)
}

pub open spec fn factor_tree(f: SqlFactor) -> SqlFactorTree
    decreases f,
{
    match f {
        SqlFactor::Table(n, a) => SqlFactorTree::Table(texts(n@), opt_text(a)),
        SqlFactor::Derived(b, a) => SqlFactorTree::Derived(Box::new(body_tree(*b)), opt_text(a)),
        SqlFactor::Join(t) => SqlFactorTree::Join(Box::new(tables_tree(*t))),
        SqlFactor::Other => SqlFactorTree::Other,
    }
}

pub open spec fn tables_tree(t: SqlTables) -> SqlTablesTree
    decreases t,
{
    SqlTablesTree {
        relation: factor_tree(t.relation),
        joins: Seq::new(
            t.joins@.len(),
            |i: int|
                if 0 <= i < t.joins@.len() {
                    factor_tree(t.joins@[i])
                } else {
                    arbitrary()
                },
        ),
    }
}

pub open spec fn body_tree(b: SqlBody) -> SqlBodyTree
    decreases b,
{
    match b {
        SqlBody::Select(p, f) => SqlBodyTree::Select(
            items_tree(p@),
            Seq::new(
                f@.len(),
                |i: int|
                    if 0 <= i < f@.len() {
                        tables_tree(f@[i])
                    } else {
                        arbitrary()
                    },
            ),
        ),
        SqlBody::Inner(x) => SqlBodyTree::Inner(Box::new(body_tree(*x))),
        SqlBody::Other => SqlBodyTree::Other,
    }
}

impl View for SqlFactor {
    type V = SqlFactorTree;

    open spec fn view(&self) -> SqlFactorTree {
        factor_tree(*self)
    }
}

impl View for SqlTables {
    type V = SqlTablesTree;

    open spec fn view(&self) -> SqlTablesTree {
        tables_tree(*self)
    }
}

impl View for SqlBody {
    type V = SqlBodyTree;

    open spec fn view(&self) -> SqlBodyTree {
        body_tree(*self)
    }
}

impl View for SqlValue {
    type V = SqlValueTree;

    open spec fn view(&self) -> SqlValueTree {
        SqlValueTree { expr: self.expr@, text: self.text@ }
    }
}

impl View for SqlAssignment {
    type V = SqlAssignmentTree;

    open spec fn view(&self) -> SqlAssignmentTree {
        SqlAssignmentTree { column: opt_texts(self.column), value: self.value@ }
    }
}

impl View for SqlMergeAction {
    type V = SqlMergeActionTree;

    open spec fn view(&self) -> SqlMergeActionTree {
        match *self {
            SqlMergeAction::Update(v) => SqlMergeActionTree::Update(views(v@)),
            SqlMergeAction::Insert(c, v) => SqlMergeActionTree::Insert(texts_list(c@), views(v@)),
            SqlMergeAction::Other => SqlMergeActionTree::Other,
        }
    }
}

pub open spec fn opt_body(o: Option<SqlBody>) -> Option<SqlBodyTree> {
    match o {
        Some(b) => Some(b@),
        None => None,
    }
}

impl View for SqlStatement {
    type V = SqlStatementTree;

    open spec fn view(&self) -> SqlStatementTree {
        match *self {
            SqlStatement::Insert(t, c, q) => SqlStatementTree::Insert(
                opt_texts(t),
                texts_list(c@),
                opt_body(q),
            ),
            SqlStatement::Query(q) => SqlStatementTree::Query(q@),
            SqlStatement::CreateTable(t, q) => SqlStatementTree::CreateTable(
                texts(t@),
                opt_body(q),
            ),
            SqlStatement::Merge(t, s, a) => SqlStatementTree::Merge(t@, s@, views(a@)),
            SqlStatement::Other => SqlStatementTree::Other,
        }
    }
}

/// The models of the arguments of a function.
pub open spec fn arg_views(s: Seq<Option<SqlExpr>>) -> Seq<Option<SqlExprTree>> {
    Seq::new(
        s.len(),
        |i: int|
            match s[i] {
                Some(e) => Some(e@),
                None => None,
            },
    )
}

pub open spec fn opt_expr(o: Option<Box<SqlExpr>>) -> Option<Box<SqlExprTree>> {
    match o {
        Some(e) => Some(Box::new(e@)),
        None => None,
    }
}

/// One layer of an expression's model.
pub open spec fn sql_layer(e: SqlExpr) -> SqlExprTree {
    match e {
        SqlExpr::Identifier(s) => SqlExprTree::Identifier(s@),
        SqlExpr::Compound(v) => SqlExprTree::Compound(views(v@)),
        SqlExpr::Nested(x) => SqlExprTree::Nested(Box::new(x@)),
        SqlExpr::Cast(x) => SqlExprTree::Cast(Box::new(x@)),
        SqlExpr::Unary(x) => SqlExprTree::Unary(Box::new(x@)),
        SqlExpr::Binary(l, r) => SqlExprTree::Binary(Box::new(l@), Box::new(r@)),
        SqlExpr::Between(x, l, h) => SqlExprTree::Between(
            Box::new(x@),
            Box::new(l@),
            Box::new(h@),
        ),
        SqlExpr::Case(o, b, x) => SqlExprTree::Case(opt_expr(o), views(b@), opt_expr(x)),
        SqlExpr::Function(n, a) => SqlExprTree::Function(views(n@), arg_views(a@)),
        SqlExpr::InList(x, v) => SqlExprTree::InList(Box::new(x@), views(v@)),
        SqlExpr::Other => SqlExprTree::Other,
    }
}

/// An expression's model, one layer down.
pub proof fn unfold_sql(e: SqlExpr)
    ensures
        e@ == sql_layer(e),
{
    match e {
        SqlExpr::Compound(v) => {
            assert(texts(v@) =~= views(v@));
        },
        SqlExpr::Case(o, b, x) => {
            assert(sql_tree(e)->Case_1 =~= views(b@));
        },
        SqlExpr::Function(n, a) => {
            assert(texts(n@) =~= views(n@));
            assert(sql_tree(e)->Function_1 =~= arg_views(a@));
        },
        SqlExpr::InList(x, v) => {
            assert(sql_tree(e)->InList_1 =~= views(v@));
        },
        _ => {},
    }
}

/// A body's model, one layer down.
pub proof fn unfold_body(b: SqlBody)
    ensures
        b@ == (match b {
            SqlBody::Select(p, f) => SqlBodyTree::Select(views(p@), views(f@)),
            SqlBody::Inner(x) => SqlBodyTree::Inner(Box::new(x@)),
            SqlBody::Other => SqlBodyTree::Other,
        }),
{
    reveal_with_fuel(body_tree, 2);
    match b {
        SqlBody::Select(p, f) => {
            assert(items_tree(p@) =~= views(p@));
            assert(body_tree(b)->Select_1 =~= views(f@));
        },
        _ => {},
    }
}

/// A relation's model, one layer down.
pub proof fn unfold_factor(f: SqlFactor)
    ensures
        f@ == (match f {
            SqlFactor::Table(n, a) => SqlFactorTree::Table(views(n@), opt_text(a)),
            SqlFactor::Derived(b, a) => SqlFactorTree::Derived(Box::new(b@), opt_text(a)),
            SqlFactor::Join(t) => SqlFactorTree::Join(Box::new(t@)),
            SqlFactor::Other => SqlFactorTree::Other,
        }),
{
    reveal_with_fuel(factor_tree, 2);
    match f {
        SqlFactor::Table(n, a) => {
            assert(texts(n@) =~= views(n@));
        },
        _ => {},
    }
}

/// A join's model, one layer down.
pub proof fn unfold_tables(t: SqlTables)
    ensures
        t@ == (SqlTablesTree { relation: t.relation@, joins: views(t.joins@) }),
{
    reveal_with_fuel(tables_tree, 2);
    assert(tables_tree(t).joins =~= views(t.joins@));
}

// ─────────────────────────── the parser's nodes ───────────────────────

#[verifier::external_type_specification]
#[verifier::external_body]
pub struct ExStatement(Statement);

#[verifier::external_type_specification]
#[verifier::external_body]
pub struct ExQuery(Query);

#[verifier::external_type_specification]
#[verifier::external_body]
pub struct ExSetExpr(SetExpr);

#[verifier::external_type_specification]
#[verifier::external_body]
pub struct ExSelectItem(SelectItem);

#[verifier::external_type_specification]
#[verifier::external_body]
pub struct ExSqlExpr(Expr);

#[verifier::external_type_specification]
#[verifier::external_body]
pub struct ExObjectName(ObjectName);

#[verifier::external_type_specification]
#[verifier::external_body]
pub struct ExFunctionArg(FunctionArg);

#[verifier::external_type_specification]
#[verifier::external_body]
pub struct ExTableWithJoins(TableWithJoins);

#[verifier::external_type_specification]
#[verifier::external_body]
pub struct ExTableFactor(TableFactor);

#[verifier::external_type_specification]
#[verifier::external_body]
pub struct ExMergeClause(MergeClause);

#[verifier::external_type_specification]
#[verifier::external_body]
pub struct ExAssignment(Assignment);

/// What an expression node of the parser holds.
pub uninterp spec fn sql_node(e: Expr) -> SqlExprTree;

/// How the parser writes an expression node out.
pub uninterp spec fn sql_node_text(e: Expr) -> Seq<char>;

/// The expression of a function argument, absent for a wildcard.
pub uninterp spec fn function_arg_node(a: FunctionArg) -> Option<SqlExprTree>;

/// The parts of a dotted name.
pub uninterp spec fn object_name_node(n: ObjectName) -> Seq<Seq<char>>;

/// What an item of a projection holds.
pub uninterp spec fn select_item_node(i: SelectItem) -> SqlItemTree;

/// What a relation holds.
pub uninterp spec fn factor_node(f: TableFactor) -> SqlFactorTree;

/// What a relation with joins holds.
pub uninterp spec fn tables_node(t: TableWithJoins) -> SqlTablesTree;

/// What a query body holds.
pub uninterp spec fn body_node(b: SetExpr) -> SqlBodyTree;

/// What the body of a query holds.
pub uninterp spec fn query_node(q: Query) -> SqlBodyTree;

/// What an assignment holds.
pub uninterp spec fn assignment_node(a: Assignment) -> SqlAssignmentTree;

/// What a clause of a `MERGE` does.
pub uninterp spec fn merge_clause_node(c: MergeClause) -> SqlMergeActionTree;

/// What a statement holds.
pub uninterp spec fn statement_node(s: Statement) -> SqlStatementTree;

/// The statements of a SQL text; none when the parser refuses it.
pub uninterp spec fn sql_parse(sql: Seq<char>) -> Option<Seq<SqlStatementTree>>;

pub open spec fn sql_nodes(s: Seq<Expr>) -> Seq<SqlExprTree> {
    Seq::new(s.len(), |i: int| sql_node(s[i]))
}

pub open spec fn value_nodes(s: Seq<Expr>) -> Seq<SqlValueTree> {
    Seq::new(s.len(), |i: int| SqlValueTree { expr: sql_node(s[i]), text: sql_node_text(s[i]) })
}

pub open spec fn branch_nodes(s: Seq<(&Expr, &Expr)>) -> Seq<SqlBranchTree> {
    Seq::new(
        s.len(),
        |i: int| SqlBranchTree { condition: sql_node(*s[i].0), result: sql_node(*s[i].1) },
    )
}

pub open spec fn function_arg_nodes(s: Seq<FunctionArg>) -> Seq<Option<SqlExprTree>> {
    Seq::new(s.len(), |i: int| function_arg_node(s[i]))
}

pub open spec fn object_name_nodes(s: Seq<ObjectName>) -> Seq<Seq<Seq<char>>> {
    Seq::new(s.len(), |i: int| object_name_node(s[i]))
}

pub open spec fn select_item_nodes(s: Seq<SelectItem>) -> Seq<SqlItemTree> {
    Seq::new(s.len(), |i: int| select_item_node(s[i]))
}

pub open spec fn factor_nodes(s: Seq<&TableFactor>) -> Seq<SqlFactorTree> {
    Seq::new(s.len(), |i: int| factor_node(*s[i]))
}

pub open spec fn tables_nodes(s: Seq<TableWithJoins>) -> Seq<SqlTablesTree> {
    Seq::new(s.len(), |i: int| tables_node(s[i]))
}

pub open spec fn assignment_nodes(s: Seq<Assignment>) -> Seq<SqlAssignmentTree> {
    Seq::new(s.len(), |i: int| assignment_node(s[i]))
}

pub open spec fn merge_clause_nodes(s: Seq<MergeClause>) -> Seq<SqlMergeActionTree> {
    Seq::new(s.len(), |i: int| merge_clause_node(s[i]))
}

pub open spec fn statement_nodes(s: Seq<Statement>) -> Seq<SqlStatementTree> {
    Seq::new(s.len(), |i: int| statement_node(s[i]))
}

pub open spec fn opt_sql_node(o: Option<&Expr>) -> Option<Box<SqlExprTree>> {
    match o {
        Some(e) => Some(Box::new(sql_node(*e))),
        None => None,
    }
}

pub open spec fn opt_query_node(o: Option<&Query>) -> Option<SqlBodyTree> {
    match o {
        Some(q) => Some(query_node(*q)),
        None => None,
    }
}

/// The outermost layer of an expression node.
pub(crate) enum SqlShape<'a> {
    Identifier(String),
    Compound(Vec<String>),
    Nested(&'a Expr),
    Cast(&'a Expr),
    Binary(&'a Expr, &'a Expr),
    Between(&'a Expr, &'a Expr, &'a Expr),
    InList(&'a Expr, &'a Vec<Expr>),
    Rest,
}

/// The outermost layer of the other expression nodes.
pub(crate) enum SqlRestShape<'a> {
    Case(Option<&'a Expr>, Vec<(&'a Expr, &'a Expr)>, Option<&'a Expr>),
    /// The argument list is absent for a subquery and for no parentheses.
    Function(&'a ObjectName, Option<&'a Vec<FunctionArg>>),
    Rest,
}

pub(crate) open spec fn has_sql_shape(t: SqlExprTree, s: SqlShape) -> bool {
    match s {
        SqlShape::Identifier(n) => t == SqlExprTree::Identifier(n@),
        SqlShape::Compound(v) => t == SqlExprTree::Compound(texts(v@)),
        SqlShape::Nested(x) => t == SqlExprTree::Nested(Box::new(sql_node(*x))),
        SqlShape::Cast(x) => t == SqlExprTree::Cast(Box::new(sql_node(*x))),
        SqlShape::Binary(l, r) => t == SqlExprTree::Binary(
            Box::new(sql_node(*l)),
            Box::new(sql_node(*r)),
        ),
        SqlShape::Between(x, l, h) => t == SqlExprTree::Between(
            Box::new(sql_node(*x)),
            Box::new(sql_node(*l)),
            Box::new(sql_node(*h)),
        ),
        SqlShape::InList(x, v) => t == SqlExprTree::InList(
            Box::new(sql_node(*x)),
            sql_nodes(v@),
        ),
        SqlShape::Rest => t is Unary || t is Case || t is Function || t is Other,
    }
}

pub(crate) open spec fn has_sql_rest_shape(t: SqlExprTree, s: SqlRestShape) -> bool {
    match s {
        SqlRestShape::Case(o, b, x) => t == SqlExprTree::Case(
            opt_sql_node(o),
            branch_nodes(b@),
            opt_sql_node(x),
        ),
        SqlRestShape::Function(n, a) => t == SqlExprTree::Function(
            object_name_node(*n),
            match a {
                Some(v) => function_arg_nodes(v@),
                None => Seq::empty(),
            },
        ),
        SqlRestShape::Rest => !(t is Case || t is Function),
    }
}

/// An expression node with one operand, or none of these.
pub(crate) open spec fn has_operand(t: SqlExprTree, o: Option<&Expr>) -> bool {
    match o {
        Some(x) => t == SqlExprTree::Unary(Box::new(sql_node(*x))),
        None => !(t is Unary),
    }
}

/// The variant of `sqlparser::ast::Expr` with the fields that the tree keeps.
#[verifier::external_body]
fn sql_shape(e: &Expr) -> (r: SqlShape<'_>)
    ensures
        has_sql_shape(sql_node(*e), r),
{
    match e {
        Expr::Identifier(i) => SqlShape::Identifier(i.value.clone()),
        Expr::CompoundIdentifier(parts) => {
            SqlShape::Compound(parts.iter().map(|p| p.value.clone()).collect())
        },
        Expr::Nested(x) => SqlShape::Nested(x),
        Expr::Cast { expr, .. } => SqlShape::Cast(expr),
        Expr::BinaryOp { left, right, .. } => SqlShape::Binary(left, right),
        Expr::Between { expr, low, high, .. } => SqlShape::Between(expr, low, high),
        Expr::InList { expr, list, .. } => SqlShape::InList(expr, list),
        _ => SqlShape::Rest,
    }
}

/// The variant of `sqlparser::ast::Expr` with the fields that the tree keeps,
/// for the variants that `sql_shape` leaves out.
#[verifier::external_body]
fn sql_rest_shape(e: &Expr) -> (r: SqlRestShape<'_>)
    ensures
        has_sql_rest_shape(sql_node(*e), r),
{
    match e {
        Expr::Case { operand, conditions, else_result, .. } => {
            let branches = conditions.iter().map(|c| (&c.condition, &c.result)).collect();
            SqlRestShape::Case(operand.as_deref(), branches, else_result.as_deref())
        },
        Expr::Function(f) => match &f.args {
            FunctionArguments::List(l) => SqlRestShape::Function(&f.name, Some(&l.args)),
            _ => SqlRestShape::Function(&f.name, None),
        },
        _ => SqlRestShape::Rest,
    }
}

/// The operand of the variants of `sqlparser::ast::Expr` that test or convert
/// one: `IS [NOT] TRUE`, `FALSE`, `NULL` or `UNKNOWN`, unary operators and
/// `COLLATE`.
#[verifier::external_body]
fn sql_operand(e: &Expr) -> (r: Option<&Expr>)
    ensures
        has_operand(sql_node(*e), r),
{
    match e {
        Expr::IsFalse(x) | Expr::IsNotFalse(x) | Expr::IsTrue(x) | Expr::IsNotTrue(x) => Some(x),
        Expr::IsNull(x) | Expr::IsNotNull(x) | Expr::IsUnknown(x) | Expr::IsNotUnknown(x) => Some(x),
        Expr::UnaryOp { expr, .. } | Expr::Collate { expr, .. } => Some(expr),
        _ => None,
    }
}

/// `Display` of `sqlparser::ast::Expr`: the text of an expression.
#[verifier::external_body]
fn sql_text(e: &Expr) -> (r: String)
    ensures
        r@ == sql_node_text(*e),
{
    e.to_string()
}

/// The expression of a `sqlparser::ast::FunctionArg`, named or not.
#[verifier::external_body]
fn function_arg_expr(a: &FunctionArg) -> (r: Option<&Expr>)
    ensures
        function_arg_node(*a) == (match r {
            Some(e) => Some(sql_node(*e)),
            None => None,
        }),
{
    let inner = match a {
        FunctionArg::Named { arg, .. } => arg,
        FunctionArg::ExprNamed { arg, .. } => arg,
        FunctionArg::Unnamed(arg) => arg,
    };
    match inner {
        FunctionArgExpr::Expr(e) => Some(e),
        _ => None,
    }
}

/// The parts of a `sqlparser::ast::ObjectName`: the value of an identifier,
/// and the text of a part that is not one.
#[verifier::external_body]
fn object_name_parts(n: &ObjectName) -> (r: Vec<String>)
    ensures
        texts(r@) == object_name_node(*n),
{
    n.0.iter().map(
        |p| match p {
            ObjectNamePart::Identifier(i) => i.value.clone(),
            other => other.to_string(),
        },
    ).collect()
}

/// The outermost layer of an item of a projection.
pub(crate) enum ItemShape<'a> {
    Expr(&'a Expr, Option<String>),
    Wildcard,
    Other,
}

/// The variant of `sqlparser::ast::SelectItem` with its fields.
#[verifier::external_body]
fn item_shape(i: &SelectItem) -> (r: ItemShape<'_>)
    ensures
        select_item_node(*i) == (match r {
            ItemShape::Expr(e, a) => SqlItemTree::Expr(
                sql_node(*e),
                sql_node_text(*e),
                opt_text(a),
            ),
            ItemShape::Wildcard => SqlItemTree::Wildcard,
            ItemShape::Other => SqlItemTree::Other,
        }),
{
    match i {
        SelectItem::UnnamedExpr(e) => ItemShape::Expr(e, None),
        SelectItem::ExprWithAlias { expr, alias } => {
            ItemShape::Expr(expr, Some(alias.value.clone()))
        },
        SelectItem::Wildcard(_) | SelectItem::QualifiedWildcard(_, _) => ItemShape::Wildcard,
        _ => ItemShape::Other,
    }
}

/// The outermost layer of a relation.
pub(crate) enum FactorShape<'a> {
    Table(&'a ObjectName, Option<String>),
    Derived(&'a Query, Option<String>),
    Join(&'a TableWithJoins),
    Other,
}

/// The variant of `sqlparser::ast::TableFactor` with the fields that the tree
/// keeps.
#[verifier::external_body]
fn factor_shape(f: &TableFactor) -> (r: FactorShape<'_>)
    ensures
        factor_node(*f) == (match r {
            FactorShape::Table(n, a) => SqlFactorTree::Table(object_name_node(*n), opt_text(a)),
            FactorShape::Derived(q, a) => SqlFactorTree::Derived(
                Box::new(query_node(*q)),
                opt_text(a),
            ),
            FactorShape::Join(t) => SqlFactorTree::Join(Box::new(tables_node(*t))),
            FactorShape::Other => SqlFactorTree::Other,
        }),
{
    match f {
        TableFactor::Table { name, alias, .. } => {
            FactorShape::Table(name, alias.as_ref().map(|a| a.name.value.clone()))
        },
        TableFactor::Derived { subquery, alias, .. } => {
            FactorShape::Derived(subquery, alias.as_ref().map(|a| a.name.value.clone()))
        },
        TableFactor::NestedJoin { table_with_joins, .. } => FactorShape::Join(table_with_joins),
        _ => FactorShape::Other,
    }
}

/// The relations of a `sqlparser::ast::TableWithJoins`.
#[verifier::external_body]
fn tables_parts(t: &TableWithJoins) -> (r: (&TableFactor, Vec<&TableFactor>))
    ensures
        tables_node(*t) == (SqlTablesTree { relation: factor_node(*r.0), joins: factor_nodes(r.1@) }),
{
    (&t.relation, t.joins.iter().map(|j| &j.relation).collect())
}

/// The outermost layer of a query body.
pub(crate) enum BodyShape<'a> {
    Select(&'a Vec<SelectItem>, &'a Vec<TableWithJoins>),
    Query(&'a Query),
    Left(&'a SetExpr),
    Other,
}

/// The variant of `sqlparser::ast::SetExpr` with the fields that the tree
/// keeps.
#[verifier::external_body]
fn body_shape(b: &SetExpr) -> (r: BodyShape<'_>)
    ensures
        body_node(*b) == (match r {
            BodyShape::Select(p, f) => SqlBodyTree::Select(
                select_item_nodes(p@),
                tables_nodes(f@),
            ),
            BodyShape::Query(q) => SqlBodyTree::Inner(Box::new(query_node(*q))),
            BodyShape::Left(x) => SqlBodyTree::Inner(Box::new(body_node(*x))),
            BodyShape::Other => SqlBodyTree::Other,
        }),
{
    match b {
        SetExpr::Select(s) => BodyShape::Select(&s.projection, &s.from),
        SetExpr::Query(q) => BodyShape::Query(q),
        SetExpr::SetOperation { left, .. } => BodyShape::Left(left),
        _ => BodyShape::Other,
    }
}

/// The body of a `sqlparser::ast::Query`.
#[verifier::external_body]
fn query_body(q: &Query) -> (r: &SetExpr)
    ensures
        query_node(*q) == body_node(*r),
{
    &q.body
}

/// The column and the value of a `sqlparser::ast::Assignment`.
#[verifier::external_body]
fn assignment_parts(a: &Assignment) -> (r: (Option<&ObjectName>, &Expr))
    ensures
        assignment_node(*a) == (SqlAssignmentTree {
            column: match r.0 {
                Some(n) => Some(object_name_node(*n)),
                None => None,
            },
            value: SqlValueTree { expr: sql_node(*r.1), text: sql_node_text(*r.1) },
        }),
{
    match &a.target {
        AssignmentTarget::ColumnName(n) => (Some(n), &a.value),
        _ => (None, &a.value),
    }
}

/// The outermost layer of a clause of a `MERGE`.
pub(crate) enum MergeShape<'a> {
    Update(&'a Vec<Assignment>),
    /// The columns, and each row of the values.
    Insert(&'a Vec<ObjectName>, Vec<&'a Vec<Expr>>),
    Other,
}

pub open spec fn single_row(rows: Seq<&Vec<Expr>>) -> Seq<SqlValueTree> {
    if rows.len() == 1 {
        value_nodes(rows[0]@)
    } else {
        Seq::empty()
    }
}

/// What the action of a `sqlparser::ast::MergeClause` holds.
#[verifier::external_body]
fn merge_shape(c: &MergeClause) -> (r: MergeShape<'_>)
    ensures
        merge_clause_node(*c) == (match r {
            MergeShape::Update(v) => SqlMergeActionTree::Update(assignment_nodes(v@)),
            MergeShape::Insert(n, rows) => SqlMergeActionTree::Insert(
                object_name_nodes(n@),
                single_row(rows@),
            ),
            MergeShape::Other => SqlMergeActionTree::Other,
        }),
{
    match &c.action {
        MergeAction::Update(u) => match &u.kind {
            MergeUpdateKind::Set(v) => MergeShape::Update(v),
            _ => MergeShape::Other,
        },
        MergeAction::Insert(i) => match &i.kind {
            MergeInsertKind::Values(v) => {
                MergeShape::Insert(&i.columns, v.rows.iter().map(|p| &p.content).collect())
            },
            _ => MergeShape::Other,
        },
        _ => MergeShape::Other,
    }
}

/// The outermost layer of a statement.
pub(crate) enum StatementShape<'a> {
    Insert(Option<&'a ObjectName>, &'a Vec<ObjectName>, Option<&'a Query>),
    Query(&'a Query),
    CreateTable(&'a ObjectName, Option<&'a Query>),
    Merge(&'a TableFactor, &'a TableFactor, &'a Vec<MergeClause>),
    Other,
}

/// The variant of `sqlparser::ast::Statement` with the fields that the tree
/// keeps.
#[verifier::external_body]
fn statement_shape(s: &Statement) -> (r: StatementShape<'_>)
    ensures
        statement_node(*s) == (match r {
            StatementShape::Insert(t, c, q) => SqlStatementTree::Insert(
                match t {
                    Some(n) => Some(object_name_node(*n)),
                    None => None,
                },
                object_name_nodes(c@),
                opt_query_node(q),
            ),
            StatementShape::Query(q) => SqlStatementTree::Query(query_node(*q)),
            StatementShape::CreateTable(n, q) => SqlStatementTree::CreateTable(
                object_name_node(*n),
                opt_query_node(q),
            ),
            StatementShape::Merge(t, x, c) => SqlStatementTree::Merge(
                factor_node(*t),
                factor_node(*x),
                merge_clause_nodes(c@),
            ),
            StatementShape::Other => SqlStatementTree::Other,
        }),
{
    match s {
        Statement::Insert(i) => match &i.table {
            TableObject::TableName(n) => {
                StatementShape::Insert(Some(n), &i.columns, i.source.as_deref())
            },
            _ => StatementShape::Insert(None, &i.columns, i.source.as_deref()),
        },
        Statement::Query(q) => StatementShape::Query(q),
        Statement::CreateTable(c) => StatementShape::CreateTable(&c.name, c.query.as_deref()),
        Statement::Merge(m) => StatementShape::Merge(&m.table, &m.source, &m.clauses),
        _ => StatementShape::Other,
    }
}

/// `sqlparser::parser::Parser::parse_sql` with the generic dialect; none for
/// a text that it refuses.
#[verifier::external_body]
fn parse_statements(sql: &str) -> (r: Option<Vec<Statement>>)
    ensures
        sql_parse(sql@) == (match r {
            Some(v) => Some(statement_nodes(v@)),
            None => None,
        }),
{
    Parser::parse_sql(&GenericDialect {}, sql).ok()
}

// ──────────────────────────── taking it over ──────────────────────────

fn import_name(n: &ObjectName) -> (r: Vec<String>)
    ensures
        texts(r@) == object_name_node(*n),
        views(r@) == object_name_node(*n),
{
    let r = object_name_parts(n);
    assert(texts(r@) =~= views(r@));
    r
}

fn import_names(v: &Vec<ObjectName>) -> (r: Vec<Vec<String>>)
    ensures
        texts_list(r@) == object_name_nodes(v@),
{
    let mut out: Vec<Vec<String>> = Vec::new();
    let mut i: usize = 0;
    while i < v.len()
        invariant
            i <= v@.len(),
            out@.len() == i,
            forall|k: int| 0 <= k < i ==> texts((#[trigger] out@[k])@) == object_name_node(v@[k]),
        decreases v@.len() - i,
    {
        out.push(import_name(&v[i]));
        i = i + 1;
    }
    assert(texts_list(out@) =~= object_name_nodes(v@));
    out
}

fn import_sql(e: &Expr) -> (r: SqlExpr)
    ensures
        r@ == sql_node(*e),
    decreases sql_node(*e),
{
    let ghost t = sql_node(*e);
    let r = match sql_shape(e) {
        SqlShape::Identifier(n) => SqlExpr::Identifier(n),
        SqlShape::Compound(v) => {
            assert(texts(v@) =~= views(v@));
            SqlExpr::Compound(v)
        },
        SqlShape::Nested(x) => {
            assert(decreases_to!(t => *t->Nested_0));
            SqlExpr::Nested(Box::new(import_sql(x)))
        },
        SqlShape::Cast(x) => {
            assert(decreases_to!(t => *t->Cast_0));
            SqlExpr::Cast(Box::new(import_sql(x)))
        },
        SqlShape::Binary(x, y) => {
            assert(decreases_to!(t => *t->Binary_0));
            assert(decreases_to!(t => *t->Binary_1));
            SqlExpr::Binary(Box::new(import_sql(x)), Box::new(import_sql(y)))
        },
        SqlShape::Between(x, l, h) => {
            assert(decreases_to!(t => *t->Between_0));
            assert(decreases_to!(t => *t->Between_1));
            assert(decreases_to!(t => *t->Between_2));
            let a = Box::new(import_sql(x));
            let b = Box::new(import_sql(l));
            SqlExpr::Between(a, b, Box::new(import_sql(h)))
        },
        SqlShape::InList(x, v) => {
            assert(decreases_to!(t => *t->InList_0));
            assert(decreases_to!(t => t->InList_1));
            let a = Box::new(import_sql(x));
            SqlExpr::InList(a, import_sqls(v))
        },
        SqlShape::Rest => match sql_rest_shape(e) {
            SqlRestShape::Case(o, b, x) => {
                assert(decreases_to!(t => t->Case_0));
                assert(decreases_to!(t => t->Case_1));
                assert(decreases_to!(t => t->Case_2));
                let operand = import_opt(o);
                let branches = import_branches(&b);
                let otherwise = import_opt(x);
                SqlExpr::Case(operand, branches, otherwise)
            },
            SqlRestShape::Function(n, a) => {
                let name = import_name(n);
                let args = match a {
                    Some(v) => {
                        assert(decreases_to!(t => t->Function_1));
                        import_args(v)
                    },
                    None => {
                        let none: Vec<Option<SqlExpr>> = Vec::new();
                        assert(arg_views(none@) =~= Seq::<Option<SqlExprTree>>::empty());
                        none
                    },
                };
                SqlExpr::Function(name, args)
            },
            SqlRestShape::Rest => match sql_operand(e) {
                Some(x) => {
                    assert(decreases_to!(t => *t->Unary_0));
                    SqlExpr::Unary(Box::new(import_sql(x)))
                },
                None => SqlExpr::Other,
            },
        },
    };
    proof {
        unfold_sql(r);
    }
    r
}

fn import_opt(o: Option<&Expr>) -> (r: Option<Box<SqlExpr>>)
    ensures
        opt_expr(r) == opt_sql_node(o),
    decreases opt_sql_node(o),
{
    match o {
        Some(e) => {
            let ghost n = opt_sql_node(o);
            assert(decreases_to!(n => n->Some_0));
            assert(decreases_to!(n => *n->Some_0));
            Some(Box::new(import_sql(e)))
        },
        None => None,
    }
}

fn import_branches(v: &Vec<(&Expr, &Expr)>) -> (r: Vec<SqlBranch>)
    ensures
        views(r@) == branch_nodes(v@),
    decreases branch_nodes(v@),
{
    let mut out: Vec<SqlBranch> = Vec::new();
    let mut i: usize = 0;
    while i < v.len()
        invariant
            i <= v@.len(),
            out@.len() == i,
            forall|k: int| 0 <= k < i ==> (#[trigger] out@[k])@ == branch_nodes(v@)[k],
        decreases v@.len() - i,
    {
        let ghost n = branch_nodes(v@)[i as int];
        assert(decreases_to!(branch_nodes(v@) => n));
        assert(decreases_to!(n => n.condition));
        assert(decreases_to!(n => n.result));
        let condition = import_sql(v[i].0);
        let result = import_sql(v[i].1);
        out.push(SqlBranch { condition, result });
        i = i + 1;
    }
    assert(views(out@) =~= branch_nodes(v@));
    out
}

fn import_args(v: &Vec<FunctionArg>) -> (r: Vec<Option<SqlExpr>>)
    ensures
        arg_views(r@) == function_arg_nodes(v@),
    decreases function_arg_nodes(v@),
{
    let mut out: Vec<Option<SqlExpr>> = Vec::new();
    let mut i: usize = 0;
    while i < v.len()
        invariant
            i <= v@.len(),
            out@.len() == i,
            forall|k: int| 0 <= k < i ==> #[trigger] arg_views(out@)[k] == function_arg_nodes(v@)[k],
        decreases v@.len() - i,
    {
        let ghost n = function_arg_nodes(v@)[i as int];
        assert(n == function_arg_node(v@[i as int]));
        assert(decreases_to!(function_arg_nodes(v@) => n));
        let x = match function_arg_expr(&v[i]) {
            Some(e) => {
                assert(decreases_to!(n => n->Some_0));
                Some(import_sql(e))
            },
            None => None,
        };
        let ghost before = out@;
        out.push(x);
        assert(arg_views(out@) =~= arg_views(before).push(n));
        i = i + 1;
    }
    assert(arg_views(out@) =~= function_arg_nodes(v@));
    out
}

fn import_sqls(v: &Vec<Expr>) -> (r: Vec<SqlExpr>)
    ensures
        views(r@) == sql_nodes(v@),
    decreases sql_nodes(v@),
{
    let mut out: Vec<SqlExpr> = Vec::new();
    let mut i: usize = 0;
    while i < v.len()
        invariant
            i <= v@.len(),
            out@.len() == i,
            forall|k: int| 0 <= k < i ==> (#[trigger] out@[k])@ == sql_node(v@[k]),
        decreases v@.len() - i,
    {
        assert(sql_nodes(v@)[i as int] == sql_node(v@[i as int]));
        let x = import_sql(&v[i]);
        out.push(x);
        i = i + 1;
    }
    assert(views(out@) =~= sql_nodes(v@));
    out
}

fn import_value(e: &Expr) -> (r: SqlValue)
    ensures
        r@ == (SqlValueTree { expr: sql_node(*e), text: sql_node_text(*e) }),
{
    let text = sql_text(e);
    SqlValue { expr: import_sql(e), text }
}

fn import_values(v: &Vec<Expr>) -> (r: Vec<SqlValue>)
    ensures
        views(r@) == value_nodes(v@),
{
    let mut out: Vec<SqlValue> = Vec::new();
    let mut i: usize = 0;
    while i < v.len()
        invariant
            i <= v@.len(),
            out@.len() == i,
            forall|k: int| 0 <= k < i ==> (#[trigger] out@[k])@ == value_nodes(v@)[k],
        decreases v@.len() - i,
    {
        out.push(import_value(&v[i]));
        i = i + 1;
    }
    assert(views(out@) =~= value_nodes(v@));
    out
}

fn import_item(i: &SelectItem) -> (r: SqlItem)
    ensures
        r@ == select_item_node(*i),
{
    match item_shape(i) {
        ItemShape::Expr(e, a) => {
            let text = sql_text(e);
            SqlItem::Expr(import_sql(e), text, a)
        },
        ItemShape::Wildcard => SqlItem::Wildcard,
        ItemShape::Other => SqlItem::Other,
    }
}

fn import_items(v: &Vec<SelectItem>) -> (r: Vec<SqlItem>)
    ensures
        views(r@) == select_item_nodes(v@),
{
    let mut out: Vec<SqlItem> = Vec::new();
    let mut i: usize = 0;
    while i < v.len()
        invariant
            i <= v@.len(),
            out@.len() == i,
            forall|k: int| 0 <= k < i ==> (#[trigger] out@[k])@ == select_item_node(v@[k]),
        decreases v@.len() - i,
    {
        assert(select_item_nodes(v@)[i as int] == select_item_node(v@[i as int]));
        let x = import_item(&v[i]);
        out.push(x);
        i = i + 1;
    }
    assert(views(out@) =~= select_item_nodes(v@));
    out
}

fn import_factor(f: &TableFactor) -> (r: SqlFactor)
    ensures
        r@ == factor_node(*f),
    decreases factor_node(*f), 0nat,
{
    let ghost t = factor_node(*f);
    let r = match factor_shape(f) {
        FactorShape::Table(n, a) => SqlFactor::Table(import_name(n), a),
        FactorShape::Derived(q, a) => {
            assert(decreases_to!(t => *t->Derived_0));
            SqlFactor::Derived(Box::new(import_query(q)), a)
        },
        FactorShape::Join(x) => {
            assert(decreases_to!(t => *t->Join_0));
            SqlFactor::Join(Box::new(import_tables(x)))
        },
        FactorShape::Other => SqlFactor::Other,
    };
    proof {
        unfold_factor(r);
    }
    r
}

fn import_tables(x: &TableWithJoins) -> (r: SqlTables)
    ensures
        r@ == tables_node(*x),
    decreases tables_node(*x), 0nat,
{
    let ghost t = tables_node(*x);
    let (first, rest) = tables_parts(x);
    assert(decreases_to!(t => t.relation));
    assert(decreases_to!(t => t.joins));
    let relation = import_factor(first);
    let mut joins: Vec<SqlFactor> = Vec::new();
    let mut i: usize = 0;
    while i < rest.len()
        invariant
            i <= rest@.len(),
            joins@.len() == i,
            t.joins == factor_nodes(rest@),
            t == tables_node(*x),
            decreases_to!(t => t.joins),
            forall|k: int| 0 <= k < i ==> (#[trigger] joins@[k])@ == factor_node(*rest@[k]),
        decreases rest@.len() - i,
    {
        assert(factor_nodes(rest@)[i as int] == factor_node(*rest@[i as int]));
        assert(decreases_to!(t.joins => t.joins[i as int]));
        joins.push(import_factor(rest[i]));
        i = i + 1;
    }
    assert(views(joins@) =~= factor_nodes(rest@));
    let r = SqlTables { relation, joins };
    proof {
        unfold_tables(r);
    }
    r
}

fn import_tables_list(v: &Vec<TableWithJoins>) -> (r: Vec<SqlTables>)
    ensures
        views(r@) == tables_nodes(v@),
    decreases tables_nodes(v@), 0nat,
{
    let mut out: Vec<SqlTables> = Vec::new();
    let mut i: usize = 0;
    while i < v.len()
        invariant
            i <= v@.len(),
            out@.len() == i,
            forall|k: int| 0 <= k < i ==> (#[trigger] out@[k])@ == tables_node(v@[k]),
        decreases v@.len() - i,
    {
        assert(tables_nodes(v@)[i as int] == tables_node(v@[i as int]));
        out.push(import_tables(&v[i]));
        i = i + 1;
    }
    assert(views(out@) =~= tables_nodes(v@));
    out
}

fn import_body(b: &SetExpr) -> (r: SqlBody)
    ensures
        r@ == body_node(*b),
    decreases body_node(*b), 0nat,
{
    let ghost t = body_node(*b);
    let r = match body_shape(b) {
        BodyShape::Select(p, f) => {
            assert(decreases_to!(t => t->Select_1));
            let items = import_items(p);
            SqlBody::Select(items, import_tables_list(f))
        },
        BodyShape::Query(q) => {
            assert(decreases_to!(t => *t->Inner_0));
            SqlBody::Inner(Box::new(import_query(q)))
        },
        BodyShape::Left(x) => {
            assert(decreases_to!(t => *t->Inner_0));
            SqlBody::Inner(Box::new(import_body(x)))
        },
        BodyShape::Other => SqlBody::Other,
    };
    proof {
        unfold_body(r);
    }
    r
}

fn import_query(q: &Query) -> (r: SqlBody)
    ensures
        r@ == query_node(*q),
    decreases query_node(*q), 1nat,
{
    let b = query_body(q);
    import_body(b)
}

fn import_opt_query(q: Option<&Query>) -> (r: Option<SqlBody>)
    ensures
        opt_body(r) == opt_query_node(q),
{
    match q {
        Some(x) => Some(import_query(x)),
        None => None,
    }
}

fn import_assignment(a: &Assignment) -> (r: SqlAssignment)
    ensures
        r@ == assignment_node(*a),
{
    let (target, e) = assignment_parts(a);
    let column = match target {
        Some(n) => Some(import_name(n)),
        None => None,
    };
    SqlAssignment { column, value: import_value(e) }
}

fn import_assignments(v: &Vec<Assignment>) -> (r: Vec<SqlAssignment>)
    ensures
        views(r@) == assignment_nodes(v@),
{
    let mut out: Vec<SqlAssignment> = Vec::new();
    let mut i: usize = 0;
    while i < v.len()
        invariant
            i <= v@.len(),
            out@.len() == i,
            forall|k: int| 0 <= k < i ==> (#[trigger] out@[k])@ == assignment_node(v@[k]),
        decreases v@.len() - i,
    {
        assert(assignment_nodes(v@)[i as int] == assignment_node(v@[i as int]));
        let x = import_assignment(&v[i]);
        out.push(x);
        i = i + 1;
    }
    assert(views(out@) =~= assignment_nodes(v@));
    out
}

fn import_merge(c: &MergeClause) -> (r: SqlMergeAction)
    ensures
        r@ == merge_clause_node(*c),
{
    match merge_shape(c) {
        MergeShape::Update(v) => SqlMergeAction::Update(import_assignments(v)),
        MergeShape::Insert(n, rows) => {
            let columns = import_names(n);
            if rows.len() == 1 {
                SqlMergeAction::Insert(columns, import_values(rows[0]))
            } else {
                let none: Vec<SqlValue> = Vec::new();
                assert(views(none@) =~= Seq::<SqlValueTree>::empty());
                SqlMergeAction::Insert(columns, none)
            }
        },
        MergeShape::Other => SqlMergeAction::Other,
    }
}

fn import_merges(v: &Vec<MergeClause>) -> (r: Vec<SqlMergeAction>)
    ensures
        views(r@) == merge_clause_nodes(v@),
{
    let mut out: Vec<SqlMergeAction> = Vec::new();
    let mut i: usize = 0;
    while i < v.len()
        invariant
            i <= v@.len(),
            out@.len() == i,
            forall|k: int| 0 <= k < i ==> (#[trigger] out@[k])@ == merge_clause_node(v@[k]),
        decreases v@.len() - i,
    {
        assert(merge_clause_nodes(v@)[i as int] == merge_clause_node(v@[i as int]));
        let x = import_merge(&v[i]);
        out.push(x);
        i = i + 1;
    }
    assert(views(out@) =~= merge_clause_nodes(v@));
    out
}

fn import_statement(s: &Statement) -> (r: SqlStatement)
    ensures
        r@ == statement_node(*s),
{
    match statement_shape(s) {
        StatementShape::Insert(t, c, q) => {
            let table = match t {
                Some(n) => Some(import_name(n)),
                None => None,
            };
            let columns = import_names(c);
            SqlStatement::Insert(table, columns, import_opt_query(q))
        },
        StatementShape::Query(q) => SqlStatement::Query(import_query(q)),
        StatementShape::CreateTable(n, q) => {
            let table = import_name(n);
            SqlStatement::CreateTable(table, import_opt_query(q))
        },
        StatementShape::Merge(t, x, c) => {
            let target = import_factor(t);
            let source = import_factor(x);
            SqlStatement::Merge(target, source, import_merges(c))
        },
        StatementShape::Other => SqlStatement::Other,
    }
}

fn import_statements(v: &Vec<Statement>) -> (r: Vec<SqlStatement>)
    ensures
        views(r@) == statement_nodes(v@),
{
    let mut out: Vec<SqlStatement> = Vec::new();
    let mut i: usize = 0;
    while i < v.len()
        invariant
            i <= v@.len(),
            out@.len() == i,
            forall|k: int| 0 <= k < i ==> (#[trigger] out@[k])@ == statement_node(v@[k]),
        decreases v@.len() - i,
    {
        assert(statement_nodes(v@)[i as int] == statement_node(v@[i as int]));
        let x = import_statement(&v[i]);
        out.push(x);
        i = i + 1;
    }
    assert(views(out@) =~= statement_nodes(v@));
    out
}

/// Parses a SQL text into the plain tree; none when the parser refuses it.
pub fn parse_sql(sql: &str) -> (r: Option<Vec<SqlStatement>>)
    ensures
        sql_parse(sql@) == (match r {
            Some(v) => Some(views(v@)),
            None => None,
        }),
{
    match parse_statements(sql) {
        Some(v) => Some(import_statements(&v)),
        None => None,
    }
}

} // verus!

//! Python syntax trees: the plain tree that the analyses read, and how it is
//! taken over from the parser's own nodes.

use rustpython_parser::ast::text_size::TextRange;
use rustpython_parser::ast::{
    Alias, Constant, ExceptHandler, Expr, ExprConstant, Keyword, Ranged, Stmt, Suite, WithItem,
};
use rustpython_parser::Parse;
use vstd::prelude::*;

use crate::source::fits;
use crate::text::{opt_text, opt_view, views};

verus! {

// ─────────────────────────────── the tree ─────────────────────────────

/// The byte range of a node in its source text.
#[derive(Debug, Clone, Copy, PartialEq, Eq, Structural)]
pub struct Span {
    pub start: usize,
    pub end: usize,
}

/// An expression, as far as the analyses look into it.
#[derive(Debug, PartialEq)]
pub enum PyExpr {
    /// A string literal.
    Str(Span, String),
    /// The literal `None`.
    NoneLiteral(Span),
    /// Any other literal.
    Literal(Span),
    Name(Span, String),
    /// `value.attr`
    Attribute(Span, Box<PyExpr>, String),
    Call(PyCall),
    /// `value[slice]`
    Subscript(Span, Box<PyExpr>, Box<PyExpr>),
    BinOp(Span, Box<PyExpr>, Box<PyExpr>),
    UnaryOp(Span, Box<PyExpr>),
    /// The left operand and the others of a chain of comparisons.
    Compare(Span, Box<PyExpr>, Vec<PyExpr>),
    List(Span, Vec<PyExpr>),
    Tuple(Span, Vec<PyExpr>),
    /// The keys (none for a `**` entry) and the values of a dict display.
    Dict(Span, Vec<Option<PyExpr>>, Vec<PyExpr>),
    /// The first positional parameter and the body.
    Lambda(Span, Option<String>, Box<PyExpr>),
    /// The parts of an f-string.
    FString(Span, Vec<PyExpr>),
    /// An interpolation inside an f-string.
    Formatted(Span, Box<PyExpr>),
    Other(Span),
}

/// A call with its arguments.
#[derive(Debug, PartialEq)]
pub struct PyCall {
    pub span: Span,
    pub func: Box<PyExpr>,
    pub args: Vec<PyExpr>,
    pub keywords: Vec<PyKeyword>,
}

/// A keyword argument; the name is absent for `**` arguments.
#[derive(Debug, PartialEq)]
pub struct PyKeyword {
    pub name: Option<String>,
    pub value: PyExpr,
}

/// One name of an import, with the name it is bound to where that differs.
#[derive(Debug, PartialEq)]
pub struct PyAlias {
    pub name: String,
    pub asname: Option<String>,
}

/// A function definition.
#[derive(Debug, PartialEq)]
pub struct PyFunction {
    pub span: Span,
    pub name: String,
    pub decorators: Vec<PyExpr>,
    pub body: Vec<PyStmt>,
}

/// A `for` statement.
#[derive(Debug, PartialEq)]
pub struct PyFor {
    pub span: Span,
    pub target: PyExpr,
    pub iter: PyExpr,
    pub body: Vec<PyStmt>,
    pub orelse: Vec<PyStmt>,
}

/// An `except` part of a `try` statement.
#[derive(Debug, PartialEq)]
pub struct PyHandler {
    pub body: Vec<PyStmt>,
}

/// A statement, as far as the analyses look into it.
#[derive(Debug, PartialEq)]
pub enum PyStmt {
    Assign(Vec<PyExpr>, PyExpr),
    /// `target += value` and the like.
    AugAssign(PyExpr, PyExpr),
    /// `target: type = value`, or `target: type`.
    AnnAssign(PyExpr, Option<PyExpr>),
    Expr(PyExpr),
    /// The context expressions and the body.
    With(Vec<PyExpr>, Vec<PyStmt>),
    If(Vec<PyStmt>, Vec<PyStmt>),
    For(PyFor),
    While(Span, Vec<PyStmt>, Vec<PyStmt>),
    /// The body, the `except` parts, the `else` part and the `finally` part.
    Try(Span, Vec<PyStmt>, Vec<PyHandler>, Vec<PyStmt>, Vec<PyStmt>),
    FunctionDef(PyFunction),
    Import(Vec<PyAlias>),
    /// The module, the number of leading dots and the names.
    ImportFrom(Option<String>, usize, Vec<PyAlias>),
    Other,
}

// ────────────────────────────── its model ─────────────────────────────

#[verifier::ext_equal]
pub enum PyExprTree {
    Str(Span, Seq<char>),
    NoneLiteral(Span),
    Literal(Span),
    Name(Span, Seq<char>),
    Attribute(Span, Box<PyExprTree>, Seq<char>),
    Call(PyCallTree),
    Subscript(Span, Box<PyExprTree>, Box<PyExprTree>),
    BinOp(Span, Box<PyExprTree>, Box<PyExprTree>),
    UnaryOp(Span, Box<PyExprTree>),
    Compare(Span, Box<PyExprTree>, Seq<PyExprTree>),
    List(Span, Seq<PyExprTree>),
    Tuple(Span, Seq<PyExprTree>),
    Dict(Span, Seq<Option<PyExprTree>>, Seq<PyExprTree>),
    Lambda(Span, Option<Seq<char>>, Box<PyExprTree>),
    FString(Span, Seq<PyExprTree>),
    Formatted(Span, Box<PyExprTree>),
    Other(Span),
}

#[verifier::ext_equal]
pub struct PyCallTree {
    pub span: Span,
    pub func: Box<PyExprTree>,
    pub args: Seq<PyExprTree>,
    pub keywords: Seq<PyKeywordTree>,
}

#[verifier::ext_equal]
pub struct PyKeywordTree {
    pub name: Option<Seq<char>>,
    pub value: PyExprTree,
}

#[verifier::ext_equal]
pub struct PyAliasTree {
    pub name: Seq<char>,
    pub asname: Option<Seq<char>>,
}

#[verifier::ext_equal]
pub struct PyFunctionTree {
    pub span: Span,
    pub name: Seq<char>,
    pub decorators: Seq<PyExprTree>,
    pub body: Seq<PyStmtTree>,
}

#[verifier::ext_equal]
pub struct PyForTree {
    pub span: Span,
    pub target: PyExprTree,
    pub iter: PyExprTree,
    pub body: Seq<PyStmtTree>,
    pub orelse: Seq<PyStmtTree>,
}

#[verifier::ext_equal]
pub struct PyHandlerTree {
    pub body: Seq<PyStmtTree>,
}

#[verifier::ext_equal]
pub enum PyStmtTree {
    Assign(Seq<PyExprTree>, PyExprTree),
    AugAssign(PyExprTree, PyExprTree),
    AnnAssign(PyExprTree, Option<PyExprTree>),
    Expr(PyExprTree),
    With(Seq<PyExprTree>, Seq<PyStmtTree>),
    If(Seq<PyStmtTree>, Seq<PyStmtTree>),
    For(PyForTree),
    While(Span, Seq<PyStmtTree>, Seq<PyStmtTree>),
    Try(Span, Seq<PyStmtTree>, Seq<PyHandlerTree>, Seq<PyStmtTree>, Seq<PyStmtTree>),
    FunctionDef(PyFunctionTree),
    Import(Seq<PyAliasTree>),
    ImportFrom(Option<Seq<char>>, usize, Seq<PyAliasTree>),
    Other,
}

pub open spec fn expr_tree(e: PyExpr) -> PyExprTree
    decreases e,
{
    match e {
        PyExpr::Str(sp, s) => PyExprTree::Str(sp, s@),
        PyExpr::NoneLiteral(sp) => PyExprTree::NoneLiteral(sp),
        PyExpr::Literal(sp) => PyExprTree::Literal(sp),
        PyExpr::Name(sp, s) => PyExprTree::Name(sp, s@),
        PyExpr::Attribute(sp, v, a) => PyExprTree::Attribute(sp, Box::new(expr_tree(*v)), a@),
        PyExpr::Call(c) => PyExprTree::Call(call_tree(c)),
        PyExpr::Subscript(sp, v, s) => PyExprTree::Subscript(
            sp,
            Box::new(expr_tree(*v)),
            Box::new(expr_tree(*s)),
        ),
        PyExpr::BinOp(sp, l, r) => PyExprTree::BinOp(
            sp,
            Box::new(expr_tree(*l)),
            Box::new(expr_tree(*r)),
        ),
        PyExpr::UnaryOp(sp, o) => PyExprTree::UnaryOp(sp, Box::new(expr_tree(*o))),
        PyExpr::Compare(sp, l, v) => PyExprTree::Compare(
            sp,
            Box::new(expr_tree(*l)),
            exprs_tree(v@),
        ),
        PyExpr::List(sp, v) => PyExprTree::List(sp, exprs_tree(v@)),
        PyExpr::Tuple(sp, v) => PyExprTree::Tuple(sp, exprs_tree(v@)),
        PyExpr::Dict(sp, k, v) => PyExprTree::Dict(sp, keys_tree(k@), exprs_tree(v@)),
        PyExpr::Lambda(sp, p, b) => PyExprTree::Lambda(sp, opt_text(p), Box::new(expr_tree(*b))),
        PyExpr::FString(sp, v) => PyExprTree::FString(sp, exprs_tree(v@)),
        PyExpr::Formatted(sp, v) => PyExprTree::Formatted(sp, Box::new(expr_tree(*v))),
        PyExpr::Other(sp) => PyExprTree::Other(sp),
    }
}

pub open spec fn call_tree(c: PyCall) -> PyCallTree
    decreases c,
{
    PyCallTree {
        span: c.span,
        func: Box::new(expr_tree(*c.func)),
        args: exprs_tree(c.args@),
        keywords: keywords_tree(c.keywords@),
    }
}

pub open spec fn keyword_tree(k: PyKeyword) -> PyKeywordTree
    decreases k,
{
    PyKeywordTree { name: opt_text(k.name), value: expr_tree(k.value) }
}

pub open spec fn exprs_tree(s: Seq<PyExpr>) -> Seq<PyExprTree>
    decreases s,
{
    Seq::new(
        s.len(),
        |i: int|
            if 0 <= i < s.len() {
                expr_tree(s[i])
            } else {
                arbitrary()
            },
    )
}

pub open spec fn keywords_tree(s: Seq<PyKeyword>) -> Seq<PyKeywordTree>
    decreases s,
{
    Seq::new(
        s.len(),
        |i: int|
            if 0 <= i < s.len() {
                keyword_tree(s[i])
            } else {
                arbitrary()
            },
    )
}

pub open spec fn key_tree(k: Option<PyExpr>) -> Option<PyExprTree>
    decreases k,
{
    match k {
        Some(e) => Some(expr_tree(e)),
        None => None,
    }
}

pub open spec fn keys_tree(s: Seq<Option<PyExpr>>) -> Seq<Option<PyExprTree>>
    decreases s,
{
    Seq::new(
        s.len(),
        |i: int|
            if 0 <= i < s.len() {
                key_tree(s[i])
            } else {
                arbitrary()
            },
    )
}

pub open spec fn stmt_tree(s: PyStmt) -> PyStmtTree
    decreases s,
{
    match s {
        PyStmt::Assign(t, v) => PyStmtTree::Assign(exprs_tree(t@), expr_tree(v)),
        PyStmt::AugAssign(t, v) => PyStmtTree::AugAssign(expr_tree(t), expr_tree(v)),
        PyStmt::AnnAssign(t, v) => PyStmtTree::AnnAssign(expr_tree(t), key_tree(v)),
        PyStmt::Expr(e) => PyStmtTree::Expr(expr_tree(e)),
        PyStmt::With(i, b) => PyStmtTree::With(exprs_tree(i@), stmts_tree(b@)),
        PyStmt::If(b, o) => PyStmtTree::If(stmts_tree(b@), stmts_tree(o@)),
        PyStmt::For(f) => PyStmtTree::For(for_tree(f)),
        PyStmt::While(sp, b, o) => PyStmtTree::While(sp, stmts_tree(b@), stmts_tree(o@)),
        PyStmt::Try(sp, b, h, o, f) => PyStmtTree::Try(
            sp,
            stmts_tree(b@),
            handlers_tree(h@),
            stmts_tree(o@),
            stmts_tree(f@),
        ),
        PyStmt::FunctionDef(f) => PyStmtTree::FunctionDef(function_tree(f)),
        PyStmt::Import(n) => PyStmtTree::Import(aliases_tree(n@)),
        PyStmt::ImportFrom(m, l, n) => PyStmtTree::ImportFrom(opt_text(m), l, aliases_tree(n@)),
        PyStmt::Other => PyStmtTree::Other,
    }
}

pub open spec fn alias_tree(a: PyAlias) -> PyAliasTree {
    PyAliasTree { name: a.name@, asname: opt_text(a.asname) }
}

pub open spec fn aliases_tree(s: Seq<PyAlias>) -> Seq<PyAliasTree> {
    Seq::new(s.len(), |i: int| alias_tree(s[i]))
}

pub open spec fn stmts_tree(s: Seq<PyStmt>) -> Seq<PyStmtTree>
    decreases s,
{
    Seq::new(
        s.len(),
        |i: int|
            if 0 <= i < s.len() {
                stmt_tree(s[i])
            } else {
                arbitrary()
            },
    )
}

pub open spec fn handler_tree(h: PyHandler) -> PyHandlerTree
    decreases h,
{
    PyHandlerTree { body: stmts_tree(h.body@) }
}

pub open spec fn handlers_tree(s: Seq<PyHandler>) -> Seq<PyHandlerTree>
    decreases s,
{
    Seq::new(
        s.len(),
        |i: int|
            if 0 <= i < s.len() {
                handler_tree(s[i])
            } else {
                arbitrary()
            },
    )
}

pub open spec fn for_tree(f: PyFor) -> PyForTree
    decreases f,
{
    PyForTree {
        span: f.span,
        target: expr_tree(f.target),
        iter: expr_tree(f.iter),
        body: stmts_tree(f.body@),
        orelse: stmts_tree(f.orelse@),
    }
}

pub open spec fn function_tree(f: PyFunction) -> PyFunctionTree
    decreases f,
{
    PyFunctionTree {
        span: f.span,
        name: f.name@,
        decorators: exprs_tree(f.decorators@),
        body: stmts_tree(f.body@),
    }
}

impl View for PyExpr {
    type V = PyExprTree;

    open spec fn view(&self) -> PyExprTree {
        expr_tree(*self)
    }
}

impl View for PyCall {
    type V = PyCallTree;

    open spec fn view(&self) -> PyCallTree {
        call_tree(*self)
    }
}

impl View for PyKeyword {
    type V = PyKeywordTree;

    open spec fn view(&self) -> PyKeywordTree {
        keyword_tree(*self)
    }
}

impl View for PyAlias {
    type V = PyAliasTree;

    open spec fn view(&self) -> PyAliasTree {
        alias_tree(*self)
    }
}

impl View for PyFunction {
    type V = PyFunctionTree;

    open spec fn view(&self) -> PyFunctionTree {
        function_tree(*self)
    }
}

impl View for PyFor {
    type V = PyForTree;

    open spec fn view(&self) -> PyForTree {
        for_tree(*self)
    }
}

impl View for PyHandler {
    type V = PyHandlerTree;

    open spec fn view(&self) -> PyHandlerTree {
        handler_tree(*self)
    }
}

impl View for PyStmt {
    type V = PyStmtTree;

    open spec fn view(&self) -> PyStmtTree {
        stmt_tree(*self)
    }
}

/// One layer of an expression's model.
pub open spec fn expr_layer(e: PyExpr) -> PyExprTree {
    match e {
        PyExpr::Str(sp, s) => PyExprTree::Str(sp, s@),
        PyExpr::NoneLiteral(sp) => PyExprTree::NoneLiteral(sp),
        PyExpr::Literal(sp) => PyExprTree::Literal(sp),
        PyExpr::Name(sp, s) => PyExprTree::Name(sp, s@),
        PyExpr::Attribute(sp, v, a) => PyExprTree::Attribute(sp, Box::new(v@), a@),
        PyExpr::Call(c) => PyExprTree::Call(call_layer(c)),
        PyExpr::Subscript(sp, v, s) => PyExprTree::Subscript(sp, Box::new(v@), Box::new(s@)),
        PyExpr::BinOp(sp, l, r) => PyExprTree::BinOp(sp, Box::new(l@), Box::new(r@)),
        PyExpr::UnaryOp(sp, o) => PyExprTree::UnaryOp(sp, Box::new(o@)),
        PyExpr::Compare(sp, l, v) => PyExprTree::Compare(sp, Box::new(l@), views(v@)),
        PyExpr::List(sp, v) => PyExprTree::List(sp, views(v@)),
        PyExpr::Tuple(sp, v) => PyExprTree::Tuple(sp, views(v@)),
        PyExpr::Dict(sp, k, v) => PyExprTree::Dict(sp, key_views(k@), views(v@)),
        PyExpr::Lambda(sp, p, b) => PyExprTree::Lambda(sp, opt_text(p), Box::new(b@)),
        PyExpr::FString(sp, v) => PyExprTree::FString(sp, views(v@)),
        PyExpr::Formatted(sp, v) => PyExprTree::Formatted(sp, Box::new(v@)),
        PyExpr::Other(sp) => PyExprTree::Other(sp),
    }
}

/// The models of the keys of a dict display.
pub open spec fn key_views(s: Seq<Option<PyExpr>>) -> Seq<Option<PyExprTree>> {
    Seq::new(
        s.len(),
        |i: int|
            match s[i] {
                Some(e) => Some(e@),
                None => None,
            },
    )
}

pub open spec fn call_layer(c: PyCall) -> PyCallTree {
    PyCallTree {
        span: c.span,
        func: Box::new(c.func@),
        args: views(c.args@),
        keywords: views(c.keywords@),
    }
}

pub open spec fn for_layer(f: PyFor) -> PyForTree {
    PyForTree {
        span: f.span,
        target: f.target@,
        iter: f.iter@,
        body: views(f.body@),
        orelse: views(f.orelse@),
    }
}

pub open spec fn function_layer(f: PyFunction) -> PyFunctionTree {
    PyFunctionTree {
        span: f.span,
        name: f.name@,
        decorators: views(f.decorators@),
        body: views(f.body@),
    }
}

/// One layer of a statement's model.
pub open spec fn stmt_layer(s: PyStmt) -> PyStmtTree {
    match s {
        PyStmt::Assign(t, v) => PyStmtTree::Assign(views(t@), v@),
        PyStmt::AugAssign(t, v) => PyStmtTree::AugAssign(t@, v@),
        PyStmt::AnnAssign(t, v) => PyStmtTree::AnnAssign(t@, opt_view(v)),
        PyStmt::Expr(e) => PyStmtTree::Expr(e@),
        PyStmt::With(i, b) => PyStmtTree::With(views(i@), views(b@)),
        PyStmt::If(b, o) => PyStmtTree::If(views(b@), views(o@)),
        PyStmt::For(f) => PyStmtTree::For(for_layer(f)),
        PyStmt::While(sp, b, o) => PyStmtTree::While(sp, views(b@), views(o@)),
        PyStmt::Try(sp, b, h, o, f) => PyStmtTree::Try(
            sp,
            views(b@),
            views(h@),
            views(o@),
            views(f@),
        ),
        PyStmt::FunctionDef(f) => PyStmtTree::FunctionDef(function_layer(f)),
        PyStmt::Import(n) => PyStmtTree::Import(views(n@)),
        PyStmt::ImportFrom(m, l, n) => PyStmtTree::ImportFrom(opt_text(m), l, views(n@)),
        PyStmt::Other => PyStmtTree::Other,
    }
}

proof fn lists_are_views()
    ensures
        forall|s: Seq<PyExpr>| #[trigger] exprs_tree(s) == views(s),
        forall|s: Seq<PyKeyword>| #[trigger] keywords_tree(s) == views(s),
        forall|s: Seq<PyStmt>| #[trigger] stmts_tree(s) == views(s),
        forall|s: Seq<PyHandler>| #[trigger] handlers_tree(s) == views(s),
        forall|s: Seq<Option<PyExpr>>| #[trigger] keys_tree(s) == key_views(s),
{
    assert forall|s: Seq<PyHandler>| #[trigger] handlers_tree(s) == views(s) by {
        assert(handlers_tree(s) =~= views(s));
    }
    assert forall|s: Seq<PyExpr>| #[trigger] exprs_tree(s) == views(s) by {
        assert(exprs_tree(s) =~= views(s));
    }
    assert forall|s: Seq<PyKeyword>| #[trigger] keywords_tree(s) == views(s) by {
        assert(keywords_tree(s) =~= views(s));
    }
    assert forall|s: Seq<PyStmt>| #[trigger] stmts_tree(s) == views(s) by {
        assert(stmts_tree(s) =~= views(s));
    }
    assert forall|s: Seq<Option<PyExpr>>| #[trigger] keys_tree(s) == key_views(s) by {
        assert forall|i: int| 0 <= i < s.len() implies keys_tree(s)[i] == key_views(s)[i] by {
            reveal_with_fuel(keys_tree, 2);
            reveal_with_fuel(key_tree, 2);
        }
        assert(keys_tree(s) =~= key_views(s));
    }
}

/// A call's model, one layer down.
pub proof fn unfold_call(c: PyCall)
    ensures
        c@ == call_layer(c),
{
    reveal_with_fuel(call_tree, 2);
    lists_are_views();
    assert(exprs_tree(c.args@) == views(c.args@));
    assert(keywords_tree(c.keywords@) == views(c.keywords@));
}

/// A keyword's model.
pub proof fn unfold_keyword(k: PyKeyword)
    ensures
        k@ == (PyKeywordTree { name: opt_text(k.name), value: k.value@ }),
{
    reveal_with_fuel(keyword_tree, 2);
}

/// An expression's model, one layer down.
pub proof fn unfold_expr(e: PyExpr)
    ensures
        e@ == expr_layer(e),
{
    reveal_with_fuel(expr_tree, 2);
    lists_are_views();
    match e {
        PyExpr::Call(c) => {
            unfold_call(c);
        },
        PyExpr::List(_, v) => {
            assert(exprs_tree(v@) == views(v@));
        },
        PyExpr::Tuple(_, v) => {
            assert(exprs_tree(v@) == views(v@));
        },
        PyExpr::Compare(_, _, v) => {
            assert(exprs_tree(v@) == views(v@));
        },
        PyExpr::FString(_, v) => {
            assert(exprs_tree(v@) == views(v@));
        },
        PyExpr::Dict(_, k, v) => {
            assert(exprs_tree(v@) == views(v@));
            assert(keys_tree(k@) == key_views(k@));
        },
        _ => {},
    }
}

/// A function's model, one layer down.
pub proof fn unfold_function(f: PyFunction)
    ensures
        f@ == function_layer(f),
{
    reveal_with_fuel(function_tree, 2);
    lists_are_views();
    assert(exprs_tree(f.decorators@) == views(f.decorators@));
    assert(stmts_tree(f.body@) == views(f.body@));
}

/// A `for` statement's model, one layer down.
pub proof fn unfold_for(f: PyFor)
    ensures
        f@ == for_layer(f),
{
    reveal_with_fuel(for_tree, 2);
    lists_are_views();
    assert(stmts_tree(f.body@) == views(f.body@));
    assert(stmts_tree(f.orelse@) == views(f.orelse@));
}

/// The model of an `except` part, one layer down.
pub proof fn unfold_handler(h: PyHandler)
    ensures
        h@ == (PyHandlerTree { body: views(h.body@) }),
{
    reveal_with_fuel(handler_tree, 2);
    lists_are_views();
    assert(stmts_tree(h.body@) == views(h.body@));
}

/// A statement's model, one layer down.
pub proof fn unfold_stmt(s: PyStmt)
    ensures
        s@ == stmt_layer(s),
{
    reveal_with_fuel(stmt_tree, 2);
    lists_are_views();
    match s {
        PyStmt::Assign(t, _) => {
            assert(exprs_tree(t@) == views(t@));
        },
        PyStmt::With(i, b) => {
            assert(exprs_tree(i@) == views(i@));
            assert(stmts_tree(b@) == views(b@));
        },
        PyStmt::If(b, o) => {
            assert(stmts_tree(b@) == views(b@));
            assert(stmts_tree(o@) == views(o@));
        },
        PyStmt::AnnAssign(_, v) => {
            reveal_with_fuel(key_tree, 2);
        },
        PyStmt::While(_, b, o) => {
            assert(stmts_tree(b@) == views(b@));
            assert(stmts_tree(o@) == views(o@));
        },
        PyStmt::Try(_, b, h, o, f) => {
            assert(handlers_tree(h@) == views(h@));
            assert(stmts_tree(b@) == views(b@));
            assert(stmts_tree(o@) == views(o@));
            assert(stmts_tree(f@) == views(f@));
        },
        PyStmt::For(f) => {
            unfold_for(f);
        },
        PyStmt::FunctionDef(f) => {
            unfold_function(f);
        },
        PyStmt::Import(n) => {
            assert(aliases_tree(n@) =~= views(n@));
        },
        PyStmt::ImportFrom(_, _, n) => {
            assert(aliases_tree(n@) =~= views(n@));
        },
        _ => {},
    }
}

/// The byte range of an expression.
pub open spec fn span_of(e: PyExprTree) -> Span {
    match e {
        PyExprTree::Str(sp, _) => sp,
        PyExprTree::NoneLiteral(sp) => sp,
        PyExprTree::Literal(sp) => sp,
        PyExprTree::Name(sp, _) => sp,
        PyExprTree::Attribute(sp, _, _) => sp,
        PyExprTree::Call(c) => c.span,
        PyExprTree::Subscript(sp, _, _) => sp,
        PyExprTree::BinOp(sp, _, _) => sp,
        PyExprTree::UnaryOp(sp, _) => sp,
        PyExprTree::Compare(sp, _, _) => sp,
        PyExprTree::List(sp, _) => sp,
        PyExprTree::Tuple(sp, _) => sp,
        PyExprTree::Dict(sp, _, _) => sp,
        PyExprTree::Lambda(sp, _, _) => sp,
        PyExprTree::FString(sp, _) => sp,
        PyExprTree::Formatted(sp, _) => sp,
        PyExprTree::Other(sp) => sp,
    }
}

impl PyExpr {
    pub fn span(&self) -> (r: Span)
        ensures
            r == span_of(self@),
    {
        proof {
            unfold_expr(*self);
        }
        match self {
            PyExpr::Str(sp, _) => *sp,
            PyExpr::NoneLiteral(sp) => *sp,
            PyExpr::Literal(sp) => *sp,
            PyExpr::Name(sp, _) => *sp,
            PyExpr::Attribute(sp, _, _) => *sp,
            PyExpr::Call(c) => c.span,
            PyExpr::Subscript(sp, _, _) => *sp,
            PyExpr::BinOp(sp, _, _) => *sp,
            PyExpr::UnaryOp(sp, _) => *sp,
            PyExpr::Compare(sp, _, _) => *sp,
            PyExpr::List(sp, _) => *sp,
            PyExpr::Tuple(sp, _) => *sp,
            PyExpr::Dict(sp, _, _) => *sp,
            PyExpr::Lambda(sp, _, _) => *sp,
            PyExpr::FString(sp, _) => *sp,
            PyExpr::Formatted(sp, _) => *sp,
            PyExpr::Other(sp) => *sp,
        }
    }
}

// ─────────────────────────── the parser's nodes ───────────────────────

#[verifier::external_type_specification]
#[verifier::external_body]
pub struct ExTextRange(TextRange);

#[verifier::external_type_specification]
#[verifier::external_body]
#[verifier::reject_recursive_types(R)]
pub struct ExExpr<R>(Expr<R>);

#[verifier::external_type_specification]
#[verifier::external_body]
#[verifier::reject_recursive_types(R)]
pub struct ExStmt<R>(Stmt<R>);

#[verifier::external_type_specification]
#[verifier::external_body]
#[verifier::reject_recursive_types(R)]
pub struct ExKeyword<R>(Keyword<R>);

#[verifier::external_type_specification]
#[verifier::external_body]
#[verifier::reject_recursive_types(R)]
pub struct ExWithItem<R>(WithItem<R>);

#[verifier::external_type_specification]
#[verifier::external_body]
#[verifier::reject_recursive_types(R)]
pub struct ExAlias<R>(Alias<R>);

#[verifier::external_type_specification]
#[verifier::external_body]
#[verifier::reject_recursive_types(R)]
pub struct ExExceptHandler<R>(ExceptHandler<R>);

/// What an expression node of the parser holds.
pub uninterp spec fn expr_node(e: Expr) -> PyExprTree;

/// What a statement node of the parser holds.
pub uninterp spec fn stmt_node(s: Stmt) -> PyStmtTree;

/// What a keyword node of the parser holds.
pub uninterp spec fn keyword_node(k: Keyword) -> PyKeywordTree;

/// The context expression of an item of a `with` statement.
pub uninterp spec fn with_item_node(w: WithItem) -> PyExprTree;

/// What an `except` part of a `try` statement holds.
pub uninterp spec fn handler_node(h: ExceptHandler) -> PyHandlerTree;

/// What a name of an import holds.
pub uninterp spec fn alias_node(a: Alias) -> PyAliasTree;

/// The statements of a Python source text, or the parser's message.
pub uninterp spec fn python_parse(source: Seq<char>) -> Result<Seq<PyStmtTree>, Seq<char>>;

pub open spec fn expr_nodes(s: Seq<Expr>) -> Seq<PyExprTree> {
    Seq::new(s.len(), |i: int| expr_node(s[i]))
}

pub open spec fn key_nodes(s: Seq<Option<Expr>>) -> Seq<Option<PyExprTree>> {
    Seq::new(
        s.len(),
        |i: int|
            match s[i] {
                Some(e) => Some(expr_node(e)),
                None => None,
            },
    )
}

pub open spec fn keyword_nodes(s: Seq<Keyword>) -> Seq<PyKeywordTree> {
    Seq::new(s.len(), |i: int| keyword_node(s[i]))
}

pub open spec fn with_item_nodes(s: Seq<WithItem>) -> Seq<PyExprTree> {
    Seq::new(s.len(), |i: int| with_item_node(s[i]))
}

pub open spec fn alias_nodes(s: Seq<Alias>) -> Seq<PyAliasTree> {
    Seq::new(s.len(), |i: int| alias_node(s[i]))
}

pub open spec fn handler_nodes(s: Seq<ExceptHandler>) -> Seq<PyHandlerTree> {
    Seq::new(s.len(), |i: int| handler_node(s[i]))
}

/// The node of a value that may be absent.
pub(crate) open spec fn opt_node(v: Option<&Expr>) -> Option<PyExprTree> {
    match v {
        Some(e) => Some(expr_node(*e)),
        None => None,
    }
}

pub open spec fn stmt_nodes(s: Seq<Stmt>) -> Seq<PyStmtTree> {
    Seq::new(s.len(), |i: int| stmt_node(s[i]))
}

/// The outermost layer of an expression node.
pub(crate) enum ExprShape<'a> {
    Name(String),
    Attribute(&'a Expr, String),
    Call(&'a Expr, &'a Vec<Expr>, &'a Vec<Keyword>),
    Subscript(&'a Expr, &'a Expr),
    BinOp(&'a Expr, &'a Expr),
    UnaryOp(&'a Expr),
    Rest,
}

/// The outermost layer of the expression nodes that are dict displays, lambdas,
/// f-strings or comparisons.
pub(crate) enum RestShape<'a> {
    Dict(&'a Vec<Option<Expr>>, &'a Vec<Expr>),
    Lambda(Option<String>, &'a Expr),
    FString(&'a Vec<Expr>),
    Formatted(&'a Expr),
    Compare(&'a Expr, &'a Vec<Expr>),
    Rest,
}

/// The outermost layer of the expression nodes that are constants or sequences.
pub(crate) enum PlainShape<'a> {
    Str(String),
    NoneLiteral,
    Literal,
    List(&'a Vec<Expr>),
    Tuple(&'a Vec<Expr>),
    Other,
}

pub(crate) open spec fn has_expr_shape(t: PyExprTree, s: ExprShape) -> bool {
    let sp = span_of(t);
    match s {
        ExprShape::Name(n) => t == PyExprTree::Name(sp, n@),
        ExprShape::Attribute(v, a) => t == PyExprTree::Attribute(sp, Box::new(expr_node(*v)), a@),
        ExprShape::Call(f, a, k) => t == PyExprTree::Call(
            PyCallTree {
                span: sp,
                func: Box::new(expr_node(*f)),
                args: expr_nodes(a@),
                keywords: keyword_nodes(k@),
            },
        ),
        ExprShape::Subscript(v, i) => t == PyExprTree::Subscript(
            sp,
            Box::new(expr_node(*v)),
            Box::new(expr_node(*i)),
        ),
        ExprShape::BinOp(l, r) => t == PyExprTree::BinOp(
            sp,
            Box::new(expr_node(*l)),
            Box::new(expr_node(*r)),
        ),
        ExprShape::UnaryOp(o) => t == PyExprTree::UnaryOp(sp, Box::new(expr_node(*o))),
        ExprShape::Rest => !(t is Name || t is Attribute || t is Call || t is Subscript || t is BinOp
            || t is UnaryOp),
    }
}

pub(crate) open spec fn has_rest_shape(t: PyExprTree, s: RestShape) -> bool {
    let sp = span_of(t);
    match s {
        RestShape::Dict(k, v) => t == PyExprTree::Dict(sp, key_nodes(k@), expr_nodes(v@)),
        RestShape::Lambda(p, b) => t == PyExprTree::Lambda(
            sp,
            opt_text(p),
            Box::new(expr_node(*b)),
        ),
        RestShape::FString(v) => t == PyExprTree::FString(sp, expr_nodes(v@)),
        RestShape::Formatted(v) => t == PyExprTree::Formatted(sp, Box::new(expr_node(*v))),
        RestShape::Compare(l, v) => t == PyExprTree::Compare(
            sp,
            Box::new(expr_node(*l)),
            expr_nodes(v@),
        ),
        RestShape::Rest => !(t is Dict || t is Lambda || t is FString || t is Formatted
            || t is Compare),
    }
}

pub(crate) open spec fn has_plain_shape(t: PyExprTree, s: PlainShape) -> bool {
    let sp = span_of(t);
    match s {
        PlainShape::Str(n) => t == PyExprTree::Str(sp, n@),
        PlainShape::NoneLiteral => t == PyExprTree::NoneLiteral(sp),
        PlainShape::Literal => t == PyExprTree::Literal(sp),
        PlainShape::List(v) => t == PyExprTree::List(sp, expr_nodes(v@)),
        PlainShape::Tuple(v) => t == PyExprTree::Tuple(sp, expr_nodes(v@)),
        PlainShape::Other => !(t is Str || t is NoneLiteral || t is Literal || t is List
            || t is Tuple),
    }
}

/// The variant of `rustpython_ast::Expr` with the fields that the tree keeps.
#[verifier::external_body]
fn expr_shape(e: &Expr) -> (r: ExprShape<'_>)
    ensures
        has_expr_shape(expr_node(*e), r),
{
    match e {
        Expr::Name(n) => ExprShape::Name(n.id.to_string()),
        Expr::Attribute(a) => ExprShape::Attribute(&a.value, a.attr.to_string()),
        Expr::Call(c) => ExprShape::Call(&c.func, &c.args, &c.keywords),
        Expr::Subscript(s) => ExprShape::Subscript(&s.value, &s.slice),
        Expr::BinOp(b) => ExprShape::BinOp(&b.left, &b.right),
        Expr::UnaryOp(u) => ExprShape::UnaryOp(&u.operand),
        _ => ExprShape::Rest,
    }
}

/// The variant of `rustpython_ast::Expr` with the fields that the tree keeps,
/// for the variants that `expr_shape` leaves out. Of a lambda the tree keeps
/// the first of the parameters that may be given by position or by name.
#[verifier::external_body]
fn rest_shape(e: &Expr) -> (r: RestShape<'_>)
    ensures
        has_rest_shape(expr_node(*e), r),
{
    match e {
        Expr::Dict(d) => RestShape::Dict(&d.keys, &d.values),
        Expr::Lambda(l) => {
            let first = l.args.args.first().map(|a| a.def.arg.to_string());
            RestShape::Lambda(first, &l.body)
        },
        Expr::JoinedStr(j) => RestShape::FString(&j.values),
        Expr::FormattedValue(f) => RestShape::Formatted(&f.value),
        Expr::Compare(c) => RestShape::Compare(&c.left, &c.comparators),
        _ => RestShape::Rest,
    }
}

/// The variant of `rustpython_ast::Expr` with the fields that the tree keeps,
/// for constants, lists and tuples. Of a constant that is neither a text nor
/// `None` the tree keeps no value.
#[verifier::external_body]
fn plain_shape(e: &Expr) -> (r: PlainShape<'_>)
    ensures
        has_plain_shape(expr_node(*e), r),
{
    match e {
        Expr::Constant(ExprConstant { value: Constant::Str(s), .. }) => PlainShape::Str(s.clone()),
        Expr::Constant(ExprConstant { value: Constant::None, .. }) => PlainShape::NoneLiteral,
        Expr::Constant(_) => PlainShape::Literal,
        Expr::List(l) => PlainShape::List(&l.elts),
        Expr::Tuple(t) => PlainShape::Tuple(&t.elts),
        _ => PlainShape::Other,
    }
}

/// `Ranged::range` of an expression: its byte range in the source.
#[verifier::external_body]
fn expr_span(e: &Expr) -> (r: Span)
    ensures
        r == span_of(expr_node(*e)),
{
    let range = e.range();
    Span { start: range.start().to_usize(), end: range.end().to_usize() }
}

/// The fields of `rustpython_ast::Keyword`.
#[verifier::external_body]
fn keyword_parts(k: &Keyword) -> (r: (Option<String>, &Expr))
    ensures
        keyword_node(*k) == (PyKeywordTree { name: opt_text(r.0), value: expr_node(*r.1) }),
{
    (k.arg.as_ref().map(|a| a.to_string()), &k.value)
}

/// The context expression of `rustpython_ast::WithItem`.
#[verifier::external_body]
fn with_item_expr(w: &WithItem) -> (r: &Expr)
    ensures
        with_item_node(*w) == expr_node(*r),
{
    &w.context_expr
}

/// The fields of `rustpython_ast::Alias`.
#[verifier::external_body]
fn alias_parts(a: &Alias) -> (r: PyAlias)
    ensures
        alias_node(*a) == r@,
{
    PyAlias { name: a.name.to_string(), asname: a.asname.as_ref().map(|n| n.to_string()) }
}

/// The outermost layer of a statement node that is a block.
pub(crate) enum BlockShape<'a> {
    With(&'a Vec<WithItem>, &'a Vec<Stmt>),
    If(&'a Vec<Stmt>, &'a Vec<Stmt>),
    For(&'a Expr, &'a Expr, &'a Vec<Stmt>, &'a Vec<Stmt>),
    While(&'a Vec<Stmt>, &'a Vec<Stmt>),
    Try(&'a Vec<Stmt>, &'a Vec<ExceptHandler>, &'a Vec<Stmt>, &'a Vec<Stmt>),
    FunctionDef(String, &'a Vec<Expr>, &'a Vec<Stmt>),
    Rest,
}

/// The outermost layer of a statement node that is not a block.
pub(crate) enum LineShape<'a> {
    Assign(&'a Vec<Expr>, &'a Expr),
    Expr(&'a Expr),
    Import(&'a Vec<Alias>),
    ImportFrom(Option<String>, Option<usize>, &'a Vec<Alias>),
    Other,
}

/// The outermost layer of an assignment that is not a plain one.
pub(crate) enum UpdateShape<'a> {
    AugAssign(&'a Expr, &'a Expr),
    AnnAssign(&'a Expr, Option<&'a Expr>),
    Other,
}

/// The byte range of a statement that keeps one.
pub open spec fn stmt_span_of(t: PyStmtTree) -> Span {
    match t {
        PyStmtTree::For(f) => f.span,
        PyStmtTree::FunctionDef(f) => f.span,
        PyStmtTree::While(sp, _, _) => sp,
        PyStmtTree::Try(sp, _, _, _, _) => sp,
        _ => Span { start: 0, end: 0 },
    }
}

pub(crate) open spec fn has_block_shape(t: PyStmtTree, s: BlockShape) -> bool {
    match s {
        BlockShape::With(i, b) => t == PyStmtTree::With(with_item_nodes(i@), stmt_nodes(b@)),
        BlockShape::If(b, o) => t == PyStmtTree::If(stmt_nodes(b@), stmt_nodes(o@)),
        BlockShape::For(x, i, b, o) => t == PyStmtTree::For(
            PyForTree {
                span: stmt_span_of(t),
                target: expr_node(*x),
                iter: expr_node(*i),
                body: stmt_nodes(b@),
                orelse: stmt_nodes(o@),
            },
        ),
        BlockShape::While(b, o) => t == PyStmtTree::While(
            stmt_span_of(t),
            stmt_nodes(b@),
            stmt_nodes(o@),
        ),
        BlockShape::Try(b, h, o, f) => t == PyStmtTree::Try(
            stmt_span_of(t),
            stmt_nodes(b@),
            handler_nodes(h@),
            stmt_nodes(o@),
            stmt_nodes(f@),
        ),
        BlockShape::FunctionDef(n, d, b) => t == PyStmtTree::FunctionDef(
            PyFunctionTree {
                span: stmt_span_of(t),
                name: n@,
                decorators: expr_nodes(d@),
                body: stmt_nodes(b@),
            },
        ),
        BlockShape::Rest => !(t is With || t is If || t is For || t is While || t is Try
            || t is FunctionDef),
    }
}

pub(crate) open spec fn has_line_shape(t: PyStmtTree, s: LineShape) -> bool {
    match s {
        LineShape::Assign(x, v) => t == PyStmtTree::Assign(expr_nodes(x@), expr_node(*v)),
        LineShape::Expr(e) => t == PyStmtTree::Expr(expr_node(*e)),
        LineShape::Import(n) => t == PyStmtTree::Import(alias_nodes(n@)),
        LineShape::ImportFrom(m, l, n) => t == PyStmtTree::ImportFrom(
            opt_text(m),
            match l {
                Some(dots) => dots,
                None => 0,
            },
            alias_nodes(n@),
        ),
        LineShape::Other => !(t is Assign || t is Expr || t is Import || t is ImportFrom),
    }
}

pub(crate) open spec fn has_update_shape(t: PyStmtTree, s: UpdateShape) -> bool {
    match s {
        UpdateShape::AugAssign(x, v) => t == PyStmtTree::AugAssign(expr_node(*x), expr_node(*v)),
        UpdateShape::AnnAssign(x, v) => t == PyStmtTree::AnnAssign(expr_node(*x), opt_node(v)),
        UpdateShape::Other => !(t is AugAssign || t is AnnAssign),
    }
}

/// The variant of `rustpython_ast::Stmt` with the fields that the tree keeps,
/// for the variants that hold statements.
#[verifier::external_body]
fn block_shape(s: &Stmt) -> (r: BlockShape<'_>)
    ensures
        has_block_shape(stmt_node(*s), r),
{
    match s {
        Stmt::With(w) => BlockShape::With(&w.items, &w.body),
        Stmt::If(i) => BlockShape::If(&i.body, &i.orelse),
        Stmt::For(f) => BlockShape::For(&f.target, &f.iter, &f.body, &f.orelse),
        Stmt::While(w) => BlockShape::While(&w.body, &w.orelse),
        Stmt::Try(t) => BlockShape::Try(&t.body, &t.handlers, &t.orelse, &t.finalbody),
        Stmt::FunctionDef(f) => {
            BlockShape::FunctionDef(f.name.to_string(), &f.decorator_list, &f.body)
        },
        _ => BlockShape::Rest,
    }
}

/// The variant of `rustpython_ast::Stmt` with the fields that the tree keeps,
/// for the variants that hold no statements. Without leading dots the level of
/// a `from` import is absent or zero.
#[verifier::external_body]
fn line_shape(s: &Stmt) -> (r: LineShape<'_>)
    ensures
        has_line_shape(stmt_node(*s), r),
{
    match s {
        Stmt::Assign(a) => LineShape::Assign(&a.targets, &a.value),
        Stmt::Expr(e) => LineShape::Expr(&e.value),
        Stmt::Import(i) => LineShape::Import(&i.names),
        Stmt::ImportFrom(i) => {
            let module = i.module.as_ref().map(|m| m.to_string());
            LineShape::ImportFrom(module, i.level.as_ref().map(|l| l.to_usize()), &i.names)
        },
        _ => LineShape::Other,
    }
}

/// The variant of `rustpython_ast::Stmt` with the fields that the tree keeps,
/// for assignments with an operator or with a type.
#[verifier::external_body]
fn update_shape(s: &Stmt) -> (r: UpdateShape<'_>)
    ensures
        has_update_shape(stmt_node(*s), r),
{
    match s {
        Stmt::AugAssign(a) => UpdateShape::AugAssign(&a.target, &a.value),
        Stmt::AnnAssign(a) => UpdateShape::AnnAssign(&a.target, a.value.as_deref()),
        _ => UpdateShape::Other,
    }
}

/// The body of `rustpython_ast::ExceptHandler`.
#[verifier::external_body]
fn handler_body(h: &ExceptHandler) -> (r: &Vec<Stmt>)
    ensures
        handler_node(*h) == (PyHandlerTree { body: stmt_nodes(r@) }),
{
    let ExceptHandler::ExceptHandler(x) = h;
    &x.body
}

/// `Ranged::range` of a statement: its byte range in the source.
#[verifier::external_body]
fn stmt_span(s: &Stmt) -> (r: Span)
    ensures
        stmt_node(*s) is For || stmt_node(*s) is FunctionDef || stmt_node(*s) is While || stmt_node(
            *s,
        ) is Try ==> r == stmt_span_of(stmt_node(*s)),
{
    let range = s.range();
    Span { start: range.start().to_usize(), end: range.end().to_usize() }
}

/// `rustpython_parser::Parse::parse` of a module: its statements, or the
/// message of the parse error. The parser counts bytes in 32 bits.
#[verifier::external_body]
fn parse_suite(source: &str) -> (r: Result<Vec<Stmt>, String>)
    requires
        fits(source@),
    ensures
        match r {
            Ok(v) => python_parse(source@) == Ok::<Seq<PyStmtTree>, Seq<char>>(stmt_nodes(v@)),
            Err(m) => python_parse(source@) == Err::<Seq<PyStmtTree>, Seq<char>>(m@),
        },
{
    Suite::parse(source, "<module>").map_err(|e| e.to_string())
}

// ──────────────────────────── taking it over ──────────────────────────

fn import_expr(e: &Expr) -> (r: PyExpr)
    ensures
        r@ == expr_node(*e),
    decreases expr_node(*e),
{
    let sp = expr_span(e);
    let ghost t = expr_node(*e);
    let r = match expr_shape(e) {
        ExprShape::Name(n) => PyExpr::Name(sp, n),
        ExprShape::Attribute(v, a) => {
            assert(decreases_to!(t => *t->Attribute_1));
            PyExpr::Attribute(sp, Box::new(import_expr(v)), a)
        },
        ExprShape::Call(f, a, k) => {
            assert(decreases_to!(t => t->Call_0));
            assert(decreases_to!(t->Call_0 => *t->Call_0.func));
            assert(decreases_to!(t->Call_0 => t->Call_0.args));
            assert(decreases_to!(t->Call_0 => t->Call_0.keywords));
            let func = Box::new(import_expr(f));
            let args = import_exprs(a);
            let keywords = import_keywords(k);
            PyExpr::Call(PyCall { span: sp, func, args, keywords })
        },
        ExprShape::Subscript(v, s) => {
            assert(decreases_to!(t => *t->Subscript_1));
            assert(decreases_to!(t => *t->Subscript_2));
            PyExpr::Subscript(sp, Box::new(import_expr(v)), Box::new(import_expr(s)))
        },
        ExprShape::BinOp(l, rhs) => {
            assert(decreases_to!(t => *t->BinOp_1));
            assert(decreases_to!(t => *t->BinOp_2));
            PyExpr::BinOp(sp, Box::new(import_expr(l)), Box::new(import_expr(rhs)))
        },
        ExprShape::UnaryOp(o) => {
            assert(decreases_to!(t => *t->UnaryOp_1));
            PyExpr::UnaryOp(sp, Box::new(import_expr(o)))
        },
        ExprShape::Rest => match rest_shape(e) {
            RestShape::Dict(k, v) => {
                assert(decreases_to!(t => t->Dict_1));
                assert(decreases_to!(t => t->Dict_2));
                let keys = import_keys(k);
                PyExpr::Dict(sp, keys, import_exprs(v))
            },
            RestShape::Lambda(p, b) => {
                assert(decreases_to!(t => *t->Lambda_2));
                PyExpr::Lambda(sp, p, Box::new(import_expr(b)))
            },
            RestShape::FString(v) => {
                assert(decreases_to!(t => t->FString_1));
                PyExpr::FString(sp, import_exprs(v))
            },
            RestShape::Formatted(v) => {
                assert(decreases_to!(t => *t->Formatted_1));
                PyExpr::Formatted(sp, Box::new(import_expr(v)))
            },
            RestShape::Compare(l, v) => {
                assert(decreases_to!(t => *t->Compare_1));
                assert(decreases_to!(t => t->Compare_2));
                let left = Box::new(import_expr(l));
                PyExpr::Compare(sp, left, import_exprs(v))
            },
            RestShape::Rest => match plain_shape(e) {
                PlainShape::Str(s) => PyExpr::Str(sp, s),
                PlainShape::NoneLiteral => PyExpr::NoneLiteral(sp),
                PlainShape::Literal => PyExpr::Literal(sp),
                PlainShape::List(v) => {
                    assert(decreases_to!(t => t->List_1));
                    PyExpr::List(sp, import_exprs(v))
                },
                PlainShape::Tuple(v) => {
                    assert(decreases_to!(t => t->Tuple_1));
                    PyExpr::Tuple(sp, import_exprs(v))
                },
                PlainShape::Other => PyExpr::Other(sp),
            },
        },
    };
    proof {
        unfold_expr(r);
    }
    r
}

fn import_exprs(v: &Vec<Expr>) -> (r: Vec<PyExpr>)
    ensures
        views(r@) == expr_nodes(v@),
    decreases expr_nodes(v@),
{
    let mut out: Vec<PyExpr> = Vec::new();
    let mut i: usize = 0;
    while i < v.len()
        invariant
            i <= v@.len(),
            out@.len() == i,
            forall|k: int| 0 <= k < i ==> (#[trigger] out@[k])@ == expr_node(v@[k]),
        decreases v@.len() - i,
    {
        assert(expr_nodes(v@)[i as int] == expr_node(v@[i as int]));
        let x = import_expr(&v[i]);
        out.push(x);
        i = i + 1;
    }
    assert(views(out@) =~= expr_nodes(v@));
    out
}

fn import_keys(v: &Vec<Option<Expr>>) -> (r: Vec<Option<PyExpr>>)
    ensures
        key_views(r@) == key_nodes(v@),
    decreases key_nodes(v@),
{
    let mut out: Vec<Option<PyExpr>> = Vec::new();
    let mut i: usize = 0;
    while i < v.len()
        invariant
            i <= v@.len(),
            out@.len() == i,
            forall|k: int| 0 <= k < i ==> #[trigger] key_views(out@)[k] == key_nodes(v@)[k],
        decreases v@.len() - i,
    {
        let ghost n = key_nodes(v@)[i as int];
        let x = match &v[i] {
            Some(e) => {
                assert(n == Some(expr_node(*e)));
                assert(decreases_to!(key_nodes(v@) => n));
                assert(decreases_to!(n => n->Some_0));
                Some(import_expr(e))
            },
            None => None,
        };
        let ghost before = out@;
        out.push(x);
        assert(key_views(out@) =~= key_views(before).push(n));
        i = i + 1;
    }
    assert(key_views(out@) =~= key_nodes(v@));
    out
}

fn import_keywords(v: &Vec<Keyword>) -> (r: Vec<PyKeyword>)
    ensures
        views(r@) == keyword_nodes(v@),
    decreases keyword_nodes(v@),
{
    let mut out: Vec<PyKeyword> = Vec::new();
    let mut i: usize = 0;
    while i < v.len()
        invariant
            i <= v@.len(),
            out@.len() == i,
            forall|k: int| 0 <= k < i ==> (#[trigger] out@[k])@ == keyword_node(v@[k]),
        decreases v@.len() - i,
    {
        let ghost n = keyword_nodes(v@)[i as int];
        assert(n == keyword_node(v@[i as int]));
        let (name, e) = keyword_parts(&v[i]);
        assert(decreases_to!(keyword_nodes(v@) => n));
        assert(decreases_to!(n => n.value));
        let value = import_expr(e);
        let k = PyKeyword { name, value };
        proof {
            unfold_keyword(k);
        }
        out.push(k);
        i = i + 1;
    }
    assert(views(out@) =~= keyword_nodes(v@));
    out
}

fn import_with_items(v: &Vec<WithItem>) -> (r: Vec<PyExpr>)
    ensures
        views(r@) == with_item_nodes(v@),
{
    let mut out: Vec<PyExpr> = Vec::new();
    let mut i: usize = 0;
    while i < v.len()
        invariant
            i <= v@.len(),
            out@.len() == i,
            forall|k: int| 0 <= k < i ==> (#[trigger] out@[k])@ == with_item_node(v@[k]),
        decreases v@.len() - i,
    {
        let e = with_item_expr(&v[i]);
        out.push(import_expr(e));
        i = i + 1;
    }
    assert(views(out@) =~= with_item_nodes(v@));
    out
}

fn import_aliases(v: &Vec<Alias>) -> (r: Vec<PyAlias>)
    ensures
        views(r@) == alias_nodes(v@),
{
    let mut out: Vec<PyAlias> = Vec::new();
    let mut i: usize = 0;
    while i < v.len()
        invariant
            i <= v@.len(),
            out@.len() == i,
            forall|k: int| 0 <= k < i ==> (#[trigger] out@[k])@ == alias_node(v@[k]),
        decreases v@.len() - i,
    {
        out.push(alias_parts(&v[i]));
        i = i + 1;
    }
    assert(views(out@) =~= alias_nodes(v@));
    out
}

fn import_stmt(s: &Stmt) -> (r: PyStmt)
    ensures
        r@ == stmt_node(*s),
    decreases stmt_node(*s),
{
    let ghost t = stmt_node(*s);
    let sp = stmt_span(s);
    let r = match block_shape(s) {
        BlockShape::With(i, b) => {
            assert(decreases_to!(t => t->With_1));
            let items = import_with_items(i);
            PyStmt::With(items, import_stmts(b))
        },
        BlockShape::If(b, o) => {
            assert(decreases_to!(t => t->If_0));
            assert(decreases_to!(t => t->If_1));
            let body = import_stmts(b);
            PyStmt::If(body, import_stmts(o))
        },
        BlockShape::For(x, i, b, o) => {
            assert(decreases_to!(t => t->For_0));
            assert(decreases_to!(t->For_0 => t->For_0.body));
            assert(decreases_to!(t->For_0 => t->For_0.orelse));
            let target = import_expr(x);
            let iter = import_expr(i);
            let body = import_stmts(b);
            let orelse = import_stmts(o);
            PyStmt::For(PyFor { span: sp, target, iter, body, orelse })
        },
        BlockShape::While(b, o) => {
            assert(decreases_to!(t => t->While_1));
            assert(decreases_to!(t => t->While_2));
            let body = import_stmts(b);
            PyStmt::While(sp, body, import_stmts(o))
        },
        BlockShape::Try(b, h, o, f) => {
            assert(decreases_to!(t => t->Try_1));
            assert(decreases_to!(t => t->Try_2));
            assert(decreases_to!(t => t->Try_3));
            assert(decreases_to!(t => t->Try_4));
            let body = import_stmts(b);
            let handlers = import_handlers(h);
            let orelse = import_stmts(o);
            PyStmt::Try(sp, body, handlers, orelse, import_stmts(f))
        },
        BlockShape::FunctionDef(name, d, b) => {
            assert(decreases_to!(t => t->FunctionDef_0));
            assert(decreases_to!(t->FunctionDef_0 => t->FunctionDef_0.body));
            let decorators = import_exprs(d);
            let body = import_stmts(b);
            PyStmt::FunctionDef(PyFunction { span: sp, name, decorators, body })
        },
        BlockShape::Rest => match line_shape(s) {
            LineShape::Assign(x, v) => {
                let targets = import_exprs(x);
                PyStmt::Assign(targets, import_expr(v))
            },
            LineShape::Expr(e) => PyStmt::Expr(import_expr(e)),
            LineShape::Import(n) => PyStmt::Import(import_aliases(n)),
            LineShape::ImportFrom(m, l, n) => {
                let level: usize = match l {
                    Some(dots) => dots,
                    None => 0,
                };
                PyStmt::ImportFrom(m, level, import_aliases(n))
            },
            LineShape::Other => match update_shape(s) {
                UpdateShape::AugAssign(x, v) => {
                    let target = import_expr(x);
                    PyStmt::AugAssign(target, import_expr(v))
                },
                UpdateShape::AnnAssign(x, v) => {
                    let target = import_expr(x);
                    let value = match v {
                        Some(e) => Some(import_expr(e)),
                        None => None,
                    };
                    PyStmt::AnnAssign(target, value)
                },
                UpdateShape::Other => PyStmt::Other,
            },
        },
    };
    proof {
        unfold_stmt(r);
    }
    r
}

fn import_stmts(v: &Vec<Stmt>) -> (r: Vec<PyStmt>)
    ensures
        views(r@) == stmt_nodes(v@),
    decreases stmt_nodes(v@),
{
    let mut out: Vec<PyStmt> = Vec::new();
    let mut i: usize = 0;
    while i < v.len()
        invariant
            i <= v@.len(),
            out@.len() == i,
            forall|k: int| 0 <= k < i ==> (#[trigger] out@[k])@ == stmt_node(v@[k]),
        decreases v@.len() - i,
    {
        assert(stmt_nodes(v@)[i as int] == stmt_node(v@[i as int]));
        let x = import_stmt(&v[i]);
        out.push(x);
        i = i + 1;
    }
    assert(views(out@) =~= stmt_nodes(v@));
    out
}

fn import_handlers(v: &Vec<ExceptHandler>) -> (r: Vec<PyHandler>)
    ensures
        views(r@) == handler_nodes(v@),
    decreases handler_nodes(v@),
{
    let mut out: Vec<PyHandler> = Vec::new();
    let mut i: usize = 0;
    while i < v.len()
        invariant
            i <= v@.len(),
            out@.len() == i,
            forall|k: int| 0 <= k < i ==> (#[trigger] out@[k])@ == handler_node(v@[k]),
        decreases v@.len() - i,
    {
        let ghost n = handler_nodes(v@)[i as int];
        assert(n == handler_node(v@[i as int]));
        assert(decreases_to!(handler_nodes(v@) => n));
        assert(decreases_to!(n => n.body));
        let h = PyHandler { body: import_stmts(handler_body(&v[i])) };
        proof {
            unfold_handler(h);
        }
        out.push(h);
        i = i + 1;
    }
    assert(views(out@) =~= handler_nodes(v@));
    out
}

/// The result of parsing a text, in terms of a list of statements.
pub open spec fn is_parse_of(
    r: Result<Seq<PyStmtTree>, Seq<char>>,
    out: Result<Vec<PyStmt>, String>,
) -> bool {
    match out {
        Ok(v) => r == Ok::<Seq<PyStmtTree>, Seq<char>>(views(v@)),
        Err(m) => r == Err::<Seq<PyStmtTree>, Seq<char>>(m@),
    }
}

/// Parses a Python module into the plain tree.
pub fn parse_module(source: &str) -> (r: Result<Vec<PyStmt>, String>)
    requires
        fits(source@),
    ensures
        is_parse_of(python_parse(source@), r),
{
    match parse_suite(source) {
        Ok(v) => Ok(import_stmts(&v)),
        Err(m) => Err(m),
    }
}

} // verus!

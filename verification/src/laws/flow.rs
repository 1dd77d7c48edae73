//! The columns that a function body makes and the expressions that they are
//! made from: which columns an expression reads, and which sources a traced
//! column has.

use vstd::prelude::*;

use crate::flow::{
    agg_aliased, agg_aliased_advances, agg_dict, agg_dict_advances, agg_name, agg_named,
    agg_named_advances, aggregated, arg_text, assigned_columns, assigned_columns_advances,
    assigned_to, base_ref, base_table, begins, begins_self, by_noted, by_noted_advances, calls,
    col_name, cols_of, const_text, dataflow_of, defaulted, finished, flow_kind, fragment_mappings,
    fragment_refs, fresh_flow, group_names, grouped, grouped_advances, innermost, is_apply,
    is_df_method, is_pure_ref, keys_noted, keys_noted_advances, keyword_cols, list_cols,
    mapping_refs, noted, op_column, operated, operated_advances, operated_chain, placed,
    placed_columns, recorded, renamed, renamed_advances, renamed_dict, renamed_dict_advances,
    rendered, rendered_refs, selected, selected_advances, selected_one, selected_one_advances,
    selected_sql, selected_sql_advances, shorter, sql_items, sql_items_advances, stepped,
    value_refs, walked, Flow, InferredColumnView, Scope,
};
use crate::laws::reading::{joined_has, pushed_has};
use crate::model::TransformType;
use crate::pyast::{span_of, PyCallTree, PyExprTree, PyKeywordTree, PyStmtTree, Span};
use crate::source::label_of;
use crate::sql::{sql_lineage, SqlColRefView, SqlMappingView};

verus! {

// ─────────────────────────── parts of expressions ─────────────────────

/// What a call is made on, where its callee is a method.
pub open spec fn receiver(c: PyCallTree) -> Seq<PyExprTree> {
    match *c.func {
        PyExprTree::Attribute(_, v, _) => seq![*v],
        _ => Seq::empty(),
    }
}

/// The values of the keywords of a call.
pub open spec fn keyword_values(k: Seq<PyKeywordTree>) -> Seq<PyExprTree> {
    Seq::new(k.len(), |i: int| k[i].value)
}

/// The column that a call names: `col("c")` or `column("c")`.
pub open spec fn names_column(c: PyCallTree) -> Option<Seq<char>> {
    if c.args.len() == 1 && c.args[0] is Str && (ends_in(c, "col"@) || ends_in(c, "column"@)) {
        Some(c.args[0]->Str_1)
    } else {
        None
    }
}

/// The SQL expression that a call quotes: `expr("…")`.
pub open spec fn quotes_sql(c: PyCallTree) -> Option<Seq<char>> {
    if c.args.len() == 1 && c.args[0] is Str && ends_in(c, "expr"@) {
        Some(c.args[0]->Str_1)
    } else {
        None
    }
}

/// True when the name that is called ends in the segment.
pub open spec fn ends_in(c: PyCallTree, segment: Seq<char>) -> bool {
    match *c.func {
        PyExprTree::Name(_, n) => n == segment,
        PyExprTree::Attribute(_, _, a) => a == segment,
        _ => false,
    }
}

/// What is read of an expression, in reading order: of a call its receiver,
/// its arguments and the values of its keywords.
pub open spec fn parts(e: PyExprTree) -> Seq<PyExprTree> {
    match e {
        PyExprTree::Subscript(_, v, _) => seq![*v],
        PyExprTree::Attribute(_, v, _) => seq![*v],
        PyExprTree::Call(c) => if names_column(c) is Some || quotes_sql(c) is Some {
            Seq::empty()
        } else {
            receiver(c) + c.args + keyword_values(c.keywords)
        },
        PyExprTree::BinOp(_, l, r) => seq![*l, *r],
        PyExprTree::UnaryOp(_, o) => seq![*o],
        PyExprTree::Compare(_, l, v) => seq![*l] + v,
        PyExprTree::List(_, v) => v,
        PyExprTree::Tuple(_, v) => v,
        _ => Seq::empty(),
    }
}

/// True when `x` is one of the parts of `e`.
pub open spec fn is_part(x: PyExprTree, e: PyExprTree) -> bool {
    parts(e).contains(x)
}

/// True when `x` lies in `e`, that many parts deep.
pub open spec fn lies_in(x: PyExprTree, e: PyExprTree, depth: nat) -> bool
    decreases depth,
{
    if depth == 0 {
        x == e
    } else {
        exists|y: PyExprTree| #[trigger] is_part(y, e) && lies_in(x, y, (depth - 1) as nat)
    }
}

/// True when `x` is read somewhere in `e`.
pub open spec fn occurs(x: PyExprTree, e: PyExprTree) -> bool {
    exists|depth: nat| lies_in(x, e, depth)
}

// ─────────────────────────────── references ───────────────────────────

/// The table of a variable that columns are read from: a frame, or the row of
/// a lambda.
pub open spec fn is_base(sc: Scope, id: Seq<char>, table: Option<Seq<char>>) -> bool {
    if sc.frames.contains_key(id) {
        table == sc.frames[id]
    } else {
        sc.row == Some((id, table))
    }
}

/// True when the expression stands for the text when the code is read: it is
/// that literal, or a name that holds it. The variable of a loop that is
/// unrolled goes before a local variable, and that before a constant.
pub open spec fn is_text(sc: Scope, e: PyExprTree, text: Seq<char>) -> bool {
    match e {
        PyExprTree::Str(_, s) => s == text,
        PyExprTree::Name(_, n) => if sc.loop_var is Some && (sc.loop_var->0).0 == n {
            (sc.loop_var->0).1 == text
        } else if sc.locals.contains_key(n) {
            sc.locals[n] == Some(text)
        } else {
            sc.consts.contains_key(n) && sc.consts[n] == text
        },
        _ => false,
    }
}

proof fn name_is_text(sc: Scope, e: PyExprTree)
    ensures
        col_name(sc, e) is Some ==> is_text(sc, e, col_name(sc, e)->0),
        forall|t: Seq<char>| #[trigger] is_text(sc, e, t) ==> col_name(sc, e) == Some(t),
{
}

/// True when the expression is a reference to the column: `frame["c"]`,
/// `frame.c` where that is no method of a frame, or `col("c")`.
pub open spec fn refers_to(sc: Scope, e: PyExprTree, r: SqlColRefView) -> bool {
    match e {
        PyExprTree::Subscript(_, v, key) => (*v) is Name && is_base(sc, (*v)->Name_1, r.table)
            && is_text(sc, *key, r.column),
        PyExprTree::Attribute(_, v, a) => (*v) is Name && is_base(sc, (*v)->Name_1, r.table)
            && !is_df_method(a) && a == r.column,
        PyExprTree::Call(c) => names_column(c) == Some(r.column) && r.table is None,
        _ => false,
    }
}

/// True when the SQL expression that the call quotes refers to the column.
pub open spec fn quotes_reference(e: PyExprTree, r: SqlColRefView) -> bool {
    &&& e is Call
    &&& names_column(e->Call_0) is None
    &&& quotes_sql(e->Call_0) matches Some(frag) && has_source(
        sql_lineage("SELECT "@ + (frag + " AS __tw_expr"@)).mappings,
        r,
    )
}

/// True when one of the mappings has the column as a source.
pub open spec fn has_source(ms: Seq<SqlMappingView>, r: SqlColRefView) -> bool {
    exists|k: int| 0 <= k < ms.len() && (#[trigger] ms[k]).sources.contains(r)
}

/// True when the expression reads the column somewhere.
pub open spec fn reads(sc: Scope, e: PyExprTree, r: SqlColRefView) -> bool {
    exists|x: PyExprTree| #[trigger]
        occurs(x, e) && (refers_to(sc, x, r) || quotes_reference(x, r))
}

/// The same, by the shape of the expression.
spec fn touches(sc: Scope, e: PyExprTree, r: SqlColRefView) -> bool
    decreases e, 0int,
{
    ||| refers_to(sc, e, r)
    ||| quotes_reference(e, r)
    ||| match e {
        PyExprTree::Subscript(_, v, _) => touches(sc, *v, r),
        PyExprTree::Attribute(_, v, _) => touches(sc, *v, r),
        PyExprTree::Call(c) => if names_column(c) is Some || quotes_sql(c) is Some {
            false
        } else {
            ||| *c.func matches PyExprTree::Attribute(_, v, _) && touches(sc, *v, r)
            ||| touches_any(sc, c.args, c.args.len() as int, r)
            ||| touches_keyword(sc, c.keywords, c.keywords.len() as int, r)
        },
        PyExprTree::BinOp(_, l, h) => touches(sc, *l, r) || touches(sc, *h, r),
        PyExprTree::UnaryOp(_, o) => touches(sc, *o, r),
        PyExprTree::Compare(_, l, v) => touches(sc, *l, r) || touches_any(
            sc,
            v,
            v.len() as int,
            r,
        ),
        PyExprTree::List(_, v) => touches_any(sc, v, v.len() as int, r),
        PyExprTree::Tuple(_, v) => touches_any(sc, v, v.len() as int, r),
        _ => false,
    }
}

spec fn touches_any(sc: Scope, v: Seq<PyExprTree>, n: int, r: SqlColRefView) -> bool
    decreases v, n,
{
    if n <= 0 || n > v.len() {
        false
    } else {
        touches_any(sc, v, n - 1, r) || touches(sc, v[n - 1], r)
    }
}

spec fn touches_keyword(sc: Scope, k: Seq<PyKeywordTree>, n: int, r: SqlColRefView) -> bool
    decreases k, n,
{
    if n <= 0 || n > k.len() {
        false
    } else {
        touches_keyword(sc, k, n - 1, r) || touches(sc, k[n - 1].value, r)
    }
}

proof fn any_is_some(sc: Scope, v: Seq<PyExprTree>, n: int, r: SqlColRefView)
    requires
        0 <= n <= v.len(),
    ensures
        touches_any(sc, v, n, r) <==> exists|i: int| 0 <= i < n && touches(sc, #[trigger] v[i], r),
    decreases n,
{
    if n > 0 {
        any_is_some(sc, v, n - 1, r);
        if touches(sc, v[n - 1], r) {
            assert(exists|i: int| 0 <= i < n && touches(sc, #[trigger] v[i], r));
        }
    }
}

proof fn keyword_is_some(sc: Scope, k: Seq<PyKeywordTree>, n: int, r: SqlColRefView)
    requires
        0 <= n <= k.len(),
    ensures
        touches_keyword(sc, k, n, r) <==> exists|i: int|
            0 <= i < n && touches(sc, (#[trigger] k[i]).value, r),
    decreases n,
{
    if n > 0 {
        keyword_is_some(sc, k, n - 1, r);
        if touches(sc, k[n - 1].value, r) {
            assert(exists|i: int| 0 <= i < n && touches(sc, (#[trigger] k[i]).value, r));
        }
    }
}

proof fn mapping_refs_have(ms: Seq<SqlMappingView>, n: int, r: SqlColRefView)
    requires
        0 <= n <= ms.len(),
    ensures
        mapping_refs(ms, n).contains(r) <==> exists|k: int|
            0 <= k < n && (#[trigger] ms[k]).sources.contains(r),
    decreases n,
{
    if n > 0 {
        mapping_refs_have(ms, n - 1, r);
        joined_has(mapping_refs(ms, n - 1), ms[n - 1].sources, r);
        if ms[n - 1].sources.contains(r) {
            assert(exists|k: int| 0 <= k < n && (#[trigger] ms[k]).sources.contains(r));
        }
    }
}

proof fn leaf_is_base(sc: Scope, id: Seq<char>)
    ensures
        base_table(sc, id) is Some ==> is_base(sc, id, base_table(sc, id)->0),
        forall|t: Option<Seq<char>>| #[trigger] is_base(sc, id, t) ==> base_table(sc, id) == Some(t),
{
}

proof fn cols_have(sc: Scope, e: PyExprTree, out: Seq<SqlColRefView>, r: SqlColRefView)
    ensures
        cols_of(sc, e, out).contains(r) <==> out.contains(r) || touches(sc, e, r),
    decreases e, 0int,
{
    match e {
        PyExprTree::Subscript(_, v, s) => {
            if let PyExprTree::Name(_, n) = *v {
                leaf_is_base(sc, n);
                name_is_text(sc, *s);
                assert(!touches(sc, *v, r));
                if let (Some(table), Some(column)) = (base_table(sc, n), col_name(sc, *s)) {
                    pushed_has(out, SqlColRefView { table, column }, r);
                }
            } else {
                cols_have(sc, *v, out, r);
                assert(cols_of(sc, e, out) == cols_of(sc, *v, out));
            }
        },
        PyExprTree::Attribute(_, v, a) => {
            if let PyExprTree::Name(_, n) = *v {
                leaf_is_base(sc, n);
                assert(!touches(sc, *v, r));
                if let Some(table) = base_table(sc, n) {
                    pushed_has(out, SqlColRefView { table, column: a }, r);
                }
            } else {
                cols_have(sc, *v, out, r);
                assert(cols_of(sc, e, out) == cols_of(sc, *v, out));
            }
        },
        PyExprTree::Call(c) => {
            assert(ends_in(c, "col"@) == calls(c, "col"@));
            assert(ends_in(c, "column"@) == calls(c, "column"@));
            assert(ends_in(c, "expr"@) == calls(c, "expr"@));
            if names_column(c) is Some {
                pushed_has(
                    out,
                    SqlColRefView { table: None, column: c.args[0]->Str_1 },
                    r,
                );
            } else if let Some(frag) = quotes_sql(c) {
                let ms = sql_lineage("SELECT "@ + (frag + " AS __tw_expr"@)).mappings;
                mapping_refs_have(ms, ms.len() as int, r);
                joined_has(out, fragment_refs(frag), r);
                assert(cols_of(sc, e, out) == out + fragment_refs(frag));
            } else {
                let received = match *c.func {
                    PyExprTree::Attribute(_, v, _) => cols_of(sc, *v, out),
                    _ => out,
                };
                if let PyExprTree::Attribute(_, v, _) = *c.func {
                    assert(decreases_to!(e => c));
                    assert(decreases_to!(c => c.func));
                    cols_have(sc, *v, out, r);
                }
                let n = c.args.len() as int;
                list_has(sc, c.args, n, received, r);
                let argued = list_cols(sc, c.args, n, received);
                keywords_have(sc, c.keywords, c.keywords.len() as int, argued, r);
                assert(cols_of(sc, e, out) == keyword_cols(
                    sc,
                    c.keywords,
                    c.keywords.len() as int,
                    argued,
                ));
            }
        },
        PyExprTree::BinOp(_, l, h) => {
            cols_have(sc, *l, out, r);
            cols_have(sc, *h, cols_of(sc, *l, out), r);
            assert(cols_of(sc, e, out) == cols_of(sc, *h, cols_of(sc, *l, out)));
        },
        PyExprTree::UnaryOp(_, o) => {
            cols_have(sc, *o, out, r);
            assert(cols_of(sc, e, out) == cols_of(sc, *o, out));
        },
        PyExprTree::Compare(_, l, v) => {
            cols_have(sc, *l, out, r);
            list_has(sc, v, v.len() as int, cols_of(sc, *l, out), r);
        },
        PyExprTree::List(_, v) => list_has(sc, v, v.len() as int, out, r),
        PyExprTree::Tuple(_, v) => list_has(sc, v, v.len() as int, out, r),
        _ => {},
    }
}

proof fn list_has(
    sc: Scope,
    v: Seq<PyExprTree>,
    n: int,
    out: Seq<SqlColRefView>,
    r: SqlColRefView,
)
    ensures
        list_cols(sc, v, n, out).contains(r) <==> out.contains(r) || touches_any(sc, v, n, r),
    decreases v, n,
{
    if 0 < n <= v.len() {
        list_has(sc, v, n - 1, out, r);
        cols_have(sc, v[n - 1], list_cols(sc, v, n - 1, out), r);
    }
}

proof fn keywords_have(
    sc: Scope,
    k: Seq<PyKeywordTree>,
    n: int,
    out: Seq<SqlColRefView>,
    r: SqlColRefView,
)
    ensures
        keyword_cols(sc, k, n, out).contains(r) <==> out.contains(r) || touches_keyword(
            sc,
            k,
            n,
            r,
        ),
    decreases k, n,
{
    if 0 < n <= k.len() {
        keywords_have(sc, k, n - 1, out, r);
        assert(decreases_to!(k => k[n - 1]));
        cols_have(sc, k[n - 1].value, keyword_cols(sc, k, n - 1, out), r);
    }
}

proof fn part_touches(sc: Scope, y: PyExprTree, e: PyExprTree, r: SqlColRefView)
    requires
        is_part(y, e),
        touches(sc, y, r),
    ensures
        touches(sc, e, r),
{
    let p = parts(e);
    let i = choose|i: int| 0 <= i < p.len() && p[i] == y;
    match e {
        PyExprTree::Call(c) => {
            any_is_some(sc, c.args, c.args.len() as int, r);
            keyword_is_some(sc, c.keywords, c.keywords.len() as int, r);
            let front = receiver(c);
            if i < front.len() {
                assert(y == front[i]);
            } else if i < front.len() + c.args.len() {
                assert(y == c.args[i - front.len()]);
            } else {
                let k = i - front.len() - c.args.len();
                assert(y == keyword_values(c.keywords)[k]);
                assert(y == c.keywords[k].value);
            }
        },
        PyExprTree::Compare(_, l, v) => {
            any_is_some(sc, v, v.len() as int, r);
            if i > 0 {
                assert(y == v[i - 1]);
            }
        },
        PyExprTree::List(_, v) => {
            any_is_some(sc, v, v.len() as int, r);
            assert(y == v[i]);
        },
        PyExprTree::Tuple(_, v) => {
            any_is_some(sc, v, v.len() as int, r);
            assert(y == v[i]);
        },
        _ => {},
    }
}

proof fn occurring_touches(sc: Scope, x: PyExprTree, e: PyExprTree, depth: nat, r: SqlColRefView)
    requires
        lies_in(x, e, depth),
        refers_to(sc, x, r) || quotes_reference(x, r),
    ensures
        touches(sc, e, r),
    decreases depth,
{
    if depth > 0 {
        let y = choose|y: PyExprTree| #[trigger]
            is_part(y, e) && lies_in(x, y, (depth - 1) as nat);
        occurring_touches(sc, x, y, (depth - 1) as nat, r);
        part_touches(sc, y, e, r);
    }
}

proof fn part_reads(sc: Scope, y: PyExprTree, e: PyExprTree, r: SqlColRefView)
    requires
        is_part(y, e),
        reads(sc, y, r),
    ensures
        reads(sc, e, r),
{
    let x = choose|x: PyExprTree| #[trigger]
        occurs(x, y) && (refers_to(sc, x, r) || quotes_reference(x, r));
    let d = choose|d: nat| lies_in(x, y, d);
    assert(lies_in(x, e, d + 1));
    assert(occurs(x, e));
}

proof fn touched_is_read(sc: Scope, e: PyExprTree, r: SqlColRefView)
    requires
        touches(sc, e, r),
    ensures
        reads(sc, e, r),
    decreases e, 0int,
{
    if refers_to(sc, e, r) || quotes_reference(e, r) {
        assert(lies_in(e, e, 0));
        assert(occurs(e, e));
    } else {
        let p = parts(e);
        match e {
            PyExprTree::Subscript(_, v, _) => {
                assert(p[0] == *v);
                touched_is_read(sc, *v, r);
                part_reads(sc, *v, e, r);
            },
            PyExprTree::Attribute(_, v, _) => {
                assert(p[0] == *v);
                touched_is_read(sc, *v, r);
                part_reads(sc, *v, e, r);
            },
            PyExprTree::Call(c) => {
                any_is_some(sc, c.args, c.args.len() as int, r);
                keyword_is_some(sc, c.keywords, c.keywords.len() as int, r);
                let front = receiver(c);
                assert(decreases_to!(e => c));
                if touches_any(sc, c.args, c.args.len() as int, r) {
                    let i = choose|i: int|
                        0 <= i < c.args.len() && touches(sc, #[trigger] c.args[i], r);
                    assert(p[front.len() + i] == c.args[i]);
                    assert(decreases_to!(c => c.args));
                    touched_is_read(sc, c.args[i], r);
                    part_reads(sc, c.args[i], e, r);
                } else if touches_keyword(sc, c.keywords, c.keywords.len() as int, r) {
                    let i = choose|i: int|
                        0 <= i < c.keywords.len() && touches(
                            sc,
                            (#[trigger] c.keywords[i]).value,
                            r,
                        );
                    assert(p[front.len() + c.args.len() + i] == keyword_values(c.keywords)[i]);
                    assert(decreases_to!(c => c.keywords));
                    assert(decreases_to!(c.keywords => c.keywords[i]));
                    touched_is_read(sc, c.keywords[i].value, r);
                    part_reads(sc, c.keywords[i].value, e, r);
                } else if let PyExprTree::Attribute(_, v, _) = *c.func {
                    assert(decreases_to!(c => c.func));
                    assert(p[0] == *v);
                    touched_is_read(sc, *v, r);
                    part_reads(sc, *v, e, r);
                }
            },
            PyExprTree::BinOp(_, l, h) => {
                assert(p[0] == *l && p[1] == *h);
                if touches(sc, *l, r) {
                    touched_is_read(sc, *l, r);
                    part_reads(sc, *l, e, r);
                } else {
                    touched_is_read(sc, *h, r);
                    part_reads(sc, *h, e, r);
                }
            },
            PyExprTree::UnaryOp(_, o) => {
                assert(p[0] == *o);
                touched_is_read(sc, *o, r);
                part_reads(sc, *o, e, r);
            },
            PyExprTree::Compare(_, l, v) => {
                any_is_some(sc, v, v.len() as int, r);
                assert(p[0] == *l);
                if touches(sc, *l, r) {
                    touched_is_read(sc, *l, r);
                    part_reads(sc, *l, e, r);
                } else {
                    let i = choose|i: int| 0 <= i < v.len() && touches(sc, #[trigger] v[i], r);
                    assert(p[i + 1] == v[i]);
                    touched_is_read(sc, v[i], r);
                    part_reads(sc, v[i], e, r);
                }
            },
            PyExprTree::List(_, v) => {
                any_is_some(sc, v, v.len() as int, r);
                let i = choose|i: int| 0 <= i < v.len() && touches(sc, #[trigger] v[i], r);
                assert(p[i] == v[i]);
                touched_is_read(sc, v[i], r);
                part_reads(sc, v[i], e, r);
            },
            PyExprTree::Tuple(_, v) => {
                any_is_some(sc, v, v.len() as int, r);
                let i = choose|i: int| 0 <= i < v.len() && touches(sc, #[trigger] v[i], r);
                assert(p[i] == v[i]);
                touched_is_read(sc, v[i], r);
                part_reads(sc, v[i], e, r);
            },
            _ => {},
        }
    }
}

/// The references collected from an expression are complete and sound: a
/// column is among them exactly when a reference to it is read somewhere in
/// the expression, in a receiver, an argument, a keyword, an operand or
/// wherever else.
pub proof fn references_are_the_columns_read(sc: Scope, e: PyExprTree)
    ensures
        forall|r: SqlColRefView| #[trigger]
            cols_of(sc, e, Seq::empty()).contains(r) <==> reads(sc, e, r),
{
    assert forall|r: SqlColRefView| #[trigger]
        cols_of(sc, e, Seq::empty()).contains(r) <==> reads(sc, e, r) by {
        cols_have(sc, e, Seq::empty(), r);
        assert(!Seq::<SqlColRefView>::empty().contains(r));
        if touches(sc, e, r) {
            touched_is_read(sc, e, r);
        }
        if reads(sc, e, r) {
            let x = choose|x: PyExprTree| #[trigger]
                occurs(x, e) && (refers_to(sc, x, r) || quotes_reference(x, r));
            let d = choose|d: nat| lies_in(x, e, d);
            occurring_touches(sc, x, e, d, r);
        }
    }
}

/// The references of a call that is none to `col`, `column` or `expr` hold
/// those of each of its arguments, of its receiver and of each of the values
/// of its keywords.
pub proof fn call_reads_every_argument(sc: Scope, c: PyCallTree)
    requires
        names_column(c) is None,
        quotes_sql(c) is None,
    ensures
        forall|i: int, r: SqlColRefView|
            0 <= i < c.args.len() && #[trigger] cols_of(sc, c.args[i], Seq::empty()).contains(r)
                ==> cols_of(sc, PyExprTree::Call(c), Seq::empty()).contains(r),
        forall|i: int, r: SqlColRefView|
            0 <= i < c.keywords.len() && #[trigger] cols_of(
                sc,
                c.keywords[i].value,
                Seq::empty(),
            ).contains(r) ==> cols_of(sc, PyExprTree::Call(c), Seq::empty()).contains(r),
        forall|r: SqlColRefView|
            (*c.func) is Attribute && #[trigger] cols_of(
                sc,
                *((*c.func)->Attribute_1),
                Seq::empty(),
            ).contains(r) ==> cols_of(sc, PyExprTree::Call(c), Seq::empty()).contains(r),
{
    let e = PyExprTree::Call(c);
    let p = parts(e);
    let front = receiver(c);
    references_are_the_columns_read(sc, e);
    assert forall|i: int, r: SqlColRefView|
        0 <= i < c.args.len() && #[trigger] cols_of(sc, c.args[i], Seq::empty()).contains(
            r,
        ) implies cols_of(sc, e, Seq::empty()).contains(r) by {
        references_are_the_columns_read(sc, c.args[i]);
        assert(p[front.len() + i] == c.args[i]);
        part_reads(sc, c.args[i], e, r);
    }
    assert forall|i: int, r: SqlColRefView|
        0 <= i < c.keywords.len() && #[trigger] cols_of(
            sc,
            c.keywords[i].value,
            Seq::empty(),
        ).contains(r) implies cols_of(sc, e, Seq::empty()).contains(r) by {
        references_are_the_columns_read(sc, c.keywords[i].value);
        assert(p[front.len() + c.args.len() + i] == keyword_values(c.keywords)[i]);
        part_reads(sc, c.keywords[i].value, e, r);
    }
    assert forall|r: SqlColRefView|
        (*c.func) is Attribute && #[trigger] cols_of(
            sc,
            *((*c.func)->Attribute_1),
            Seq::empty(),
        ).contains(r) implies cols_of(sc, e, Seq::empty()).contains(r) by {
        let v = *((*c.func)->Attribute_1);
        references_are_the_columns_read(sc, v);
        assert(p[0] == v);
        part_reads(sc, v, e, r);
    }
}

/// `out` behind which the first `n` expressions were read one after the other.
pub open spec fn read_all(
    sc: Scope,
    ps: Seq<PyExprTree>,
    n: int,
    out: Seq<SqlColRefView>,
) -> Seq<SqlColRefView>
    decreases n,
{
    if n <= 0 {
        out
    } else {
        cols_of(sc, ps[n - 1], read_all(sc, ps, n - 1, out))
    }
}

proof fn read_front(
    sc: Scope,
    a: Seq<PyExprTree>,
    b: Seq<PyExprTree>,
    n: int,
    out: Seq<SqlColRefView>,
)
    requires
        n <= a.len(),
        n <= b.len(),
        forall|i: int| 0 <= i < n ==> a[i] == b[i],
    ensures
        read_all(sc, a, n, out) == read_all(sc, b, n, out),
    decreases n,
{
    if n > 0 {
        read_front(sc, a, b, n - 1, out);
    }
}

proof fn read_behind(
    sc: Scope,
    a: Seq<PyExprTree>,
    b: Seq<PyExprTree>,
    n: int,
    out: Seq<SqlColRefView>,
)
    requires
        0 <= n <= b.len(),
    ensures
        read_all(sc, a + b, a.len() + n, out) == read_all(
            sc,
            b,
            n,
            read_all(sc, a, a.len() as int, out),
        ),
    decreases n,
{
    if n > 0 {
        read_behind(sc, a, b, n - 1, out);
        assert((a + b)[a.len() + n - 1] == b[n - 1]);
    } else {
        read_front(sc, a + b, a, a.len() as int, out);
    }
}

proof fn list_read(sc: Scope, v: Seq<PyExprTree>, n: int, out: Seq<SqlColRefView>)
    requires
        0 <= n <= v.len(),
    ensures
        list_cols(sc, v, n, out) == read_all(sc, v, n, out),
    decreases n,
{
    if n > 0 {
        list_read(sc, v, n - 1, out);
    }
}

proof fn keywords_read(sc: Scope, k: Seq<PyKeywordTree>, n: int, out: Seq<SqlColRefView>)
    requires
        0 <= n <= k.len(),
    ensures
        keyword_cols(sc, k, n, out) == read_all(sc, keyword_values(k), n, out),
    decreases n,
{
    if n > 0 {
        keywords_read(sc, k, n - 1, out);
    }
}

/// References come in reading order: those of a call, an operator, a
/// comparison or a display are those of its parts, one after the other.
pub proof fn references_follow_reading_order(sc: Scope, e: PyExprTree, out: Seq<SqlColRefView>)
    requires
        e is Call ==> names_column(e->Call_0) is None && quotes_sql(e->Call_0) is None,
        !(e is Subscript) && !(e is Attribute),
    ensures
        cols_of(sc, e, out) == read_all(sc, parts(e), parts(e).len() as int, out),
{
    reveal_with_fuel(read_all, 3);
    match e {
        PyExprTree::Call(c) => {
            assert(ends_in(c, "col"@) == calls(c, "col"@));
            assert(ends_in(c, "column"@) == calls(c, "column"@));
            assert(ends_in(c, "expr"@) == calls(c, "expr"@));
            let received = match *c.func {
                PyExprTree::Attribute(_, v, _) => cols_of(sc, *v, out),
                _ => out,
            };
            let front = receiver(c);
            let values = keyword_values(c.keywords);
            assert(read_all(sc, front, front.len() as int, out) == received);
            list_read(sc, c.args, c.args.len() as int, received);
            let argued = list_cols(sc, c.args, c.args.len() as int, received);
            keywords_read(sc, c.keywords, c.keywords.len() as int, argued);
            read_behind(sc, front, c.args, c.args.len() as int, out);
            read_behind(sc, front + c.args, values, values.len() as int, out);
        },
        PyExprTree::BinOp(_, l, r) => {
            let p = parts(e);
            assert(p[0] == *l && p[1] == *r);
        },
        PyExprTree::UnaryOp(_, o) => {
            assert(parts(e)[0] == *o);
        },
        PyExprTree::Compare(_, l, v) => {
            let front = seq![*l];
            assert(read_all(sc, front, 1, out) == cols_of(sc, *l, out));
            list_read(sc, v, v.len() as int, cols_of(sc, *l, out));
            read_behind(sc, front, v, v.len() as int, out);
        },
        PyExprTree::List(_, v) => list_read(sc, v, v.len() as int, out),
        PyExprTree::Tuple(_, v) => list_read(sc, v, v.len() as int, out),
        _ => {},
    }
}

// ─────────────────────────────── columns ──────────────────────────────

/// A reference as a source text: with its table, or with that of the frame
/// where it has none.
pub open spec fn shown(r: SqlColRefView, table: Option<Seq<char>>) -> Seq<char> {
    if r.table is Some {
        r.table->0 + seq!['.'] + r.column
    } else if table is Some {
        table->0 + seq!['.'] + r.column
    } else {
        r.column
    }
}

/// True when the sources are those of the expression: each column that it
/// reads is among them, and each of them is read.
pub open spec fn are_sources(
    sources: Seq<Seq<char>>,
    sc: Scope,
    e: PyExprTree,
    table: Option<Seq<char>>,
) -> bool {
    &&& forall|r: SqlColRefView| #[trigger]
        reads(sc, e, r) ==> sources.contains(shown(r, table))
    &&& forall|i: int| 0 <= i < sources.len() ==> is_source(#[trigger] sources[i], sc, e, table)
}

pub open spec fn is_source(
    s: Seq<char>,
    sc: Scope,
    e: PyExprTree,
    table: Option<Seq<char>>,
) -> bool {
    exists|r: SqlColRefView| #[trigger] reads(sc, e, r) && s == shown(r, table)
}

/// True when the expression reads a column.
pub open spec fn reads_any(sc: Scope, e: PyExprTree) -> bool {
    exists|r: SqlColRefView| #[trigger] reads(sc, e, r)
}

pub(crate) proof fn dot_is_a_character()
    ensures
        "."@ == seq!['.'],
{
    reveal_strlit(".");
    assert("."@ =~= seq!['.']);
}

proof fn rendered_are_sources(
    sources: Seq<Seq<char>>,
    sc: Scope,
    e: PyExprTree,
    table: Option<Seq<char>>,
)
    requires
        sources.len() == cols_of(sc, e, Seq::empty()).len(),
        forall|i: int|
            0 <= i < sources.len() ==> #[trigger] sources[i] == rendered(
                defaulted(cols_of(sc, e, Seq::empty())[i], table),
            ),
    ensures
        are_sources(sources, sc, e, table),
        reads_any(sc, e) <==> sources.len() > 0,
{
    let refs = cols_of(sc, e, Seq::empty());
    references_are_the_columns_read(sc, e);
    dot_is_a_character();
    assert forall|r: SqlColRefView| #[trigger] reads(sc, e, r) implies sources.contains(
        shown(r, table),
    ) by {
        assert(refs.contains(r));
        let i = choose|i: int| 0 <= i < refs.len() && refs[i] == r;
        assert(sources[i] == shown(r, table));
    }
    assert forall|i: int| 0 <= i < sources.len() implies is_source(
        #[trigger] sources[i],
        sc,
        e,
        table,
    ) by {
        assert(refs.contains(refs[i]));
        assert(reads(sc, e, refs[i]) && sources[i] == shown(refs[i], table));
    }
    if sources.len() > 0 {
        assert(is_source(sources[0], sc, e, table));
    }
    if reads_any(sc, e) {
        let r = choose|r: SqlColRefView| #[trigger] reads(sc, e, r);
        assert(refs.contains(r));
    }
}

/// What an assigned value is read as: itself, or the body of the lambda that
/// is applied to each row.
pub open spec fn read_value(sc: Scope, value: PyExprTree) -> Option<(Scope, PyExprTree)> {
    if applies(value) {
        let c = value->Call_0;
        if c.args.len() > 0 && c.args[0] is Lambda && c.args[0]->Lambda_1 is Some {
            let on = innermost(*((*c.func)->Attribute_1));
            let table = if on is Some && sc.frames.contains_key(on->0) {
                sc.frames[on->0]
            } else {
                None
            };
            Some(
                (
                    Scope { row: Some((c.args[0]->Lambda_1->0, table)), ..sc },
                    *(c.args[0]->Lambda_2),
                ),
            )
        } else {
            None
        }
    } else {
        Some((sc, value))
    }
}

/// True for a call of a method `apply`.
pub open spec fn applies(e: PyExprTree) -> bool {
    e is Call && (*(e->Call_0).func) is Attribute && (*(e->Call_0).func)->Attribute_2
        == "apply"@
}

/// True when nothing that the value reads can be found out, so that a column
/// made from it would have no sources though it is no literal.
pub open spec fn is_untraced(sc: Scope, value: PyExprTree) -> bool {
    &&& !(value is Str || value is NoneLiteral || value is Literal)
    &&& read_value(sc, value) matches Some((inner, e)) ==> !reads_any(inner, e)
}

/// `owner[key] = value` adds one column to the owner, named by the key, whose
/// sources are exactly the columns that the value reads; only where it reads
/// none and is no literal, a note is added instead.
pub proof fn assigned_column_has_every_source(
    f: Flow,
    span: Span,
    owner_span: Span,
    owner: Seq<char>,
    key: PyExprTree,
    col: Seq<char>,
    value: PyExprTree,
)
    requires
        is_text(f.scope, key, col),
    ensures
        ({
            let target = PyExprTree::Subscript(
                span,
                Box::new(PyExprTree::Name(owner_span, owner)),
                Box::new(key),
            );
            let g = assigned_to(f, target, value);
            if is_untraced(f.scope, value) {
                g.columns == f.columns && g.opaque.len() == f.opaque.len() + 1
            } else {
                &&& g.opaque == f.opaque
                &&& g.columns.len() == f.columns.len() + 1
                &&& g.columns.drop_last() == f.columns
                &&& g.columns.last().0 == owner
                &&& is_assigned_column(g.columns.last().1, f, owner, col, value)
            }
        }),
{
    name_is_text(f.scope, key);
    let sc = f.scope;
    let srcs = value_refs(sc, value);
    let sources = Seq::new(srcs.len(), |i: int| rendered(srcs[i]));
    let g = recorded(f, owner, col, value);
    assert(is_apply(value) == applies(value));
    match read_value(sc, value) {
        Some((inner, e)) => {
            assert(srcs == cols_of(inner, e, Seq::empty()));
            assert forall|i: int| 0 <= i < sources.len() implies #[trigger] sources[i] == rendered(
                defaulted(cols_of(inner, e, Seq::empty())[i], None),
            ) by {
                assert(defaulted(srcs[i], None) == srcs[i]);
            }
            rendered_are_sources(sources, inner, e, None);
        },
        None => {
            assert(srcs.len() == 0);
        },
    }
    if !is_untraced(sc, value) {
        assert(g.columns.drop_last() =~= f.columns);
    }
}

/// True when the column is the one that an assignment makes.
pub open spec fn is_assigned_column(
    c: InferredColumnView,
    f: Flow,
    owner: Seq<char>,
    col: Seq<char>,
    value: PyExprTree,
) -> bool {
    &&& c.target == col
    &&& match read_value(f.scope, value) {
        Some((inner, e)) => are_sources(c.sources, inner, e, None),
        None => c.sources.len() == 0,
    }
    &&& c.output_table == if f.scope.frames.contains_key(owner) {
        f.scope.frames[owner]
    } else {
        None
    }
    &&& c.transform_type is Identity ==> c.sources.len() == 1 && is_one_column(value)
    &&& c.sources.len() == 1 && is_one_column(value) ==> c.transform_type is Identity
}

/// True for what may name a single column with nothing around it.
pub open spec fn is_one_column(e: PyExprTree) -> bool {
    e is Subscript || e is Attribute || (e is Call && (ends_in(e->Call_0, "col"@) || ends_in(
        e->Call_0,
        "column"@,
    )))
}

// ────────────────────────────── operations ────────────────────────────

/// True when the state has a column of the owner, behind the first `from`,
/// that is as asked.
pub open spec fn has_column(
    g: Flow,
    from: int,
    owner: Seq<char>,
    wanted: spec_fn(InferredColumnView) -> bool,
) -> bool {
    exists|k: int|
        from <= k < g.columns.len() && (#[trigger] g.columns[k]).0 == owner && wanted(
            g.columns[k].1,
        )
}

/// A column with that name and that kind, made from an expression.
pub open spec fn made_from(
    target: Seq<char>,
    sc: Scope,
    e: PyExprTree,
    table: Option<Seq<char>>,
) -> spec_fn(InferredColumnView) -> bool {
    |c: InferredColumnView| c.target == target && are_sources(c.sources, sc, e, table)
}

/// A column with that name and that kind, made from one column of the frame.
pub open spec fn made_from_column(
    target: Seq<char>,
    column: Seq<char>,
    table: Option<Seq<char>>,
    kind: TransformType,
) -> spec_fn(InferredColumnView) -> bool {
    |c: InferredColumnView|
        {
            &&& c.target == target
            &&& c.sources == seq![shown(SqlColRefView { table: None, column }, table)]
            &&& c.transform_type == kind
        }
}

/// True for a call of that method.
pub open spec fn is_method(c: PyCallTree, name: Seq<char>) -> bool {
    (*c.func) is Attribute && (*c.func)->Attribute_2 == name
}

pub(crate) proof fn column_stays(
    prev: Flow,
    g: Flow,
    from: int,
    owner: Seq<char>,
    wanted: spec_fn(InferredColumnView) -> bool,
)
    requires
        has_column(prev, from, owner, wanted),
        begins(prev.columns, g.columns),
        0 <= from,
    ensures
        has_column(g, from, owner, wanted),
{
    let k = choose|k: int|
        from <= k < prev.columns.len() && (#[trigger] prev.columns[k]).0 == owner && wanted(
            prev.columns[k].1,
        );
    assert(g.columns.subrange(0, prev.columns.len() as int)[k] == g.columns[k]);
}

pub(crate) proof fn column_comes(
    prev: Flow,
    g: Flow,
    from: int,
    owner: Seq<char>,
    c: InferredColumnView,
    wanted: spec_fn(InferredColumnView) -> bool,
)
    requires
        g.columns == prev.columns.push((owner, c)),
        wanted(c),
        from <= prev.columns.len(),
    ensures
        has_column(g, from, owner, wanted),
{
    assert(g.columns[prev.columns.len() as int] == (owner, c));
}

pub(crate) proof fn op_column_is_made(
    f: Flow,
    owner: Seq<char>,
    target: Seq<char>,
    sc: Scope,
    e: PyExprTree,
    table: Option<Seq<char>>,
    kind: TransformType,
    function: Option<Seq<char>>,
    from: int,
)
    requires
        from <= f.columns.len(),
    ensures
        has_column(
            op_column(f, owner, target, cols_of(sc, e, Seq::empty()), table, kind, function),
            from,
            owner,
            made_from(target, sc, e, table),
        ),
        are_sources(rendered_refs(cols_of(sc, e, Seq::empty()), table), sc, e, table),
        reads_any(sc, e) <==> cols_of(sc, e, Seq::empty()).len() > 0,
{
    let srcs = cols_of(sc, e, Seq::empty());
    let g = op_column(f, owner, target, srcs, table, kind, function);
    let c = g.columns.last().1;
    rendered_are_sources(rendered_refs(srcs, table), sc, e, table);
    column_comes(f, g, from, owner, c, made_from(target, sc, e, table));
}

proof fn base_column_is_made(
    f: Flow,
    owner: Seq<char>,
    target: Seq<char>,
    column: Seq<char>,
    table: Option<Seq<char>>,
    kind: TransformType,
    function: Option<Seq<char>>,
    from: int,
)
    requires
        from <= f.columns.len(),
    ensures
        has_column(
            op_column(f, owner, target, base_ref(table, column), table, kind, function),
            from,
            owner,
            made_from_column(target, column, table, kind),
        ),
{
    dot_is_a_character();
    let g = op_column(f, owner, target, base_ref(table, column), table, kind, function);
    let c = g.columns.last().1;
    assert(c.sources =~= seq![shown(SqlColRefView { table: None, column }, table)]);
    column_comes(f, g, from, owner, c, made_from_column(target, column, table, kind));
}

/// `withColumn("c", expr)` adds one column, whose sources are exactly the
/// columns that the expression reads; where it reads none and is no literal, a
/// note is added instead.
pub proof fn with_column_has_every_source(
    f: Flow,
    owner: Seq<char>,
    c: PyCallTree,
    table: Option<Seq<char>>,
)
    requires
        is_method(c, "withColumn"@),
        c.args.len() > 1,
        c.args[0] is Str,
    ensures
        ({
            let g = operated(f, owner, c, table);
            let e = c.args[1];
            if reads_any(f.scope, e) || e is Str || e is NoneLiteral || e is Literal {
                &&& g.columns.len() == f.columns.len() + 1
                &&& g.opaque == f.opaque
                &&& has_column(
                    g,
                    f.columns.len() as int,
                    owner,
                    made_from(c.args[0]->Str_1, f.scope, e, table),
                )
            } else {
                g.columns == f.columns && g.opaque.len() == f.opaque.len() + 1
            }
        }),
{
    crate::flow::column_op_heads();
    let e = c.args[1];
    let srcs = cols_of(f.scope, e, Seq::empty());
    op_column_is_made(
        f,
        owner,
        c.args[0]->Str_1,
        f.scope,
        e,
        table,
        flow_kind(f.source, e, srcs),
        Some(label_of(f.source, span_of(e))),
        f.columns.len() as int,
    );
}

proof fn assigned_keyword_is_made(
    f: Flow,
    owner: Seq<char>,
    k: Seq<PyKeywordTree>,
    table: Option<Seq<char>>,
    n: int,
    i: int,
)
    requires
        0 <= i < n <= k.len(),
        k[i].name is Some,
    ensures
        has_column(
            assigned_columns(f, owner, k, table, n),
            f.columns.len() as int,
            owner,
            made_from(k[i].name->0, f.scope, k[i].value, table),
        ),
    decreases n,
{
    let prev = assigned_columns(f, owner, k, table, n - 1);
    let g = assigned_columns(f, owner, k, table, n);
    assigned_columns_advances(f, owner, k, table, n - 1);
    if i == n - 1 {
        let srcs = cols_of(f.scope, k[i].value, Seq::empty());
        op_column_is_made(
            prev,
            owner,
            k[i].name->0,
            f.scope,
            k[i].value,
            table,
            flow_kind(f.source, k[i].value, srcs),
            Some(label_of(f.source, span_of(k[i].value))),
            f.columns.len() as int,
        );
    } else {
        assigned_keyword_is_made(f, owner, k, table, n - 1, i);
        assert(begins(prev.columns, g.columns)) by {
            assert(g.columns.subrange(0, prev.columns.len() as int) =~= prev.columns);
        }
        column_stays(
            prev,
            g,
            f.columns.len() as int,
            owner,
            made_from(k[i].name->0, f.scope, k[i].value, table),
        );
    }
}

/// `assign(c=expr, …)` adds a column for each of its keywords, whose sources
/// are exactly the columns that its value reads.
pub proof fn assign_has_every_source(
    f: Flow,
    owner: Seq<char>,
    c: PyCallTree,
    table: Option<Seq<char>>,
    i: int,
)
    requires
        is_method(c, "assign"@),
        0 <= i < c.keywords.len(),
        c.keywords[i].name is Some,
    ensures
        has_column(
            operated(f, owner, c, table),
            f.columns.len() as int,
            owner,
            made_from(c.keywords[i].name->0, f.scope, c.keywords[i].value, table),
        ),
{
    crate::flow::column_op_heads();
    assigned_keyword_is_made(f, owner, c.keywords, table, c.keywords.len() as int, i);
}

/// True when the argument is `<expr>.alias("name")`.
pub open spec fn is_named(arg: PyExprTree, e: PyExprTree, name: Seq<char>) -> bool {
    &&& arg is Call
    &&& is_method(arg->Call_0, "alias"@)
    &&& *((*(arg->Call_0).func)->Attribute_1) == e
    &&& (arg->Call_0).args.len() > 0
    &&& (arg->Call_0).args[0] is Str
    &&& (arg->Call_0).args[0]->Str_1 == name
}

pub(crate) proof fn selecting_keeps_scope(
    f: Flow,
    owner: Seq<char>,
    args: Seq<PyExprTree>,
    table: Option<Seq<char>>,
    n: int,
)
    ensures
        selected(f, owner, args, table, n).scope == f.scope,
        selected(f, owner, args, table, n).source == f.source,
    decreases n,
{
    if n > 0 {
        selecting_keeps_scope(f, owner, args, table, n - 1);
    }
}

pub(crate) proof fn selected_argument_stays(
    f: Flow,
    owner: Seq<char>,
    args: Seq<PyExprTree>,
    table: Option<Seq<char>>,
    n: int,
    i: int,
    wanted: spec_fn(InferredColumnView) -> bool,
)
    requires
        0 <= i < n <= args.len(),
        has_column(
            selected_one(selected(f, owner, args, table, i), owner, args[i], table),
            f.columns.len() as int,
            owner,
            wanted,
        ),
    ensures
        has_column(selected(f, owner, args, table, n), f.columns.len() as int, owner, wanted),
    decreases n,
{
    if i < n - 1 {
        selected_argument_stays(f, owner, args, table, n - 1, i, wanted);
        let prev = selected(f, owner, args, table, n - 1);
        selected_one_advances(prev, owner, args[n - 1], table);
        column_stays(
            prev,
            selected(f, owner, args, table, n),
            f.columns.len() as int,
            owner,
            wanted,
        );
    }
}

/// `select(expr.alias("name"), …)` adds a column for each argument with a name,
/// whose sources are exactly the columns that its expression reads.
pub proof fn named_selection_has_every_source(
    f: Flow,
    owner: Seq<char>,
    c: PyCallTree,
    table: Option<Seq<char>>,
    i: int,
    e: PyExprTree,
    name: Seq<char>,
)
    requires
        is_method(c, "select"@),
        0 <= i < c.args.len(),
        is_named(c.args[i], e, name),
    ensures
        has_column(
            operated(f, owner, c, table),
            f.columns.len() as int,
            owner,
            made_from(name, f.scope, e, table),
        ),
{
    crate::flow::column_op_heads();
    let prev = selected(f, owner, c.args, table, i);
    selecting_keeps_scope(f, owner, c.args, table, i);
    selected_advances(f, owner, c.args, table, i);
    op_column_is_made(
        prev,
        owner,
        name,
        f.scope,
        e,
        table,
        if is_pure_ref(e) {
            TransformType::Identity
        } else {
            TransformType::Transformation
        },
        Some(label_of(f.source, span_of(e))),
        f.columns.len() as int,
    );
    selected_argument_stays(
        f,
        owner,
        c.args,
        table,
        c.args.len() as int,
        i,
        made_from(name, f.scope, e, table),
    );
}

/// `select("name", …)` passes each column that is named through.
pub proof fn selected_name_passes(
    f: Flow,
    owner: Seq<char>,
    c: PyCallTree,
    table: Option<Seq<char>>,
    i: int,
)
    requires
        is_method(c, "select"@),
        0 <= i < c.args.len(),
        c.args[i] is Str,
    ensures
        has_column(
            operated(f, owner, c, table),
            f.columns.len() as int,
            owner,
            made_from_column(
                c.args[i]->Str_1,
                c.args[i]->Str_1,
                table,
                TransformType::Identity,
            ),
        ),
{
    crate::flow::column_op_heads();
    let name = c.args[i]->Str_1;
    selected_advances(f, owner, c.args, table, i);
    base_column_is_made(
        selected(f, owner, c.args, table, i),
        owner,
        name,
        name,
        table,
        TransformType::Identity,
        None,
        f.columns.len() as int,
    );
    selected_argument_stays(
        f,
        owner,
        c.args,
        table,
        c.args.len() as int,
        i,
        made_from_column(name, name, table, TransformType::Identity),
    );
}

proof fn aggregating_stays(
    f: Flow,
    owner: Seq<char>,
    args: Seq<PyExprTree>,
    table: Option<Seq<char>>,
    n: int,
    i: int,
    from: int,
    e: PyExprTree,
    name: Seq<char>,
)
    requires
        0 <= i < n <= args.len(),
        0 <= from <= f.columns.len(),
        is_named(args[i], e, name),
    ensures
        has_column(
            agg_aliased(f, owner, args, table, n),
            from,
            owner,
            made_from(name, f.scope, e, table),
        ),
    decreases n,
{
    let prev = agg_aliased(f, owner, args, table, n - 1);
    let g = agg_aliased(f, owner, args, table, n);
    agg_aliased_advances(f, owner, args, table, n - 1);
    if i == n - 1 {
        op_column_is_made(
            prev,
            owner,
            name,
            f.scope,
            e,
            table,
            TransformType::Aggregation,
            Some(label_of(f.source, span_of(e))),
            from,
        );
    } else {
        aggregating_stays(f, owner, args, table, n - 1, i, from, e, name);
        assert(begins(prev.columns, g.columns)) by {
            assert(g.columns.subrange(0, prev.columns.len() as int) =~= prev.columns);
        }
        column_stays(prev, g, from, owner, made_from(name, f.scope, e, table));
    }
}

proof fn aggregating_keeps_scope(
    f: Flow,
    owner: Seq<char>,
    keys: Seq<Option<PyExprTree>>,
    values: Seq<PyExprTree>,
    k: Seq<PyKeywordTree>,
    table: Option<Seq<char>>,
    n: int,
)
    ensures
        agg_dict(f, owner, keys, values, table, n).scope == f.scope,
        agg_named(f, owner, k, table, n).scope == f.scope,
    decreases n,
{
    if n > 0 {
        aggregating_keeps_scope(f, owner, keys, values, k, table, n - 1);
    }
}

/// The state after the dict of an aggregation.
spec fn after_dict(f: Flow, owner: Seq<char>, c: PyCallTree, table: Option<Seq<char>>) -> Flow {
    if c.args.len() > 0 {
        match c.args[0] {
            PyExprTree::Dict(_, keys, values) => agg_dict(
                f,
                owner,
                keys,
                values,
                table,
                shorter(keys.len(), values.len()),
            ),
            _ => f,
        }
    } else {
        f
    }
}

proof fn aggregation_in_turn(f: Flow, owner: Seq<char>, c: PyCallTree, table: Option<Seq<char>>)
    ensures
        ({
            let a = after_dict(f, owner, c, table);
            let b = agg_named(a, owner, c.keywords, table, c.keywords.len() as int);
            &&& a.scope == f.scope
            &&& b.scope == f.scope
            &&& begins(f.columns, a.columns)
            &&& begins(a.columns, b.columns)
            &&& begins(b.columns, aggregated(f, owner, c, table).columns)
            &&& aggregated(f, owner, c, table) == agg_aliased(
                b,
                owner,
                c.args,
                table,
                c.args.len() as int,
            )
        }),
{
    let a = after_dict(f, owner, c, table);
    let m = c.keywords.len() as int;
    begins_self(f.columns);
    if c.args.len() > 0 {
        if let PyExprTree::Dict(_, keys, values) = c.args[0] {
            let n = shorter(keys.len(), values.len());
            agg_dict_advances(f, owner, keys, values, table, n);
            aggregating_keeps_scope(f, owner, keys, values, c.keywords, table, n);
        }
    }
    aggregating_keeps_scope(a, owner, Seq::empty(), Seq::empty(), c.keywords, table, m);
    agg_named_advances(a, owner, c.keywords, table, m);
    agg_aliased_advances(
        agg_named(a, owner, c.keywords, table, m),
        owner,
        c.args,
        table,
        c.args.len() as int,
    );
}

/// `agg(expr.alias("name"), …)` adds a column for each argument with a name,
/// whose sources are exactly the columns that its expression reads.
pub proof fn named_aggregation_has_every_source(
    f: Flow,
    owner: Seq<char>,
    c: PyCallTree,
    table: Option<Seq<char>>,
    i: int,
    e: PyExprTree,
    name: Seq<char>,
)
    requires
        is_method(c, "agg"@),
        0 <= i < c.args.len(),
        is_named(c.args[i], e, name),
    ensures
        has_column(
            operated(f, owner, c, table),
            f.columns.len() as int,
            owner,
            made_from(name, f.scope, e, table),
        ),
{
    crate::flow::column_op_heads();
    aggregation_in_turn(f, owner, c, table);
    let a = after_dict(f, owner, c, table);
    let b = agg_named(a, owner, c.keywords, table, c.keywords.len() as int);
    aggregating_stays(
        b,
        owner,
        c.args,
        table,
        c.args.len() as int,
        i,
        f.columns.len() as int,
        e,
        name,
    );
}

proof fn dict_aggregation_is_made(
    f: Flow,
    owner: Seq<char>,
    keys: Seq<Option<PyExprTree>>,
    values: Seq<PyExprTree>,
    table: Option<Seq<char>>,
    n: int,
    i: int,
)
    requires
        0 <= i < n <= keys.len(),
        n <= values.len(),
        keys[i] is Some,
        keys[i]->0 is Str,
    ensures
        has_column(
            agg_dict(f, owner, keys, values, table, n),
            f.columns.len() as int,
            owner,
            made_from_column(
                keys[i]->0->Str_1,
                keys[i]->0->Str_1,
                table,
                TransformType::Aggregation,
            ),
        ),
    decreases n,
{
    let prev = agg_dict(f, owner, keys, values, table, n - 1);
    let g = agg_dict(f, owner, keys, values, table, n);
    let col = keys[i]->0->Str_1;
    agg_dict_advances(f, owner, keys, values, table, n - 1);
    if i == n - 1 {
        base_column_is_made(
            prev,
            owner,
            col,
            col,
            table,
            TransformType::Aggregation,
            Some(agg_name(const_text(values[i]))),
            f.columns.len() as int,
        );
    } else {
        dict_aggregation_is_made(f, owner, keys, values, table, n - 1, i);
        assert(begins(prev.columns, g.columns)) by {
            assert(g.columns.subrange(0, prev.columns.len() as int) =~= prev.columns);
        }
        column_stays(
            prev,
            g,
            f.columns.len() as int,
            owner,
            made_from_column(col, col, table, TransformType::Aggregation),
        );
    }
}

/// `agg({"c": "sum", …})` aggregates each column that a key names.
pub proof fn dict_aggregates_each_key(
    f: Flow,
    owner: Seq<char>,
    c: PyCallTree,
    table: Option<Seq<char>>,
    i: int,
)
    requires
        is_method(c, "agg"@),
        c.args.len() > 0,
        c.args[0] is Dict,
        0 <= i < c.args[0]->Dict_1.len(),
        i < c.args[0]->Dict_2.len(),
        c.args[0]->Dict_1[i] is Some,
        c.args[0]->Dict_1[i]->0 is Str,
    ensures
        has_column(
            operated(f, owner, c, table),
            f.columns.len() as int,
            owner,
            made_from_column(
                c.args[0]->Dict_1[i]->0->Str_1,
                c.args[0]->Dict_1[i]->0->Str_1,
                table,
                TransformType::Aggregation,
            ),
        ),
{
    crate::flow::column_op_heads();
    aggregation_in_turn(f, owner, c, table);
    let keys = c.args[0]->Dict_1;
    let values = c.args[0]->Dict_2;
    let col = keys[i]->0->Str_1;
    let a = after_dict(f, owner, c, table);
    let b = agg_named(a, owner, c.keywords, table, c.keywords.len() as int);
    dict_aggregation_is_made(
        f,
        owner,
        keys,
        values,
        table,
        shorter(keys.len(), values.len()),
        i,
    );
    let wanted = made_from_column(col, col, table, TransformType::Aggregation);
    column_stays(a, b, f.columns.len() as int, owner, wanted);
    column_stays(b, aggregated(f, owner, c, table), f.columns.len() as int, owner, wanted);
}

/// True when the keyword is `name=("column", …)`.
pub open spec fn names_aggregate(k: PyKeywordTree, name: Seq<char>, column: Seq<char>) -> bool {
    &&& k.name == Some(name)
    &&& k.value is Tuple
    &&& k.value->Tuple_1.len() > 0
    &&& k.value->Tuple_1[0] is Str
    &&& k.value->Tuple_1[0]->Str_1 == column
}

proof fn keyword_aggregation_is_made(
    f: Flow,
    owner: Seq<char>,
    k: Seq<PyKeywordTree>,
    table: Option<Seq<char>>,
    n: int,
    i: int,
    from: int,
    name: Seq<char>,
    column: Seq<char>,
)
    requires
        0 <= i < n <= k.len(),
        0 <= from <= f.columns.len(),
        names_aggregate(k[i], name, column),
    ensures
        has_column(
            agg_named(f, owner, k, table, n),
            from,
            owner,
            made_from_column(name, column, table, TransformType::Aggregation),
        ),
    decreases n,
{
    let prev = agg_named(f, owner, k, table, n - 1);
    let g = agg_named(f, owner, k, table, n);
    agg_named_advances(f, owner, k, table, n - 1);
    if i == n - 1 {
        base_column_is_made(
            prev,
            owner,
            name,
            column,
            table,
            TransformType::Aggregation,
            Some(agg_name(arg_text(k[i].value->Tuple_1, 1))),
            from,
        );
    } else {
        keyword_aggregation_is_made(f, owner, k, table, n - 1, i, from, name, column);
        assert(begins(prev.columns, g.columns)) by {
            assert(g.columns.subrange(0, prev.columns.len() as int) =~= prev.columns);
        }
        column_stays(
            prev,
            g,
            from,
            owner,
            made_from_column(name, column, table, TransformType::Aggregation),
        );
    }
}

/// `agg(name=("c", "sum"), …)` aggregates the column of each keyword under the
/// name of the keyword.
pub proof fn keyword_aggregates_its_column(
    f: Flow,
    owner: Seq<char>,
    c: PyCallTree,
    table: Option<Seq<char>>,
    i: int,
    name: Seq<char>,
    column: Seq<char>,
)
    requires
        is_method(c, "agg"@),
        0 <= i < c.keywords.len(),
        names_aggregate(c.keywords[i], name, column),
    ensures
        has_column(
            operated(f, owner, c, table),
            f.columns.len() as int,
            owner,
            made_from_column(name, column, table, TransformType::Aggregation),
        ),
{
    crate::flow::column_op_heads();
    aggregation_in_turn(f, owner, c, table);
    let a = after_dict(f, owner, c, table);
    let b = agg_named(a, owner, c.keywords, table, c.keywords.len() as int);
    keyword_aggregation_is_made(
        a,
        owner,
        c.keywords,
        table,
        c.keywords.len() as int,
        i,
        f.columns.len() as int,
        name,
        column,
    );
    column_stays(
        b,
        aggregated(f, owner, c, table),
        f.columns.len() as int,
        owner,
        made_from_column(name, column, table, TransformType::Aggregation),
    );
}

/// `withColumnRenamed("a", "b")` gives column `a` the name `b`.
pub proof fn renamed_column_has_its_source(
    f: Flow,
    owner: Seq<char>,
    c: PyCallTree,
    table: Option<Seq<char>>,
)
    requires
        is_method(c, "withColumnRenamed"@),
        c.args.len() > 1,
        c.args[0] is Str,
        c.args[1] is Str,
    ensures
        operated(f, owner, c, table).columns.len() == f.columns.len() + 1,
        has_column(
            operated(f, owner, c, table),
            f.columns.len() as int,
            owner,
            made_from_column(
                c.args[1]->Str_1,
                c.args[0]->Str_1,
                table,
                TransformType::Identity,
            ),
        ),
{
    crate::flow::column_op_heads();
    base_column_is_made(
        f,
        owner,
        c.args[1]->Str_1,
        c.args[0]->Str_1,
        table,
        TransformType::Identity,
        Some("rename"@),
        f.columns.len() as int,
    );
}

proof fn dict_rename_is_made(
    f: Flow,
    owner: Seq<char>,
    keys: Seq<Option<PyExprTree>>,
    values: Seq<PyExprTree>,
    table: Option<Seq<char>>,
    n: int,
    i: int,
    from: int,
)
    requires
        0 <= i < n <= keys.len(),
        n <= values.len(),
        0 <= from <= f.columns.len(),
        keys[i] is Some,
        keys[i]->0 is Str,
        values[i] is Str,
    ensures
        has_column(
            renamed_dict(f, owner, keys, values, table, n),
            from,
            owner,
            made_from_column(
                values[i]->Str_1,
                keys[i]->0->Str_1,
                table,
                TransformType::Identity,
            ),
        ),
    decreases n,
{
    let prev = renamed_dict(f, owner, keys, values, table, n - 1);
    let g = renamed_dict(f, owner, keys, values, table, n);
    renamed_dict_advances(f, owner, keys, values, table, n - 1);
    if i == n - 1 {
        base_column_is_made(
            prev,
            owner,
            values[i]->Str_1,
            keys[i]->0->Str_1,
            table,
            TransformType::Identity,
            Some("rename"@),
            from,
        );
    } else {
        dict_rename_is_made(f, owner, keys, values, table, n - 1, i, from);
        assert(begins(prev.columns, g.columns)) by {
            assert(g.columns.subrange(0, prev.columns.len() as int) =~= prev.columns);
        }
        column_stays(
            prev,
            g,
            from,
            owner,
            made_from_column(
                values[i]->Str_1,
                keys[i]->0->Str_1,
                table,
                TransformType::Identity,
            ),
        );
    }
}

proof fn keyword_rename_is_made(
    f: Flow,
    owner: Seq<char>,
    c: PyCallTree,
    table: Option<Seq<char>>,
    n: int,
    k: int,
    i: int,
)
    requires
        0 <= k < n <= c.keywords.len(),
        is_rename(c.keywords[k], i),
    ensures
        has_column(
            renamed(f, owner, c, table, n),
            f.columns.len() as int,
            owner,
            made_from_column(
                c.keywords[k].value->Dict_2[i]->Str_1,
                c.keywords[k].value->Dict_1[i]->0->Str_1,
                table,
                TransformType::Identity,
            ),
        ),
    decreases n,
{
    let prev = renamed(f, owner, c, table, n - 1);
    renamed_advances(f, owner, c, table, n - 1);
    let keys = c.keywords[k].value->Dict_1;
    let values = c.keywords[k].value->Dict_2;
    if k == n - 1 {
        dict_rename_is_made(
            prev,
            owner,
            keys,
            values,
            table,
            shorter(keys.len(), values.len()),
            i,
            f.columns.len() as int,
        );
    } else {
        keyword_rename_is_made(f, owner, c, table, n - 1, k, i);
        let g = renamed(f, owner, c, table, n);
        if let PyExprTree::Dict(_, a, b) = c.keywords[n - 1].value {
            renamed_dict_advances(prev, owner, a, b, table, shorter(a.len(), b.len()));
        }
        assert(begins(prev.columns, g.columns)) by {
            begins_self(prev.columns);
        }
        column_stays(
            prev,
            g,
            f.columns.len() as int,
            owner,
            made_from_column(
                values[i]->Str_1,
                keys[i]->0->Str_1,
                table,
                TransformType::Identity,
            ),
        );
    }
}

/// True when entry `i` of the keyword `columns={…}` renames one literal name to
/// another.
pub open spec fn is_rename(k: PyKeywordTree, i: int) -> bool {
    &&& k.name == Some("columns"@)
    &&& k.value is Dict
    &&& 0 <= i < k.value->Dict_1.len()
    &&& i < k.value->Dict_2.len()
    &&& k.value->Dict_1[i] is Some
    &&& k.value->Dict_1[i]->0 is Str
    &&& k.value->Dict_2[i] is Str
}

/// `rename(columns={"a": "b", …})` gives each column that a key names the name
/// that is its value.
pub proof fn dict_renames_each_key(
    f: Flow,
    owner: Seq<char>,
    c: PyCallTree,
    table: Option<Seq<char>>,
    k: int,
    i: int,
)
    requires
        is_method(c, "rename"@),
        0 <= k < c.keywords.len(),
        is_rename(c.keywords[k], i),
    ensures
        has_column(
            operated(f, owner, c, table),
            f.columns.len() as int,
            owner,
            made_from_column(
                c.keywords[k].value->Dict_2[i]->Str_1,
                c.keywords[k].value->Dict_1[i]->0->Str_1,
                table,
                TransformType::Identity,
            ),
        ),
{
    crate::flow::column_op_heads();
    let n = c.keywords.len() as int;
    keyword_rename_is_made(f, owner, c, table, n, k, i);
    let prev = renamed(f, owner, c, table, n);
    begins_self(prev.columns);
    column_stays(
        prev,
        operated(f, owner, c, table),
        f.columns.len() as int,
        owner,
        made_from_column(
            c.keywords[k].value->Dict_2[i]->Str_1,
            c.keywords[k].value->Dict_1[i]->0->Str_1,
            table,
            TransformType::Identity,
        ),
    );
}

/// A column that carries a mapping of a SQL text, its sources with the table of
/// the frame where they have none.
pub open spec fn made_from_mapping(m: SqlMappingView, table: Option<Seq<char>>) -> spec_fn(
    InferredColumnView,
) -> bool {
    |c: InferredColumnView|
        {
            &&& c.target == m.target
            &&& c.transform_type == m.transform_type
            &&& c.sources.len() == m.sources.len()
            &&& forall|i: int|
                0 <= i < m.sources.len() ==> #[trigger] c.sources[i] == shown(m.sources[i], table)
        }
}

proof fn sql_item_is_made(
    f: Flow,
    owner: Seq<char>,
    ms: Seq<SqlMappingView>,
    frag: Seq<char>,
    span: Span,
    table: Option<Seq<char>>,
    n: int,
    k: int,
    from: int,
)
    requires
        0 <= k < n <= ms.len(),
        ms[k].target.len() > 0,
        0 <= from <= f.columns.len(),
    ensures
        has_column(
            sql_items(f, owner, ms, frag, span, table, n),
            from,
            owner,
            made_from_mapping(ms[k], table),
        ),
    decreases n,
{
    let prev = sql_items(f, owner, ms, frag, span, table, n - 1);
    let g = sql_items(f, owner, ms, frag, span, table, n);
    sql_items_advances(f, owner, ms, frag, span, table, n - 1);
    if k == n - 1 {
        dot_is_a_character();
        let c = g.columns.last().1;
        assert(g.columns == prev.columns.push((owner, c)));
        column_comes(prev, g, from, owner, c, made_from_mapping(ms[k], table));
    } else {
        sql_item_is_made(f, owner, ms, frag, span, table, n - 1, k, from);
        assert(begins(prev.columns, g.columns)) by {
            assert(g.columns.subrange(0, prev.columns.len() as int) =~= prev.columns);
        }
        column_stays(prev, g, from, owner, made_from_mapping(ms[k], table));
    }
}

proof fn sql_argument_is_made(
    f: Flow,
    owner: Seq<char>,
    c: PyCallTree,
    table: Option<Seq<char>>,
    n: int,
    i: int,
    k: int,
)
    requires
        0 <= i < n <= c.args.len(),
        c.args[i] is Str,
        0 <= k < fragment_mappings(c.args[i]->Str_1).len(),
        fragment_mappings(c.args[i]->Str_1)[k].target.len() > 0,
    ensures
        has_column(
            selected_sql(f, owner, c, table, n),
            f.columns.len() as int,
            owner,
            made_from_mapping(fragment_mappings(c.args[i]->Str_1)[k], table),
        ),
    decreases n,
{
    let prev = selected_sql(f, owner, c, table, n - 1);
    let g = selected_sql(f, owner, c, table, n);
    let m = fragment_mappings(c.args[i]->Str_1)[k];
    selected_sql_advances(f, owner, c, table, n - 1);
    if i == n - 1 {
        let frag = c.args[i]->Str_1;
        let ms = fragment_mappings(frag);
        sql_item_is_made(
            prev,
            owner,
            ms,
            frag,
            c.span,
            table,
            ms.len() as int,
            k,
            f.columns.len() as int,
        );
    } else {
        sql_argument_is_made(f, owner, c, table, n - 1, i, k);
        assert(begins(prev.columns, g.columns)) by {
            begins_self(prev.columns);
            if let PyExprTree::Str(_, frag) = c.args[n - 1] {
                let ms = fragment_mappings(frag);
                let start = if ms.len() == 0 {
                    noted(
                        prev,
                        c.span,
                        "selectExpr(\""@ + frag
                            + "\") couldn't be parsed — declare it in column_map"@,
                    )
                } else {
                    prev
                };
                sql_items_advances(start, owner, ms, frag, c.span, table, ms.len() as int);
            }
        }
        column_stays(prev, g, f.columns.len() as int, owner, made_from_mapping(m, table));
    }
}

/// `selectExpr("… AS name", …)` adds a column for each named item of each of
/// its arguments, with every source of the item.
pub proof fn each_sql_item_is_selected(
    f: Flow,
    owner: Seq<char>,
    c: PyCallTree,
    table: Option<Seq<char>>,
    i: int,
    k: int,
)
    requires
        is_method(c, "selectExpr"@),
        0 <= i < c.args.len(),
        c.args[i] is Str,
        0 <= k < sql_lineage("SELECT "@ + c.args[i]->Str_1).mappings.len(),
        sql_lineage("SELECT "@ + c.args[i]->Str_1).mappings[k].target.len() > 0,
    ensures
        has_column(
            operated(f, owner, c, table),
            f.columns.len() as int,
            owner,
            made_from_mapping(sql_lineage("SELECT "@ + c.args[i]->Str_1).mappings[k], table),
        ),
{
    crate::flow::column_op_heads();
    sql_argument_is_made(f, owner, c, table, c.args.len() as int, i, k);
}

/// True when the argument of a grouping is the key: that literal, or an
/// expression that reads a column of that name.
pub open spec fn is_key(sc: Scope, arg: PyExprTree, key: Seq<char>) -> bool {
    if arg is Str {
        arg->Str_1 == key
    } else {
        exists|r: SqlColRefView| #[trigger] reads(sc, arg, r) && r.column == key
    }
}

proof fn keys_are_named(sc: Scope, args: Seq<PyExprTree>, n: int, key: Seq<char>)
    requires
        0 <= n <= args.len(),
    ensures
        group_names(sc, args, n).contains(key) <==> exists|i: int|
            0 <= i < n && is_key(sc, #[trigger] args[i], key),
    decreases n,
{
    if n > 0 {
        keys_are_named(sc, args, n - 1, key);
        let prev = group_names(sc, args, n - 1);
        let arg = args[n - 1];
        if arg is Str {
            pushed_has(prev, arg->Str_1, key);
        } else {
            let refs = cols_of(sc, arg, Seq::empty());
            let names = Seq::new(refs.len(), |i: int| refs[i].column);
            references_are_the_columns_read(sc, arg);
            joined_has(prev, names, key);
            assert(names.contains(key) <==> is_key(sc, arg, key)) by {
                if names.contains(key) {
                    let i = choose|i: int| 0 <= i < names.len() && names[i] == key;
                    assert(refs.contains(refs[i]));
                    assert(reads(sc, arg, refs[i]));
                }
                if is_key(sc, arg, key) {
                    let r = choose|r: SqlColRefView| #[trigger]
                        reads(sc, arg, r) && r.column == key;
                    assert(refs.contains(r));
                    let i = choose|i: int| 0 <= i < refs.len() && refs[i] == r;
                    assert(names[i] == key);
                }
            }
        }
        if is_key(sc, arg, key) {
            assert(exists|i: int| 0 <= i < n && is_key(sc, #[trigger] args[i], key));
        }
    }
}

proof fn key_is_made(
    f: Flow,
    owner: Seq<char>,
    names: Seq<Seq<char>>,
    table: Option<Seq<char>>,
    n: int,
    i: int,
)
    requires
        0 <= i < n <= names.len(),
    ensures
        has_column(
            grouped(f, owner, names, table, n),
            f.columns.len() as int,
            owner,
            made_from_column(names[i], names[i], table, TransformType::Identity),
        ),
    decreases n,
{
    let prev = grouped(f, owner, names, table, n - 1);
    let g = grouped(f, owner, names, table, n);
    grouped_advances(f, owner, names, table, n - 1);
    if i == n - 1 {
        base_column_is_made(
            prev,
            owner,
            names[i],
            names[i],
            table,
            TransformType::Identity,
            None,
            f.columns.len() as int,
        );
    } else {
        key_is_made(f, owner, names, table, n - 1, i);
        assert(begins(prev.columns, g.columns)) by {
            assert(g.columns.subrange(0, prev.columns.len() as int) =~= prev.columns);
        }
        column_stays(
            prev,
            g,
            f.columns.len() as int,
            owner,
            made_from_column(names[i], names[i], table, TransformType::Identity),
        );
    }
}

/// `groupby("k", …)` passes each of its keys through, and so does `groupBy`.
pub proof fn each_key_passes(
    f: Flow,
    owner: Seq<char>,
    c: PyCallTree,
    table: Option<Seq<char>>,
    i: int,
    key: Seq<char>,
)
    requires
        is_method(c, "groupby"@) || is_method(c, "groupBy"@),
        0 <= i < c.args.len(),
        is_key(f.scope, c.args[i], key),
    ensures
        has_column(
            operated(f, owner, c, table),
            f.columns.len() as int,
            owner,
            made_from_column(key, key, table, TransformType::Identity),
        ),
{
    let n = c.args.len() as int;
    let names = group_names(f.scope, c.args, n);
    keys_are_named(f.scope, c.args, n, key);
    assert(names.contains(key));
    let k = choose|k: int| 0 <= k < names.len() && names[k] == key;
    key_is_made(f, owner, names, table, names.len() as int, k);
    let a = grouped(f, owner, names, table, names.len() as int);
    let b = keys_noted(a, c.args, n);
    let g = by_noted(b, c.keywords, c.keywords.len() as int);
    keys_noted_advances(a, c.args, n);
    by_noted_advances(b, c.keywords, c.keywords.len() as int);
    let wanted = made_from_column(key, key, table, TransformType::Identity);
    column_stays(a, b, f.columns.len() as int, owner, wanted);
    column_stays(b, g, f.columns.len() as int, owner, wanted);
}

proof fn operation_keeps_column(
    prev: Flow,
    owner: Seq<char>,
    op: PyCallTree,
    table: Option<Seq<char>>,
    from: int,
    wanted: spec_fn(InferredColumnView) -> bool,
)
    requires
        0 <= from,
        has_column(prev, from, owner, wanted),
    ensures
        has_column(operated(prev, owner, op, table), from, owner, wanted),
{
    operated_advances(prev, owner, op, table);
    column_stays(prev, operated(prev, owner, op, table), from, owner, wanted);
}

proof fn chain_steps(
    f: Flow,
    owner: Seq<char>,
    ops: Seq<PyCallTree>,
    table: Option<Seq<char>>,
    start: int,
    n: int,
)
    requires
        0 <= start < n,
    ensures
        operated_chain(f, owner, ops, table, start, n) == operated(
            operated_chain(f, owner, ops, table, start, n - 1),
            owner,
            ops[n - 1],
            table,
        ),
{
}

/// What an operation of a chain adds is still there after the others.
#[verifier::rlimit(60)]
pub proof fn chain_keeps_each_column(
    f: Flow,
    owner: Seq<char>,
    ops: Seq<PyCallTree>,
    table: Option<Seq<char>>,
    start: int,
    i: int,
    n: int,
    from: int,
    wanted: spec_fn(InferredColumnView) -> bool,
)
    requires
        0 <= start <= i < n <= ops.len(),
        0 <= from,
        has_column(
            operated(operated_chain(f, owner, ops, table, start, i), owner, ops[i], table),
            from,
            owner,
            wanted,
        ),
    ensures
        has_column(operated_chain(f, owner, ops, table, start, n), from, owner, wanted),
    decreases n,
{
    chain_steps(f, owner, ops, table, start, n);
    if i < n - 1 {
        chain_keeps_each_column(f, owner, ops, table, start, i, n - 1, from, wanted);
        operation_keeps_column(
            operated_chain(f, owner, ops, table, start, n - 1),
            owner,
            ops[n - 1],
            table,
            from,
            wanted,
        );
    }
}

// ──────────────────────────────── results ─────────────────────────────

/// True when the two columns are the same but for the table that they are
/// written to.
pub open spec fn same_column(a: InferredColumnView, b: InferredColumnView) -> bool {
    &&& a.sources == b.sources
    &&& a.target == b.target
    &&& a.function == b.function
    &&& a.transform_type == b.transform_type
}

/// True when the column is column `k` of the state, written to the table that
/// its variable was written to, where it was.
pub open spec fn is_result_of(c: InferredColumnView, f: Flow, k: int) -> bool {
    &&& 0 <= k < f.columns.len()
    &&& same_column(c, f.columns[k].1)
    &&& c.output_table == if f.writes.contains_key(f.columns[k].0) {
        f.writes[f.columns[k].0]
    } else {
        f.columns[k].1.output_table
    }
}

proof fn placed_have(f: Flow, n: int, k: int)
    requires
        0 <= k < n <= f.columns.len(),
    ensures
        placed_columns(f, n).contains(placed(f.writes, f.columns[k].0, f.columns[k].1)),
    decreases n,
{
    let prev = placed_columns(f, n - 1);
    let x = placed(f.writes, f.columns[n - 1].0, f.columns[n - 1].1);
    crate::collections::push_new_holds(prev, x);
    if k < n - 1 {
        placed_have(f, n - 1, k);
    }
}

proof fn placed_come_from(f: Flow, n: int, x: InferredColumnView)
    requires
        0 <= n <= f.columns.len(),
        placed_columns(f, n).contains(x),
    ensures
        exists|k: int| 0 <= k < n && #[trigger] is_result_of(x, f, k),
    decreases n,
{
    if n > 0 {
        let prev = placed_columns(f, n - 1);
        let y = placed(f.writes, f.columns[n - 1].0, f.columns[n - 1].1);
        crate::collections::push_new_holds(prev, y);
        if prev.contains(x) {
            placed_come_from(f, n - 1, x);
        } else {
            assert(is_result_of(x, f, n - 1));
        }
    }
}

/// Every column that was traced is in the result.
pub proof fn traced_column_is_in_the_result(f: Flow, k: int)
    requires
        0 <= k < f.columns.len(),
    ensures
        exists|i: int|
            0 <= i < finished(f).columns.len() && is_result_of(
                #[trigger] finished(f).columns[i],
                f,
                k,
            ),
{
    let r = finished(f).columns;
    placed_have(f, f.columns.len() as int, k);
    let x = placed(f.writes, f.columns[k].0, f.columns[k].1);
    let i = choose|i: int| 0 <= i < r.len() && r[i] == x;
    assert(is_result_of(r[i], f, k));
}

/// Each column of the result was traced.
pub proof fn result_was_traced(f: Flow, i: int)
    requires
        0 <= i < finished(f).columns.len(),
    ensures
        exists|k: int| #[trigger] is_result_of(finished(f).columns[i], f, k),
{
    assert(finished(f).columns.contains(finished(f).columns[i]));
    placed_come_from(f, f.columns.len() as int, finished(f).columns[i]);
}

/// A column assignment of a body is in the result of its analysis, with every
/// column that its right side reads as a source: for each column that a read
/// part of the value refers to, its table and its name are among the sources.
pub proof fn assignment_reaches_the_result(
    b: Seq<PyStmtTree>,
    consts: Map<Seq<char>, Seq<char>>,
    source: Seq<char>,
    i: int,
    span: Span,
    owner_span: Span,
    owner: Seq<char>,
    key: PyExprTree,
    col: Seq<char>,
    value: PyExprTree,
)
    requires
        0 <= i < b.len(),
        b[i] == PyStmtTree::Assign(
            seq![
                PyExprTree::Subscript(
                    span,
                    Box::new(PyExprTree::Name(owner_span, owner)),
                    Box::new(key),
                ),
            ],
            value,
        ),
        is_text(walked(fresh_flow(consts, source), b, i).scope, key, col),
        !is_untraced(walked(fresh_flow(consts, source), b, i).scope, value),
    ensures
        exists|k: int|
            0 <= k < dataflow_of(b, consts, source).columns.len() && is_traced(
                #[trigger] dataflow_of(b, consts, source).columns[k],
                walked(fresh_flow(consts, source), b, i).scope,
                col,
                value,
            ),
{
    let start = fresh_flow(consts, source);
    let f = walked(start, b, i);
    let g = walked(start, b, i + 1);
    let n = b.len() as int;
    let target = PyExprTree::Subscript(
        span,
        Box::new(PyExprTree::Name(owner_span, owner)),
        Box::new(key),
    );
    statement_assigns(f, b[i], target, value);
    assert(g == assigned_to(f, target, value));
    assigned_column_has_every_source(f, span, owner_span, owner, key, col, value);
    assert(is_traced(g.columns.last().1, f.scope, col, value));
    crate::flow::analysis_forgets_nothing(start, b, i + 1, n);
    kept_column_is_in_the_result(g, walked(start, b, n), f.scope, col, value);
}

/// True when the column is the one that an assignment of the value makes.
pub open spec fn is_traced(
    c: InferredColumnView,
    sc: Scope,
    col: Seq<char>,
    value: PyExprTree,
) -> bool {
    &&& c.target == col
    &&& match read_value(sc, value) {
        Some((inner, e)) => are_sources(c.sources, inner, e, None),
        None => c.sources.len() == 0,
    }
}

proof fn statement_assigns(f: Flow, s: PyStmtTree, target: PyExprTree, value: PyExprTree)
    requires
        s == PyStmtTree::Assign(seq![target], value),
    ensures
        stepped(f, s) == assigned_to(f, target, value),
{
    assert(seq![target][0] == target);
}

proof fn kept_column_is_in_the_result(
    g: Flow,
    last: Flow,
    sc: Scope,
    col: Seq<char>,
    value: PyExprTree,
)
    requires
        g.columns.len() > 0,
        begins(g.columns, last.columns),
        is_traced(g.columns.last().1, sc, col, value),
    ensures
        exists|k: int|
            0 <= k < finished(last).columns.len() && is_traced(
                #[trigger] finished(last).columns[k],
                sc,
                col,
                value,
            ),
{
    let m = g.columns.len() - 1;
    assert(last.columns.subrange(0, g.columns.len() as int)[m] == g.columns[m]);
    traced_column_is_in_the_result(last, m);
    let r = finished(last).columns;
    let k = choose|k: int| 0 <= k < r.len() && is_result_of(#[trigger] r[k], last, m);
    assert(is_traced(r[k], sc, col, value));
}

} // verus!

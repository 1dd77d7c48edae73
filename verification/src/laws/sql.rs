//! The lineage of a SQL text and the text itself: which columns an expression
//! refers to, which tables a query reads, and which item goes to which column.

use vstd::prelude::*;

use crate::laws::reading::{lists_those, one_more};
use crate::sql::{
    add_mapping, arg_refs, assigned, body_lineage, body_tables, branch_refs, extended_new,
    factor_alias, factor_tables, first_lineage, from_tables, implicit_name, inserted,
    inserted_values, is_aggregate, item_name, joined_tables, kind_of, list_refs, mapping_of,
    maps_target, merge_lineage, merge_mapping, named_mappings, refs_of, sql_lineage,
    statement_lineage, tables_of, unqualified, unqualified_refs, updated, SqlColRefView,
    SqlColumnLineageView, SqlMappingView,
};
use crate::sqlast::{
    sql_parse, SqlAssignmentTree, SqlBodyTree, SqlBranchTree, SqlExprTree, SqlFactorTree,
    SqlItemTree, SqlMergeActionTree, SqlStatementTree, SqlTablesTree, SqlValueTree,
};
use crate::text::{ascii_upper, push_new, squeezed};

verus! {

// ─────────────────────────── parts of expressions ─────────────────────

pub open spec fn unboxed(o: Option<Box<SqlExprTree>>) -> Option<SqlExprTree> {
    match o {
        Some(x) => Some(*x),
        None => None,
    }
}

/// What an expression is made of, in reading order; nothing stands for a part
/// that is left out.
pub open spec fn parts(e: SqlExprTree) -> Seq<Option<SqlExprTree>> {
    match e {
        SqlExprTree::Nested(x) => seq![Some(*x)],
        SqlExprTree::Cast(x) => seq![Some(*x)],
        SqlExprTree::Unary(x) => seq![Some(*x)],
        SqlExprTree::Binary(l, r) => seq![Some(*l), Some(*r)],
        SqlExprTree::Between(x, l, h) => seq![Some(*x), Some(*l), Some(*h)],
        SqlExprTree::Case(o, b, x) => seq![unboxed(o)] + branch_parts(b) + seq![unboxed(x)],
        SqlExprTree::Function(_, a) => a,
        SqlExprTree::InList(x, v) => seq![Some(*x)] + Seq::new(v.len(), |i: int| Some(v[i])),
        _ => Seq::empty(),
    }
}

/// The conditions and the results of the branches, each result behind its
/// condition.
pub open spec fn branch_parts(b: Seq<SqlBranchTree>) -> Seq<Option<SqlExprTree>> {
    Seq::new(
        2 * b.len(),
        |i: int|
            Some(
                if i % 2 == 0 {
                    b[i / 2].condition
                } else {
                    b[i / 2].result
                },
            ),
    )
}

/// True when `x` is one of the parts of `e`.
pub open spec fn is_part(x: SqlExprTree, e: SqlExprTree) -> bool {
    parts(e).contains(Some(x))
}

/// True when `x` lies in `e`, that many parts deep.
pub open spec fn lies_in(x: SqlExprTree, e: SqlExprTree, depth: nat) -> bool
    decreases depth,
{
    if depth == 0 {
        x == e
    } else {
        exists|y: SqlExprTree| #[trigger] is_part(y, e) && lies_in(x, y, (depth - 1) as nat)
    }
}

/// True when `x` occurs somewhere in `e`.
pub open spec fn occurs(x: SqlExprTree, e: SqlExprTree) -> bool {
    exists|depth: nat| lies_in(x, e, depth)
}

/// The column that an expression is the name of.
pub open spec fn column_named(e: SqlExprTree) -> Option<SqlColRefView> {
    match e {
        SqlExprTree::Identifier(n) => Some(SqlColRefView { table: None, column: n }),
        SqlExprTree::Compound(p) => if p.len() == 0 {
            None
        } else if p.len() == 1 {
            Some(SqlColRefView { table: None, column: p[0] })
        } else {
            Some(SqlColRefView { table: Some(p[p.len() - 2]), column: p[p.len() - 1] })
        },
        _ => None,
    }
}

/// True when the name of the column occurs in `e`.
pub open spec fn refers_to(e: SqlExprTree, r: SqlColRefView) -> bool {
    exists|x: SqlExprTree| #[trigger] occurs(x, e) && column_named(x) == Some(r)
}

/// The same, by the shape of the expression.
spec fn mentions(e: SqlExprTree, r: SqlColRefView) -> bool
    decreases e,
{
    match e {
        SqlExprTree::Identifier(_) => column_named(e) == Some(r),
        SqlExprTree::Compound(_) => column_named(e) == Some(r),
        SqlExprTree::Nested(x) => mentions(*x, r),
        SqlExprTree::Cast(x) => mentions(*x, r),
        SqlExprTree::Unary(x) => mentions(*x, r),
        SqlExprTree::Binary(l, h) => mentions(*l, r) || mentions(*h, r),
        SqlExprTree::Between(x, l, h) => mentions(*x, r) || mentions(*l, r) || mentions(*h, r),
        SqlExprTree::Case(o, b, x) => {
            ||| o matches Some(y) && mentions(*y, r)
            ||| exists|i: int|
                0 <= i < b.len() && (mentions((#[trigger] b[i]).condition, r) || mentions(
                    b[i].result,
                    r,
                ))
            ||| x matches Some(y) && mentions(*y, r)
        },
        SqlExprTree::Function(_, a) => exists|i: int|
            0 <= i < a.len() && ((#[trigger] a[i]) matches Some(x) && mentions(x, r)),
        SqlExprTree::InList(x, v) => mentions(*x, r) || exists|i: int|
            0 <= i < v.len() && mentions(#[trigger] v[i], r),
        SqlExprTree::Other => false,
    }
}

proof fn push_new_has<A>(s: Seq<A>, x: A)
    ensures
        forall|y: A| #[trigger] push_new(s, x).contains(y) <==> s.contains(y) || y == x,
        s.no_duplicates() ==> push_new(s, x).no_duplicates(),
{
    crate::collections::push_new_holds(s, x);
}

proof fn refs_have(e: SqlExprTree, out: Seq<SqlColRefView>)
    ensures
        forall|r: SqlColRefView| #[trigger]
            refs_of(e, out).contains(r) <==> out.contains(r) || mentions(e, r),
        out.no_duplicates() ==> refs_of(e, out).no_duplicates(),
    decreases e, 0int,
{
    match e {
        SqlExprTree::Identifier(n) => {
            push_new_has(out, SqlColRefView { table: None, column: n });
        },
        SqlExprTree::Compound(p) => {
            if p.len() > 0 {
                push_new_has(out, crate::sql::compound_ref(p));
                assert(column_named(e) == Some(crate::sql::compound_ref(p)));
            }
        },
        SqlExprTree::Nested(x) => {
            refs_have(*x, out);
            assert forall|r: SqlColRefView| #[trigger]
                refs_of(e, out).contains(r) <==> out.contains(r) || mentions(e, r) by {
                assert(refs_of(e, out) == refs_of(*x, out));
                assert(mentions(e, r) == mentions(*x, r));
            }
        },
        SqlExprTree::Cast(x) => {
            refs_have(*x, out);
            assert forall|r: SqlColRefView| #[trigger]
                refs_of(e, out).contains(r) <==> out.contains(r) || mentions(e, r) by {
                assert(refs_of(e, out) == refs_of(*x, out));
                assert(mentions(e, r) == mentions(*x, r));
            }
        },
        SqlExprTree::Unary(x) => {
            refs_have(*x, out);
            assert forall|r: SqlColRefView| #[trigger]
                refs_of(e, out).contains(r) <==> out.contains(r) || mentions(e, r) by {
                assert(refs_of(e, out) == refs_of(*x, out));
                assert(mentions(e, r) == mentions(*x, r));
            }
        },
        SqlExprTree::Binary(l, r) => {
            refs_have(*l, out);
            refs_have(*r, refs_of(*l, out));
            assert forall|c: SqlColRefView| #[trigger]
                refs_of(e, out).contains(c) <==> out.contains(c) || mentions(e, c) by {
                assert(refs_of(e, out) == refs_of(*r, refs_of(*l, out)));
                assert(refs_of(*l, out).contains(c) <==> out.contains(c) || mentions(*l, c));
                assert(mentions(e, c) == (mentions(*l, c) || mentions(*r, c)));
            }
        },
        SqlExprTree::Between(x, l, h) => {
            refs_have(*x, out);
            refs_have(*l, refs_of(*x, out));
            refs_have(*h, refs_of(*l, refs_of(*x, out)));
            assert forall|c: SqlColRefView| #[trigger]
                refs_of(e, out).contains(c) <==> out.contains(c) || mentions(e, c) by {
                let mid = refs_of(*l, refs_of(*x, out));
                assert(refs_of(e, out) == refs_of(*h, mid));
                assert(mid.contains(c) <==> refs_of(*x, out).contains(c) || mentions(*l, c));
                assert(refs_of(*x, out).contains(c) <==> out.contains(c) || mentions(*x, c));
                assert(mentions(e, c) == (mentions(*x, c) || mentions(*l, c) || mentions(*h, c)));
            }
        },
        SqlExprTree::Case(o, b, x) => {
            let first = match o {
                Some(y) => refs_of(*y, out),
                None => out,
            };
            if let Some(y) = o {
                refs_have(*y, out);
            }
            branches_have(b, b.len() as int, first);
            let middle = branch_refs(b, b.len() as int, first);
            if let Some(y) = x {
                refs_have(*y, middle);
            }
            assert forall|r: SqlColRefView| #[trigger]
                refs_of(e, out).contains(r) <==> out.contains(r) || mentions(e, r) by {
                assert(first.contains(r) <==> out.contains(r) || (o matches Some(y) && mentions(
                    *y,
                    r,
                )));
                assert(middle.contains(r) <==> first.contains(r) || exists|i: int|
                    0 <= i < b.len() && (mentions((#[trigger] b[i]).condition, r) || mentions(
                        b[i].result,
                        r,
                    )));
                assert(refs_of(e, out) == match x {
                    Some(y) => refs_of(*y, middle),
                    None => middle,
                });
                assert(refs_of(e, out).contains(r) <==> middle.contains(r) || (x matches Some(y)
                    && mentions(*y, r)));
            }
        },
        SqlExprTree::Function(_, a) => {
            args_have(a, a.len() as int, out);
            assert forall|r: SqlColRefView| #[trigger]
                refs_of(e, out).contains(r) <==> out.contains(r) || mentions(e, r) by {
                assert(arg_refs(a, a.len() as int, out).contains(r) <==> out.contains(r)
                    || exists|i: int|
                    0 <= i < a.len() && ((#[trigger] a[i]) matches Some(x) && mentions(x, r)));
            }
        },
        SqlExprTree::InList(x, v) => {
            refs_have(*x, out);
            let first = refs_of(*x, out);
            list_has(v, v.len() as int, first);
            assert forall|r: SqlColRefView| #[trigger]
                refs_of(e, out).contains(r) <==> out.contains(r) || mentions(e, r) by {
                assert(first.contains(r) <==> out.contains(r) || mentions(*x, r));
                assert(list_refs(v, v.len() as int, first).contains(r) <==> first.contains(r)
                    || exists|i: int| 0 <= i < v.len() && mentions(#[trigger] v[i], r));
            }
        },
        SqlExprTree::Other => {},
    }
}

proof fn branches_have(b: Seq<SqlBranchTree>, n: int, out: Seq<SqlColRefView>)
    requires
        n <= b.len(),
    ensures
        forall|r: SqlColRefView| #[trigger]
            branch_refs(b, n, out).contains(r) <==> out.contains(r) || exists|i: int|
                0 <= i < n && (mentions((#[trigger] b[i]).condition, r) || mentions(b[i].result, r)),
        out.no_duplicates() ==> branch_refs(b, n, out).no_duplicates(),
    decreases b, n,
{
    if n > 0 {
        branches_have(b, n - 1, out);
        let prev = branch_refs(b, n - 1, out);
        assert(decreases_to!(b => b[n - 1]));
        refs_have(b[n - 1].condition, prev);
        refs_have(b[n - 1].result, refs_of(b[n - 1].condition, prev));
        assert forall|r: SqlColRefView| #[trigger]
            branch_refs(b, n, out).contains(r) <==> out.contains(r) || exists|i: int|
                0 <= i < n && (mentions((#[trigger] b[i]).condition, r) || mentions(
                    b[i].result,
                    r,
                )) by {
            let mid = refs_of(b[n - 1].condition, prev);
            assert(branch_refs(b, n, out) == refs_of(b[n - 1].result, mid));
            assert(mid.contains(r) <==> prev.contains(r) || mentions(b[n - 1].condition, r));
            assert(prev.contains(r) <==> out.contains(r) || exists|i: int|
                0 <= i < n - 1 && (mentions((#[trigger] b[i]).condition, r) || mentions(
                    b[i].result,
                    r,
                )));
            if mentions(b[n - 1].condition, r) || mentions(b[n - 1].result, r) {
                assert(exists|i: int|
                    0 <= i < n && (mentions((#[trigger] b[i]).condition, r) || mentions(
                        b[i].result,
                        r,
                    )));
            }
            if prev.contains(r) && !out.contains(r) {
                let i = choose|i: int|
                    0 <= i < n - 1 && (mentions((#[trigger] b[i]).condition, r) || mentions(
                        b[i].result,
                        r,
                    ));
                assert(0 <= i < n);
            }
        }
    }
}

proof fn args_have(a: Seq<Option<SqlExprTree>>, n: int, out: Seq<SqlColRefView>)
    requires
        n <= a.len(),
    ensures
        forall|r: SqlColRefView| #[trigger]
            arg_refs(a, n, out).contains(r) <==> out.contains(r) || exists|i: int|
                0 <= i < n && ((#[trigger] a[i]) matches Some(x) && mentions(x, r)),
        out.no_duplicates() ==> arg_refs(a, n, out).no_duplicates(),
    decreases a, n,
{
    if n > 0 {
        args_have(a, n - 1, out);
        let prev = arg_refs(a, n - 1, out);
        assert(decreases_to!(a => a[n - 1]));
        if let Some(x) = a[n - 1] {
            refs_have(x, prev);
        }
        assert forall|r: SqlColRefView| #[trigger]
            arg_refs(a, n, out).contains(r) <==> out.contains(r) || exists|i: int|
                0 <= i < n && ((#[trigger] a[i]) matches Some(x) && mentions(x, r)) by {
            assert(prev.contains(r) <==> out.contains(r) || exists|i: int|
                0 <= i < n - 1 && ((#[trigger] a[i]) matches Some(x) && mentions(x, r)));
            match a[n - 1] {
                Some(x) => {
                    assert(arg_refs(a, n, out) == refs_of(x, prev));
                    assert(refs_of(x, prev).contains(r) <==> prev.contains(r) || mentions(x, r));
                    if mentions(x, r) {
                        assert(exists|i: int|
                            0 <= i < n && ((#[trigger] a[i]) matches Some(x) && mentions(x, r)));
                    }
                },
                None => {
                    assert(arg_refs(a, n, out) == prev);
                },
            }
            if prev.contains(r) && !out.contains(r) {
                let i = choose|i: int|
                    0 <= i < n - 1 && ((#[trigger] a[i]) matches Some(x) && mentions(x, r));
                assert(0 <= i < n);
            }
        }
    }
}

proof fn list_has(v: Seq<SqlExprTree>, n: int, out: Seq<SqlColRefView>)
    requires
        n <= v.len(),
    ensures
        forall|r: SqlColRefView| #[trigger]
            list_refs(v, n, out).contains(r) <==> out.contains(r) || exists|i: int|
                0 <= i < n && mentions(#[trigger] v[i], r),
        out.no_duplicates() ==> list_refs(v, n, out).no_duplicates(),
    decreases v, n,
{
    if n > 0 {
        list_has(v, n - 1, out);
        let prev = list_refs(v, n - 1, out);
        refs_have(v[n - 1], prev);
        assert forall|r: SqlColRefView| #[trigger]
            list_refs(v, n, out).contains(r) <==> out.contains(r) || exists|i: int|
                0 <= i < n && mentions(#[trigger] v[i], r) by {
            assert(list_refs(v, n, out) == refs_of(v[n - 1], prev));
            assert(refs_of(v[n - 1], prev).contains(r) <==> prev.contains(r) || mentions(v[n - 1], r));
            assert(prev.contains(r) <==> out.contains(r) || exists|i: int|
                0 <= i < n - 1 && mentions(#[trigger] v[i], r));
            if mentions(v[n - 1], r) {
                assert(exists|i: int| 0 <= i < n && mentions(#[trigger] v[i], r));
            }
            if prev.contains(r) && !out.contains(r) {
                let i = choose|i: int| 0 <= i < n - 1 && mentions(#[trigger] v[i], r);
                assert(0 <= i < n);
            }
        }
    }
}

proof fn part_mentions(y: SqlExprTree, e: SqlExprTree, r: SqlColRefView)
    requires
        is_part(y, e),
        mentions(y, r),
    ensures
        mentions(e, r),
{
    let p = parts(e);
    let k = choose|k: int| 0 <= k < p.len() && p[k] == Some(y);
    match e {
        SqlExprTree::Case(o, b, x) => {
            if k == 0 {
                assert(p[0] == unboxed(o));
            } else if k == p.len() - 1 {
                assert(p[k] == unboxed(x));
            } else {
                assert(p[k] == branch_parts(b)[k - 1]);
                assert(0 <= (k - 1) / 2 < b.len());
                assert(b[(k - 1) / 2].condition == y || b[(k - 1) / 2].result == y);
            }
        },
        SqlExprTree::Function(_, a) => {
            assert(a[k] == Some(y));
        },
        SqlExprTree::InList(x, v) => {
            if k > 0 {
                assert(v[k - 1] == y);
            }
        },
        _ => {},
    }
}

proof fn mention_has_part(e: SqlExprTree, r: SqlColRefView)
    requires
        mentions(e, r),
        !(e is Identifier || e is Compound),
    ensures
        exists|y: SqlExprTree| #[trigger] is_part(y, e) && mentions(y, r) && decreases_to!(e => y),
{
    let p = parts(e);
    match e {
        SqlExprTree::Nested(x) => {
            assert(p[0] == Some(*x));
            assert(is_part(*x, e));
        },
        SqlExprTree::Cast(x) => {
            assert(p[0] == Some(*x));
            assert(is_part(*x, e));
        },
        SqlExprTree::Unary(x) => {
            assert(p[0] == Some(*x));
            assert(is_part(*x, e));
        },
        SqlExprTree::Binary(l, h) => {
            assert(p[0] == Some(*l) && p[1] == Some(*h));
            assert(is_part(*l, e) && is_part(*h, e));
        },
        SqlExprTree::Between(x, l, h) => {
            assert(p[0] == Some(*x) && p[1] == Some(*l) && p[2] == Some(*h));
            assert(is_part(*x, e) && is_part(*l, e) && is_part(*h, e));
        },
        SqlExprTree::Case(o, b, x) => {
            let n = p.len() - 1;
            assert(p[0] == unboxed(o));
            assert(p[n] == unboxed(x));
            if o is Some && mentions(*o->0, r) {
                assert(decreases_to!(e => o));
                assert(decreases_to!(o => *o->0));
                assert(is_part(*o->0, e));
            } else if x is Some && mentions(*x->0, r) {
                assert(decreases_to!(e => x));
                assert(decreases_to!(x => *x->0));
                assert(is_part(*x->0, e));
            } else {
                let i = choose|i: int|
                    0 <= i < b.len() && (mentions((#[trigger] b[i]).condition, r) || mentions(
                        b[i].result,
                        r,
                    ));
                assert((2 * i) / 2 == i && (2 * i + 1) / 2 == i);
                assert((2 * i) % 2 == 0 && (2 * i + 1) % 2 == 1);
                assert(p[2 * i + 1] == branch_parts(b)[2 * i]);
                assert(p[2 * i + 2] == branch_parts(b)[2 * i + 1]);
                assert(decreases_to!(e => b));
                assert(decreases_to!(b => b[i]));
                assert(decreases_to!(b[i] => b[i].condition));
                assert(decreases_to!(b[i] => b[i].result));
                assert(is_part(b[i].condition, e) && is_part(b[i].result, e));
            }
        },
        SqlExprTree::Function(_, a) => {
            let i = choose|i: int|
                0 <= i < a.len() && ((#[trigger] a[i]) matches Some(x) && mentions(x, r));
            assert(decreases_to!(e => a));
            assert(decreases_to!(a => a[i]));
            assert(decreases_to!(a[i] => a[i]->0));
            assert(p[i] == Some(a[i]->0));
            assert(is_part(a[i]->0, e));
        },
        SqlExprTree::InList(x, v) => {
            assert(p[0] == Some(*x));
            if mentions(*x, r) {
                assert(is_part(*x, e));
            } else {
                let i = choose|i: int| 0 <= i < v.len() && mentions(#[trigger] v[i], r);
                assert(p[i + 1] == Some(v[i]));
                assert(decreases_to!(e => v));
                assert(decreases_to!(v => v[i]));
                assert(is_part(v[i], e));
            }
        },
        _ => {},
    }
}

proof fn mentioned_occurs(e: SqlExprTree, r: SqlColRefView)
    requires
        mentions(e, r),
    ensures
        refers_to(e, r),
    decreases e,
{
    if e is Identifier || e is Compound {
        assert(lies_in(e, e, 0));
        assert(occurs(e, e));
    } else {
        mention_has_part(e, r);
        let y = choose|y: SqlExprTree| #[trigger]
            is_part(y, e) && mentions(y, r) && decreases_to!(e => y);
        mentioned_occurs(y, r);
        let x = choose|x: SqlExprTree| #[trigger] occurs(x, y) && column_named(x) == Some(r);
        let d = choose|d: nat| lies_in(x, y, d);
        assert(lies_in(x, e, d + 1));
        assert(occurs(x, e));
    }
}

proof fn occurring_is_mentioned(x: SqlExprTree, e: SqlExprTree, depth: nat, r: SqlColRefView)
    requires
        lies_in(x, e, depth),
        column_named(x) == Some(r),
    ensures
        mentions(e, r),
    decreases depth,
{
    if depth > 0 {
        let y = choose|y: SqlExprTree| #[trigger]
            is_part(y, e) && lies_in(x, y, (depth - 1) as nat);
        occurring_is_mentioned(x, y, (depth - 1) as nat, r);
        part_mentions(y, e, r);
    }
}

proof fn mentions_is_refers(e: SqlExprTree, r: SqlColRefView)
    ensures
        mentions(e, r) <==> refers_to(e, r),
{
    if mentions(e, r) {
        mentioned_occurs(e, r);
    }
    if refers_to(e, r) {
        let x = choose|x: SqlExprTree| #[trigger] occurs(x, e) && column_named(x) == Some(r);
        let d = choose|d: nat| lies_in(x, e, d);
        occurring_is_mentioned(x, e, d, r);
    }
}

/// True when the references are those of the expression: each column that it
/// names, wherever in it, and no other, once.
pub open spec fn refers_exactly(refs: Seq<SqlColRefView>, e: SqlExprTree) -> bool {
    &&& refs.no_duplicates()
    &&& forall|r: SqlColRefView| #[trigger] refs.contains(r) <==> refers_to(e, r)
}

/// The references of an expression are complete and sound: a column is among
/// them exactly when its name occurs in the expression, in an operand, a
/// condition, a result, an argument, a list or wherever else.
pub proof fn references_are_the_columns_named(e: SqlExprTree)
    ensures
        refers_exactly(refs_of(e, Seq::empty()), e),
{
    refs_have(e, Seq::empty());
    assert forall|r: SqlColRefView| #[trigger]
        refs_of(e, Seq::empty()).contains(r) <==> refers_to(e, r) by {
        mentions_is_refers(e, r);
        assert(!Seq::<SqlColRefView>::empty().contains(r));
    }
}

/// `out` after the first `n` parts were read one after the other.
pub open spec fn read_parts(
    ps: Seq<Option<SqlExprTree>>,
    n: int,
    out: Seq<SqlColRefView>,
) -> Seq<SqlColRefView>
    decreases n,
{
    if n <= 0 {
        out
    } else {
        match ps[n - 1] {
            Some(x) => refs_of(x, read_parts(ps, n - 1, out)),
            None => read_parts(ps, n - 1, out),
        }
    }
}

proof fn read_front(
    a: Seq<Option<SqlExprTree>>,
    b: Seq<Option<SqlExprTree>>,
    n: int,
    out: Seq<SqlColRefView>,
)
    requires
        n <= a.len(),
        n <= b.len(),
        forall|i: int| 0 <= i < n ==> a[i] == b[i],
    ensures
        read_parts(a, n, out) == read_parts(b, n, out),
    decreases n,
{
    if n > 0 {
        read_front(a, b, n - 1, out);
    }
}

proof fn read_behind(
    a: Seq<Option<SqlExprTree>>,
    b: Seq<Option<SqlExprTree>>,
    n: int,
    out: Seq<SqlColRefView>,
)
    requires
        0 <= n <= b.len(),
    ensures
        read_parts(a + b, a.len() + n, out) == read_parts(b, n, read_parts(a, a.len() as int, out)),
    decreases n,
{
    if n > 0 {
        read_behind(a, b, n - 1, out);
        assert((a + b)[a.len() + n - 1] == b[n - 1]);
    } else {
        read_front(a + b, a, a.len() as int, out);
    }
}

proof fn branches_read(b: Seq<SqlBranchTree>, n: int, out: Seq<SqlColRefView>)
    requires
        0 <= n <= b.len(),
    ensures
        branch_refs(b, n, out) == read_parts(branch_parts(b), 2 * n, out),
    decreases n,
{
    if n > 0 {
        branches_read(b, n - 1, out);
        let p = branch_parts(b);
        assert((2 * n - 2) % 2 == 0 && (2 * n - 2) / 2 == n - 1);
        assert((2 * n - 1) % 2 == 1 && (2 * n - 1) / 2 == n - 1);
        assert(p[2 * n - 2] == Some(b[n - 1].condition));
        assert(p[2 * n - 1] == Some(b[n - 1].result));
        reveal_with_fuel(read_parts, 3);
    }
}

proof fn args_read(a: Seq<Option<SqlExprTree>>, n: int, out: Seq<SqlColRefView>)
    requires
        0 <= n <= a.len(),
    ensures
        arg_refs(a, n, out) == read_parts(a, n, out),
    decreases n,
{
    if n > 0 {
        args_read(a, n - 1, out);
    }
}

proof fn list_read(v: Seq<SqlExprTree>, n: int, out: Seq<SqlColRefView>)
    requires
        0 <= n <= v.len(),
    ensures
        list_refs(v, n, out) == read_parts(Seq::new(v.len(), |i: int| Some(v[i])), n, out),
    decreases n,
{
    if n > 0 {
        list_read(v, n - 1, out);
    }
}

/// References come in reading order: those of an expression are those of its
/// parts, read one after the other.
pub proof fn references_follow_reading_order(e: SqlExprTree, out: Seq<SqlColRefView>)
    ensures
        refs_of(e, out) == match column_named(e) {
            Some(r) => push_new(out, r),
            None => read_parts(parts(e), parts(e).len() as int, out),
        },
{
    let p = parts(e);
    reveal_with_fuel(read_parts, 5);
    match e {
        SqlExprTree::Case(o, b, x) => {
            let m = branch_parts(b);
            let first = match o {
                Some(y) => refs_of(*y, out),
                None => out,
            };
            branches_read(b, b.len() as int, first);
            let head = seq![unboxed(o)];
            let tail = seq![unboxed(x)];
            read_behind(head, m, m.len() as int, out);
            read_behind(head + m, tail, 1, out);
            assert(read_parts(head, 1, out) == first);
        },
        SqlExprTree::Function(_, a) => {
            args_read(a, a.len() as int, out);
        },
        SqlExprTree::InList(x, v) => {
            let head = seq![Some(*x)];
            let tail = Seq::new(v.len(), |i: int| Some(v[i]));
            list_read(v, v.len() as int, refs_of(*x, out));
            read_behind(head, tail, v.len() as int, out);
            assert(read_parts(head, 1, out) == refs_of(*x, out));
        },
        SqlExprTree::Between(x, l, h) => {
            assert(p.len() == 3 && p[0] == Some(*x) && p[1] == Some(*l) && p[2] == Some(*h));
        },
        SqlExprTree::Binary(l, r) => {
            assert(p.len() == 2 && p[0] == Some(*l) && p[1] == Some(*r));
        },
        _ => {},
    }
}


// ─────────────────────────── what a mapping says ──────────────────────

/// An expression without the parentheses around it, and without the casts
/// where those are looked through.
pub open spec fn stripped(e: SqlExprTree, through_cast: bool) -> SqlExprTree
    decreases e,
{
    match e {
        SqlExprTree::Nested(x) => stripped(*x, through_cast),
        SqlExprTree::Cast(x) => if through_cast {
            stripped(*x, through_cast)
        } else {
            e
        },
        _ => e,
    }
}

/// The part of a dotted name behind its last dot.
pub open spec fn own_name(name: Seq<Seq<char>>) -> Seq<char> {
    if name.len() == 0 {
        Seq::empty()
    } else {
        name[name.len() - 1]
    }
}

/// True for a call of one of the five aggregate functions.
pub open spec fn calls_aggregate(e: SqlExprTree) -> bool {
    &&& e is Function
    &&& seq!["COUNT"@, "SUM"@, "AVG"@, "MIN"@, "MAX"@].contains(
        ascii_upper(own_name(e->Function_0)),
    )
}

/// True when the mapping says of the expression what it is: its columns, its
/// text and its kind.
pub open spec fn describes(
    m: SqlMappingView,
    e: SqlExprTree,
    text: Seq<char>,
    target: Seq<char>,
) -> bool {
    let bare = stripped(e, false);
    &&& m.target == target
    &&& m.function == squeezed(text)
    &&& refers_exactly(m.sources, e)
    &&& m.transform_type is Aggregation <==> calls_aggregate(bare)
    &&& m.transform_type is Identity <==> (bare is Identifier || bare is Compound)
    &&& m.transform_type is Aggregation || m.transform_type is Identity
        || m.transform_type is Transformation
}

proof fn kind_is_told(e: SqlExprTree)
    ensures
        is_aggregate(e) <==> calls_aggregate(stripped(e, false)),
        kind_of(e) is Aggregation <==> calls_aggregate(stripped(e, false)),
        kind_of(e) is Identity <==> (stripped(e, false) is Identifier || stripped(
            e,
            false,
        ) is Compound),
        kind_of(e) is Aggregation || kind_of(e) is Identity || kind_of(e) is Transformation,
    decreases e,
{
    match e {
        SqlExprTree::Nested(x) => {
            kind_is_told(*x);
        },
        SqlExprTree::Function(n, a) => {
            let names = seq!["COUNT"@, "SUM"@, "AVG"@, "MIN"@, "MAX"@];
            let u = ascii_upper(own_name(n));
            assert(names[0] == "COUNT"@ && names[1] == "SUM"@ && names[2] == "AVG"@ && names[3]
                == "MIN"@ && names[4] == "MAX"@);
            assert(names.contains(u) <==> is_aggregate(e)) by {
                if names.contains(u) {
                    let i = choose|i: int| 0 <= i < names.len() && names[i] == u;
                    assert(i == 0 || i == 1 || i == 2 || i == 3 || i == 4);
                }
            }
        },
        _ => {},
    }
}

/// A mapping carries every column that its expression names and no other, its
/// text, and its kind, which parentheses do not change.
pub proof fn mapping_describes_its_expression(e: SqlExprTree, text: Seq<char>, target: Seq<char>)
    ensures
        describes(mapping_of(e, text, target), e, text, target),
{
    references_are_the_columns_named(e);
    kind_is_told(e);
}

// ──────────────────────────────── tables ──────────────────────────────

/// True when the table is one that the relation reads: itself, or one read
/// inside the query or the joins that it stands for.
pub open spec fn factor_reads(f: SqlFactorTree, t: Seq<char>) -> bool
    decreases f,
{
    match f {
        SqlFactorTree::Table(n, _) => t == own_name(n),
        SqlFactorTree::Derived(b, _) => body_reads(*b, t),
        SqlFactorTree::Join(x) => tables_read(*x, t),
        SqlFactorTree::Other => false,
    }
}

/// True when the relation or one joined to it reads the table.
pub open spec fn tables_read(x: SqlTablesTree, t: Seq<char>) -> bool
    decreases x,
{
    factor_reads(x.relation, t) || exists|i: int|
        0 <= i < x.joins.len() && factor_reads(#[trigger] x.joins[i], t)
}

/// True when the query reads the table in its `FROM` clause.
pub open spec fn body_reads(b: SqlBodyTree, t: Seq<char>) -> bool
    decreases b,
{
    match b {
        SqlBodyTree::Select(_, from) => exists|i: int|
            0 <= i < from.len() && tables_read(#[trigger] from[i], t),
        SqlBodyTree::Inner(x) => body_reads(*x, t),
        SqlBodyTree::Other => false,
    }
}

proof fn extended_has(out: Seq<Seq<char>>, more: Seq<Seq<char>>, n: int)
    requires
        0 <= n <= more.len(),
    ensures
        forall|t: Seq<char>| #[trigger]
            extended_new(out, more, n).contains(t) <==> out.contains(t) || exists|i: int|
                0 <= i < n && #[trigger] more[i] == t,
        out.no_duplicates() ==> extended_new(out, more, n).no_duplicates(),
    decreases n,
{
    if n > 0 {
        extended_has(out, more, n - 1);
        let prev = extended_new(out, more, n - 1);
        push_new_has(prev, more[n - 1]);
        assert forall|t: Seq<char>| #[trigger]
            extended_new(out, more, n).contains(t) <==> out.contains(t) || exists|i: int|
                0 <= i < n && #[trigger] more[i] == t by {
            assert(extended_new(out, more, n) == push_new(prev, more[n - 1]));
            assert(prev.contains(t) <==> out.contains(t) || exists|i: int|
                0 <= i < n - 1 && #[trigger] more[i] == t);
        }
    }
}

proof fn factor_has(f: SqlFactorTree, out: Seq<Seq<char>>)
    ensures
        forall|t: Seq<char>| #[trigger]
            factor_tables(f, out).contains(t) <==> out.contains(t) || factor_reads(f, t),
        out.no_duplicates() ==> factor_tables(f, out).no_duplicates(),
    decreases f, 0int,
{
    match f {
        SqlFactorTree::Table(n, _) => push_new_has(out, own_name(n)),
        SqlFactorTree::Derived(b, _) => {
            body_has(*b);
            let inner = body_tables(*b);
            extended_has(out, inner, inner.len() as int);
            assert forall|t: Seq<char>| #[trigger]
                factor_tables(f, out).contains(t) <==> out.contains(t) || factor_reads(f, t) by {
                assert(factor_tables(f, out) == extended_new(out, inner, inner.len() as int));
                assert(inner.contains(t) <==> body_reads(*b, t));
            }
        },
        SqlFactorTree::Join(x) => {
            tables_have(*x, Seq::empty());
            let inner = tables_of(*x, Seq::empty());
            extended_has(out, inner, inner.len() as int);
            assert forall|t: Seq<char>| #[trigger]
                factor_tables(f, out).contains(t) <==> out.contains(t) || factor_reads(f, t) by {
                assert(factor_tables(f, out) == extended_new(out, inner, inner.len() as int));
                assert(inner.contains(t) <==> tables_read(*x, t));
            }
        },
        SqlFactorTree::Other => {},
    }
}

proof fn tables_have(x: SqlTablesTree, out: Seq<Seq<char>>)
    ensures
        forall|t: Seq<char>| #[trigger]
            tables_of(x, out).contains(t) <==> out.contains(t) || tables_read(x, t),
        out.no_duplicates() ==> tables_of(x, out).no_duplicates(),
    decreases x, 0int,
{
    factor_has(x.relation, out);
    let first = factor_tables(x.relation, out);
    joins_have(x.joins, x.joins.len() as int, first);
    assert forall|t: Seq<char>| #[trigger]
        tables_of(x, out).contains(t) <==> out.contains(t) || tables_read(x, t) by {
        assert(tables_of(x, out) == joined_tables(x.joins, x.joins.len() as int, first));
        assert(first.contains(t) <==> out.contains(t) || factor_reads(x.relation, t));
    }
}

proof fn joins_have(j: Seq<SqlFactorTree>, n: int, out: Seq<Seq<char>>)
    requires
        0 <= n <= j.len(),
    ensures
        forall|t: Seq<char>| #[trigger]
            joined_tables(j, n, out).contains(t) <==> out.contains(t) || exists|i: int|
                0 <= i < n && factor_reads(#[trigger] j[i], t),
        out.no_duplicates() ==> joined_tables(j, n, out).no_duplicates(),
    decreases j, n,
{
    if n > 0 {
        joins_have(j, n - 1, out);
        let prev = joined_tables(j, n - 1, out);
        factor_has(j[n - 1], prev);
        assert forall|t: Seq<char>| #[trigger]
            joined_tables(j, n, out).contains(t) <==> out.contains(t) || exists|i: int|
                0 <= i < n && factor_reads(#[trigger] j[i], t) by {
            assert(joined_tables(j, n, out) == factor_tables(j[n - 1], prev));
            assert(prev.contains(t) <==> out.contains(t) || exists|i: int|
                0 <= i < n - 1 && factor_reads(#[trigger] j[i], t));
        }
    }
}

proof fn from_has(from: Seq<SqlTablesTree>, n: int)
    requires
        0 <= n <= from.len(),
    ensures
        forall|t: Seq<char>| #[trigger]
            from_tables(from, n).contains(t) <==> exists|i: int|
                0 <= i < n && tables_read(#[trigger] from[i], t),
        from_tables(from, n).no_duplicates(),
    decreases from, n,
{
    if n > 0 {
        from_has(from, n - 1);
        let prev = from_tables(from, n - 1);
        tables_have(from[n - 1], prev);
        assert forall|t: Seq<char>| #[trigger]
            from_tables(from, n).contains(t) <==> exists|i: int|
                0 <= i < n && tables_read(#[trigger] from[i], t) by {
            assert(from_tables(from, n) == tables_of(from[n - 1], prev));
            assert(prev.contains(t) <==> exists|i: int|
                0 <= i < n - 1 && tables_read(#[trigger] from[i], t));
        }
    }
}

proof fn body_has(b: SqlBodyTree)
    ensures
        forall|t: Seq<char>| #[trigger] body_tables(b).contains(t) <==> body_reads(b, t),
        body_tables(b).no_duplicates(),
    decreases b, 0int,
{
    match b {
        SqlBodyTree::Select(_, from) => {
            from_has(from, from.len() as int);
            assert forall|t: Seq<char>| #[trigger]
                body_tables(b).contains(t) <==> body_reads(b, t) by {
                assert(body_tables(b) == from_tables(from, from.len() as int));
            }
        },
        SqlBodyTree::Inner(x) => {
            body_has(*x);
            assert(body_tables(b) == body_tables(*x));
        },
        SqlBodyTree::Other => {},
    }
}

// ────────────────────────────── statements ────────────────────────────

/// The `SELECT` that a query starts with.
pub open spec fn leading_select(b: SqlBodyTree) -> Option<
    (Seq<SqlItemTree>, Seq<SqlTablesTree>),
>
    decreases b,
{
    match b {
        SqlBodyTree::Select(p, from) => Some((p, from)),
        SqlBodyTree::Inner(x) => leading_select(*x),
        SqlBodyTree::Other => None,
    }
}

/// The column that an item gives a name to: its alias, or the name of the
/// column that it is.
pub open spec fn called(i: SqlItemTree, through_cast: bool) -> Option<Seq<char>> {
    if i is Expr {
        match i->Expr_2 {
            Some(alias) => Some(alias),
            None => match column_named(stripped(i->Expr_0, through_cast)) {
                Some(r) => Some(r.column),
                None => None,
            },
        }
    } else {
        None
    }
}

pub open spec fn is_called(p: Seq<SqlItemTree>, through_cast: bool) -> spec_fn(int) -> bool {
    |i: int| called(p[i], through_cast) is Some
}

/// True when the mappings are those of the items that have a name, in order,
/// each to its own.
pub open spec fn maps_by_name(
    ms: Seq<SqlMappingView>,
    p: Seq<SqlItemTree>,
    through_cast: bool,
) -> bool {
    exists|chosen: Seq<int>|
        {
            &&& #[trigger] lists_those(
                chosen,
                p.len() as int,
                is_called(p, through_cast),
            )
            &&& ms.len() == chosen.len()
            &&& forall|k: int|
                0 <= k < chosen.len() ==> describes(
                    #[trigger] ms[k],
                    p[chosen[k]]->Expr_0,
                    p[chosen[k]]->Expr_1,
                    called(p[chosen[k]], through_cast)->0,
                )
        }
}

/// True when each item is mapped to the column at its position.
pub open spec fn maps_by_position(
    ms: Seq<SqlMappingView>,
    p: Seq<SqlItemTree>,
    cols: Seq<Seq<char>>,
) -> bool {
    &&& ms.len() == p.len()
    &&& p.len() == cols.len()
    &&& forall|i: int|
        0 <= i < p.len() ==> describes(
            #[trigger] ms[i],
            p[i]->Expr_0,
            p[i]->Expr_1,
            cols[i],
        )
}

/// True when the lineage is that of the query into the columns.
pub open spec fn traces_query(
    l: SqlColumnLineageView,
    b: SqlBodyTree,
    cols: Seq<Seq<char>>,
    through_cast: bool,
) -> bool {
    &&& l.source_tables.no_duplicates()
    &&& forall|t: Seq<char>| #[trigger] l.source_tables.contains(t) <==> body_reads(b, t)
    &&& match leading_select(b) {
        None => l.mappings.len() == 0 && !l.wildcard_in_projection && l.arity_mismatch is None,
        Some((p, _)) => if cols.len() == 0 {
            &&& maps_by_name(l.mappings, p, through_cast)
            &&& !l.wildcard_in_projection
            &&& l.arity_mismatch is None
        } else {
            let star = exists|i: int| 0 <= i < p.len() && #[trigger] p[i] is Wildcard;
            let odd = exists|i: int| 0 <= i < p.len() && #[trigger] p[i] is Other;
            &&& l.wildcard_in_projection <==> star
            &&& l.arity_mismatch is Some <==> (!star && (odd || p.len() != cols.len()))
            &&& l.arity_mismatch is Some ==> l.arity_mismatch == Some(
                (p.len() as usize, cols.len() as usize),
            )
            &&& if star || odd || p.len() != cols.len() {
                l.mappings.len() == 0
            } else {
                maps_by_position(l.mappings, p, cols)
            }
        },
    }
}

proof fn implicit_is_stripped(e: SqlExprTree, through_cast: bool)
    ensures
        implicit_name(e, through_cast) == match column_named(stripped(e, through_cast)) {
            Some(r) => Some(r.column),
            None => None::<Seq<char>>,
        },
    decreases e,
{
    match e {
        SqlExprTree::Nested(x) => implicit_is_stripped(*x, through_cast),
        SqlExprTree::Cast(x) => if through_cast {
            implicit_is_stripped(*x, through_cast)
        },
        _ => {},
    }
}

proof fn names_map(p: Seq<SqlItemTree>, n: int, through_cast: bool) -> (chosen: Seq<int>)
    requires
        0 <= n <= p.len(),
    ensures
        lists_those(chosen, n, is_called(p, through_cast)),
        named_mappings(p, n, through_cast).len() == chosen.len(),
        forall|k: int|
            0 <= k < chosen.len() ==> describes(
                #[trigger] named_mappings(p, n, through_cast)[k],
                p[chosen[k]]->Expr_0,
                p[chosen[k]]->Expr_1,
                called(p[chosen[k]], through_cast)->0,
            ),
    decreases n,
{
    let keep = is_called(p, through_cast);
    if n > 0 {
        let before = names_map(p, n - 1, through_cast);
        let r = one_more(before, n, keep);
        if p[n - 1] is Expr {
            let e = p[n - 1]->Expr_0;
            implicit_is_stripped(e, through_cast);
            assert(item_name(p[n - 1], through_cast) == called(p[n - 1], through_cast));
            if keep(n - 1) {
                mapping_describes_its_expression(
                    e,
                    p[n - 1]->Expr_1,
                    called(p[n - 1], through_cast)->0,
                );
            }
        }
        r
    } else {
        Seq::empty()
    }
}

proof fn query_is_traced(b: SqlBodyTree, cols: Seq<Seq<char>>, through_cast: bool)
    ensures
        traces_query(body_lineage(b, cols, through_cast), b, cols, through_cast),
    decreases b,
{
    body_has(b);
    let l = body_lineage(b, cols, through_cast);
    match b {
        SqlBodyTree::Select(p, from) => {
            assert(l.source_tables == body_tables(b));
            if cols.len() == 0 {
                let chosen = names_map(p, p.len() as int, through_cast);
                assert(maps_by_name(l.mappings, p, through_cast));
            } else {
                assert forall|i: int| 0 <= i < p.len() implies describes(
                    #[trigger] mapping_of(p[i]->Expr_0, p[i]->Expr_1, cols[i]),
                    p[i]->Expr_0,
                    p[i]->Expr_1,
                    cols[i],
                ) by {
                    mapping_describes_its_expression(p[i]->Expr_0, p[i]->Expr_1, cols[i]);
                }
            }
        },
        SqlBodyTree::Inner(x) => {
            query_is_traced(*x, cols, through_cast);
            assert(forall|t: Seq<char>| #[trigger] body_reads(b, t) == body_reads(*x, t));
        },
        SqlBodyTree::Other => {},
    }
}

/// An `INSERT` is traced into the columns that it lists, by position, and
/// without a list by the names of the items.
pub proof fn insert_is_traced(table: Seq<Seq<char>>, cols: Seq<Seq<Seq<char>>>, q: SqlBodyTree)
    ensures
        statement_lineage(SqlStatementTree::Insert(Some(table), cols, Some(q))) matches Some(l) && {
            &&& l.target_table == Some(own_name(table))
            &&& traces_query(l, q, Seq::new(cols.len(), |i: int| own_name(cols[i])), true)
        },
{
    let names = Seq::new(cols.len(), |i: int| own_name(cols[i]));
    assert(names =~= Seq::new(cols.len(), |i: int| crate::sql::last_part(cols[i])));
    query_is_traced(q, names, true);
}

/// A query by itself and one that a table is made from are traced by the names
/// of their items; only for a table are those looked for behind a cast.
pub proof fn queries_are_traced(table: Seq<Seq<char>>, q: SqlBodyTree)
    ensures
        statement_lineage(SqlStatementTree::Query(q)) matches Some(l) && {
            &&& l.target_table is None
            &&& traces_query(l, q, Seq::empty(), false)
        },
        statement_lineage(SqlStatementTree::CreateTable(table, Some(q))) matches Some(l) && {
            &&& l.target_table == Some(own_name(table))
            &&& traces_query(l, q, Seq::empty(), true)
        },
{
    query_is_traced(q, Seq::empty(), false);
    query_is_traced(q, Seq::empty(), true);
    target_stays_open(q, Seq::empty(), false);
}

proof fn target_stays_open(b: SqlBodyTree, cols: Seq<Seq<char>>, through_cast: bool)
    ensures
        body_lineage(b, cols, through_cast).target_table is None,
    decreases b,
{
    if let SqlBodyTree::Inner(x) = b {
        target_stays_open(*x, cols, through_cast);
    }
}

/// True when there is lineage to read from a statement.
pub open spec fn has_lineage(s: SqlStatementTree) -> bool {
    match s {
        SqlStatementTree::Insert(t, _, q) => t is Some && q is Some,
        SqlStatementTree::Query(_) => true,
        SqlStatementTree::CreateTable(_, q) => q is Some,
        SqlStatementTree::Merge(t, _, _) => t is Table,
        SqlStatementTree::Other => false,
    }
}

proof fn first_is_read(s: Seq<SqlStatementTree>, k: int, i: int)
    requires
        0 <= k <= i < s.len(),
        forall|j: int| k <= j < i ==> !has_lineage(#[trigger] s[j]),
        has_lineage(s[i]),
    ensures
        Some(first_lineage(s, k)) == statement_lineage(s[i]),
    decreases i - k,
{
    if k < i {
        assert(!has_lineage(s[k]));
        first_is_read(s, k + 1, i);
    }
}

/// A text has the lineage of the first of its statements that has any.
pub proof fn first_statement_decides(sql: Seq<char>, i: int)
    requires
        sql_parse(sql) is Some,
        0 <= i < sql_parse(sql)->0.len(),
        has_lineage(sql_parse(sql)->0[i]),
        forall|j: int| 0 <= j < i ==> !has_lineage(#[trigger] sql_parse(sql)->0[j]),
    ensures
        Some(sql_lineage(sql)) == statement_lineage(sql_parse(sql)->0[i]),
{
    first_is_read(sql_parse(sql)->0, 0, i);
}

proof fn nothing_is_read(s: Seq<SqlStatementTree>, k: int)
    requires
        0 <= k <= s.len(),
        forall|j: int| 0 <= j < s.len() ==> !has_lineage(#[trigger] s[j]),
    ensures
        first_lineage(s, k) == crate::sql::no_lineage(),
    decreases s.len() - k,
{
    if k < s.len() {
        assert(!has_lineage(s[k]));
        nothing_is_read(s, k + 1);
    }
}

/// A text that cannot be read, or that holds no statement with lineage, names no
/// table and maps no column.
pub proof fn nothing_comes_of_nothing(sql: Seq<char>)
    requires
        sql_parse(sql) matches Some(s) ==> forall|j: int|
            0 <= j < s.len() ==> !has_lineage(#[trigger] s[j]),
    ensures
        sql_lineage(sql).target_table is None,
        sql_lineage(sql).source_tables.len() == 0,
        sql_lineage(sql).mappings.len() == 0,
        !sql_lineage(sql).wildcard_in_projection,
        sql_lineage(sql).arity_mismatch is None,
{
    if let Some(s) = sql_parse(sql) {
        nothing_is_read(s, 0);
    }
}


// ──────────────────────────────── MERGE ───────────────────────────────

/// The column and the value of assignment `j` of clause `i`, where that is an
/// `UPDATE`.
pub open spec fn update_of(acts: Seq<SqlMergeActionTree>, i: int, j: int) -> Option<
    (Seq<char>, SqlValueTree),
> {
    if 0 <= i < acts.len() && acts[i] is Update {
        let a = acts[i]->Update_0;
        if 0 <= j < a.len() && a[j].column is Some {
            Some((own_name(a[j].column->0), a[j].value))
        } else {
            None
        }
    } else {
        None
    }
}

/// The column and the value at position `j` of clause `i`, where that is an
/// `INSERT` with as many values as columns.
pub open spec fn insert_of(acts: Seq<SqlMergeActionTree>, i: int, j: int) -> Option<
    (Seq<char>, SqlValueTree),
> {
    if 0 <= i < acts.len() && acts[i] is Insert {
        let c = acts[i]->Insert_0;
        let v = acts[i]->Insert_1;
        if c.len() == v.len() && 0 <= j < c.len() {
            Some((own_name(c[j]), v[j]))
        } else {
            None
        }
    } else {
        None
    }
}

/// True when item `j` of clause `i` stands before item `l` of clause `k`.
pub open spec fn stands_before(i: int, j: int, k: int, l: int) -> bool {
    i < k || (i == k && j < l)
}

/// The reference without a qualifier that is the alias of the merged relation.
pub open spec fn without_alias(r: SqlColRefView, alias: Option<Seq<char>>) -> SqlColRefView {
    SqlColRefView {
        table: if r.table is Some && r.table == alias {
            None
        } else {
            r.table
        },
        column: r.column,
    }
}

/// True when the mapping says of the value what it is: its columns without the
/// alias, its text and its kind.
pub open spec fn describes_merged(
    m: SqlMappingView,
    v: SqlValueTree,
    alias: Option<Seq<char>>,
    target: Seq<char>,
) -> bool {
    let bare = stripped(v.expr, false);
    &&& m.target == target
    &&& m.function == squeezed(v.text)
    &&& m.sources.no_duplicates()
    &&& forall|r: SqlColRefView| #[trigger]
        m.sources.contains(r) <==> exists|q: SqlColRefView| #[trigger]
            refers_to(v.expr, q) && r == without_alias(q, alias)
    &&& m.transform_type is Aggregation <==> calls_aggregate(bare)
    &&& m.transform_type is Identity <==> (bare is Identifier || bare is Compound)
    &&& m.transform_type is Aggregation || m.transform_type is Identity
        || m.transform_type is Transformation
}

proof fn unqualified_has(refs: Seq<SqlColRefView>, alias: Option<Seq<char>>, n: int)
    requires
        0 <= n <= refs.len(),
    ensures
        forall|r: SqlColRefView| #[trigger]
            unqualified_refs(refs, alias, n).contains(r) <==> exists|i: int|
                0 <= i < n && without_alias(#[trigger] refs[i], alias) == r,
        unqualified_refs(refs, alias, n).no_duplicates(),
    decreases n,
{
    if n > 0 {
        unqualified_has(refs, alias, n - 1);
        let prev = unqualified_refs(refs, alias, n - 1);
        let x = unqualified(refs[n - 1], alias);
        push_new_has(prev, x);
        assert(x == without_alias(refs[n - 1], alias));
        assert forall|r: SqlColRefView| #[trigger]
            unqualified_refs(refs, alias, n).contains(r) <==> exists|i: int|
                0 <= i < n && without_alias(#[trigger] refs[i], alias) == r by {
            assert(unqualified_refs(refs, alias, n) == push_new(prev, x));
            assert(prev.contains(r) <==> exists|i: int|
                0 <= i < n - 1 && without_alias(#[trigger] refs[i], alias) == r);
        }
    }
}

proof fn merged_is_described(v: SqlValueTree, alias: Option<Seq<char>>, target: Seq<char>)
    ensures
        describes_merged(merge_mapping(v, alias, target), v, alias, target),
{
    let plain = mapping_of(v.expr, v.text, target);
    let m = merge_mapping(v, alias, target);
    mapping_describes_its_expression(v.expr, v.text, target);
    unqualified_has(plain.sources, alias, plain.sources.len() as int);
    assert forall|r: SqlColRefView| #[trigger]
        m.sources.contains(r) <==> exists|q: SqlColRefView| #[trigger]
            refers_to(v.expr, q) && r == without_alias(q, alias) by {
        if m.sources.contains(r) {
            let i = choose|i: int|
                0 <= i < plain.sources.len() && without_alias(#[trigger] plain.sources[i], alias)
                    == r;
            assert(plain.sources.contains(plain.sources[i]));
            assert(refers_to(v.expr, plain.sources[i]));
        }
        if exists|q: SqlColRefView| #[trigger]
            refers_to(v.expr, q) && r == without_alias(q, alias) {
            let q = choose|q: SqlColRefView| #[trigger]
                refers_to(v.expr, q) && r == without_alias(q, alias);
            assert(plain.sources.contains(q));
        }
    }
}

proof fn added_stays(ms: Seq<SqlMappingView>, m: SqlMappingView, x: SqlMappingView)
    ensures
        ms.contains(x) ==> add_mapping(ms, m).contains(x),
        !maps_target(ms, m.target) ==> add_mapping(ms, m).contains(m),
        forall|t: Seq<char>| #[trigger]
            maps_target(add_mapping(ms, m), t) ==> maps_target(ms, t) || t == m.target,
{
    let r = add_mapping(ms, m);
    if ms.contains(x) {
        let k = choose|k: int| 0 <= k < ms.len() && ms[k] == x;
        assert(r[k] == x);
    }
    if !maps_target(ms, m.target) {
        assert(r[ms.len() as int] == m);
    }
    assert forall|t: Seq<char>| #[trigger] maps_target(r, t) implies maps_target(ms, t) || t
        == m.target by {
        let k = choose|k: int| 0 <= k < r.len() && (#[trigger] r[k]).target == t;
        if k < ms.len() {
            assert(ms[k].target == t);
        }
    }
}

proof fn assigned_from(
    acts: Seq<SqlMergeActionTree>,
    i: int,
    alias: Option<Seq<char>>,
    n: int,
    ms: Seq<SqlMappingView>,
    t: Seq<char>,
)
    requires
        0 <= i < acts.len(),
        acts[i] is Update,
        n <= acts[i]->Update_0.len(),
        maps_target(assigned(acts[i]->Update_0, alias, n, ms), t),
    ensures
        maps_target(ms, t) || exists|j: int|
            j < n && ((#[trigger] update_of(acts, i, j)) matches Some(u) && u.0 == t),
    decreases n,
{
    if n > 0 {
        let a = acts[i]->Update_0;
        let prev = assigned(a, alias, n - 1, ms);
        if let Some(c) = a[n - 1].column {
            let m = merge_mapping(a[n - 1].value, alias, own_name(c));
            added_stays(prev, m, m);
            assert(update_of(acts, i, n - 1) matches Some(u) && u.0 == own_name(c));
        }
        if maps_target(prev, t) {
            assigned_from(acts, i, alias, n - 1, ms, t);
        }
    }
}

proof fn assigned_keeps(
    a: Seq<SqlAssignmentTree>,
    alias: Option<Seq<char>>,
    n: int,
    ms: Seq<SqlMappingView>,
    x: SqlMappingView,
)
    requires
        ms.contains(x),
    ensures
        assigned(a, alias, n, ms).contains(x),
    decreases n,
{
    if n > 0 {
        assigned_keeps(a, alias, n - 1, ms, x);
        if let Some(c) = a[n - 1].column {
            added_stays(
                assigned(a, alias, n - 1, ms),
                merge_mapping(a[n - 1].value, alias, own_name(c)),
                x,
            );
        }
    }
}

proof fn assigned_takes(
    acts: Seq<SqlMergeActionTree>,
    i: int,
    alias: Option<Seq<char>>,
    n: int,
    ms: Seq<SqlMappingView>,
    j: int,
)
    requires
        0 <= j < n <= acts[i]->Update_0.len(),
        update_of(acts, i, j) is Some,
        !maps_target(ms, (update_of(acts, i, j)->0).0),
        forall|l: int|
            l < j ==> ((#[trigger] update_of(acts, i, l)) matches Some(u) ==> u.0 != (update_of(
                acts,
                i,
                j,
            )->0).0),
    ensures
        assigned(acts[i]->Update_0, alias, n, ms).contains(
            merge_mapping(
                (update_of(acts, i, j)->0).1,
                alias,
                (update_of(acts, i, j)->0).0,
            ),
        ),
    decreases n,
{
    let a = acts[i]->Update_0;
    let (t, v) = update_of(acts, i, j)->0;
    let x = merge_mapping(v, alias, t);
    let prev = assigned(a, alias, n - 1, ms);
    if n - 1 == j {
        if maps_target(prev, t) {
            assigned_from(acts, i, alias, n - 1, ms, t);
        }
        added_stays(prev, x, x);
    } else {
        assigned_takes(acts, i, alias, n - 1, ms, j);
        if let Some(c) = a[n - 1].column {
            added_stays(prev, merge_mapping(a[n - 1].value, alias, own_name(c)), x);
        }
    }
}

proof fn updated_from(
    acts: Seq<SqlMergeActionTree>,
    alias: Option<Seq<char>>,
    n: int,
    t: Seq<char>,
)
    requires
        0 <= n <= acts.len(),
        maps_target(updated(acts, alias, n), t),
    ensures
        exists|i: int, j: int|
            i < n && ((#[trigger] update_of(acts, i, j)) matches Some(u) && u.0 == t),
    decreases n,
{
    if n > 0 {
        let prev = updated(acts, alias, n - 1);
        if acts[n - 1] is Update {
            assigned_from(acts, n - 1, alias, acts[n - 1]->Update_0.len() as int, prev, t);
        }
        if maps_target(prev, t) {
            updated_from(acts, alias, n - 1, t);
        }
    }
}

proof fn updated_takes(
    acts: Seq<SqlMergeActionTree>,
    alias: Option<Seq<char>>,
    n: int,
    i: int,
    j: int,
)
    requires
        0 <= i < n <= acts.len(),
        update_of(acts, i, j) is Some,
        forall|k: int, l: int|
            stands_before(k, l, i, j) ==> ((#[trigger] update_of(acts, k, l)) matches Some(u)
                ==> u.0 != (update_of(acts, i, j)->0).0),
    ensures
        updated(acts, alias, n).contains(
            merge_mapping(
                (update_of(acts, i, j)->0).1,
                alias,
                (update_of(acts, i, j)->0).0,
            ),
        ),
    decreases n,
{
    let (t, v) = update_of(acts, i, j)->0;
    let prev = updated(acts, alias, n - 1);
    if n - 1 == i {
        if maps_target(prev, t) {
            updated_from(acts, alias, n - 1, t);
        }
        assigned_takes(acts, i, alias, acts[i]->Update_0.len() as int, prev, j);
    } else {
        updated_takes(acts, alias, n - 1, i, j);
        if let SqlMergeActionTree::Update(a) = acts[n - 1] {
            assigned_keeps(a, alias, a.len() as int, prev, merge_mapping(v, alias, t));
        }
    }
}

proof fn values_from(
    acts: Seq<SqlMergeActionTree>,
    i: int,
    alias: Option<Seq<char>>,
    n: int,
    ms: Seq<SqlMappingView>,
    t: Seq<char>,
)
    requires
        0 <= i < acts.len(),
        acts[i] is Insert,
        acts[i]->Insert_0.len() == acts[i]->Insert_1.len(),
        n <= acts[i]->Insert_0.len(),
        maps_target(inserted_values(acts[i]->Insert_0, acts[i]->Insert_1, alias, n, ms), t),
    ensures
        maps_target(ms, t) || exists|j: int|
            j < n && ((#[trigger] insert_of(acts, i, j)) matches Some(u) && u.0 == t),
    decreases n,
{
    if n > 0 {
        let c = acts[i]->Insert_0;
        let v = acts[i]->Insert_1;
        let prev = inserted_values(c, v, alias, n - 1, ms);
        let m = merge_mapping(v[n - 1], alias, own_name(c[n - 1]));
        added_stays(prev, m, m);
        assert(insert_of(acts, i, n - 1) matches Some(u) && u.0 == own_name(c[n - 1]));
        if maps_target(prev, t) {
            values_from(acts, i, alias, n - 1, ms, t);
        }
    }
}

proof fn values_keep(
    c: Seq<Seq<Seq<char>>>,
    v: Seq<SqlValueTree>,
    alias: Option<Seq<char>>,
    n: int,
    ms: Seq<SqlMappingView>,
    x: SqlMappingView,
)
    requires
        ms.contains(x),
    ensures
        inserted_values(c, v, alias, n, ms).contains(x),
    decreases n,
{
    if n > 0 {
        values_keep(c, v, alias, n - 1, ms, x);
        added_stays(
            inserted_values(c, v, alias, n - 1, ms),
            merge_mapping(v[n - 1], alias, own_name(c[n - 1])),
            x,
        );
    }
}

proof fn values_take(
    acts: Seq<SqlMergeActionTree>,
    i: int,
    alias: Option<Seq<char>>,
    n: int,
    ms: Seq<SqlMappingView>,
    j: int,
)
    requires
        0 <= j < n <= acts[i]->Insert_0.len(),
        insert_of(acts, i, j) is Some,
        !maps_target(ms, (insert_of(acts, i, j)->0).0),
        forall|l: int|
            l < j ==> ((#[trigger] insert_of(acts, i, l)) matches Some(u) ==> u.0 != (insert_of(
                acts,
                i,
                j,
            )->0).0),
    ensures
        inserted_values(acts[i]->Insert_0, acts[i]->Insert_1, alias, n, ms).contains(
            merge_mapping(
                (insert_of(acts, i, j)->0).1,
                alias,
                (insert_of(acts, i, j)->0).0,
            ),
        ),
    decreases n,
{
    let c = acts[i]->Insert_0;
    let w = acts[i]->Insert_1;
    let (t, v) = insert_of(acts, i, j)->0;
    let x = merge_mapping(v, alias, t);
    let prev = inserted_values(c, w, alias, n - 1, ms);
    if n - 1 == j {
        if maps_target(prev, t) {
            values_from(acts, i, alias, n - 1, ms, t);
        }
        added_stays(prev, x, x);
    } else {
        values_take(acts, i, alias, n - 1, ms, j);
        added_stays(prev, merge_mapping(w[n - 1], alias, own_name(c[n - 1])), x);
    }
}

proof fn inserted_from(
    acts: Seq<SqlMergeActionTree>,
    alias: Option<Seq<char>>,
    n: int,
    ms: Seq<SqlMappingView>,
    t: Seq<char>,
)
    requires
        0 <= n <= acts.len(),
        maps_target(inserted(acts, alias, n, ms), t),
    ensures
        maps_target(ms, t) || exists|i: int, j: int|
            i < n && ((#[trigger] insert_of(acts, i, j)) matches Some(u) && u.0 == t),
    decreases n,
{
    if n > 0 {
        let prev = inserted(acts, alias, n - 1, ms);
        if let SqlMergeActionTree::Insert(c, v) = acts[n - 1] {
            if c.len() == v.len() {
                values_from(acts, n - 1, alias, c.len() as int, prev, t);
            }
        }
        if maps_target(prev, t) {
            inserted_from(acts, alias, n - 1, ms, t);
        }
    }
}

proof fn inserted_keeps(
    acts: Seq<SqlMergeActionTree>,
    alias: Option<Seq<char>>,
    n: int,
    ms: Seq<SqlMappingView>,
    x: SqlMappingView,
)
    requires
        ms.contains(x),
    ensures
        inserted(acts, alias, n, ms).contains(x),
    decreases n,
{
    if n > 0 {
        inserted_keeps(acts, alias, n - 1, ms, x);
        if let SqlMergeActionTree::Insert(c, v) = acts[n - 1] {
            values_keep(c, v, alias, c.len() as int, inserted(acts, alias, n - 1, ms), x);
        }
    }
}

proof fn inserted_takes(
    acts: Seq<SqlMergeActionTree>,
    alias: Option<Seq<char>>,
    n: int,
    ms: Seq<SqlMappingView>,
    i: int,
    j: int,
)
    requires
        0 <= i < n <= acts.len(),
        insert_of(acts, i, j) is Some,
        !maps_target(ms, (insert_of(acts, i, j)->0).0),
        forall|k: int, l: int|
            stands_before(k, l, i, j) ==> ((#[trigger] insert_of(acts, k, l)) matches Some(u)
                ==> u.0 != (insert_of(acts, i, j)->0).0),
    ensures
        inserted(acts, alias, n, ms).contains(
            merge_mapping(
                (insert_of(acts, i, j)->0).1,
                alias,
                (insert_of(acts, i, j)->0).0,
            ),
        ),
    decreases n,
{
    let (t, v) = insert_of(acts, i, j)->0;
    let prev = inserted(acts, alias, n - 1, ms);
    if n - 1 == i {
        if maps_target(prev, t) {
            inserted_from(acts, alias, n - 1, ms, t);
        }
        values_take(acts, i, alias, acts[i]->Insert_0.len() as int, prev, j);
    } else {
        inserted_takes(acts, alias, n - 1, ms, i, j);
        if let SqlMergeActionTree::Insert(c, w) = acts[n - 1] {
            values_keep(c, w, alias, c.len() as int, prev, merge_mapping(v, alias, t));
        }
    }
}

/// A `MERGE` maps a column by the first assignment to it in an `UPDATE`.
pub proof fn merge_takes_the_first_assignment(
    table: Seq<Seq<char>>,
    source: SqlFactorTree,
    acts: Seq<SqlMergeActionTree>,
    i: int,
    j: int,
)
    requires
        update_of(acts, i, j) is Some,
        forall|k: int, l: int|
            stands_before(k, l, i, j) ==> ((#[trigger] update_of(acts, k, l)) matches Some(u)
                ==> u.0 != (update_of(acts, i, j)->0).0),
    ensures
        exists|k: int|
            {
                &&& 0 <= k < merge_lineage(table, source, acts).mappings.len()
                &&& describes_merged(
                    #[trigger] merge_lineage(table, source, acts).mappings[k],
                    (update_of(acts, i, j)->0).1,
                    relation_alias(source),
                    (update_of(acts, i, j)->0).0,
                )
            },
{
    let alias = factor_alias(source);
    let n = acts.len() as int;
    let (t, v) = update_of(acts, i, j)->0;
    let x = merge_mapping(v, alias, t);
    updated_takes(acts, alias, n, i, j);
    inserted_keeps(acts, alias, n, updated(acts, alias, n), x);
    merged_is_described(v, alias, t);
    let ms = merge_lineage(table, source, acts).mappings;
    let k = choose|k: int| 0 <= k < ms.len() && ms[k] == x;
    assert(describes_merged(ms[k], v, relation_alias(source), t));
}

/// The name that a table or a query in parentheses was given.
pub open spec fn relation_alias(f: SqlFactorTree) -> Option<Seq<char>> {
    if f is Table {
        f->Table_1
    } else if f is Derived {
        f->Derived_1
    } else {
        None
    }
}

/// A `MERGE` maps a column that no `UPDATE` assigns by the first value that an
/// `INSERT` gives it.
pub proof fn merge_falls_back_to_inserted_values(
    table: Seq<Seq<char>>,
    source: SqlFactorTree,
    acts: Seq<SqlMergeActionTree>,
    i: int,
    j: int,
)
    requires
        insert_of(acts, i, j) is Some,
        forall|k: int, l: int|
            (#[trigger] update_of(acts, k, l)) matches Some(u) ==> u.0 != (insert_of(
                acts,
                i,
                j,
            )->0).0,
        forall|k: int, l: int|
            stands_before(k, l, i, j) ==> ((#[trigger] insert_of(acts, k, l)) matches Some(u)
                ==> u.0 != (insert_of(acts, i, j)->0).0),
    ensures
        exists|k: int|
            {
                &&& 0 <= k < merge_lineage(table, source, acts).mappings.len()
                &&& describes_merged(
                    #[trigger] merge_lineage(table, source, acts).mappings[k],
                    (insert_of(acts, i, j)->0).1,
                    relation_alias(source),
                    (insert_of(acts, i, j)->0).0,
                )
            },
{
    let alias = factor_alias(source);
    let n = acts.len() as int;
    let (t, v) = insert_of(acts, i, j)->0;
    let ups = updated(acts, alias, n);
    if maps_target(ups, t) {
        updated_from(acts, alias, n, t);
    }
    inserted_takes(acts, alias, n, ups, i, j);
    merged_is_described(v, alias, t);
    let ms = merge_lineage(table, source, acts).mappings;
    let k = choose|k: int| 0 <= k < ms.len() && ms[k] == merge_mapping(v, alias, t);
    assert(describes_merged(ms[k], v, relation_alias(source), t));
}

/// A `MERGE` maps no column but those that one of its clauses gives a value,
/// and reads the tables of the merged relation.
pub proof fn merge_maps_only_what_it_writes(
    table: Seq<Seq<char>>,
    source: SqlFactorTree,
    acts: Seq<SqlMergeActionTree>,
    k: int,
)
    requires
        0 <= k < merge_lineage(table, source, acts).mappings.len(),
    ensures
        exists|i: int, j: int|
            ((#[trigger] update_of(acts, i, j)) matches Some(u) && u.0 == merge_lineage(
                table,
                source,
                acts,
            ).mappings[k].target) || (insert_of(acts, i, j) matches Some(u) && u.0
                == merge_lineage(table, source, acts).mappings[k].target),
{
    let alias = factor_alias(source);
    let n = acts.len() as int;
    let ms = merge_lineage(table, source, acts).mappings;
    let t = ms[k].target;
    assert(maps_target(ms, t));
    inserted_from(acts, alias, n, updated(acts, alias, n), t);
    if maps_target(updated(acts, alias, n), t) {
        updated_from(acts, alias, n, t);
    } else {
        let (i, j) = choose|i: int, j: int|
            i < n && ((#[trigger] insert_of(acts, i, j)) matches Some(u) && u.0 == t);
        assert(update_of(acts, i, j) == update_of(acts, i, j));
    }
}

/// A `MERGE` writes the table that it names and reads those of the merged
/// relation.
pub proof fn merge_reads_the_merged_relation(
    table: Seq<Seq<char>>,
    alias: Option<Seq<char>>,
    source: SqlFactorTree,
    acts: Seq<SqlMergeActionTree>,
)
    ensures
        statement_lineage(
            SqlStatementTree::Merge(SqlFactorTree::Table(table, alias), source, acts),
        ) matches Some(l) && {
            &&& l == merge_lineage(table, source, acts)
            &&& l.target_table == Some(own_name(table))
            &&& l.source_tables.no_duplicates()
            &&& forall|t: Seq<char>| #[trigger]
                l.source_tables.contains(t) <==> factor_reads(source, t)
            &&& !l.wildcard_in_projection
            &&& l.arity_mismatch is None
        },
{
    factor_has(source, Seq::empty());
}

} // verus!

//! The statements of a module and what is read from them: the tasks that they
//! declare, the operators that they make, and the functions that they call.

use vstd::prelude::*;

use crate::decls::{
    add_task, as_task, block_calls, callable_name, callables_in, callables_upto, calls_function,
    columns_upto, decl_of, declared_task, declared_upto, find_lineage, find_task, has_task,
    keyword_value, lineage_aliases, lineage_names_upto, operator_task, operators_in, operators_upto,
    statement_call, DeclCtx, DecoratorKind, OperatorCtx, TaskDeclView,
};
use crate::laws::reading::{lists_those, one_more};
use crate::flow::dataflow_of;
use crate::pyast::{
    PyAliasTree, PyExprTree, PyFunctionTree, PyKeywordTree, PyStmtTree,
};

verus! {

// ──────────────────────────────── blocks ──────────────────────────────

/// The statements of the blocks of a statement that are read: those of `with`,
/// of both sides of `if`, of the bodies of loops, and of the body and the end
/// of `try`.
pub open spec fn inner(s: PyStmtTree) -> Seq<PyStmtTree> {
    match s {
        PyStmtTree::With(_, b) => b,
        PyStmtTree::If(b, o) => b + o,
        PyStmtTree::For(f) => f.body,
        PyStmtTree::While(_, b, _) => b,
        PyStmtTree::Try(_, b, _, _, f) => b + f,
        _ => Seq::empty(),
    }
}

/// True when `y` stands in `s`, that many blocks deep.
pub open spec fn stands_in(y: PyStmtTree, s: PyStmtTree, depth: nat) -> bool
    decreases depth,
{
    if depth == 0 {
        y == s
    } else {
        exists|z: PyStmtTree| #[trigger]
            inner(s).contains(z) && stands_in(y, z, (depth - 1) as nat)
    }
}

/// True when `y` is the statement or stands in one of its blocks.
pub open spec fn is_within(y: PyStmtTree, s: PyStmtTree) -> bool {
    exists|depth: nat| stands_in(y, s, depth)
}

/// True when `y` is one of the statements or stands in one of their blocks.
pub open spec fn is_among(y: PyStmtTree, b: Seq<PyStmtTree>) -> bool {
    exists|i: int| 0 <= i < b.len() && is_within(y, #[trigger] b[i])
}

/// True when a statement that is as asked is within the statement.
pub open spec fn has_within(s: PyStmtTree, p: spec_fn(PyStmtTree) -> bool) -> bool {
    exists|y: PyStmtTree| #[trigger] is_within(y, s) && p(y)
}

/// True when a statement that is as asked is among the statements.
pub open spec fn has_among(b: Seq<PyStmtTree>, p: spec_fn(PyStmtTree) -> bool) -> bool {
    exists|y: PyStmtTree| #[trigger] is_among(y, b) && p(y)
}

/// The same, by the shape of the statement.
spec fn some_in(s: PyStmtTree, p: spec_fn(PyStmtTree) -> bool) -> bool
    decreases s, 0int,
{
    p(s) || match s {
        PyStmtTree::With(_, b) => some_upto(b, b.len() as int, p),
        PyStmtTree::If(b, o) => some_upto(b, b.len() as int, p) || some_upto(o, o.len() as int, p),
        PyStmtTree::For(f) => some_upto(f.body, f.body.len() as int, p),
        PyStmtTree::While(_, b, _) => some_upto(b, b.len() as int, p),
        PyStmtTree::Try(_, b, _, _, f) => some_upto(b, b.len() as int, p) || some_upto(
            f,
            f.len() as int,
            p,
        ),
        _ => false,
    }
}

spec fn some_upto(b: Seq<PyStmtTree>, n: int, p: spec_fn(PyStmtTree) -> bool) -> bool
    decreases b, n,
{
    if n <= 0 || n > b.len() {
        false
    } else {
        some_upto(b, n - 1, p) || some_in(b[n - 1], p)
    }
}

proof fn some_is_one(b: Seq<PyStmtTree>, n: int, p: spec_fn(PyStmtTree) -> bool)
    requires
        0 <= n <= b.len(),
    ensures
        some_upto(b, n, p) <==> exists|i: int| 0 <= i < n && some_in(#[trigger] b[i], p),
    decreases n,
{
    if n > 0 {
        some_is_one(b, n - 1, p);
        if some_in(b[n - 1], p) {
            assert(exists|i: int| 0 <= i < n && some_in(#[trigger] b[i], p));
        }
    }
}

proof fn block_is_some(b: Seq<PyStmtTree>, z: PyStmtTree, p: spec_fn(PyStmtTree) -> bool)
    requires
        b.contains(z),
        some_in(z, p),
    ensures
        some_upto(b, b.len() as int, p),
{
    some_is_one(b, b.len() as int, p);
    let i = choose|i: int| 0 <= i < b.len() && b[i] == z;
    assert(some_in(b[i], p));
}

proof fn inner_is_some(s: PyStmtTree, z: PyStmtTree, p: spec_fn(PyStmtTree) -> bool)
    requires
        inner(s).contains(z),
        some_in(z, p),
    ensures
        some_in(s, p),
{
    match s {
        PyStmtTree::With(_, b) => block_is_some(b, z, p),
        PyStmtTree::If(b, o) => {
            let k = choose|k: int| 0 <= k < (b + o).len() && (b + o)[k] == z;
            if k < b.len() {
                assert(b[k] == z);
                block_is_some(b, z, p);
            } else {
                assert(o[k - b.len()] == z);
                block_is_some(o, z, p);
            }
        },
        PyStmtTree::For(f) => block_is_some(f.body, z, p),
        PyStmtTree::While(_, b, _) => block_is_some(b, z, p),
        PyStmtTree::Try(_, b, _, _, f) => {
            let k = choose|k: int| 0 <= k < (b + f).len() && (b + f)[k] == z;
            if k < b.len() {
                assert(b[k] == z);
                block_is_some(b, z, p);
            } else {
                assert(f[k - b.len()] == z);
                block_is_some(f, z, p);
            }
        },
        _ => {},
    }
}

proof fn standing_is_some(
    y: PyStmtTree,
    s: PyStmtTree,
    depth: nat,
    p: spec_fn(PyStmtTree) -> bool,
)
    requires
        stands_in(y, s, depth),
        p(y),
    ensures
        some_in(s, p),
    decreases depth,
{
    if depth > 0 {
        let z = choose|z: PyStmtTree| #[trigger]
            inner(s).contains(z) && stands_in(y, z, (depth - 1) as nat);
        standing_is_some(y, z, (depth - 1) as nat, p);
        inner_is_some(s, z, p);
    }
}

proof fn inner_has_within(s: PyStmtTree, z: PyStmtTree, p: spec_fn(PyStmtTree) -> bool)
    requires
        inner(s).contains(z),
        has_within(z, p),
    ensures
        has_within(s, p),
{
    let y = choose|y: PyStmtTree| #[trigger] is_within(y, z) && p(y);
    let d = choose|d: nat| stands_in(y, z, d);
    assert(stands_in(y, s, d + 1));
    assert(is_within(y, s));
}

proof fn some_has_within(s: PyStmtTree, p: spec_fn(PyStmtTree) -> bool)
    requires
        some_in(s, p),
    ensures
        has_within(s, p),
    decreases s, 0int,
{
    if p(s) {
        assert(stands_in(s, s, 0));
        assert(is_within(s, s));
    } else {
        let all = inner(s);
        match s {
            PyStmtTree::With(_, b) => {
                let i = block_has_within(b, p);
                inner_has_within(s, b[i], p);
            },
            PyStmtTree::If(b, o) => {
                if some_upto(b, b.len() as int, p) {
                    let i = block_has_within(b, p);
                    assert(all[i] == b[i]);
                    inner_has_within(s, b[i], p);
                } else {
                    let i = block_has_within(o, p);
                    assert(all[b.len() + i] == o[i]);
                    inner_has_within(s, o[i], p);
                }
            },
            PyStmtTree::For(f) => {
                assert(decreases_to!(s => f));
                assert(decreases_to!(f => f.body));
                let i = block_has_within(f.body, p);
                inner_has_within(s, f.body[i], p);
            },
            PyStmtTree::While(_, b, _) => {
                let i = block_has_within(b, p);
                inner_has_within(s, b[i], p);
            },
            PyStmtTree::Try(_, b, _, _, f) => {
                if some_upto(b, b.len() as int, p) {
                    let i = block_has_within(b, p);
                    assert(all[i] == b[i]);
                    inner_has_within(s, b[i], p);
                } else {
                    let i = block_has_within(f, p);
                    assert(all[b.len() + i] == f[i]);
                    inner_has_within(s, f[i], p);
                }
            },
            _ => {},
        }
    }
}

proof fn block_has_within(b: Seq<PyStmtTree>, p: spec_fn(PyStmtTree) -> bool) -> (i: int)
    requires
        some_upto(b, b.len() as int, p),
    ensures
        0 <= i < b.len(),
        has_within(b[i], p),
    decreases b, 1int,
{
    some_is_one(b, b.len() as int, p);
    let i = choose|i: int| 0 <= i < b.len() && some_in(#[trigger] b[i], p);
    some_has_within(b[i], p);
    i
}

proof fn some_is_among(b: Seq<PyStmtTree>, p: spec_fn(PyStmtTree) -> bool)
    ensures
        some_upto(b, b.len() as int, p) <==> has_among(b, p),
{
    if some_upto(b, b.len() as int, p) {
        let i = block_has_within(b, p);
        let y = choose|y: PyStmtTree| #[trigger] is_within(y, b[i]) && p(y);
        assert(is_among(y, b));
    }
    if has_among(b, p) {
        let y = choose|y: PyStmtTree| #[trigger] is_among(y, b) && p(y);
        let i = choose|i: int| 0 <= i < b.len() && is_within(y, #[trigger] b[i]);
        let d = choose|d: nat| stands_in(y, b[i], d);
        standing_is_some(y, b[i], d, p);
        some_is_one(b, b.len() as int, p);
        assert(some_in(b[i], p));
    }
}

// ───────────────────────────────── calls ──────────────────────────────

/// The statements that call the function by its plain name.
pub open spec fn is_call_of(name: Seq<char>) -> spec_fn(PyStmtTree) -> bool {
    |s: PyStmtTree|
        statement_call(s) matches Some(c) && (*c.func) is Name && (*c.func)->Name_1 == name
}

proof fn calls_are_some(s: PyStmtTree, name: Seq<char>)
    ensures
        calls_function(s, name) == some_in(s, is_call_of(name)),
    decreases s, 0int,
{
    let p = is_call_of(name);
    match s {
        PyStmtTree::With(_, b) => block_calls_are_some(b, name, b.len() as int),
        PyStmtTree::If(b, o) => {
            block_calls_are_some(b, name, b.len() as int);
            block_calls_are_some(o, name, o.len() as int);
        },
        PyStmtTree::For(f) => {
            assert(decreases_to!(s => f));
            assert(decreases_to!(f => f.body));
            block_calls_are_some(f.body, name, f.body.len() as int);
        },
        PyStmtTree::While(_, b, _) => block_calls_are_some(b, name, b.len() as int),
        PyStmtTree::Try(_, b, _, _, f) => {
            block_calls_are_some(b, name, b.len() as int);
            block_calls_are_some(f, name, f.len() as int);
        },
        _ => {},
    }
}

proof fn block_calls_are_some(b: Seq<PyStmtTree>, name: Seq<char>, n: int)
    ensures
        block_calls(b, name, n) == some_upto(b, n, is_call_of(name)),
    decreases b, n,
{
    if 0 < n <= b.len() {
        block_calls_are_some(b, name, n - 1);
        calls_are_some(b[n - 1], name);
    }
}

/// A body calls a function exactly when one of its statements does, in
/// whatever block.
pub proof fn body_calls_what_a_statement_calls(b: Seq<PyStmtTree>, name: Seq<char>)
    ensures
        block_calls(b, name, b.len() as int) <==> has_among(b, is_call_of(name)),
{
    block_calls_are_some(b, name, b.len() as int);
    some_is_among(b, is_call_of(name));
}

/// The statements that make an operator which runs the function.
pub open spec fn runs(name: Seq<char>) -> spec_fn(PyStmtTree) -> bool {
    |s: PyStmtTree| statement_call(s) matches Some(c) && callable_name(c) == Some(name)
}

proof fn callables_are_some(s: PyStmtTree, out: Set<Seq<char>>, name: Seq<char>)
    ensures
        callables_in(s, out).contains(name) <==> out.contains(name) || some_in(s, runs(name)),
    decreases s, 0int,
{
    let here = match statement_call(s) {
        Some(c) => match callable_name(c) {
            Some(n) => out.insert(n),
            None => out,
        },
        None => out,
    };
    assert(here.contains(name) <==> out.contains(name) || runs(name)(s));
    match s {
        PyStmtTree::With(_, b) => block_callables_are_some(b, b.len() as int, here, name),
        PyStmtTree::If(b, o) => {
            block_callables_are_some(b, b.len() as int, here, name);
            let mid = callables_upto(b, b.len() as int, here);
            block_callables_are_some(o, o.len() as int, mid, name);
        },
        PyStmtTree::For(f) => {
            assert(decreases_to!(s => f));
            assert(decreases_to!(f => f.body));
            block_callables_are_some(f.body, f.body.len() as int, here, name);
        },
        PyStmtTree::While(_, b, _) => block_callables_are_some(b, b.len() as int, here, name),
        PyStmtTree::Try(_, b, _, _, f) => {
            block_callables_are_some(b, b.len() as int, here, name);
            let mid = callables_upto(b, b.len() as int, here);
            block_callables_are_some(f, f.len() as int, mid, name);
        },
        _ => {},
    }
}

proof fn block_callables_are_some(
    b: Seq<PyStmtTree>,
    n: int,
    out: Set<Seq<char>>,
    name: Seq<char>,
)
    ensures
        callables_upto(b, n, out).contains(name) <==> out.contains(name) || some_upto(
            b,
            n,
            runs(name),
        ),
    decreases b, n,
{
    if 0 < n <= b.len() {
        block_callables_are_some(b, n - 1, out, name);
        callables_are_some(b[n - 1], callables_upto(b, n - 1, out), name);
    }
}

/// A function is claimed by an operator exactly when a statement of the module,
/// in whatever block, makes an operator that runs it.
pub proof fn operators_claim_what_they_run(
    b: Seq<PyStmtTree>,
    out: Set<Seq<char>>,
    name: Seq<char>,
)
    ensures
        callables_upto(b, b.len() as int, out).contains(name) <==> out.contains(name)
            || has_among(b, runs(name)),
{
    block_callables_are_some(b, b.len() as int, out, name);
    some_is_among(b, runs(name));
}

/// The statements that make an operator with that task.
pub open spec fn makes(x: OperatorCtx, d: TaskDeclView) -> spec_fn(PyStmtTree) -> bool {
    |s: PyStmtTree| statement_call(s) matches Some(c) && operator_task(x, c) == Some(d)
}

/// The statements that make an operator with a task of that name.
pub open spec fn makes_named(x: OperatorCtx, name: Seq<char>) -> spec_fn(PyStmtTree) -> bool {
    |s: PyStmtTree|
        statement_call(s) matches Some(c) && (operator_task(x, c) matches Some(d) && d.task_name
            == name)
}

proof fn added_task(t: Seq<TaskDeclView>, o: Option<TaskDeclView>, name: Seq<char>, d: TaskDeclView)
    ensures
        has_task(add_task(t, o), name) <==> has_task(t, name) || (o matches Some(x) && x.task_name
            == name),
        add_task(t, o).contains(d) ==> t.contains(d) || o == Some(d),
        t.contains(d) ==> add_task(t, o).contains(d),
{
    let r = add_task(t, o);
    if has_task(t, name) {
        let i = choose|i: int| 0 <= i < t.len() && (#[trigger] t[i]).task_name == name;
        assert(r[i].task_name == name);
    }
    if let Some(x) = o {
        if x.task_name == name && !has_task(t, name) {
            assert(r[t.len() as int].task_name == name);
        }
    }
    if has_task(r, name) && !has_task(t, name) {
        let i = choose|i: int| 0 <= i < r.len() && (#[trigger] r[i]).task_name == name;
        if i < t.len() {
            assert(t[i].task_name == name);
        }
    }
    if t.contains(d) {
        let i = choose|i: int| 0 <= i < t.len() && t[i] == d;
        assert(r[i] == d);
    }
}

proof fn operators_are_some(
    x: OperatorCtx,
    s: PyStmtTree,
    t: Seq<TaskDeclView>,
    name: Seq<char>,
    d: TaskDeclView,
)
    ensures
        has_task(operators_in(x, s, t), name) <==> has_task(t, name) || some_in(
            s,
            makes_named(x, name),
        ),
        operators_in(x, s, t).contains(d) ==> t.contains(d) || some_in(s, makes(x, d)),
        t.contains(d) ==> operators_in(x, s, t).contains(d),
    decreases s, 0int,
{
    let here = match statement_call(s) {
        Some(c) => add_task(t, operator_task(x, c)),
        None => t,
    };
    if let Some(c) = statement_call(s) {
        added_task(t, operator_task(x, c), name, d);
    }
    match s {
        PyStmtTree::With(_, b) => block_operators_are_some(x, b, b.len() as int, here, name, d),
        PyStmtTree::If(b, o) => {
            block_operators_are_some(x, b, b.len() as int, here, name, d);
            let mid = operators_upto(x, b, b.len() as int, here);
            block_operators_are_some(x, o, o.len() as int, mid, name, d);
        },
        PyStmtTree::For(f) => {
            assert(decreases_to!(s => f));
            assert(decreases_to!(f => f.body));
            block_operators_are_some(x, f.body, f.body.len() as int, here, name, d);
        },
        PyStmtTree::While(_, b, _) => block_operators_are_some(
            x,
            b,
            b.len() as int,
            here,
            name,
            d,
        ),
        PyStmtTree::Try(_, b, _, _, f) => {
            block_operators_are_some(x, b, b.len() as int, here, name, d);
            let mid = operators_upto(x, b, b.len() as int, here);
            block_operators_are_some(x, f, f.len() as int, mid, name, d);
        },
        _ => {},
    }
}

proof fn block_operators_are_some(
    x: OperatorCtx,
    b: Seq<PyStmtTree>,
    n: int,
    t: Seq<TaskDeclView>,
    name: Seq<char>,
    d: TaskDeclView,
)
    ensures
        has_task(operators_upto(x, b, n, t), name) <==> has_task(t, name) || some_upto(
            b,
            n,
            makes_named(x, name),
        ),
        operators_upto(x, b, n, t).contains(d) ==> t.contains(d) || some_upto(b, n, makes(x, d)),
        t.contains(d) ==> operators_upto(x, b, n, t).contains(d),
    decreases b, n,
{
    if 0 < n <= b.len() {
        block_operators_are_some(x, b, n - 1, t, name, d);
        operators_are_some(x, b[n - 1], operators_upto(x, b, n - 1, t), name, d);
    }
}

/// Each operator of a module, in whatever block, has a task of its name, unless
/// a task had it before; each task that is added is that of an operator; and
/// the tasks that were there stay.
pub proof fn each_operator_has_its_task(
    x: OperatorCtx,
    b: Seq<PyStmtTree>,
    t: Seq<TaskDeclView>,
    name: Seq<char>,
    d: TaskDeclView,
)
    ensures
        has_task(operators_upto(x, b, b.len() as int, t), name) <==> has_task(t, name)
            || has_among(b, makes_named(x, name)),
        operators_upto(x, b, b.len() as int, t).contains(d) ==> t.contains(d) || has_among(
            b,
            makes(x, d),
        ),
        t.contains(d) ==> operators_upto(x, b, b.len() as int, t).contains(d),
{
    block_operators_are_some(x, b, b.len() as int, t, name, d);
    some_is_among(b, makes_named(x, name));
    some_is_among(b, makes(x, d));
}

// ───────────────────────────── declarations ───────────────────────────

/// The statements that define a function which declares a task.
pub open spec fn declares(ctx: DeclCtx, names: Set<Seq<char>>, s: Seq<PyStmtTree>) -> spec_fn(
    int,
) -> bool {
    |i: int| s[i] is FunctionDef && declared_task(ctx, names, s[i]->FunctionDef_0) is Some
}

proof fn declarations_in_turn(
    ctx: DeclCtx,
    names: Set<Seq<char>>,
    s: Seq<PyStmtTree>,
    n: int,
) -> (chosen: Seq<int>)
    requires
        0 <= n <= s.len(),
    ensures
        lists_those(chosen, n, declares(ctx, names, s)),
        declared_upto(ctx, names, s, n).0.len() == chosen.len(),
        forall|k: int|
            0 <= k < chosen.len() ==> Some(#[trigger] declared_upto(ctx, names, s, n).0[k])
                == declared_task(ctx, names, s[chosen[k]]->FunctionDef_0),
    decreases n,
{
    if n > 0 {
        let before = declarations_in_turn(ctx, names, s, n - 1);
        one_more(before, n, declares(ctx, names, s))
    } else {
        Seq::empty()
    }
}

/// The declared tasks of a module are those of its functions that declare one,
/// in order.
pub proof fn each_declaring_function_has_its_task(
    ctx: DeclCtx,
    names: Set<Seq<char>>,
    s: Seq<PyStmtTree>,
)
    ensures
        exists|chosen: Seq<int>|
            {
                &&& #[trigger] lists_those(chosen, s.len() as int, declares(ctx, names, s))
                &&& declared_upto(ctx, names, s, s.len() as int).0.len() == chosen.len()
                &&& forall|k: int|
                    0 <= k < chosen.len() ==> Some(
                        #[trigger] declared_upto(ctx, names, s, s.len() as int).0[k],
                    ) == declared_task(ctx, names, s[chosen[k]]->FunctionDef_0)
            },
{
    let chosen = declarations_in_turn(ctx, names, s, s.len() as int);
}

/// A keyword argument is the first with its name.
pub proof fn first_keyword_counts(k: Seq<PyKeywordTree>, name: Seq<char>, i: int)
    requires
        0 <= i < k.len(),
        k[i].name == Some(name),
        forall|j: int| 0 <= j < i ==> (#[trigger] k[j]).name != Some(name),
    ensures
        keyword_value(k, name, 0) == Some(k[i].value),
{
    keyword_found(k, name, 0, i);
}

proof fn keyword_found(k: Seq<PyKeywordTree>, name: Seq<char>, m: int, i: int)
    requires
        0 <= m <= i < k.len(),
        k[i].name == Some(name),
        forall|j: int| 0 <= j < i ==> (#[trigger] k[j]).name != Some(name),
    ensures
        keyword_value(k, name, m) == Some(k[i].value),
    decreases i - m,
{
    if m < i {
        assert(k[m].name != Some(name));
        keyword_found(k, name, m + 1, i);
    }
}


/// True when the import binds the name to `lineage`.
pub open spec fn imports_lineage(s: PyStmtTree, name: Seq<char>) -> bool {
    &&& s is ImportFrom
    &&& exists|k: int|
        {
            &&& 0 <= k < s->ImportFrom_2.len()
            &&& (#[trigger] s->ImportFrom_2[k]).name == "lineage"@
            &&& name == match s->ImportFrom_2[k].asname {
                Some(a) => a,
                None => "lineage"@,
            }
        }
}

spec fn alias_upto(names: Seq<PyAliasTree>, n: int, name: Seq<char>) -> bool {
    exists|k: int|
        {
            &&& 0 <= k < n
            &&& (#[trigger] names[k]).name == "lineage"@
            &&& name == match names[k].asname {
                Some(a) => a,
                None => "lineage"@,
            }
        }
}

proof fn aliases_have(names: Seq<PyAliasTree>, n: int, out: Set<Seq<char>>, name: Seq<char>)
    requires
        0 <= n <= names.len(),
    ensures
        lineage_aliases(names, n, out).contains(name) <==> out.contains(name) || alias_upto(
            names,
            n,
            name,
        ),
    decreases n,
{
    if n > 0 {
        aliases_have(names, n - 1, out, name);
        let a = names[n - 1];
        let here = a.name == "lineage"@ && name == match a.asname {
            Some(x) => x,
            None => "lineage"@,
        };
        assert(alias_upto(names, n, name) <==> alias_upto(names, n - 1, name) || here) by {
            if here {
                assert(names[n - 1].name == "lineage"@);
            }
            if alias_upto(names, n - 1, name) {
                let k = choose|k: int|
                    {
                        &&& 0 <= k < n - 1
                        &&& (#[trigger] names[k]).name == "lineage"@
                        &&& name == match names[k].asname {
                            Some(x) => x,
                            None => "lineage"@,
                        }
                    };
                assert(names[k].name == "lineage"@);
            }
        }
    }
}

proof fn names_have(s: Seq<PyStmtTree>, n: int, name: Seq<char>)
    requires
        0 <= n <= s.len(),
    ensures
        lineage_names_upto(s, n).contains(name) <==> name == "lineage"@ || exists|i: int|
            0 <= i < n && imports_lineage(#[trigger] s[i], name),
    decreases n,
{
    if n > 0 {
        names_have(s, n - 1, name);
        if let PyStmtTree::ImportFrom(_, _, names) = s[n - 1] {
            let prev = lineage_names_upto(s, n - 1);
            aliases_have(names, names.len() as int, prev, name);
            assert(imports_lineage(s[n - 1], name) <==> alias_upto(
                names,
                names.len() as int,
                name,
            ));
        }
        if imports_lineage(s[n - 1], name) {
            assert(exists|i: int| 0 <= i < n && imports_lineage(#[trigger] s[i], name));
        }
    }
}

/// The decorator goes by its own name and by each name that an import of the
/// module gives it, and by no other.
pub proof fn decorator_goes_by_its_imports(s: Seq<PyStmtTree>, name: Seq<char>)
    ensures
        lineage_names_upto(s, s.len() as int).contains(name) <==> name == "lineage"@ || exists|
            i: int,
        | 0 <= i < s.len() && imports_lineage(#[trigger] s[i], name),
{
    names_have(s, s.len() as int, name);
}

/// True when decorator `i` is the first that declares a task.
pub open spec fn is_first_task(d: Seq<PyExprTree>, i: int) -> bool {
    &&& 0 <= i < d.len()
    &&& as_task(d[i]) is Some
    &&& forall|j: int| 0 <= j < i ==> as_task(#[trigger] d[j]) is None
}

proof fn task_found(d: Seq<PyExprTree>, k: int, i: int)
    requires
        0 <= k <= i,
        is_first_task(d, i),
    ensures
        find_task(d, k) == as_task(d[i]),
    decreases i - k,
{
    if k < i {
        assert(as_task(d[k]) is None);
        task_found(d, k + 1, i);
    }
}

/// A function that a task decorator declares has the declaration of the first
/// of them, under its name, and with every column that its body makes, unless
/// the task is a query.
pub proof fn declared_function_has_every_column(
    ctx: DeclCtx,
    names: Set<Seq<char>>,
    f: PyFunctionTree,
    i: int,
)
    requires
        find_lineage(f.decorators, names, 0) is None,
        is_first_task(f.decorators, i),
    ensures
        declared_task(ctx, names, f) matches Some(d) && {
            let (c, kind) = as_task(f.decorators[i])->0;
            let plain = decl_of(ctx, f.name, c, kind);
            let r = dataflow_of(f.body, ctx.consts, ctx.source);
            &&& d.inputs == plain.inputs
            &&& d.outputs == plain.outputs
            &&& d.column_map == plain.column_map
            &&& d.task_name == plain.task_name
            &&& d.sql == plain.sql
            &&& if kind == DecoratorKind::Sql || plain.engine == Some("sql"@) {
                d.inferred_columns == plain.inferred_columns
            } else {
                d.inferred_columns == r.columns && d.opaque == r.opaque
            }
        },
{
    task_found(f.decorators, 0, i);
}

/// True when columns are found in the function and nothing claims it.
pub open spec fn is_unclaimed(
    ctx: DeclCtx,
    claimed: Set<Seq<char>>,
    s: PyStmtTree,
) -> bool {
    &&& s is FunctionDef
    &&& !claimed.contains(s->FunctionDef_0.name)
    &&& dataflow_of(s->FunctionDef_0.body, ctx.consts, ctx.source).columns.len() > 0
}

proof fn unclaimed_has_entry(
    ctx: DeclCtx,
    names: Set<Seq<char>>,
    claimed: Set<Seq<char>>,
    s: Seq<PyStmtTree>,
    n: int,
    t: Seq<TaskDeclView>,
    i: int,
)
    requires
        0 <= i < n <= s.len(),
        is_unclaimed(ctx, claimed, s[i]),
    ensures
        has_task(columns_upto(ctx, names, claimed, s, n, t), s[i]->FunctionDef_0.name),
    decreases n,
{
    let prev = columns_upto(ctx, names, claimed, s, n - 1, t);
    let now = columns_upto(ctx, names, claimed, s, n, t);
    let name = s[i]->FunctionDef_0.name;
    if i < n - 1 {
        unclaimed_has_entry(ctx, names, claimed, s, n - 1, t, i);
        let k = choose|k: int| 0 <= k < prev.len() && (#[trigger] prev[k]).task_name == name;
        assert(now[k].task_name == name);
    } else if !has_task(prev, name) {
        assert(now[prev.len() as int].task_name == name);
    }
}

/// Each function that columns are found in, and that nothing claims, has an
/// entry for them, unless a task has its name.
pub proof fn unclaimed_columns_are_kept(
    ctx: DeclCtx,
    names: Set<Seq<char>>,
    claimed: Set<Seq<char>>,
    s: Seq<PyStmtTree>,
    t: Seq<TaskDeclView>,
    i: int,
)
    requires
        0 <= i < s.len(),
        is_unclaimed(ctx, claimed, s[i]),
    ensures
        has_task(
            columns_upto(ctx, names, claimed, s, s.len() as int, t),
            s[i]->FunctionDef_0.name,
        ),
{
    unclaimed_has_entry(ctx, names, claimed, s, s.len() as int, t, i);
}

} // verus!

//! A task and what is reported of it.

use vstd::prelude::*;

use crate::decls::TaskDeclView;
use crate::laws::openmetadata::full_name;
use crate::laws::reading::{joined_has, pushed_has};
use crate::laws::text::four_parts_are_read;
use crate::model::{
    fqn_parts, parts_plain, table_fqn, DiagLevel, DiagnosticView, Engine, FqnPartsView,
};
use crate::sql::SqlColumnLineageView;
use crate::tasks::{
    bad_fqn, bad_fqns, declaration_findings, engine_word, missing_io, non_literal, non_literals,
    only_if, query_findings, sql_arity, sql_not_parsed, sql_wildcard, WiringView,
};
use crate::text::decimal;

verus! {

/// True when the finding is at the place of the task, with that level and that
/// code.
pub open spec fn is_at(x: DiagnosticView, w: WiringView, level: DiagLevel, code: Seq<char>) -> bool {
    x.level == level && x.code == code && x.location == Some(w.loc)
}

/// True when the finding says that a side of the task is left open.
pub open spec fn tells_open_side(x: DiagnosticView, d: TaskDeclView, w: WiringView) -> bool {
    &&& is_at(x, w, DiagLevel::Error, "E_MISSING_IO"@)
    &&& x.message == "task '"@ + d.task_name
        + "' must declare both inputs= and outputs= (got "@ + decimal(w.inputs.len())
        + " input(s), "@ + decimal(w.outputs.len()) + " output(s))"@
}

/// True when the finding says that the query of the task is not read.
pub open spec fn tells_unread_query(x: DiagnosticView, d: TaskDeclView, w: WiringView) -> bool {
    &&& is_at(x, w, DiagLevel::Warn, "W_SQL_NOT_PARSED"@)
    &&& x.message == "task '"@ + d.task_name + "' provides sql= but engine is "@ + engine_word(
        w.engine,
    ) + "; SQL column lineage is only extracted for engine=\"sql\""@
}

/// True when the finding says that an argument is no literal.
pub open spec fn tells_no_literal(
    x: DiagnosticView,
    d: TaskDeclView,
    w: WiringView,
    keyword: Seq<char>,
) -> bool {
    &&& is_at(x, w, DiagLevel::Warn, "W_NON_LITERAL"@)
    &&& x.message == "task '"@ + d.task_name + "': argument '"@ + keyword
        + "' is not a string literal or module-level constant and was ignored (trace-weaver scans statically — use a literal or a top-level constant)"@
}

/// True when the finding says that a dataset has no name in four parts.
pub open spec fn tells_short_name(x: DiagnosticView, w: WiringView, name: Seq<char>) -> bool {
    &&& is_at(x, w, DiagLevel::Warn, "W_BAD_FQN"@)
    &&& x.message == "dataset '"@ + name
        + "' is not a 4-part FQN 'service.database.schema.table' (add tw.configure(service=, database=, schema=) or write the full FQN); the OpenMetadata exporter will skip it"@
}

/// True when the name is made of four parts.
pub open spec fn has_four_parts(name: Seq<char>) -> bool {
    exists|p: FqnPartsView| #[trigger] parts_plain(p) && full_name(p) == name
}

proof fn four_parts_are_known(name: Seq<char>)
    ensures
        fqn_parts(name) is Some <==> has_four_parts(name),
{
    reveal_strlit(".");
    assert("."@ =~= seq!['.']);
    if has_four_parts(name) {
        let p = choose|p: FqnPartsView| #[trigger] parts_plain(p) && full_name(p) == name;
        assert(table_fqn(p) == full_name(p));
        four_parts_are_read(name, p);
    }
    if let Some(p) = fqn_parts(name) {
        four_parts_are_read(name, p);
        assert(table_fqn(p) == full_name(p));
        assert(parts_plain(p));
    }
}

/// True when the finding is about one of the names: that it has no four parts.
pub open spec fn is_about_names(
    names: Seq<Seq<char>>,
    w: WiringView,
    x: DiagnosticView,
) -> bool {
    exists|i: int|
        0 <= i < names.len() && !has_four_parts(#[trigger] names[i]) && tells_short_name(
            x,
            w,
            names[i],
        )
}

proof fn only_has(b: bool, y: DiagnosticView, x: DiagnosticView)
    ensures
        only_if(b, y).contains(x) <==> b && x == y,
{
    if b {
        assert(only_if(b, y)[0] == y);
    }
}

spec fn short_upto(names: Seq<Seq<char>>, w: WiringView, n: int, x: DiagnosticView) -> bool {
    exists|i: int|
        0 <= i < n && !has_four_parts(#[trigger] names[i]) && tells_short_name(x, w, names[i])
}

proof fn short_names_have(w: WiringView, names: Seq<Seq<char>>, n: int, x: DiagnosticView)
    requires
        0 <= n <= names.len(),
    ensures
        bad_fqns(w, names, n).contains(x) <==> short_upto(names, w, n, x),
    decreases n,
{
    if n > 0 {
        short_names_have(w, names, n - 1, x);
        four_parts_are_known(names[n - 1]);
        let y = bad_fqn(w, names[n - 1]);
        pushed_has(bad_fqns(w, names, n - 1), y, x);
        assert(x == y <==> tells_short_name(x, w, names[n - 1]));
        assert(short_upto(names, w, n, x) <==> short_upto(names, w, n - 1, x) || (!has_four_parts(
            names[n - 1],
        ) && tells_short_name(x, w, names[n - 1])));
    }
}

spec fn unread_upto(d: TaskDeclView, w: WiringView, n: int, x: DiagnosticView) -> bool {
    exists|i: int| 0 <= i < n && tells_no_literal(x, d, w, #[trigger] d.unresolved[i])
}

proof fn arguments_have(d: TaskDeclView, w: WiringView, n: int, x: DiagnosticView)
    requires
        0 <= n <= d.unresolved.len(),
    ensures
        non_literals(d, w, n).contains(x) <==> unread_upto(d, w, n, x),
    decreases n,
{
    if n > 0 {
        arguments_have(d, w, n - 1, x);
        let y = non_literal(d, w, d.unresolved[n - 1]);
        pushed_has(non_literals(d, w, n - 1), y, x);
        assert(x == y <==> tells_no_literal(x, d, w, d.unresolved[n - 1]));
        assert(unread_upto(d, w, n, x) <==> unread_upto(d, w, n - 1, x) || tells_no_literal(
            x,
            d,
            w,
            d.unresolved[n - 1],
        ));
    }
}

/// A declaration is reported for what is wrong with it and for nothing else: a
/// side that is left open, a query that is not read, each argument that is no
/// literal, and each dataset of either side without a name in four parts. Where
/// `@lineage` declares it, a side may be open and names need no parts.
pub proof fn declaration_is_reported_for_what_is_wrong(
    d: TaskDeclView,
    w: WiringView,
    x: DiagnosticView,
)
    ensures
        declaration_findings(d, w).contains(x) <==> {
            ||| !d.lineage && (w.inputs.len() == 0 || w.outputs.len() == 0) && tells_open_side(
                x,
                d,
                w,
            )
            ||| d.sql is Some && w.engine != Engine::Sql && tells_unread_query(x, d, w)
            ||| exists|i: int|
                0 <= i < d.unresolved.len() && tells_no_literal(x, d, w, #[trigger] d.unresolved[i])
            ||| !d.lineage && is_about_names(w.inputs, w, x)
            ||| !d.lineage && is_about_names(w.outputs, w, x)
        },
{
    let open = !d.lineage && (w.inputs.len() == 0 || w.outputs.len() == 0);
    let unread = d.sql is Some && w.engine != Engine::Sql;
    let a = only_if(open, missing_io(d, w));
    let b = only_if(unread, sql_not_parsed(d, w));
    let n = d.unresolved.len() as int;
    let c = non_literals(d, w, n);
    let i = bad_fqns(w, w.inputs, w.inputs.len() as int);
    let o = bad_fqns(w, w.outputs, w.outputs.len() as int);
    only_has(open, missing_io(d, w), x);
    only_has(unread, sql_not_parsed(d, w), x);
    arguments_have(d, w, n, x);
    short_names_have(w, w.inputs, w.inputs.len() as int, x);
    short_names_have(w, w.outputs, w.outputs.len() as int, x);
    joined_has(a, b, x);
    joined_has(a + b, c, x);
    joined_has(a + b + c, i, x);
    joined_has(a + b + c + i, o, x);
    assert(x == missing_io(d, w) <==> tells_open_side(x, d, w));
    assert(x == sql_not_parsed(d, w) <==> tells_unread_query(x, d, w));
    assert(short_upto(w.inputs, w, w.inputs.len() as int, x) <==> is_about_names(w.inputs, w, x));
    assert(short_upto(w.outputs, w, w.outputs.len() as int, x) <==> is_about_names(
        w.outputs,
        w,
        x,
    ));
}

/// The query of a task is reported exactly when a wildcard or a projection of
/// another length keeps its columns from being paired.
pub proof fn query_is_reported_when_it_cannot_be_paired(
    d: TaskDeclView,
    w: WiringView,
    l: SqlColumnLineageView,
)
    ensures
        query_findings(d, w, None).len() == 0,
        l.wildcard_in_projection ==> exists|i: int|
            0 <= i < query_findings(d, w, Some(l)).len() && is_at(
                #[trigger] query_findings(d, w, Some(l))[i],
                w,
                DiagLevel::Warn,
                "W_SQL_WILDCARD"@,
            ),
        l.arity_mismatch is Some ==> exists|i: int|
            0 <= i < query_findings(d, w, Some(l)).len() && is_at(
                #[trigger] query_findings(d, w, Some(l))[i],
                w,
                DiagLevel::Warn,
                "W_SQL_ARITY"@,
            ),
        !l.wildcard_in_projection && l.arity_mismatch is None ==> query_findings(
            d,
            w,
            Some(l),
        ).len() == 0,
{
    let r = query_findings(d, w, Some(l));
    if l.wildcard_in_projection {
        assert(r[0] == sql_wildcard(d, w));
        assert(is_at(r[0], w, DiagLevel::Warn, "W_SQL_WILDCARD"@));
    }
    if let Some(n) = l.arity_mismatch {
        let k = r.len() - 1;
        assert(r[k] == sql_arity(d, w, n.0 as nat, n.1 as nat));
        assert(is_at(r[k], w, DiagLevel::Warn, "W_SQL_ARITY"@));
    }
}

} // verus!

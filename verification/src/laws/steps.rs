//! The statements of a function body that read, write, list and repeat, and
//! the columns that they make.

use vstd::prelude::*;

use crate::flow::{
    aliased, begins, begins_self, bound_to, chain_base, chain_calls, cols_of, first_text_value,
    flow_kind, innermost, is_alias, is_pure_ref, looks_aggregate, op_column, operated, queried,
    query_columns, query_columns_advances, read, reader_text, reads_sql, resolved_tables, selected,
    selected_advances, selected_one, stated, string_list, subset, subset_advances, unrolled, walked,
    Flow, InferredColumnView, Scope,
};
use crate::laws::flow::{
    column_comes, column_stays, dot_is_a_character, has_column, is_method, is_one_column, made_from,
    made_from_column, op_column_is_made, selected_argument_stays, selecting_keeps_scope, shown,
};
use crate::model::TransformType;
use crate::pyast::{span_of, PyCallTree, PyExprTree, PyStmtTree, Span};
use crate::source::label_of;
use crate::sql::{extended_new, sql_lineage, SqlColRefView, SqlMappingView};
use crate::text::{ascii_lower, contains_text, push_new};

verus! {

// ──────────────────────────── queries and writes ──────────────────────

/// The table that a name in a query stands for: the one behind a temporary
/// view of that name, or the name itself.
pub open spec fn behind_view(f: Flow, name: Seq<char>) -> Seq<char> {
    if f.temp_views.contains_key(name) && f.temp_views[name] is Some {
        f.temp_views[name]->0
    } else {
        name
    }
}

/// A source of a query as a source text: with the table that its qualifier
/// stands for, or with the only table that the query reads.
pub open spec fn shown_in_query(f: Flow, r: SqlColRefView, tables: Seq<Seq<char>>) -> Seq<char> {
    if r.table is Some {
        behind_view(f, r.table->0) + seq!['.'] + r.column
    } else if tables.len() == 1 {
        behind_view(f, tables[0]) + seq!['.'] + r.column
    } else {
        r.column
    }
}

/// A column that carries a mapping of a query which writes the table.
pub open spec fn made_by_query(
    f: Flow,
    m: SqlMappingView,
    tables: Seq<Seq<char>>,
    table: Seq<char>,
) -> spec_fn(InferredColumnView) -> bool {
    |c: InferredColumnView|
        {
            &&& c.target == m.target
            &&& c.output_table == Some(table)
            &&& c.transform_type == m.transform_type
            &&& c.function == Some(m.function)
            &&& c.sources.len() == m.sources.len()
            &&& forall|i: int|
                0 <= i < m.sources.len() ==> #[trigger] c.sources[i] == shown_in_query(
                    f,
                    m.sources[i],
                    tables,
                )
        }
}

proof fn query_column_is_made(
    f: Flow,
    g: Flow,
    ms: Seq<SqlMappingView>,
    tables: Seq<Seq<char>>,
    table: Seq<char>,
    n: int,
    k: int,
)
    requires
        0 <= k < n <= ms.len(),
        f.temp_views == g.temp_views,
    ensures
        has_column(
            query_columns(g, ms, resolved_tables(f, tables), table, n),
            g.columns.len() as int,
            Seq::empty(),
            made_by_query(f, ms[k], tables, table),
        ),
    decreases n,
{
    let ts = resolved_tables(f, tables);
    let prev = query_columns(g, ms, ts, table, n - 1);
    let now = query_columns(g, ms, ts, table, n);
    let wanted = made_by_query(f, ms[k], tables, table);
    query_columns_advances(g, ms, ts, table, n - 1);
    if k == n - 1 {
        dot_is_a_character();
        let c = now.columns.last().1;
        assert(now.columns == prev.columns.push((Seq::<char>::empty(), c)));
        assert forall|i: int| 0 <= i < ms[k].sources.len() implies #[trigger] c.sources[i]
            == shown_in_query(f, ms[k].sources[i], tables) by {}
        column_comes(prev, now, g.columns.len() as int, Seq::empty(), c, wanted);
    } else {
        query_column_is_made(f, g, ms, tables, table, n - 1, k);
        assert(begins(prev.columns, now.columns)) by {
            assert(now.columns.subrange(0, prev.columns.len() as int) =~= prev.columns);
        }
        column_stays(prev, now, g.columns.len() as int, Seq::empty(), wanted);
    }
}

/// A query that writes a table adds a column for each mapping of it, with every
/// source; the table is an output, and each table that the query reads is an
/// input.
pub proof fn query_has_every_column(f: Flow, c: PyCallTree, q: Seq<char>, k: int)
    requires
        first_text_value(f.scope, c.args) == Some(q),
        sql_lineage(q).target_table is Some,
        0 <= k < sql_lineage(q).mappings.len(),
    ensures
        ({
            let l = sql_lineage(q);
            let g = queried(f, c);
            &&& g.outputs.contains(l.target_table->0)
            &&& forall|i: int|
                0 <= i < l.source_tables.len() ==> g.inputs.contains(
                    behind_view(f, #[trigger] l.source_tables[i]),
                )
            &&& has_column(
                g,
                f.columns.len() as int,
                Seq::empty(),
                made_by_query(f, l.mappings[k], l.source_tables, l.target_table->0),
            )
        }),
{
    let l = sql_lineage(q);
    let t = l.target_table->0;
    let tables = resolved_tables(f, l.source_tables);
    let start = crate::flow::engine_seen(
        Flow {
            inputs: extended_new(f.inputs, tables, tables.len() as int),
            outputs: push_new(f.outputs, t),
            ..f
        },
        "spark"@,
    );
    let n = l.mappings.len() as int;
    let after = query_columns(start, l.mappings, tables, t, n);
    let g = queried(f, c);
    query_column_is_made(f, start, l.mappings, l.source_tables, t, n, k);
    query_columns_keep(start, l.mappings, tables, t, n);
    begins_self(after.columns);
    column_stays(
        after,
        g,
        f.columns.len() as int,
        Seq::empty(),
        made_by_query(f, l.mappings[k], l.source_tables, t),
    );
    crate::collections::push_new_holds(f.outputs, t);
    assert forall|i: int| 0 <= i < l.source_tables.len() implies g.inputs.contains(
        behind_view(f, #[trigger] l.source_tables[i]),
    ) by {
        extended_has(f.inputs, tables, tables.len() as int, i);
        assert(tables[i] == behind_view(f, l.source_tables[i]));
    }
}

proof fn query_columns_keep(
    f: Flow,
    ms: Seq<SqlMappingView>,
    tables: Seq<Seq<char>>,
    table: Seq<char>,
    n: int,
)
    ensures
        query_columns(f, ms, tables, table, n).inputs == f.inputs,
        query_columns(f, ms, tables, table, n).outputs == f.outputs,
    decreases n,
{
    if n > 0 {
        query_columns_keep(f, ms, tables, table, n - 1);
    }
}

proof fn extended_has(out: Seq<Seq<char>>, more: Seq<Seq<char>>, n: int, i: int)
    requires
        0 <= i < n <= more.len(),
    ensures
        extended_new(out, more, n).contains(more[i]),
    decreases n,
{
    let prev = extended_new(out, more, n - 1);
    crate::collections::push_new_holds(prev, more[n - 1]);
    if i < n - 1 {
        extended_has(out, more, n - 1, i);
    }
}

/// A call that reads a query makes each table that the query reads an input.
pub proof fn each_table_read_is_an_input(
    f: Flow,
    seg: Seq<char>,
    c: PyCallTree,
    q: Seq<char>,
    i: int,
)
    requires
        reads_sql(seg),
        reader_text(f, seg, c) == Some(q),
        0 <= i < sql_lineage(q).source_tables.len(),
    ensures
        read(f, seg, c).inputs.contains(behind_view(f, sql_lineage(q).source_tables[i])),
        read(f, seg, c).columns == f.columns,
{
    let tables = resolved_tables(f, sql_lineage(q).source_tables);
    extended_has(f.inputs, tables, tables.len() as int, i);
    assert(tables[i] == behind_view(f, sql_lineage(q).source_tables[i]));
}

/// A frame that is written to a table is remembered with that table, which is
/// an output.
pub proof fn written_table_is_an_output(f: Flow, c: PyCallTree, var: Seq<char>)
    requires
        is_method(c, "to_sql"@) || is_method(c, "saveAsTable"@) || is_method(c, "insertInto"@),
        c.args.len() > 0,
        c.args[0] is Str,
        innermost(chain_base(PyExprTree::Call(c))) == Some(var),
    ensures
        ({
            let g = stated(f, PyExprTree::Call(c));
            &&& g.writes.contains_key(var)
            &&& g.writes[var] == Some(c.args[0]->Str_1)
            &&& g.outputs.contains(c.args[0]->Str_1)
            &&& g.columns == f.columns
        }),
{
    let e = PyExprTree::Call(c);
    let ops = chain_calls(e);
    assert(ops.len() > 0 && ops.last() == c);
    crate::collections::push_new_holds(f.outputs, c.args[0]->Str_1);
}


// ──────────────────────────── subsets and loops ───────────────────────

proof fn subset_column_is_made(
    f: Flow,
    var: Seq<char>,
    table: Option<Seq<char>>,
    cols: Seq<Seq<char>>,
    n: int,
    i: int,
)
    requires
        0 <= i < n <= cols.len(),
    ensures
        has_column(
            subset(f, var, table, cols, n),
            f.columns.len() as int,
            var,
            made_from_column(cols[i], cols[i], table, TransformType::Identity),
        ),
    decreases n,
{
    let prev = subset(f, var, table, cols, n - 1);
    let g = subset(f, var, table, cols, n);
    let wanted = made_from_column(cols[i], cols[i], table, TransformType::Identity);
    subset_advances(f, var, table, cols, n - 1);
    if i == n - 1 {
        dot_is_a_character();
        let c = g.columns.last().1;
        assert(g.columns == prev.columns.push((var, c)));
        assert(c.sources =~= seq![shown(SqlColRefView { table: None, column: cols[i] }, table)]);
        column_comes(prev, g, f.columns.len() as int, var, c, wanted);
    } else {
        subset_column_is_made(f, var, table, cols, n - 1, i);
        assert(begins(prev.columns, g.columns)) by {
            assert(g.columns.subrange(0, prev.columns.len() as int) =~= prev.columns);
        }
        column_stays(prev, g, f.columns.len() as int, var, wanted);
    }
}

/// `var = frame[["a", "b", …]]` passes each column that is listed through.
#[verifier::rlimit(40)]
pub proof fn each_listed_column_passes(
    f: Flow,
    var: Seq<char>,
    span: Span,
    frame_span: Span,
    frame: Seq<char>,
    list: PyExprTree,
    v: Seq<PyExprTree>,
    i: int,
)
    requires
        (list is List && list->List_1 == v) || (list is Tuple && list->Tuple_1 == v),
        0 <= i < v.len(),
        forall|k: int| 0 <= k < v.len() ==> #[trigger] v[k] is Str,
    ensures
        has_column(
            bound_to(
                f,
                var,
                PyExprTree::Subscript(
                    span,
                    Box::new(PyExprTree::Name(frame_span, frame)),
                    Box::new(list),
                ),
            ),
            f.columns.len() as int,
            var,
            made_from_column(
                v[i]->Str_1,
                v[i]->Str_1,
                known_table(f.scope, frame),
                TransformType::Identity,
            ),
        ),
{
    let rhs = PyExprTree::Subscript(
        span,
        Box::new(PyExprTree::Name(frame_span, frame)),
        Box::new(list),
    );
    let cols = Seq::new(v.len(), |k: int| v[k]->Str_1);
    let table = known_table(f.scope, frame);
    assert(string_list(list) == Some(cols));
    let a = subset(f, var, table, cols, cols.len() as int);
    subset_column_is_made(f, var, table, cols, cols.len() as int, i);
    begins_self(a.columns);
    let g = bound_to(f, var, rhs);
    assert(g.columns == a.columns);
    column_stays(
        a,
        g,
        f.columns.len() as int,
        var,
        made_from_column(cols[i], cols[i], table, TransformType::Identity),
    );
}

/// The table that a variable holds, where it is known.
pub open spec fn known_table(sc: Scope, id: Seq<char>) -> Option<Seq<char>> {
    if sc.frames.contains_key(id) {
        sc.frames[id]
    } else {
        None
    }
}

/// `select(expr, …)` passes an argument through that reads one column, under
/// the name of the column.
pub proof fn selected_column_passes(
    f: Flow,
    owner: Seq<char>,
    c: PyCallTree,
    table: Option<Seq<char>>,
    i: int,
)
    requires
        is_method(c, "select"@),
        0 <= i < c.args.len(),
        !(c.args[i] is Str),
        c.args[i] is Call ==> !is_method(c.args[i]->Call_0, "alias"@),
        cols_of(f.scope, c.args[i], Seq::empty()).len() == 1,
    ensures
        has_column(
            operated(f, owner, c, table),
            f.columns.len() as int,
            owner,
            made_from(
                cols_of(f.scope, c.args[i], Seq::empty())[0].column,
                f.scope,
                c.args[i],
                table,
            ),
        ),
{
    select_selects(f, owner, c, table);
    let e = c.args[i];
    let name = cols_of(f.scope, e, Seq::empty())[0].column;
    let prev = selected(f, owner, c.args, table, i);
    selecting_keeps_scope(f, owner, c.args, table, i);
    selected_advances(f, owner, c.args, table, i);
    op_column_is_made(
        prev,
        owner,
        name,
        f.scope,
        e,
        table,
        TransformType::Identity,
        None,
        f.columns.len() as int,
    );
    one_column_passes(prev, owner, e, table);
    selected_argument_stays(
        f,
        owner,
        c.args,
        table,
        c.args.len() as int,
        i,
        made_from(name, f.scope, e, table),
    );
}

proof fn select_selects(f: Flow, owner: Seq<char>, c: PyCallTree, table: Option<Seq<char>>)
    requires
        is_method(c, "select"@),
    ensures
        operated(f, owner, c, table) == selected(f, owner, c.args, table, c.args.len() as int),
{
    crate::flow::column_op_heads();
}

proof fn one_column_passes(f: Flow, owner: Seq<char>, e: PyExprTree, table: Option<Seq<char>>)
    requires
        !(e is Str),
        e is Call ==> !is_method(e->Call_0, "alias"@),
        cols_of(f.scope, e, Seq::empty()).len() == 1,
    ensures
        selected_one(f, owner, e, table) == op_column(
            f,
            owner,
            cols_of(f.scope, e, Seq::empty())[0].column,
            cols_of(f.scope, e, Seq::empty()),
            table,
            TransformType::Identity,
            None,
        ),
{
    if let PyExprTree::Call(c) = e {
        reveal_strlit("alias");
        assert("alias"@.len() == 5);
        assert(!is_alias(c));
        assert(aliased(c) is None);
    }
}

/// What the body of a loop over literals adds for one of the values is still
/// there after the others.
pub proof fn loop_runs_for_each_value(
    f: Flow,
    var: Seq<char>,
    values: Seq<Seq<char>>,
    body: Seq<PyStmtTree>,
    i: int,
    n: int,
    from: int,
    owner: Seq<char>,
    wanted: spec_fn(InferredColumnView) -> bool,
)
    requires
        0 <= i < n <= values.len(),
        0 <= from,
        ({
            let before = unrolled(f, var, values, i, body);
            has_column(
                walked(
                    Flow {
                        scope: Scope { loop_var: Some((var, values[i])), ..before.scope },
                        ..before
                    },
                    body,
                    body.len() as int,
                ),
                from,
                owner,
                wanted,
            )
        }),
    ensures
        has_column(unrolled(f, var, values, n, body), from, owner, wanted),
    decreases n,
{
    if i < n - 1 {
        loop_runs_for_each_value(f, var, values, body, i, n - 1, from, owner, wanted);
        let prev = unrolled(f, var, values, n - 1, body);
        let g = Flow {
            scope: Scope { loop_var: Some((var, values[n - 1])), ..prev.scope },
            ..prev
        };
        crate::flow::walked_advances(g, body, body.len() as int);
        column_stays(prev, unrolled(f, var, values, n, body), from, owner, wanted);
    }
}

// ───────────────────────────────── kinds ──────────────────────────────

/// The words by which the text of an aggregation is known.
pub open spec fn aggregate_words() -> Seq<Seq<char>> {
    seq![
        "sum("@,
        "mean("@,
        "avg("@,
        "count("@,
        "min("@,
        "max("@,
        ".agg("@,
        "groupby"@,
    ]
}

/// True when the text has one of the words, whatever its case.
pub open spec fn has_aggregate_word(text: Seq<char>) -> bool {
    exists|i: int|
        0 <= i < aggregate_words().len() && contains_text(
            ascii_lower(text),
            #[trigger] aggregate_words()[i],
        )
}

/// A traced column is a copy where the value is one column and nothing else, an
/// aggregation where its text has a word for one, and otherwise a
/// transformation.
pub proof fn kind_is_told_by_the_value(
    source: Seq<char>,
    e: PyExprTree,
    srcs: Seq<SqlColRefView>,
)
    ensures
        ({
            let kind = flow_kind(source, e, srcs);
            let copied = is_one_column(e) && srcs.len() == 1;
            &&& kind == TransformType::Identity <==> copied
            &&& kind == TransformType::Aggregation <==> !copied && has_aggregate_word(
                label_of(source, span_of(e)),
            )
            &&& kind != TransformType::Indirect
        }),
{
    let label = label_of(source, span_of(e));
    let w = aggregate_words();
    let l = ascii_lower(label);
    assert(is_pure_ref(e) == is_one_column(e));
    assert(looks_aggregate(label) <==> has_aggregate_word(label)) by {
        assert(w[0] == "sum("@ && w[1] == "mean("@ && w[2] == "avg("@ && w[3] == "count("@);
        assert(w[4] == "min("@ && w[5] == "max("@ && w[6] == ".agg("@ && w[7] == "groupby"@);
        if has_aggregate_word(label) {
            let i = choose|i: int| 0 <= i < w.len() && contains_text(l, #[trigger] w[i]);
            assert(i == 0 || i == 1 || i == 2 || i == 3 || i == 4 || i == 5 || i == 6 || i == 7);
        }
        if looks_aggregate(label) {
            assert(contains_text(l, w[0]) || contains_text(l, w[1]) || contains_text(l, w[2])
                || contains_text(l, w[3]) || contains_text(l, w[4]) || contains_text(l, w[5])
                || contains_text(l, w[6]) || contains_text(l, w[7]));
        }
    }
}

} // verus!

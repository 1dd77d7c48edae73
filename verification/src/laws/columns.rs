//! The mappings of a task and what they come from: which input a reference
//! stands for, which tier a column is mapped by, and which edge carries a
//! mapping.

use vstd::prelude::*;

use crate::columns::{
    code_filled, code_mapping, column_applies, declared_mapping, declared_mappings, gap_filled,
    has_target, input_of_table, names_table, output_mappings, source_ref, sql_filled, sql_mapping,
    sql_source_ref,
};
use crate::decls::{ColumnMapEntryView, TaskDeclView};
use crate::flow::InferredColumnView;
use crate::laws::reading::{lists_those, one_more};
use crate::model::{ColumnEdgeView, ColumnRefView, EdgeView};
use crate::origin::OriginSource;
use crate::sql::{SqlColRefView, SqlColumnLineageView, SqlMappingView};
use crate::tasks::{
    attached, edges_into, loop_left_out, reads_from, task_edge, task_edges, WiringView,
};
use crate::text::{first_pieces, last_piece, tail_is_suffix};

verus! {

// ─────────────────────────── names of datasets ────────────────────────

/// True when the name is a front, a dot, and a last part without dots.
pub open spec fn dotted(name: Seq<char>, front: Seq<char>, last: Seq<char>) -> bool {
    name == front + seq!['.'] + last && !last.contains('.')
}

/// True when a table name stands for a dataset: it is the whole name, or what
/// follows its last dot.
pub open spec fn stands_for(table: Seq<char>, dataset: Seq<char>) -> bool {
    dataset == table || exists|front: Seq<char>| #[trigger] dotted(dataset, front, table)
}

/// A name with a dot falls into a front and a last part in one way.
pub proof fn last_part_is_unique(
    name: Seq<char>,
    a: Seq<char>,
    b: Seq<char>,
    x: Seq<char>,
    y: Seq<char>,
)
    requires
        dotted(name, a, x),
        dotted(name, b, y),
    ensures
        a == b,
        x == y,
{
    if a.len() < b.len() {
        let k = b.len() - a.len() - 1;
        assert(name.len() == a.len() + 1 + x.len() && name.len() == b.len() + 1 + y.len());
        assert((b + seq!['.'] + y)[b.len() as int] == '.');
        assert((a + seq!['.'] + x)[a.len() + 1 + k] == x[k]);
        assert(x[k] == '.');
    }
    if b.len() < a.len() {
        let k = a.len() - b.len() - 1;
        assert(name.len() == a.len() + 1 + x.len() && name.len() == b.len() + 1 + y.len());
        assert((a + seq!['.'] + x)[a.len() as int] == '.');
        assert((b + seq!['.'] + y)[b.len() + 1 + k] == y[k]);
        assert(y[k] == '.');
    }
    assert(a =~= name.subrange(0, a.len() as int));
    assert(b =~= name.subrange(0, b.len() as int));
    assert(x =~= name.subrange(a.len() as int + 1, name.len() as int));
    assert(y =~= name.subrange(b.len() as int + 1, name.len() as int));
}

pub(crate) proof fn last_piece_is_last_part(name: Seq<char>)
    ensures
        name.contains('.') ==> dotted(name, first_pieces(name, '.'), last_piece(name, '.')),
        !name.contains('.') ==> last_piece(name, '.') == name,
{
    let n = name.len() as int;
    tail_is_suffix(name, '.', n);
    let t = last_piece(name, '.');
    if name.contains('.') {
        let k = choose|k: int| 0 <= k < n && name[k] == '.';
        if t.len() == n {
            assert(t =~= name);
            assert(t[k] == '.');
        }
        assert(name =~= first_pieces(name, '.') + seq!['.'] + t);
    } else {
        if t.len() < n {
            assert(name.contains(name[n - t.len() - 1]));
        }
        assert(t =~= name);
    }
}

pub(crate) proof fn names_table_is_stands_for(dataset: Seq<char>, table: Seq<char>)
    ensures
        names_table(dataset, table) <==> stands_for(table, dataset),
{
    last_piece_is_last_part(dataset);
    if names_table(dataset, table) && dataset != table {
        assert(dotted(dataset, first_pieces(dataset, '.'), table));
    }
    if stands_for(table, dataset) && dataset != table {
        let front = choose|front: Seq<char>| #[trigger] dotted(dataset, front, table);
        assert(dataset[front.len() as int] == '.');
        assert(dataset.contains('.'));
        last_part_is_unique(
            dataset,
            front,
            first_pieces(dataset, '.'),
            table,
            last_piece(dataset, '.'),
        );
    }
}

/// True when input `i` is the first that the table name stands for.
pub open spec fn is_input(inputs: Seq<Seq<char>>, table: Seq<char>, i: int) -> bool {
    &&& 0 <= i < inputs.len()
    &&& stands_for(table, inputs[i])
    &&& forall|j: int| 0 <= j < i ==> !stands_for(table, #[trigger] inputs[j])
}

/// True when the table name stands for none of the inputs.
pub open spec fn is_no_input(inputs: Seq<Seq<char>>, table: Seq<char>) -> bool {
    forall|j: int| 0 <= j < inputs.len() ==> !stands_for(table, #[trigger] inputs[j])
}

pub(crate) proof fn input_is_first(table: Seq<char>, inputs: Seq<Seq<char>>, k: int)
    requires
        0 <= k <= inputs.len(),
        forall|j: int| 0 <= j < k ==> !stands_for(table, #[trigger] inputs[j]),
    ensures
        match input_of_table(table, inputs, k) {
            Some(d) => exists|i: int| #[trigger] is_input(inputs, table, i) && inputs[i] == d,
            None => is_no_input(inputs, table),
        },
    decreases inputs.len() - k,
{
    if k < inputs.len() {
        names_table_is_stands_for(inputs[k], table);
        if names_table(inputs[k], table) {
            assert(is_input(inputs, table, k));
        } else {
            input_is_first(table, inputs, k + 1);
        }
    }
}

// ───────────────────────────── references ─────────────────────────────

/// True when a column is what a reference with that qualifier refers to: on
/// the first input that the qualifier stands for, and on the default where it
/// stands for none or there is none.
pub open spec fn resolves(
    r: ColumnRefView,
    qualifier: Option<Seq<char>>,
    column: Seq<char>,
    input: Seq<char>,
    inputs: Seq<Seq<char>>,
) -> bool {
    &&& r.column == column
    &&& match qualifier {
        None => r.dataset == input,
        Some(t) => {
            &&& is_no_input(inputs, t) ==> r.dataset == input
            &&& forall|i: int| #[trigger] is_input(inputs, t, i) ==> r.dataset == inputs[i]
        },
    }
}

proof fn found_input_resolves(
    t: Seq<char>,
    column: Seq<char>,
    input: Seq<char>,
    inputs: Seq<Seq<char>>,
)
    ensures
        resolves(
            ColumnRefView {
                dataset: match input_of_table(t, inputs, 0) {
                    Some(d) => d,
                    None => input,
                },
                column,
            },
            Some(t),
            column,
            input,
            inputs,
        ),
{
    input_is_first(t, inputs, 0);
    if let Some(d) = input_of_table(t, inputs, 0) {
        let k = choose|k: int| #[trigger] is_input(inputs, t, k) && inputs[k] == d;
        assert(!is_no_input(inputs, t)) by {
            assert(stands_for(t, inputs[k]));
        }
        assert forall|i: int| #[trigger] is_input(inputs, t, i) implies d == inputs[i] by {
            if i < k {
                assert(!stands_for(t, inputs[i]));
            }
            if k < i {
                assert(!stands_for(t, inputs[k]));
            }
        }
    }
}

/// A reference of a SQL text is on the first input that its qualifier stands
/// for, whichever input that is.
pub proof fn sql_reference_is_on_its_table(
    src: SqlColRefView,
    input: Seq<char>,
    inputs: Seq<Seq<char>>,
)
    ensures
        resolves(sql_source_ref(src, input, inputs), src.table, src.column, input, inputs),
{
    if let Some(t) = src.table {
        found_input_resolves(t, src.column, input, inputs);
    }
}

/// References that differ only in their qualifiers, where those stand for
/// different inputs, are on different datasets.
pub proof fn different_tables_are_told_apart(
    a: Seq<char>,
    b: Seq<char>,
    column: Seq<char>,
    input: Seq<char>,
    inputs: Seq<Seq<char>>,
    i: int,
    j: int,
)
    requires
        is_input(inputs, a, i),
        is_input(inputs, b, j),
        inputs[i] != inputs[j],
    ensures
        sql_source_ref(SqlColRefView { table: Some(a), column }, input, inputs).dataset
            == inputs[i],
        sql_source_ref(SqlColRefView { table: Some(b), column }, input, inputs).dataset
            == inputs[j],
        sql_source_ref(SqlColRefView { table: Some(a), column }, input, inputs)
            != sql_source_ref(SqlColRefView { table: Some(b), column }, input, inputs),
{
    sql_reference_is_on_its_table(SqlColRefView { table: Some(a), column }, input, inputs);
    sql_reference_is_on_its_table(SqlColRefView { table: Some(b), column }, input, inputs);
}

/// True when a column is what a source text refers to: `table.column`, or a
/// column without a table.
pub open spec fn resolves_text(
    r: ColumnRefView,
    src: Seq<char>,
    input: Seq<char>,
    inputs: Seq<Seq<char>>,
) -> bool {
    &&& !src.contains('.') ==> resolves(r, None, src, input, inputs)
    &&& forall|front: Seq<char>, last: Seq<char>| #[trigger]
        dotted(src, front, last) ==> resolves(r, Some(front), last, input, inputs)
}

/// A source text is on the first input that what stands before its last dot
/// stands for.
pub proof fn source_text_is_on_its_table(
    src: Seq<char>,
    input: Seq<char>,
    inputs: Seq<Seq<char>>,
)
    ensures
        resolves_text(source_ref(src, input, inputs), src, input, inputs),
{
    last_piece_is_last_part(src);
    if src.contains('.') {
        found_input_resolves(first_pieces(src, '.'), last_piece(src, '.'), input, inputs);
    }
    assert forall|front: Seq<char>, last: Seq<char>| #[trigger]
        dotted(src, front, last) implies resolves(
        source_ref(src, input, inputs),
        Some(front),
        last,
        input,
        inputs,
    ) by {
        assert(src[front.len() as int] == '.');
        assert(src.contains('.'));
        last_part_is_unique(src, front, first_pieces(src, '.'), last, last_piece(src, '.'));
    }
}

// ────────────────────────────── mappings ──────────────────────────────

/// True when a mapping of the output carries what a SQL text says of a column.
pub open spec fn follows_sql(
    c: ColumnEdgeView,
    m: SqlMappingView,
    output: Seq<char>,
    inputs: Seq<Seq<char>>,
) -> bool {
    &&& c.to_column.dataset == output
    &&& c.to_column.column == m.target
    &&& c.from_columns.len() == m.sources.len()
    &&& forall|i: int|
        0 <= i < m.sources.len() ==> resolves(
            #[trigger] c.from_columns[i],
            m.sources[i].table,
            m.sources[i].column,
            inputs[0],
            inputs,
        )
    &&& c.function == Some(m.function)
    &&& c.transform_type == m.transform_type
    &&& c.origin.source == OriginSource::InferredSql
    &&& c.origin.confidence is Some
}

/// True when a mapping of the output carries what a function body says of a
/// column.
pub open spec fn follows_code(
    c: ColumnEdgeView,
    m: InferredColumnView,
    output: Seq<char>,
    inputs: Seq<Seq<char>>,
) -> bool {
    &&& c.to_column.dataset == output
    &&& c.to_column.column == m.target
    &&& c.from_columns.len() == m.sources.len()
    &&& forall|i: int|
        0 <= i < m.sources.len() ==> resolves_text(
            #[trigger] c.from_columns[i],
            m.sources[i],
            inputs[0],
            inputs,
        )
    &&& c.function == m.function
    &&& c.transform_type == m.transform_type
    &&& c.origin.source == OriginSource::InferredCode
    &&& c.origin.confidence is Some
}

/// True when a mapping of the output carries a declared entry.
pub open spec fn follows_entry(
    c: ColumnEdgeView,
    m: ColumnMapEntryView,
    output: Seq<char>,
    inputs: Seq<Seq<char>>,
) -> bool {
    &&& c.to_column.dataset == output
    &&& c.to_column.column == m.target
    &&& c.from_columns.len() == m.sources.len()
    &&& forall|i: int|
        0 <= i < m.sources.len() ==> resolves_text(
            #[trigger] c.from_columns[i],
            m.sources[i],
            inputs[0],
            inputs,
        )
    &&& c.function == m.function
    &&& m.function is None ==> (c.transform_type is Identity <==> m.sources.len() <= 1)
    &&& m.function is None ==> c.transform_type is Identity || c.transform_type is Transformation
    &&& c.origin.source == OriginSource::Declared
    &&& c.origin.confidence is None
}

proof fn sql_is_followed(
    m: SqlMappingView,
    output: Seq<char>,
    inputs: Seq<Seq<char>>,
)
    ensures
        follows_sql(sql_mapping(m, inputs[0], output, inputs), m, output, inputs),
{
    let c = sql_mapping(m, inputs[0], output, inputs);
    assert forall|i: int| 0 <= i < m.sources.len() implies resolves(
        #[trigger] c.from_columns[i],
        m.sources[i].table,
        m.sources[i].column,
        inputs[0],
        inputs,
    ) by {
        sql_reference_is_on_its_table(m.sources[i], inputs[0], inputs);
    }
}

proof fn code_is_followed(
    m: InferredColumnView,
    output: Seq<char>,
    inputs: Seq<Seq<char>>,
)
    ensures
        follows_code(code_mapping(m, inputs[0], output, inputs), m, output, inputs),
{
    let c = code_mapping(m, inputs[0], output, inputs);
    assert forall|i: int| 0 <= i < m.sources.len() implies resolves_text(
        #[trigger] c.from_columns[i],
        m.sources[i],
        inputs[0],
        inputs,
    ) by {
        source_text_is_on_its_table(m.sources[i], inputs[0], inputs);
    }
}

proof fn entry_is_followed(
    m: ColumnMapEntryView,
    output: Seq<char>,
    inputs: Seq<Seq<char>>,
)
    ensures
        follows_entry(declared_mapping(m, inputs[0], output, inputs), m, output, inputs),
{
    let c = declared_mapping(m, inputs[0], output, inputs);
    assert forall|i: int| 0 <= i < m.sources.len() implies resolves_text(
        #[trigger] c.from_columns[i],
        m.sources[i],
        inputs[0],
        inputs,
    ) by {
        source_text_is_on_its_table(m.sources[i], inputs[0], inputs);
    }
}

proof fn entries_in_order(
    d: TaskDeclView,
    output: Seq<char>,
    inputs: Seq<Seq<char>>,
    n: int,
)
    requires
        0 <= n <= d.column_map.len(),
    ensures
        declared_mappings(d, inputs[0], output, inputs, n).len() == n,
        forall|i: int|
            0 <= i < n ==> #[trigger] declared_mappings(d, inputs[0], output, inputs, n)[i]
                == declared_mapping(d.column_map[i], inputs[0], output, inputs),
    decreases n,
{
    if n > 0 {
        entries_in_order(d, output, inputs, n - 1);
    }
}

/// True when the SQL text is about the output, or does not say what it writes.
pub open spec fn sql_is_about(sql: Option<SqlColumnLineageView>, output: Seq<char>) -> bool {
    sql matches Some(l) && (l.target_table matches Some(t) ==> stands_for(t, output))
}

/// True when the column is about the output: its table stands for it, or it
/// has no table and there is no other output.
pub open spec fn code_is_about(c: InferredColumnView, output: Seq<char>, single: bool) -> bool {
    match c.output_table {
        Some(t) => stands_for(t, output),
        None => single,
    }
}

/// True when an entry is declared for the column.
pub open spec fn is_declared(d: TaskDeclView, column: Seq<char>) -> bool {
    exists|i: int| 0 <= i < d.column_map.len() && (#[trigger] d.column_map[i]).target == column
}

/// True when mapping `k` of the SQL text is what its column is mapped by: no
/// entry is declared for it, and no mapping before has the same target.
pub open spec fn sql_decides(
    d: TaskDeclView,
    sql: Option<SqlColumnLineageView>,
    output: Seq<char>,
    k: int,
) -> bool {
    &&& sql_is_about(sql, output)
    &&& 0 <= k < sql->0.mappings.len()
    &&& !is_declared(d, sql->0.mappings[k].target)
    &&& forall|j: int|
        0 <= j < k ==> (#[trigger] sql->0.mappings[j]).target != sql->0.mappings[k].target
}

/// True when column `k` of the function body is what its target is mapped by:
/// no entry is declared for it, the SQL text does not map it, and no column
/// before has the same target.
pub open spec fn code_decides(
    d: TaskDeclView,
    sql: Option<SqlColumnLineageView>,
    code: bool,
    single: bool,
    output: Seq<char>,
    k: int,
) -> bool {
    &&& code
    &&& 0 <= k < d.inferred_columns.len()
    &&& code_is_about(d.inferred_columns[k], output, single)
    &&& !is_declared(d, d.inferred_columns[k].target)
    &&& sql_is_about(sql, output) ==> forall|j: int|
        0 <= j < sql->0.mappings.len() ==> (#[trigger] sql->0.mappings[j]).target
            != d.inferred_columns[k].target
    &&& forall|j: int|
        0 <= j < k && code_is_about(#[trigger] d.inferred_columns[j], output, single)
            ==> d.inferred_columns[j].target != d.inferred_columns[k].target
}

proof fn gap_fill_adds(ces: Seq<ColumnEdgeView>, c: ColumnEdgeView, x: ColumnEdgeView)
    ensures
        ces.contains(x) ==> gap_filled(ces, c).contains(x),
        gap_filled(ces, c).contains(x) ==> ces.contains(x) || (x == c && !has_target(
            ces,
            c.to_column.column,
        )),
        !has_target(ces, c.to_column.column) ==> gap_filled(ces, c).contains(c),
{
    let r = gap_filled(ces, c);
    if ces.contains(x) {
        let k = choose|k: int| 0 <= k < ces.len() && ces[k] == x;
        assert(r[k] == x);
    }
    if !has_target(ces, c.to_column.column) {
        assert(r[ces.len() as int] == c);
    }
}

proof fn gap_fill_maps(ces: Seq<ColumnEdgeView>, c: ColumnEdgeView, t: Seq<char>)
    ensures
        has_target(gap_filled(ces, c), t) <==> has_target(ces, t) || t == c.to_column.column,
{
    let r = gap_filled(ces, c);
    if has_target(ces, t) {
        let k = choose|k: int| 0 <= k < ces.len() && (#[trigger] ces[k]).to_column.column == t;
        assert(r[k].to_column.column == t);
    }
    if t == c.to_column.column && !has_target(ces, t) {
        assert(r[ces.len() as int].to_column.column == t);
    }
    if has_target(r, t) && t != c.to_column.column {
        let k = choose|k: int| 0 <= k < r.len() && (#[trigger] r[k]).to_column.column == t;
        assert(ces[k].to_column.column == t);
    }
}

/// True when one of the first `n` mappings of the SQL text has the target.
spec fn sql_maps(l: SqlColumnLineageView, n: int, t: Seq<char>) -> bool {
    exists|k: int| 0 <= k < n && (#[trigger] l.mappings[k]).target == t
}

/// True when mapping `k` is the first for its target and nothing in front maps
/// it.
spec fn sql_is_new(ces: Seq<ColumnEdgeView>, l: SqlColumnLineageView, k: int) -> bool {
    !has_target(ces, l.mappings[k].target) && !sql_maps(l, k, l.mappings[k].target)
}

proof fn sql_fill_maps(
    ces: Seq<ColumnEdgeView>,
    l: SqlColumnLineageView,
    output: Seq<char>,
    inputs: Seq<Seq<char>>,
    n: int,
    t: Seq<char>,
)
    requires
        0 <= n <= l.mappings.len(),
    ensures
        has_target(sql_filled(ces, l, inputs[0], output, inputs, n), t) <==> has_target(ces, t)
            || sql_maps(l, n, t),
    decreases n,
{
    if n > 0 {
        sql_fill_maps(ces, l, output, inputs, n - 1, t);
        let prev = sql_filled(ces, l, inputs[0], output, inputs, n - 1);
        gap_fill_maps(prev, sql_mapping(l.mappings[n - 1], inputs[0], output, inputs), t);
        assert(sql_maps(l, n, t) <==> sql_maps(l, n - 1, t) || l.mappings[n - 1].target == t);
    }
}

proof fn sql_fill_has(
    ces: Seq<ColumnEdgeView>,
    l: SqlColumnLineageView,
    output: Seq<char>,
    inputs: Seq<Seq<char>>,
    n: int,
    x: ColumnEdgeView,
)
    requires
        0 <= n <= l.mappings.len(),
    ensures
        ces.contains(x) ==> sql_filled(ces, l, inputs[0], output, inputs, n).contains(x),
        sql_filled(ces, l, inputs[0], output, inputs, n).contains(x) ==> ces.contains(x)
            || exists|k: int|
            0 <= k < n && #[trigger] sql_is_new(ces, l, k) && x == sql_mapping(
                l.mappings[k],
                inputs[0],
                output,
                inputs,
            ),
        forall|k: int|
            0 <= k < n && #[trigger] sql_is_new(ces, l, k) && x == sql_mapping(
                l.mappings[k],
                inputs[0],
                output,
                inputs,
            ) ==> sql_filled(ces, l, inputs[0], output, inputs, n).contains(x),
    decreases n,
{
    if n > 0 {
        sql_fill_has(ces, l, output, inputs, n - 1, x);
        let m = l.mappings[n - 1];
        let prev = sql_filled(ces, l, inputs[0], output, inputs, n - 1);
        gap_fill_adds(prev, sql_mapping(m, inputs[0], output, inputs), x);
        sql_fill_maps(ces, l, output, inputs, n - 1, m.target);
        assert(sql_is_new(ces, l, n - 1) <==> !has_target(prev, m.target));
    }
}

/// True when one of the first `n` columns of the body that are about the output
/// has the target.
spec fn code_maps(
    d: TaskDeclView,
    output: Seq<char>,
    single: bool,
    n: int,
    t: Seq<char>,
) -> bool {
    exists|k: int|
        0 <= k < n && column_applies(#[trigger] d.inferred_columns[k], output, single)
            && d.inferred_columns[k].target == t
}

spec fn code_is_new(
    ces: Seq<ColumnEdgeView>,
    d: TaskDeclView,
    output: Seq<char>,
    single: bool,
    k: int,
) -> bool {
    &&& column_applies(d.inferred_columns[k], output, single)
    &&& !has_target(ces, d.inferred_columns[k].target)
    &&& !code_maps(d, output, single, k, d.inferred_columns[k].target)
}

proof fn code_fill_maps(
    ces: Seq<ColumnEdgeView>,
    d: TaskDeclView,
    output: Seq<char>,
    inputs: Seq<Seq<char>>,
    single: bool,
    n: int,
    t: Seq<char>,
)
    requires
        0 <= n <= d.inferred_columns.len(),
    ensures
        has_target(code_filled(ces, d, inputs[0], output, inputs, single, n), t) <==> has_target(
            ces,
            t,
        ) || code_maps(d, output, single, n, t),
    decreases n,
{
    if n > 0 {
        code_fill_maps(ces, d, output, inputs, single, n - 1, t);
        let prev = code_filled(ces, d, inputs[0], output, inputs, single, n - 1);
        let m = d.inferred_columns[n - 1];
        gap_fill_maps(prev, code_mapping(m, inputs[0], output, inputs), t);
        assert(code_maps(d, output, single, n, t) <==> code_maps(d, output, single, n - 1, t) || (
        column_applies(m, output, single) && m.target == t));
    }
}

proof fn code_fill_has(
    ces: Seq<ColumnEdgeView>,
    d: TaskDeclView,
    output: Seq<char>,
    inputs: Seq<Seq<char>>,
    single: bool,
    n: int,
    x: ColumnEdgeView,
)
    requires
        0 <= n <= d.inferred_columns.len(),
    ensures
        ces.contains(x) ==> code_filled(
            ces,
            d,
            inputs[0],
            output,
            inputs,
            single,
            n,
        ).contains(x),
        code_filled(ces, d, inputs[0], output, inputs, single, n).contains(x) ==> ces.contains(x)
            || exists|k: int|
            0 <= k < n && #[trigger] code_is_new(ces, d, output, single, k) && x == code_mapping(
                d.inferred_columns[k],
                inputs[0],
                output,
                inputs,
            ),
        forall|k: int|
            0 <= k < n && #[trigger] code_is_new(ces, d, output, single, k) && x == code_mapping(
                d.inferred_columns[k],
                inputs[0],
                output,
                inputs,
            ) ==> code_filled(ces, d, inputs[0], output, inputs, single, n).contains(x),
    decreases n,
{
    if n > 0 {
        code_fill_has(ces, d, output, inputs, single, n - 1, x);
        let m = d.inferred_columns[n - 1];
        let prev = code_filled(ces, d, inputs[0], output, inputs, single, n - 1);
        gap_fill_adds(prev, code_mapping(m, inputs[0], output, inputs), x);
        code_fill_maps(ces, d, output, inputs, single, n - 1, m.target);
        assert(code_is_new(ces, d, output, single, n - 1) <==> column_applies(m, output, single)
            && !has_target(prev, m.target));
    }
}

/// The mappings behind the SQL tier.
spec fn with_sql(
    d: TaskDeclView,
    output: Seq<char>,
    inputs: Seq<Seq<char>>,
    sql: Option<SqlColumnLineageView>,
) -> Seq<ColumnEdgeView> {
    let a = declared_mappings(d, inputs[0], output, inputs, d.column_map.len() as int);
    if sql_is_about(sql, output) {
        sql_filled(a, sql->0, inputs[0], output, inputs, sql->0.mappings.len() as int)
    } else {
        a
    }
}

proof fn tiers_in_turn(
    d: TaskDeclView,
    output: Seq<char>,
    inputs: Seq<Seq<char>>,
    sql: Option<SqlColumnLineageView>,
    code: bool,
    single: bool,
)
    requires
        inputs.len() > 0,
    ensures
        output_mappings(d, output, inputs, sql, code, single) == if code {
            code_filled(
                with_sql(d, output, inputs, sql),
                d,
                inputs[0],
                output,
                inputs,
                single,
                d.inferred_columns.len() as int,
            )
        } else {
            with_sql(d, output, inputs, sql)
        },
{
    if let Some(l) = sql {
        if let Some(t) = l.target_table {
            names_table_is_stands_for(output, t);
        }
    }
}

proof fn declared_targets(d: TaskDeclView, output: Seq<char>, inputs: Seq<Seq<char>>, t: Seq<char>)
    ensures
        has_target(
            declared_mappings(d, inputs[0], output, inputs, d.column_map.len() as int),
            t,
        ) <==> is_declared(d, t),
{
    let a = declared_mappings(d, inputs[0], output, inputs, d.column_map.len() as int);
    entries_in_order(d, output, inputs, d.column_map.len() as int);
    if is_declared(d, t) {
        let i = choose|i: int|
            0 <= i < d.column_map.len() && (#[trigger] d.column_map[i]).target == t;
        assert(a[i].to_column.column == t);
    }
    if has_target(a, t) {
        let i = choose|i: int| 0 <= i < a.len() && (#[trigger] a[i]).to_column.column == t;
        assert(d.column_map[i].target == t);
    }
}

proof fn sql_new_is_decided(
    d: TaskDeclView,
    output: Seq<char>,
    inputs: Seq<Seq<char>>,
    sql: Option<SqlColumnLineageView>,
    k: int,
)
    requires
        sql_is_about(sql, output),
        0 <= k < sql->0.mappings.len(),
    ensures
        sql_decides(d, sql, output, k) <==> sql_is_new(
            declared_mappings(d, inputs[0], output, inputs, d.column_map.len() as int),
            sql->0,
            k,
        ),
{
    declared_targets(d, output, inputs, sql->0.mappings[k].target);
}

proof fn code_new_is_decided(
    d: TaskDeclView,
    output: Seq<char>,
    inputs: Seq<Seq<char>>,
    sql: Option<SqlColumnLineageView>,
    single: bool,
    k: int,
)
    requires
        0 <= k < d.inferred_columns.len(),
    ensures
        code_decides(d, sql, true, single, output, k) <==> code_is_new(
            with_sql(d, output, inputs, sql),
            d,
            output,
            single,
            k,
        ),
{
    let t = d.inferred_columns[k].target;
    let a = declared_mappings(d, inputs[0], output, inputs, d.column_map.len() as int);
    declared_targets(d, output, inputs, t);
    if sql_is_about(sql, output) {
        sql_fill_maps(a, sql->0, output, inputs, sql->0.mappings.len() as int, t);
    }
    assert forall|j: int| 0 <= j < d.inferred_columns.len() implies column_applies(
        #[trigger] d.inferred_columns[j],
        output,
        single,
    ) == code_is_about(d.inferred_columns[j], output, single) by {
        if let Some(x) = d.inferred_columns[j].output_table {
            names_table_is_stands_for(output, x);
        }
    }
}

/// The mappings of an output, tier by tier: each declared entry in its place;
/// behind them, for each column that none declares, the first mapping of the
/// SQL text for it, or else the first that the function body says; and no
/// other.
pub proof fn each_column_is_mapped_by_its_tier(
    d: TaskDeclView,
    output: Seq<char>,
    inputs: Seq<Seq<char>>,
    sql: Option<SqlColumnLineageView>,
    code: bool,
    single: bool,
)
    requires
        inputs.len() > 0,
    ensures
        ({
            let ms = output_mappings(d, output, inputs, sql, code, single);
            let n = d.column_map.len() as int;
            &&& ms.len() >= n
            &&& forall|i: int|
                0 <= i < n ==> follows_entry(#[trigger] ms[i], d.column_map[i], output, inputs)
            &&& forall|k: int| #[trigger]
                sql_decides(d, sql, output, k) ==> exists|i: int|
                    0 <= i < ms.len() && follows_sql(
                        #[trigger] ms[i],
                        sql->0.mappings[k],
                        output,
                        inputs,
                    )
            &&& forall|k: int| #[trigger]
                code_decides(d, sql, code, single, output, k) ==> exists|i: int|
                    0 <= i < ms.len() && follows_code(
                        #[trigger] ms[i],
                        d.inferred_columns[k],
                        output,
                        inputs,
                    )
            &&& forall|i: int|
                n <= i < ms.len() ==> tier_is_told(#[trigger] ms[i], d, output, inputs, sql, code, single)
        }),
{
    let n = d.column_map.len() as int;
    let ms = output_mappings(d, output, inputs, sql, code, single);
    let a = declared_mappings(d, inputs[0], output, inputs, n);
    let b = with_sql(d, output, inputs, sql);
    let m = d.inferred_columns.len() as int;
    entries_in_order(d, output, inputs, n);
    crate::columns::declared_mappings_win(d, output, inputs, sql, code, single);
    tiers_in_turn(d, output, inputs, sql, code, single);
    assert forall|i: int| 0 <= i < n implies follows_entry(
        #[trigger] ms[i],
        d.column_map[i],
        output,
        inputs,
    ) by {
        assert(ms.subrange(0, a.len() as int)[i] == a[i]);
        entry_is_followed(d.column_map[i], output, inputs);
    }
    assert forall|k: int| #[trigger] sql_decides(d, sql, output, k) implies exists|i: int|
        0 <= i < ms.len() && follows_sql(#[trigger] ms[i], sql->0.mappings[k], output, inputs) by {
        let c = sql_mapping(sql->0.mappings[k], inputs[0], output, inputs);
        sql_new_is_decided(d, output, inputs, sql, k);
        sql_fill_has(a, sql->0, output, inputs, sql->0.mappings.len() as int, c);
        assert(b.contains(c));
        code_fill_has(b, d, output, inputs, single, m, c);
        assert(ms.contains(c));
        let i = choose|i: int| 0 <= i < ms.len() && ms[i] == c;
        sql_is_followed(sql->0.mappings[k], output, inputs);
        assert(follows_sql(ms[i], sql->0.mappings[k], output, inputs));
    }
    assert forall|k: int| #[trigger]
        code_decides(d, sql, code, single, output, k) implies exists|i: int|
        0 <= i < ms.len() && follows_code(
            #[trigger] ms[i],
            d.inferred_columns[k],
            output,
            inputs,
        ) by {
        let c = code_mapping(d.inferred_columns[k], inputs[0], output, inputs);
        code_new_is_decided(d, output, inputs, sql, single, k);
        code_fill_has(b, d, output, inputs, single, m, c);
        assert(ms.contains(c));
        let i = choose|i: int| 0 <= i < ms.len() && ms[i] == c;
        code_is_followed(d.inferred_columns[k], output, inputs);
        assert(follows_code(ms[i], d.inferred_columns[k], output, inputs));
    }
    assert forall|i: int| n <= i < ms.len() implies tier_is_told(
        #[trigger] ms[i],
        d,
        output,
        inputs,
        sql,
        code,
        single,
    ) by {
        let x = ms[i];
        assert(ms.contains(x));
        assert(x.origin.inferred());
        assert(!a.contains(x)) by {
            if a.contains(x) {
                let k = choose|k: int| 0 <= k < a.len() && a[k] == x;
                assert(!a[k].origin.inferred());
            }
        }
        code_fill_has(b, d, output, inputs, single, m, x);
        if b.contains(x) {
            let l = sql->0;
            sql_fill_has(a, l, output, inputs, l.mappings.len() as int, x);
            let k = choose|k: int|
                0 <= k < l.mappings.len() && #[trigger] sql_is_new(a, l, k) && x == sql_mapping(
                    l.mappings[k],
                    inputs[0],
                    output,
                    inputs,
                );
            sql_new_is_decided(d, output, inputs, sql, k);
            sql_is_followed(l.mappings[k], output, inputs);
            assert(sql_decides(d, sql, output, k) && follows_sql(
                x,
                l.mappings[k],
                output,
                inputs,
            ));
        } else {
            let k = choose|k: int|
                0 <= k < m && #[trigger] code_is_new(b, d, output, single, k) && x
                    == code_mapping(d.inferred_columns[k], inputs[0], output, inputs);
            code_new_is_decided(d, output, inputs, sql, single, k);
            code_is_followed(d.inferred_columns[k], output, inputs);
            assert(code_decides(d, sql, code, single, output, k) && follows_code(
                x,
                d.inferred_columns[k],
                output,
                inputs,
            ));
        }
    }
}

/// True when a mapping that no entry declares is what the SQL text or the
/// function body says of its column.
pub open spec fn tier_is_told(
    c: ColumnEdgeView,
    d: TaskDeclView,
    output: Seq<char>,
    inputs: Seq<Seq<char>>,
    sql: Option<SqlColumnLineageView>,
    code: bool,
    single: bool,
) -> bool {
    ||| exists|k: int| #[trigger]
        sql_decides(d, sql, output, k) && follows_sql(c, sql->0.mappings[k], output, inputs)
    ||| exists|k: int| #[trigger]
        code_decides(d, sql, code, single, output, k) && follows_code(
            c,
            d.inferred_columns[k],
            output,
            inputs,
        )
}

// ──────────────────────────────── edges ───────────────────────────────

/// The mappings that belong to the edge from an input: those with a source on
/// it, and on the first edge those without sources.
pub open spec fn belongs(
    ms: Seq<ColumnEdgeView>,
    input: Seq<char>,
    first: bool,
) -> spec_fn(int) -> bool {
    |i: int|
        if ms[i].from_columns.len() == 0 {
            first
        } else {
            exists|k: int|
                0 <= k < ms[i].from_columns.len() && (#[trigger] ms[i].from_columns[k]).dataset
                    == input
        }
}

/// True when the list holds, in order, the mappings that belong to the edge
/// from the input.
pub open spec fn holds_own(
    l: Seq<ColumnEdgeView>,
    ms: Seq<ColumnEdgeView>,
    input: Seq<char>,
    first: bool,
) -> bool {
    exists|chosen: Seq<int>|
        {
            &&& #[trigger] lists_those(chosen, ms.len() as int, belongs(ms, input, first))
            &&& l.len() == chosen.len()
            &&& forall|k: int| 0 <= k < chosen.len() ==> #[trigger] l[k] == ms[chosen[k]]
        }
}

pub(crate) proof fn attached_are_own(
    ms: Seq<ColumnEdgeView>,
    input: Seq<char>,
    first: bool,
    n: int,
) -> (chosen: Seq<int>)
    requires
        0 <= n <= ms.len(),
    ensures
        lists_those(chosen, n, belongs(ms, input, first)),
        attached(ms, input, first, n).len() == chosen.len(),
        forall|k: int|
            0 <= k < chosen.len() ==> #[trigger] attached(ms, input, first, n)[k]
                == ms[chosen[k]],
    decreases n,
{
    if n > 0 {
        let before = attached_are_own(ms, input, first, n - 1);
        let keep = belongs(ms, input, first);
        let c = ms[n - 1];
        assert(keep(n - 1) == (if c.from_columns.len() == 0 {
            first
        } else {
            reads_from(c, input)
        }));
        one_more(before, n, keep)
    } else {
        Seq::empty()
    }
}

/// True for the edge of a dataset to itself where it is not declared.
pub open spec fn is_unsure_loop(w: WiringView, input: Seq<char>, output: Seq<char>) -> bool {
    &&& input == output
    &&& w.unsure.contains(input) || w.origin.source != OriginSource::Declared
}

/// True when the edge is that of input `i` to output `o`, with the mappings of
/// the output that belong to it.
pub open spec fn is_edge_of(
    e: EdgeView,
    d: TaskDeclView,
    w: WiringView,
    ms: Seq<ColumnEdgeView>,
    i: int,
    o: int,
) -> bool {
    &&& 0 <= i < w.inputs.len()
    &&& 0 <= o < w.outputs.len()
    &&& !is_unsure_loop(w, w.inputs[i], w.outputs[o])
    &&& e.from == w.inputs[i]
    &&& e.to == w.outputs[o]
    &&& e.job == Some(w.job)
    &&& e.transform.kind == d.transform
    &&& e.transform.description == d.description
    &&& e.transform.sql == d.sql
    &&& holds_own(
        e.column_lineage,
        ms,
        w.inputs[i],
        none_before(w, i, o),
    )
}

/// True when every input in front of `i` makes no edge to output `o`.
pub open spec fn none_before(w: WiringView, i: int, o: int) -> bool {
    forall|j: int| 0 <= j < i ==> is_unsure_loop(w, #[trigger] w.inputs[j], w.outputs[o])
}

proof fn edges_start(
    d: TaskDeclView,
    w: WiringView,
    o: int,
    ms: Seq<ColumnEdgeView>,
    n: int,
)
    requires
        0 <= n <= w.inputs.len(),
    ensures
        edges_into(d, w, w.outputs[o], ms, n).len() == 0 <==> none_before(w, n, o),
    decreases n,
{
    if n > 0 {
        edges_start(d, w, o, ms, n - 1);
        assert(loop_left_out(w, w.inputs[n - 1], w.outputs[o]) == is_unsure_loop(
            w,
            w.inputs[n - 1],
            w.outputs[o],
        ));
        assert(none_before(w, n, o) <==> none_before(w, n - 1, o) && is_unsure_loop(
            w,
            w.inputs[n - 1],
            w.outputs[o],
        ));
    }
}

/// The edge that input `i` makes to output `o`.
spec fn edge_made(
    d: TaskDeclView,
    w: WiringView,
    o: int,
    ms: Seq<ColumnEdgeView>,
    i: int,
) -> EdgeView {
    task_edge(
        d,
        w,
        w.inputs[i],
        w.outputs[o],
        attached(
            ms,
            w.inputs[i],
            edges_into(d, w, w.outputs[o], ms, i).len() == 0,
            ms.len() as int,
        ),
    )
}

proof fn made_edge_is_own(d: TaskDeclView, w: WiringView, o: int, ms: Seq<ColumnEdgeView>, i: int)
    requires
        0 <= i < w.inputs.len(),
        0 <= o < w.outputs.len(),
        !is_unsure_loop(w, w.inputs[i], w.outputs[o]),
    ensures
        is_edge_of(edge_made(d, w, o, ms, i), d, w, ms, i, o),
{
    edges_start(d, w, o, ms, i);
    let first = none_before(w, i, o);
    let chosen = attached_are_own(ms, w.inputs[i], first, ms.len() as int);
    assert(holds_own(edge_made(d, w, o, ms, i).column_lineage, ms, w.inputs[i], first));
}

proof fn edge_is_from_input(
    d: TaskDeclView,
    w: WiringView,
    o: int,
    ms: Seq<ColumnEdgeView>,
    n: int,
    k: int,
) -> (i: int)
    requires
        0 <= n <= w.inputs.len(),
        0 <= o < w.outputs.len(),
        0 <= k < edges_into(d, w, w.outputs[o], ms, n).len(),
    ensures
        0 <= i < n,
        is_edge_of(edges_into(d, w, w.outputs[o], ms, n)[k], d, w, ms, i, o),
    decreases n,
{
    let prev = edges_into(d, w, w.outputs[o], ms, n - 1);
    if k < prev.len() {
        edge_is_from_input(d, w, o, ms, n - 1, k)
    } else {
        made_edge_is_own(d, w, o, ms, n - 1);
        n - 1
    }
}

proof fn input_has_edge(
    d: TaskDeclView,
    w: WiringView,
    o: int,
    ms: Seq<ColumnEdgeView>,
    n: int,
    i: int,
) -> (k: int)
    requires
        0 <= i < n <= w.inputs.len(),
        0 <= o < w.outputs.len(),
        !is_unsure_loop(w, w.inputs[i], w.outputs[o]),
    ensures
        0 <= k < edges_into(d, w, w.outputs[o], ms, n).len(),
        is_edge_of(edges_into(d, w, w.outputs[o], ms, n)[k], d, w, ms, i, o),
    decreases n,
{
    if i == n - 1 {
        made_edge_is_own(d, w, o, ms, i);
        edges_into(d, w, w.outputs[o], ms, n - 1).len() as int
    } else {
        input_has_edge(d, w, o, ms, n - 1, i)
    }
}

/// The mappings of output `o` of a task.
pub open spec fn own_mappings(
    d: TaskDeclView,
    w: WiringView,
    sql: Option<SqlColumnLineageView>,
    code: bool,
    o: int,
) -> Seq<ColumnEdgeView> {
    output_mappings(d, w.outputs[o], w.inputs, sql, code, w.outputs.len() == 1)
}

proof fn edge_is_to_output(
    d: TaskDeclView,
    w: WiringView,
    sql: Option<SqlColumnLineageView>,
    code: bool,
    n: int,
    k: int,
) -> (r: (int, int))
    requires
        0 <= n <= w.outputs.len(),
        0 <= k < task_edges(d, w, sql, code, n).len(),
    ensures
        is_edge_of(
            task_edges(d, w, sql, code, n)[k],
            d,
            w,
            own_mappings(d, w, sql, code, r.1),
            r.0,
            r.1,
        ),
    decreases n,
{
    let prev = task_edges(d, w, sql, code, n - 1);
    if k < prev.len() {
        edge_is_to_output(d, w, sql, code, n - 1, k)
    } else {
        let ms = own_mappings(d, w, sql, code, n - 1);
        let i = edge_is_from_input(d, w, n - 1, ms, w.inputs.len() as int, k - prev.len());
        (i, n - 1)
    }
}

proof fn output_has_edge(
    d: TaskDeclView,
    w: WiringView,
    sql: Option<SqlColumnLineageView>,
    code: bool,
    n: int,
    i: int,
    o: int,
) -> (k: int)
    requires
        0 <= i < w.inputs.len(),
        0 <= o < n <= w.outputs.len(),
        !is_unsure_loop(w, w.inputs[i], w.outputs[o]),
    ensures
        0 <= k < task_edges(d, w, sql, code, n).len(),
        is_edge_of(
            task_edges(d, w, sql, code, n)[k],
            d,
            w,
            own_mappings(d, w, sql, code, o),
            i,
            o,
        ),
    decreases n,
{
    let prev = task_edges(d, w, sql, code, n - 1);
    if o == n - 1 {
        let ms = own_mappings(d, w, sql, code, o);
        let k = input_has_edge(d, w, o, ms, w.inputs.len() as int, i);
        prev.len() + k
    } else {
        output_has_edge(d, w, sql, code, n - 1, i, o)
    }
}

/// Each input of a task has an edge to each output, which carries the mappings
/// of the output that read the input, unless it leads from a dataset to itself
/// without being declared.
pub proof fn each_input_feeds_each_output(
    d: TaskDeclView,
    w: WiringView,
    sql: Option<SqlColumnLineageView>,
    code: bool,
    i: int,
    o: int,
)
    requires
        0 <= i < w.inputs.len(),
        0 <= o < w.outputs.len(),
        !is_unsure_loop(w, w.inputs[i], w.outputs[o]),
    ensures
        exists|k: int|
            0 <= k < task_edges(d, w, sql, code, w.outputs.len() as int).len() && is_edge_of(
                #[trigger] task_edges(d, w, sql, code, w.outputs.len() as int)[k],
                d,
                w,
                own_mappings(d, w, sql, code, o),
                i,
                o,
            ),
{
    let k = output_has_edge(d, w, sql, code, w.outputs.len() as int, i, o);
}

/// Each edge of a task leads from one of its inputs to one of its outputs and
/// carries the mappings of the output that read the input.
pub proof fn each_edge_joins_input_and_output(
    d: TaskDeclView,
    w: WiringView,
    sql: Option<SqlColumnLineageView>,
    code: bool,
    k: int,
)
    requires
        0 <= k < task_edges(d, w, sql, code, w.outputs.len() as int).len(),
    ensures
        exists|i: int, o: int| #[trigger]
            is_edge_of(
                task_edges(d, w, sql, code, w.outputs.len() as int)[k],
                d,
                w,
                own_mappings(d, w, sql, code, o),
                i,
                o,
            ),
{
    let r = edge_is_to_output(d, w, sql, code, w.outputs.len() as int, k);
}

/// True when mapping `b` of edge `a`, which leads from input `i` to the output,
/// carries what a SQL text says of a column, with source `s` on that input.
pub open spec fn carries_sql(
    es: Seq<EdgeView>,
    a: int,
    b: int,
    m: SqlMappingView,
    output: Seq<char>,
    inputs: Seq<Seq<char>>,
    s: int,
    i: int,
) -> bool {
    &&& 0 <= a < es.len()
    &&& es[a].from == inputs[i]
    &&& es[a].to == output
    &&& 0 <= b < es[a].column_lineage.len()
    &&& follows_sql(es[a].column_lineage[b], m, output, inputs)
    &&& es[a].column_lineage[b].from_columns[s].dataset == inputs[i]
    &&& es[a].column_lineage[b].from_columns[s].column == m.sources[s].column
}

/// What a SQL text says of a column is on the edge from the table that it
/// qualifies the source with: where source `s` of mapping `k` has a qualifier
/// that stands for input `i` first, the edge from that input carries the
/// mapping, with that source on that input.
pub proof fn sql_mapping_is_on_the_edge_of_its_source(
    d: TaskDeclView,
    w: WiringView,
    sql: Option<SqlColumnLineageView>,
    code: bool,
    o: int,
    k: int,
    s: int,
    i: int,
)
    requires
        0 <= o < w.outputs.len(),
        sql_decides(d, sql, w.outputs[o], k),
        0 <= s < sql->0.mappings[k].sources.len(),
        sql->0.mappings[k].sources[s].table is Some,
        is_input(w.inputs, sql->0.mappings[k].sources[s].table->0, i),
        !is_unsure_loop(w, w.inputs[i], w.outputs[o]),
    ensures
        exists|a: int, b: int| #[trigger]
            carries_sql(
                task_edges(d, w, sql, code, w.outputs.len() as int),
                a,
                b,
                sql->0.mappings[k],
                w.outputs[o],
                w.inputs,
                s,
                i,
            ),
{
    let output = w.outputs[o];
    let es = task_edges(d, w, sql, code, w.outputs.len() as int);
    let ms = own_mappings(d, w, sql, code, o);
    let m = sql->0.mappings[k];
    each_column_is_mapped_by_its_tier(d, output, w.inputs, sql, code, w.outputs.len() == 1);
    let p = choose|p: int|
        0 <= p < ms.len() && follows_sql(#[trigger] ms[p], m, output, w.inputs);
    assert(resolves(
        ms[p].from_columns[s],
        m.sources[s].table,
        m.sources[s].column,
        w.inputs[0],
        w.inputs,
    ));
    assert(ms[p].from_columns[s].dataset == w.inputs[i]);
    each_input_feeds_each_output(d, w, sql, code, i, o);
    let a = choose|a: int| 0 <= a < es.len() && is_edge_of(#[trigger] es[a], d, w, ms, i, o);
    let first = none_before(w, i, o);
    let keep = belongs(ms, w.inputs[i], first);
    assert(holds_own(es[a].column_lineage, ms, w.inputs[i], first));
    let chosen = choose|chosen: Seq<int>|
        {
            &&& #[trigger] lists_those(chosen, ms.len() as int, keep)
            &&& es[a].column_lineage.len() == chosen.len()
            &&& forall|q: int|
                0 <= q < chosen.len() ==> #[trigger] es[a].column_lineage[q] == ms[chosen[q]]
        };
    assert(keep(p));
    let b = choose|b: int| 0 <= b < chosen.len() && chosen[b] == p;
    assert(es[a].column_lineage[b] == ms[p]);
    assert(carries_sql(es, a, b, m, output, w.inputs, s, i));
}

} // verus!

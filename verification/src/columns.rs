//! Column mappings of one output of a task: what is declared first, then what
//! SQL says, then what code says, each only for columns that have no mapping
//! yet.

use vstd::prelude::*;

use crate::decls::{ColumnMapEntry, ColumnMapEntryView, ModuleConfig, ModuleConfigView, TaskDecl, TaskDeclView};
use crate::flow::{InferredColumn, InferredColumnView};
use crate::model::{ColumnEdge, ColumnEdgeView, ColumnRef, ColumnRefView, TransformType};
use crate::origin::{
    code_origin, declared_origin, sql_origin, Confidence, Origin, OriginSource, OriginView,
    CODE_DATAFLOW_CONFIDENCE, SQL_CONFIDENCE,
};
use crate::sql::{SqlColRef, SqlColRefView, SqlColumnLineage, SqlColumnLineageView, SqlMapping, SqlMappingView};
use crate::text::{
    ascii_lower, ascii_upper, contains_char, contains_str, contains_text, first_pieces,
    group_views, last_piece, last_piece_of, opt_text, replicate_opt, split_last, starts_with_str,
    starts_with_text, str_eq, to_lower, to_upper, trim, trimmed, views,
};

verus! {

// ─────────────────────────────── names ────────────────────────────────

/// A dataset name in full: a bare table name gets the configured parts in
/// front of it when all three are known.
pub open spec fn expanded_name(name: Seq<char>, c: ModuleConfigView) -> Seq<char> {
    if name.contains('.') {
        name
    } else if c.service is Some && c.database is Some && c.schema is Some {
        c.service->0 + "."@ + c.database->0 + "."@ + c.schema->0 + "."@ + name
    } else {
        name
    }
}

pub open spec fn expanded_names(names: Seq<Seq<char>>, c: ModuleConfigView) -> Seq<Seq<char>> {
    Seq::new(names.len(), |i: int| expanded_name(names[i], c))
}

pub(crate) fn expand_fqn(name: &str, config: &ModuleConfig) -> (r: String)
    ensures
        r@ == expanded_name(name@, config@),
{
    if contains_char(name, '.') {
        return name.to_owned();
    }
    match (&config.service, &config.database, &config.schema) {
        (Some(s), Some(d), Some(sc)) => {
            let mut r = s.clone();
            r.append(".");
            r.append(d.as_str());
            r.append(".");
            r.append(sc.as_str());
            r.append(".");
            r.append(name);
            r
        },
        _ => name.to_owned(),
    }
}

pub(crate) fn expand_all(names: &Vec<String>, config: &ModuleConfig) -> (r: Vec<String>)
    ensures
        views(r@) == expanded_names(views(names@), config@),
{
    let ghost nv = views(names@);
    let mut out: Vec<String> = Vec::new();
    let mut i: usize = 0;
    while i < names.len()
        invariant
            i <= names@.len(),
            out@.len() == i,
            nv == views(names@),
            forall|k: int|
                0 <= k < i ==> (#[trigger] out@[k])@ == expanded_name(nv[k], config@),
        decreases names@.len() - i,
    {
        assert(nv[i as int] == names@[i as int]@);
        out.push(expand_fqn(names[i].as_str(), config));
        i = i + 1;
    }
    assert(views(out@) =~= expanded_names(nv, config@));
    out
}

/// True when a table name stands for a dataset: it is the last part of its
/// name, or all of it.
pub open spec fn names_table(dataset: Seq<char>, table: Seq<char>) -> bool {
    last_piece(dataset, '.') == table || dataset == table
}

pub(crate) fn is_table(dataset: &str, table: &str) -> (r: bool)
    ensures
        r == names_table(dataset@, table@),
{
    let last = last_piece_of(dataset, '.');
    str_eq(last.as_str(), table) || str_eq(dataset, table)
}

/// The first dataset from `k` on that the table name stands for.
pub open spec fn input_of_table(table: Seq<char>, inputs: Seq<Seq<char>>, k: int) -> Option<Seq<char>>
    decreases inputs.len() - k,
{
    if k >= inputs.len() {
        None
    } else if names_table(inputs[k], table) {
        Some(inputs[k])
    } else {
        input_of_table(table, inputs, k + 1)
    }
}

fn match_input_by_table(table: &str, inputs: &Vec<String>) -> (r: Option<String>)
    ensures
        opt_text(r) == input_of_table(table@, views(inputs@), 0),
{
    let ghost iv = views(inputs@);
    let mut i: usize = 0;
    while i < inputs.len()
        invariant
            i <= inputs@.len(),
            iv == views(inputs@),
            input_of_table(table@, iv, 0) == input_of_table(table@, iv, i as int),
        decreases inputs@.len() - i,
    {
        assert(iv[i as int] == inputs@[i as int]@);
        if is_table(inputs[i].as_str(), table) {
            return Some(inputs[i].clone());
        }
        i = i + 1;
    }
    None
}

// ──────────────────────────── source columns ──────────────────────────

/// The column that a source text refers to: `table.column` on the input that
/// the table stands for, anything else on the first input.
pub open spec fn source_ref(src: Seq<char>, input: Seq<char>, inputs: Seq<Seq<char>>) -> ColumnRefView {
    if src.contains('.') {
        let column = last_piece(src, '.');
        match input_of_table(first_pieces(src, '.'), inputs, 0) {
            Some(d) => ColumnRefView { dataset: d, column },
            None => ColumnRefView { dataset: input, column },
        }
    } else {
        ColumnRefView { dataset: input, column: src }
    }
}

pub open spec fn source_refs(srcs: Seq<Seq<char>>, input: Seq<char>, inputs: Seq<Seq<char>>) -> Seq<
    ColumnRefView,
> {
    Seq::new(srcs.len(), |i: int| source_ref(srcs[i], input, inputs))
}

fn resolve_source_ref(src: &str, input: &str, inputs: &Vec<String>) -> (r: ColumnRef)
    ensures
        r@ == source_ref(src@, input@, views(inputs@)),
{
    match split_last(src, '.') {
        Some((table, column)) => match match_input_by_table(table.as_str(), inputs) {
            Some(d) => ColumnRef::new(d.as_str(), column.as_str()),
            None => ColumnRef::new(input, column.as_str()),
        },
        None => ColumnRef::new(input, src),
    }
}

fn resolve_source_refs(srcs: &Vec<String>, input: &str, inputs: &Vec<String>) -> (r: Vec<ColumnRef>)
    ensures
        views(r@) == source_refs(views(srcs@), input@, views(inputs@)),
{
    let ghost sv = views(srcs@);
    let ghost iv = views(inputs@);
    let mut out: Vec<ColumnRef> = Vec::new();
    let mut i: usize = 0;
    while i < srcs.len()
        invariant
            i <= srcs@.len(),
            out@.len() == i,
            sv == views(srcs@),
            iv == views(inputs@),
            forall|k: int| 0 <= k < i ==> (#[trigger] out@[k])@ == source_ref(sv[k], input@, iv),
        decreases srcs@.len() - i,
    {
        assert(sv[i as int] == srcs@[i as int]@);
        out.push(resolve_source_ref(srcs[i].as_str(), input, inputs));
        i = i + 1;
    }
    assert(views(out@) =~= source_refs(sv, input@, iv));
    out
}

/// The column that a reference of a SQL text refers to.
pub open spec fn sql_source_ref(src: SqlColRefView, input: Seq<char>, inputs: Seq<Seq<char>>) -> ColumnRefView {
    let d = match src.table {
        Some(t) => match input_of_table(t, inputs, 0) {
            Some(d) => d,
            None => input,
        },
        None => input,
    };
    ColumnRefView { dataset: d, column: src.column }
}

pub open spec fn sql_source_refs(
    srcs: Seq<SqlColRefView>,
    input: Seq<char>,
    inputs: Seq<Seq<char>>,
) -> Seq<ColumnRefView> {
    Seq::new(srcs.len(), |i: int| sql_source_ref(srcs[i], input, inputs))
}

fn resolve_sql_source_ref(src: &SqlColRef, input: &str, inputs: &Vec<String>) -> (r: ColumnRef)
    ensures
        r@ == sql_source_ref(src@, input@, views(inputs@)),
{
    if let Some(t) = &src.table {
        if let Some(d) = match_input_by_table(t.as_str(), inputs) {
            return ColumnRef::new(d.as_str(), src.column.as_str());
        }
    }
    ColumnRef::new(input, src.column.as_str())
}

fn resolve_sql_source_refs(srcs: &Vec<SqlColRef>, input: &str, inputs: &Vec<String>) -> (r: Vec<
    ColumnRef,
>)
    ensures
        views(r@) == sql_source_refs(views(srcs@), input@, views(inputs@)),
{
    let ghost sv = views(srcs@);
    let ghost iv = views(inputs@);
    let mut out: Vec<ColumnRef> = Vec::new();
    let mut i: usize = 0;
    while i < srcs.len()
        invariant
            i <= srcs@.len(),
            out@.len() == i,
            sv == views(srcs@),
            iv == views(inputs@),
            forall|k: int|
                0 <= k < i ==> (#[trigger] out@[k])@ == sql_source_ref(sv[k], input@, iv),
        decreases srcs@.len() - i,
    {
        assert(sv[i as int] == srcs@[i as int]@);
        out.push(resolve_sql_source_ref(&srcs[i], input, inputs));
        i = i + 1;
    }
    assert(views(out@) =~= sql_source_refs(sv, input@, iv));
    out
}

// ─────────────────────────── single mappings ──────────────────────────

/// The kind of transformation that a declared label tells.
pub open spec fn labelled_kind(label: Option<Seq<char>>, sources: nat) -> TransformType {
    match label {
        None => if sources <= 1 {
            TransformType::Identity
        } else {
            TransformType::Transformation
        },
        Some(l) => {
            let upper = ascii_upper(trimmed(l));
            let lower = ascii_lower(trimmed(l));
            if contains_text(upper, "COUNT"@) || contains_text(upper, "SUM"@) || contains_text(
                upper,
                "AVG"@,
            ) || contains_text(upper, "MIN"@) || contains_text(upper, "MAX"@) || contains_text(
                upper,
                "GROUP BY"@,
            ) {
                TransformType::Aggregation
            } else if lower == "direct copy"@ || starts_with_text(lower, "rename"@) || lower
                == "identity"@ {
                TransformType::Identity
            } else {
                TransformType::Transformation
            }
        },
    }
}

fn classify_function_label(label: &Option<String>, sources: usize) -> (r: TransformType)
    ensures
        r == labelled_kind(opt_text(*label), sources as nat),
{
    match label {
        None => if sources <= 1 {
            TransformType::Identity
        } else {
            TransformType::Transformation
        },
        Some(l) => {
            let t = trim(l.as_str());
            let upper = to_upper(t.as_str());
            let u = upper.as_str();
            if contains_str(u, "COUNT") || contains_str(u, "SUM") || contains_str(u, "AVG")
                || contains_str(u, "MIN") || contains_str(u, "MAX") || contains_str(
                u,
                "GROUP BY",
            ) {
                return TransformType::Aggregation;
            }
            let lower = to_lower(t.as_str());
            let w = lower.as_str();
            if str_eq(w, "direct copy") || starts_with_str(w, "rename") || str_eq(w, "identity") {
                return TransformType::Identity;
            }
            TransformType::Transformation
        },
    }
}

/// The mapping of a declared entry.
pub open spec fn declared_mapping(
    e: ColumnMapEntryView,
    input: Seq<char>,
    output: Seq<char>,
    inputs: Seq<Seq<char>>,
) -> ColumnEdgeView {
    ColumnEdgeView {
        from_columns: source_refs(e.sources, input, inputs),
        to_column: ColumnRefView { dataset: output, column: e.target },
        function: e.function,
        transform_type: labelled_kind(e.function, e.sources.len()),
        origin: declared_origin(),
    }
}

fn declared_column_edge(entry: &ColumnMapEntry, input: &str, output: &str, inputs: &Vec<String>) -> (r:
    ColumnEdge)
    ensures
        r@ == declared_mapping(entry@, input@, output@, views(inputs@)),
{
    let from = resolve_source_refs(&entry.sources, input, inputs);
    let mut ce = ColumnEdge::new(from, ColumnRef::new(output, entry.target.as_str()));
    ce.function = replicate_opt(&entry.function);
    ce.transform_type = classify_function_label(&entry.function, entry.sources.len());
    ce
}

/// The origin of what a SQL text says.
pub open spec fn sql_fact() -> OriginView {
    sql_origin(Confidence { bits: SQL_CONFIDENCE })
}

/// The mapping that a SQL text says.
pub open spec fn sql_mapping(
    m: SqlMappingView,
    input: Seq<char>,
    output: Seq<char>,
    inputs: Seq<Seq<char>>,
) -> ColumnEdgeView {
    ColumnEdgeView {
        from_columns: sql_source_refs(m.sources, input, inputs),
        to_column: ColumnRefView { dataset: output, column: m.target },
        function: Some(m.function),
        transform_type: m.transform_type,
        origin: sql_fact(),
    }
}

fn sql_column_edge(m: &SqlMapping, input: &str, output: &str, inputs: &Vec<String>) -> (r: ColumnEdge)
    ensures
        r@ == sql_mapping(m@, input@, output@, views(inputs@)),
{
    let from = resolve_sql_source_refs(&m.sources, input, inputs);
    let mut ce = ColumnEdge::new(from, ColumnRef::new(output, m.target.as_str()));
    ce.function = Some(m.function.clone());
    ce.transform_type = m.transform_type;
    ce.origin = Origin::inferred_sql(Confidence { bits: SQL_CONFIDENCE });
    ce
}

/// The origin of what a function body says.
pub open spec fn code_fact() -> OriginView {
    OriginView {
        note: Some("pandas/Spark dataflow"@),
        ..code_origin(Confidence { bits: CODE_DATAFLOW_CONFIDENCE })
    }
}

/// The mapping that a function body says.
pub open spec fn code_mapping(
    c: InferredColumnView,
    input: Seq<char>,
    output: Seq<char>,
    inputs: Seq<Seq<char>>,
) -> ColumnEdgeView {
    ColumnEdgeView {
        from_columns: source_refs(c.sources, input, inputs),
        to_column: ColumnRefView { dataset: output, column: c.target },
        function: c.function,
        transform_type: c.transform_type,
        origin: code_fact(),
    }
}

pub(crate) fn inferred_code_column_edge(
    c: &InferredColumn,
    input: &str,
    output: &str,
    inputs: &Vec<String>,
) -> (r: ColumnEdge)
    ensures
        r@ == code_mapping(c@, input@, output@, views(inputs@)),
{
    let from = resolve_source_refs(&c.sources, input, inputs);
    let mut ce = ColumnEdge::new(from, ColumnRef::new(output, c.target.as_str()));
    ce.function = replicate_opt(&c.function);
    ce.transform_type = c.transform_type;
    ce.origin = Origin::inferred_code(Confidence { bits: CODE_DATAFLOW_CONFIDENCE }).with_note(
        "pandas/Spark dataflow",
    );
    ce
}

// ─────────────────────────── all mappings ─────────────────────────────

/// True when a mapping produces the column.
pub open spec fn has_target(ces: Seq<ColumnEdgeView>, column: Seq<char>) -> bool {
    exists|i: int| 0 <= i < ces.len() && (#[trigger] ces[i]).to_column.column == column
}

pub(crate) fn is_mapped(ces: &Vec<ColumnEdge>, column: &str) -> (r: bool)
    ensures
        r == has_target(views(ces@), column@),
{
    let ghost cv = views(ces@);
    let mut i: usize = 0;
    while i < ces.len()
        invariant
            i <= ces@.len(),
            cv == views(ces@),
            forall|k: int| 0 <= k < i ==> (#[trigger] cv[k]).to_column.column != column@,
        decreases ces@.len() - i,
    {
        if str_eq(ces[i].to_column.column.as_str(), column) {
            assert(cv[i as int].to_column.column == column@);
            return true;
        }
        i = i + 1;
    }
    false
}

/// The mappings with one more, unless its column has one.
pub open spec fn gap_filled(ces: Seq<ColumnEdgeView>, c: ColumnEdgeView) -> Seq<ColumnEdgeView> {
    if has_target(ces, c.to_column.column) {
        ces
    } else {
        ces.push(c)
    }
}

/// The mappings of the first `n` declared entries.
pub open spec fn declared_mappings(
    d: TaskDeclView,
    input: Seq<char>,
    output: Seq<char>,
    inputs: Seq<Seq<char>>,
    n: int,
) -> Seq<ColumnEdgeView>
    decreases n,
{
    if n <= 0 {
        Seq::empty()
    } else {
        declared_mappings(d, input, output, inputs, n - 1).push(
            declared_mapping(d.column_map[n - 1], input, output, inputs),
        )
    }
}

/// The mappings with the gaps filled from the first `n` of a SQL text.
pub open spec fn sql_filled(
    ces: Seq<ColumnEdgeView>,
    l: SqlColumnLineageView,
    input: Seq<char>,
    output: Seq<char>,
    inputs: Seq<Seq<char>>,
    n: int,
) -> Seq<ColumnEdgeView>
    decreases n,
{
    if n <= 0 {
        ces
    } else {
        gap_filled(
            sql_filled(ces, l, input, output, inputs, n - 1),
            sql_mapping(l.mappings[n - 1], input, output, inputs),
        )
    }
}

/// True when a column belongs to the output: it is written to its table, or
/// to an unknown table when there is no other output.
pub open spec fn column_applies(c: InferredColumnView, output: Seq<char>, single: bool) -> bool {
    match c.output_table {
        Some(t) => names_table(output, t),
        None => single,
    }
}

/// The mappings with the gaps filled from the first `n` columns of a body.
pub open spec fn code_filled(
    ces: Seq<ColumnEdgeView>,
    d: TaskDeclView,
    input: Seq<char>,
    output: Seq<char>,
    inputs: Seq<Seq<char>>,
    single: bool,
    n: int,
) -> Seq<ColumnEdgeView>
    decreases n,
{
    if n <= 0 {
        ces
    } else {
        let s = code_filled(ces, d, input, output, inputs, single, n - 1);
        let c = d.inferred_columns[n - 1];
        if column_applies(c, output, single) {
            gap_filled(s, code_mapping(c, input, output, inputs))
        } else {
            s
        }
    }
}

/// True when a SQL text writes the output, or does not say what it writes.
pub open spec fn sql_applies(l: SqlColumnLineageView, output: Seq<char>) -> bool {
    match l.target_table {
        Some(t) => names_table(output, t),
        None => true,
    }
}

/// The mappings of one output of a task.
pub open spec fn output_mappings(
    d: TaskDeclView,
    output: Seq<char>,
    inputs: Seq<Seq<char>>,
    sql: Option<SqlColumnLineageView>,
    code: bool,
    single: bool,
) -> Seq<ColumnEdgeView> {
    if inputs.len() == 0 {
        Seq::empty()
    } else {
        let a = declared_mappings(d, inputs[0], output, inputs, d.column_map.len() as int);
        let b = match sql {
            Some(l) => if sql_applies(l, output) {
                sql_filled(a, l, inputs[0], output, inputs, l.mappings.len() as int)
            } else {
                a
            },
            None => a,
        };
        if code {
            code_filled(
                b,
                d,
                inputs[0],
                output,
                inputs,
                single,
                d.inferred_columns.len() as int,
            )
        } else {
            b
        }
    }
}

fn push_gap(ces: &mut Vec<ColumnEdge>, c: ColumnEdge)
    ensures
        views(final(ces)@) == gap_filled(views(old(ces)@), c@),
{
    broadcast use group_views;

    if !is_mapped(ces, c.to_column.column.as_str()) {
        ces.push(c);
    }
}

fn add_declared(decl: &TaskDecl, input: &str, output: &str, inputs: &Vec<String>) -> (r: Vec<
    ColumnEdge,
>)
    ensures
        views(r@) == declared_mappings(
            decl@,
            input@,
            output@,
            views(inputs@),
            decl@.column_map.len() as int,
        ),
{
    broadcast use group_views;

    let ghost iv = views(inputs@);
    let mut out: Vec<ColumnEdge> = Vec::new();
    let mut i: usize = 0;
    while i < decl.column_map.len()
        invariant
            i <= decl.column_map@.len(),
            iv == views(inputs@),
            views(out@) == declared_mappings(decl@, input@, output@, iv, i as int),
        decreases decl.column_map@.len() - i,
    {
        broadcast use group_views;

        assert(decl@.column_map[i as int] == decl.column_map@[i as int]@);
        out.push(declared_column_edge(&decl.column_map[i], input, output, inputs));
        i = i + 1;
    }
    out
}

fn fill_from_sql(
    ces: &mut Vec<ColumnEdge>,
    l: &SqlColumnLineage,
    input: &str,
    output: &str,
    inputs: &Vec<String>,
)
    ensures
        views(final(ces)@) == sql_filled(
            views(old(ces)@),
            l@,
            input@,
            output@,
            views(inputs@),
            l@.mappings.len() as int,
        ),
{
    let ghost start = views(ces@);
    let ghost iv = views(inputs@);
    let mut i: usize = 0;
    while i < l.mappings.len()
        invariant
            i <= l.mappings@.len(),
            iv == views(inputs@),
            views(ces@) == sql_filled(start, l@, input@, output@, iv, i as int),
        decreases l.mappings@.len() - i,
    {
        assert(l@.mappings[i as int] == l.mappings@[i as int]@);
        let c = sql_column_edge(&l.mappings[i], input, output, inputs);
        push_gap(ces, c);
        i = i + 1;
    }
}

fn fill_from_code(
    ces: &mut Vec<ColumnEdge>,
    decl: &TaskDecl,
    input: &str,
    output: &str,
    inputs: &Vec<String>,
    single: bool,
)
    ensures
        views(final(ces)@) == code_filled(
            views(old(ces)@),
            decl@,
            input@,
            output@,
            views(inputs@),
            single,
            decl@.inferred_columns.len() as int,
        ),
{
    let ghost start = views(ces@);
    let ghost iv = views(inputs@);
    let mut i: usize = 0;
    while i < decl.inferred_columns.len()
        invariant
            i <= decl.inferred_columns@.len(),
            iv == views(inputs@),
            views(ces@) == code_filled(start, decl@, input@, output@, iv, single, i as int),
        decreases decl.inferred_columns@.len() - i,
    {
        let c = &decl.inferred_columns[i];
        assert(decl@.inferred_columns[i as int] == c@);
        let applies = match &c.output_table {
            Some(t) => is_table(output, t.as_str()),
            None => single,
        };
        if applies {
            let e = inferred_code_column_edge(c, input, output, inputs);
            push_gap(ces, e);
        }
        i = i + 1;
    }
}

pub(crate) fn build_output_column_edges(
    decl: &TaskDecl,
    output: &str,
    inputs: &Vec<String>,
    sql: &Option<SqlColumnLineage>,
    code: bool,
    single: bool,
) -> (r: Vec<ColumnEdge>)
    ensures
        views(r@) == output_mappings(
            decl@,
            output@,
            views(inputs@),
            crate::text::opt_view(*sql),
            code,
            single,
        ),
{
    broadcast use group_views;

    if inputs.len() == 0 {
        return Vec::new();
    }
    let input = inputs[0].as_str();
    assert(views(inputs@)[0] == input@);
    let mut ces = add_declared(decl, input, output, inputs);
    if let Some(l) = sql {
        let applies = match &l.target_table {
            Some(t) => is_table(output, t.as_str()),
            None => true,
        };
        if applies {
            fill_from_sql(&mut ces, l, input, output, inputs);
        }
    }
    if code {
        fill_from_code(&mut ces, decl, input, output, inputs, single);
    }
    ces
}

// ──────────────────────────────── laws ────────────────────────────────

/// True when `m` is `base` with inferred mappings behind it, each for a column
/// that nothing in front of it maps.
pub open spec fn only_fills_gaps(base: Seq<ColumnEdgeView>, m: Seq<ColumnEdgeView>) -> bool {
    &&& base.len() <= m.len()
    &&& m.subrange(0, base.len() as int) == base
    &&& forall|i: int|
        base.len() <= i < m.len() ==> (#[trigger] m[i]).origin.inferred() && !has_target(
            m.subrange(0, i),
            m[i].to_column.column,
        )
}

pub(crate) proof fn gap_filled_fills(base: Seq<ColumnEdgeView>, m: Seq<ColumnEdgeView>, c: ColumnEdgeView)
    requires
        only_fills_gaps(base, m),
        c.origin.inferred(),
    ensures
        only_fills_gaps(base, gap_filled(m, c)),
{
    let r = gap_filled(m, c);
    if r.len() > m.len() {
        assert(r.subrange(0, base.len() as int) =~= m.subrange(0, base.len() as int));
        assert forall|i: int| base.len() <= i < r.len() implies (
        #[trigger] r[i]).origin.inferred() && !has_target(
            r.subrange(0, i),
            r[i].to_column.column,
        ) by {
            if i < m.len() {
                assert(r[i] == m[i]);
                assert(r.subrange(0, i) =~= m.subrange(0, i));
            } else {
                assert(r.subrange(0, i) =~= m);
            }
        }
    }
}

proof fn sql_fills(
    base: Seq<ColumnEdgeView>,
    ces: Seq<ColumnEdgeView>,
    l: SqlColumnLineageView,
    input: Seq<char>,
    output: Seq<char>,
    inputs: Seq<Seq<char>>,
    n: int,
)
    requires
        only_fills_gaps(base, ces),
    ensures
        only_fills_gaps(base, sql_filled(ces, l, input, output, inputs, n)),
    decreases n,
{
    if n > 0 {
        sql_fills(base, ces, l, input, output, inputs, n - 1);
        gap_filled_fills(
            base,
            sql_filled(ces, l, input, output, inputs, n - 1),
            sql_mapping(l.mappings[n - 1], input, output, inputs),
        );
    }
}

proof fn code_fills(
    base: Seq<ColumnEdgeView>,
    ces: Seq<ColumnEdgeView>,
    d: TaskDeclView,
    input: Seq<char>,
    output: Seq<char>,
    inputs: Seq<Seq<char>>,
    single: bool,
    n: int,
)
    requires
        only_fills_gaps(base, ces),
    ensures
        only_fills_gaps(base, code_filled(ces, d, input, output, inputs, single, n)),
    decreases n,
{
    if n > 0 {
        code_fills(base, ces, d, input, output, inputs, single, n - 1);
        gap_filled_fills(
            base,
            code_filled(ces, d, input, output, inputs, single, n - 1),
            code_mapping(d.inferred_columns[n - 1], input, output, inputs),
        );
    }
}

/// Declared mappings always win: those of an output are its declared mappings,
/// unchanged and in their order, and behind them inferred mappings for columns
/// that had none.
pub proof fn declared_mappings_win(
    d: TaskDeclView,
    output: Seq<char>,
    inputs: Seq<Seq<char>>,
    sql: Option<SqlColumnLineageView>,
    code: bool,
    single: bool,
)
    requires
        inputs.len() > 0,
    ensures
        only_fills_gaps(
            declared_mappings(d, inputs[0], output, inputs, d.column_map.len() as int),
            output_mappings(d, output, inputs, sql, code, single),
        ),
{
    let a = declared_mappings(d, inputs[0], output, inputs, d.column_map.len() as int);
    assert(a.subrange(0, a.len() as int) =~= a);
    let b = match sql {
        Some(l) => if sql_applies(l, output) {
            sql_fills(a, a, l, inputs[0], output, inputs, l.mappings.len() as int);
            sql_filled(a, l, inputs[0], output, inputs, l.mappings.len() as int)
        } else {
            a
        },
        None => a,
    };
    code_fills(a, b, d, inputs[0], output, inputs, single, d.inferred_columns.len() as int);
}

/// True when a mapping comes from no tier that is left out.
pub open spec fn tier_allowed(c: ColumnEdgeView, sql: bool, code: bool) -> bool {
    &&& c.origin.source == OriginSource::InferredSql ==> sql
    &&& c.origin.source == OriginSource::InferredCode ==> code
}

/// True when all mappings come from tiers that are not left out.
pub open spec fn tiers_allowed(ces: Seq<ColumnEdgeView>, sql: bool, code: bool) -> bool {
    forall|i: int| 0 <= i < ces.len() ==> tier_allowed(#[trigger] ces[i], sql, code)
}

proof fn declared_tier(
    d: TaskDeclView,
    input: Seq<char>,
    output: Seq<char>,
    inputs: Seq<Seq<char>>,
    n: int,
    sql: bool,
    code: bool,
)
    ensures
        tiers_allowed(declared_mappings(d, input, output, inputs, n), sql, code),
    decreases n,
{
    if n > 0 {
        declared_tier(d, input, output, inputs, n - 1, sql, code);
    }
}

proof fn sql_tier(
    ces: Seq<ColumnEdgeView>,
    l: SqlColumnLineageView,
    input: Seq<char>,
    output: Seq<char>,
    inputs: Seq<Seq<char>>,
    n: int,
    code: bool,
)
    requires
        tiers_allowed(ces, true, code),
    ensures
        tiers_allowed(sql_filled(ces, l, input, output, inputs, n), true, code),
    decreases n,
{
    if n > 0 {
        sql_tier(ces, l, input, output, inputs, n - 1, code);
    }
}

proof fn code_tier(
    ces: Seq<ColumnEdgeView>,
    d: TaskDeclView,
    input: Seq<char>,
    output: Seq<char>,
    inputs: Seq<Seq<char>>,
    single: bool,
    n: int,
    sql: bool,
)
    requires
        tiers_allowed(ces, sql, true),
    ensures
        tiers_allowed(code_filled(ces, d, input, output, inputs, single, n), sql, true),
    decreases n,
{
    if n > 0 {
        code_tier(ces, d, input, output, inputs, single, n - 1, sql);
    }
}

/// A tier that is switched off contributes nothing: without the lineage of a
/// query no mapping is inferred from SQL, and without code inference none from
/// code.
pub proof fn disabled_tiers_stay_out(
    d: TaskDeclView,
    output: Seq<char>,
    inputs: Seq<Seq<char>>,
    sql: Option<SqlColumnLineageView>,
    code: bool,
    single: bool,
)
    ensures
        tiers_allowed(output_mappings(d, output, inputs, sql, code, single), sql is Some, code),
{
    if inputs.len() > 0 {
        let a = declared_mappings(d, inputs[0], output, inputs, d.column_map.len() as int);
        declared_tier(
            d,
            inputs[0],
            output,
            inputs,
            d.column_map.len() as int,
            sql is Some,
            code,
        );
        let b = match sql {
            Some(l) => if sql_applies(l, output) {
                sql_tier(a, l, inputs[0], output, inputs, l.mappings.len() as int, code);
                sql_filled(a, l, inputs[0], output, inputs, l.mappings.len() as int)
            } else {
                a
            },
            None => a,
        };
        if code {
            code_tier(
                b,
                d,
                inputs[0],
                output,
                inputs,
                single,
                d.inferred_columns.len() as int,
                sql is Some,
            );
        }
    }
}

} // verus!

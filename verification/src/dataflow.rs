//! Column lineage of a function body that works on pandas or Spark data
//! frames, traced without running it.

use vstd::prelude::*;

use crate::collections::StrMap;
use crate::flow::{
    added_column, agg_aliased, agg_dict, agg_named, agg_note, aggregated, alias_note, aliased,
    all_texts, any_subscript, arg_text, assigned_columns, assigned_to, base_ref, base_table,
    block_makes, bound, bound_call, bound_to, by_noted, calls, chain_base, chain_calls,
    col_name, cols_of, column_op, const_text, dataflow_of, defaulted, df_method, engine_seen,
    final_segment, finished, first_text_value, flow_kind, folded, fragment_refs, frame_table,
    fresh_flow, group_names, grouped, handlers_make, innermost, is_literal, is_pure_ref,
    key_note, keyed, keys_noted, keyword_cols, list_cols, loop_note, makes_columns,
    mapping_refs, method_of, name_value, noted, op_column, opaque_op, operated, operated_chain,
    pandas_reader, part_text, passed_over, passthrough_op, placed, placed_columns, queried,
    query_columns, query_ref, reader_tables, reader_text, reads_from_path, reads_sql_text,
    reads_table_name, recorded, rename_note, renamed, renamed_all, renamed_dict, renamed_one,
    rendered, rendered_refs, resolved_table, resolved_tables, rewrites, selected, selected_one,
    selected_sql, shorter, sql_items, stated, states_columns, stepped, string_list, subset,
    text_value, unrolled, value_refs, viewed, walked, with_column, writer, written,
    DataflowResult, Flow, InferredColumn, OpaqueNote, Scope,
};
use crate::model::TransformType;
use crate::pyast::{
    key_views, span_of, unfold_call, unfold_expr, unfold_for, unfold_handler, unfold_keyword, unfold_stmt,
    PyCall, PyExpr, PyExprTree, PyFor, PyHandler, PyKeyword, PyStmt, PyStmtTree, Span,
};
use crate::python::resolve_str;
use crate::source::{byte_to_line, label, label_of};
use crate::sql::{column_lineage_from_sql, extended_new, select_expr_lineage, SqlColRef, SqlMapping};
use crate::text::{
    contains_str, group_views, opt_text, replicate_opt, replicate_vec, str_eq, to_lower,
    vec_push_new, views, Replicate,
};

verus! {

/// A table or a string that a name is bound to, where it is known.
pub(crate) struct Binding {
    pub(crate) text: Option<String>,
}

impl View for Binding {
    type V = Option<Seq<char>>;

    open(crate) spec fn view(&self) -> Option<Seq<char>> {
        opt_text(self.text)
    }
}

// ──────────────────────────── small readings ──────────────────────────

pub(crate) fn const_str(e: &PyExpr) -> (r: Option<String>)
    ensures
        opt_text(r) == const_text(e@),
{
    proof {
        unfold_expr(*e);
    }
    match e {
        PyExpr::Str(_, s) => Some(s.clone()),
        _ => None,
    }
}

pub(crate) fn arg_str(args: &Vec<PyExpr>, i: usize) -> (r: Option<String>)
    ensures
        opt_text(r) == arg_text(views(args@), i as int),
{
    if i < args.len() {
        const_str(&args[i])
    } else {
        None
    }
}

pub(crate) fn callee_final_segment(func: &PyExpr) -> (r: Option<String>)
    ensures
        opt_text(r) == final_segment(func@),
{
    proof {
        unfold_expr(*func);
    }
    match func {
        PyExpr::Name(_, n) => Some(n.clone()),
        PyExpr::Attribute(_, _, a) => Some(a.clone()),
        _ => None,
    }
}

/// True when the callee ends in the segment.
pub(crate) fn call_is(c: &PyCall, seg: &str) -> (r: bool)
    ensures
        r == calls(c@, seg@),
{
    proof {
        unfold_call(*c);
        unfold_expr(*c.func);
    }
    match &*c.func {
        PyExpr::Name(_, n) => str_eq(n.as_str(), seg),
        PyExpr::Attribute(_, _, a) => str_eq(a.as_str(), seg),
        _ => false,
    }
}

fn is_literalish(e: &PyExpr) -> (r: bool)
    ensures
        r == is_literal(e@),
{
    proof {
        unfold_expr(*e);
    }
    match e {
        PyExpr::Str(_, _) => true,
        PyExpr::NoneLiteral(_) => true,
        PyExpr::Literal(_) => true,
        _ => false,
    }
}

fn is_pure_colref(e: &PyExpr) -> (r: bool)
    ensures
        r == is_pure_ref(e@),
{
    proof {
        unfold_expr(*e);
    }
    match e {
        PyExpr::Subscript(_, _, _) => true,
        PyExpr::Attribute(_, _, _) => true,
        PyExpr::Call(c) => {
            proof {
                unfold_call(*c);
            }
            call_is(c, "col") || call_is(c, "column")
        },
        _ => false,
    }
}

fn innermost_name(e: &PyExpr) -> (r: Option<String>)
    ensures
        opt_text(r) == innermost(e@),
    decreases e,
{
    proof {
        unfold_expr(*e);
    }
    match e {
        PyExpr::Name(_, n) => Some(n.clone()),
        PyExpr::Attribute(_, v, _) => innermost_name(v),
        PyExpr::Call(c) => {
            assert(decreases_to!(e => c));
            assert(decreases_to!(c => c.func));
            innermost_name(&c.func)
        },
        PyExpr::Subscript(_, v, _) => innermost_name(v),
        _ => None,
    }
}

fn text_list(elts: &Vec<PyExpr>) -> (r: Option<Vec<String>>)
    ensures
        match r {
            Some(v) => all_texts(views(elts@)) == Some(views(v@)),
            None => all_texts(views(elts@)) is None,
        },
{
    let ghost ev = views(elts@);
    let mut out: Vec<String> = Vec::new();
    let mut i: usize = 0;
    while i < elts.len()
        invariant
            i <= elts@.len(),
            ev == views(elts@),
            out@.len() == i,
            forall|k: int| 0 <= k < i ==> #[trigger] ev[k] is Str,
            forall|k: int| 0 <= k < i ==> (#[trigger] out@[k])@ == ev[k]->Str_1,
        decreases elts@.len() - i,
    {
        proof {
            unfold_expr(elts@[i as int]);
        }
        match &elts[i] {
            PyExpr::Str(_, s) => {
                assert(ev[i as int] is Str);
                out.push(s.clone());
            },
            _ => {
                assert(!(ev[i as int] is Str));
                return None;
            },
        }
        i = i + 1;
    }
    if out.len() == 0 {
        None
    } else {
        assert(views(out@) =~= all_texts(ev)->Some_0);
        Some(out)
    }
}

fn list_of_strings(e: &PyExpr) -> (r: Option<Vec<String>>)
    ensures
        match r {
            Some(v) => string_list(e@) == Some(views(v@)),
            None => string_list(e@) is None,
        },
{
    proof {
        unfold_expr(*e);
    }
    match e {
        PyExpr::List(_, v) => text_list(v),
        PyExpr::Tuple(_, v) => text_list(v),
        _ => None,
    }
}

/// The method calls of a chain, innermost first.
fn unwind<'e>(e: &'e PyExpr) -> (r: Vec<&'e PyCall>)
    ensures
        views(r@) == chain_calls(e@),
        forall|i: int| 0 <= i < r@.len() ==> method_call(#[trigger] r@[i]),
    decreases e,
{
    broadcast use group_views;

    proof {
        unfold_expr(*e);
    }
    if let PyExpr::Call(c) = e {
        proof {
            unfold_call(*c);
            unfold_expr(*c.func);
        }
        if let PyExpr::Attribute(_, v, _) = &*c.func {
            assert(decreases_to!(e => c));
            assert(decreases_to!(c => c.func));
            assert(decreases_to!(c.func => v));
            let mut out = unwind(v);
            out.push(c);
            return out;
        }
    }
    Vec::new()
}

/// The text of a key of a dict display, when it is a string literal.
fn key_text(k: &Option<PyExpr>) -> (r: Option<String>)
    ensures
        match r {
            Some(s) => (k matches Some(e) && e@ matches PyExprTree::Str(_, t) && t == s@),
            None => !(k matches Some(e) && e@ is Str),
        },
{
    match k {
        Some(e) => {
            proof {
                unfold_expr(*e);
            }
            const_str(e)
        },
        None => None,
    }
}

/// True when the call is a method call.
spec fn method_call(c: &PyCall) -> bool {
    *c.func is Attribute
}

fn receiver<'e>(e: &'e PyExpr) -> (r: &'e PyExpr)
    ensures
        r@ == chain_base(e@),
    decreases e,
{
    proof {
        unfold_expr(*e);
    }
    if let PyExpr::Call(c) = e {
        proof {
            unfold_call(*c);
            unfold_expr(*c.func);
        }
        if let PyExpr::Attribute(_, v, _) = &*c.func {
            assert(decreases_to!(e => c));
            assert(decreases_to!(c => c.func));
            assert(decreases_to!(c.func => v));
            return receiver(v);
        }
    }
    e
}

fn method<'e>(c: &'e PyCall) -> (r: &'e str)
    ensures
        r@ == method_of(c@),
{
    proof {
        unfold_call(*c);
        unfold_expr(*c.func);
        reveal_strlit("");
        assert(""@ =~= Seq::<char>::empty());
    }
    match &*c.func {
        PyExpr::Attribute(_, _, a) => a.as_str(),
        _ => "",
    }
}

fn any_subscript_target(t: &Vec<PyExpr>) -> (r: bool)
    ensures
        r == any_subscript(views(t@)),
{
    let ghost tv = views(t@);
    let mut i: usize = 0;
    while i < t.len()
        invariant
            i <= t@.len(),
            tv == views(t@),
            forall|k: int| 0 <= k < i ==> !(#[trigger] tv[k] is Subscript),
        decreases t@.len() - i,
    {
        proof {
            unfold_expr(t@[i as int]);
        }
        if let PyExpr::Subscript(_, _, _) = &t[i] {
            assert(tv[i as int] is Subscript);
            return true;
        }
        assert(!(tv[i as int] is Subscript));
        i = i + 1;
    }
    false
}

/// True when an operation that makes columns is called in a chain.
fn chain_rewrites(e: &PyExpr, opaque: bool) -> (r: bool)
    ensures
        r == rewrites(e@, opaque),
    decreases e,
{
    proof {
        unfold_expr(*e);
    }
    match e {
        PyExpr::Call(c) => {
            proof {
                unfold_call(*c);
            }
            let seg = method(c);
            if column_op(seg) || (opaque && opaque_op(seg)) {
                return true;
            }
            assert(decreases_to!(e => c));
            assert(decreases_to!(c => c.func));
            chain_rewrites(&c.func, opaque)
        },
        PyExpr::Attribute(_, v, _) => chain_rewrites(v, opaque),
        PyExpr::Subscript(_, v, _) => chain_rewrites(v, opaque),
        _ => false,
    }
}

fn is_subscript(e: &PyExpr) -> (r: bool)
    ensures
        r == (e@ is Subscript),
{
    proof {
        unfold_expr(*e);
    }
    match e {
        PyExpr::Subscript(_, _, _) => true,
        _ => false,
    }
}

fn render(r: &SqlColRef) -> (s: String)
    ensures
        s@ == rendered(r@),
{
    match &r.table {
        Some(t) => {
            let mut s = t.clone();
            s.append(".");
            s.append(r.column.as_str());
            s
        },
        None => r.column.clone(),
    }
}

/// The references of a SQL expression.
fn expr_fragment_refs(frag: &str) -> (r: Vec<SqlColRef>)
    ensures
        views(r@) == fragment_refs(frag@),
{
    broadcast use group_views;

    let mut item = frag.to_owned();
    item.append(" AS __tw_expr");
    let ms = select_expr_lineage(item.as_str());
    let mut out: Vec<SqlColRef> = Vec::new();
    let mut i: usize = 0;
    while i < ms.len()
        invariant
            i <= ms@.len(),
            views(out@) == mapping_refs(views(ms@), i as int),
        decreases ms@.len() - i,
    {
        broadcast use group_views;

        let mut more = replicate_vec(&ms[i].sources);
        let ghost before = out@;
        out.append(&mut more);
        i = i + 1;
    }
    out
}

// ────────────────────────────── the analyzer ──────────────────────────

pub(crate) struct Analyzer<'a> {
    consts: &'a StrMap<String>,
    source: &'a str,
    frames: StrMap<Binding>,
    locals: StrMap<Binding>,
    loop_var: Option<(String, String)>,
    columns: Vec<(String, InferredColumn)>,
    writes: StrMap<Binding>,
    temp_views: StrMap<Binding>,
    opaque: Vec<OpaqueNote>,
    inputs: Vec<String>,
    outputs: Vec<String>,
    engine: Option<String>,
}

/// The parameter of a row lambda and its table.
type Row = Option<(String, Option<String>)>;

spec fn row_view(r: Row) -> Option<(Seq<char>, Option<Seq<char>>)> {
    match r {
        Some((p, t)) => Some((p@, opt_text(t))),
        None => None,
    }
}

spec fn pair_view(r: Option<(String, String)>) -> Option<(Seq<char>, Seq<char>)> {
    match r {
        Some((a, b)) => Some((a@, b@)),
        None => None,
    }
}

impl View for Analyzer<'_> {
    type V = Flow;

    closed spec fn view(&self) -> Flow {
        Flow {
            source: self.source@,
            scope: Scope {
                consts: self.consts@,
                frames: self.frames@,
                locals: self.locals@,
                loop_var: pair_view(self.loop_var),
                row: None,
            },
            columns: views(self.columns@),
            writes: self.writes@,
            temp_views: self.temp_views@,
            opaque: views(self.opaque@),
            inputs: views(self.inputs@),
            outputs: views(self.outputs@),
            engine: opt_text(self.engine),
        }
    }
}

impl<'a> Analyzer<'a> {
    fn note(&mut self, span: Span, detail: String)
        ensures
            final(self)@ == noted(old(self)@, span, detail@),
    {
        broadcast use group_views;

        let line = Some(byte_to_line(self.source, span.start));
        self.opaque.push(OpaqueNote { line, detail });
    }

    fn push_column(&mut self, owner: &str, c: InferredColumn)
        ensures
            final(self)@ == with_column(old(self)@, owner@, c@),
    {
        broadcast use group_views;

        self.columns.push((owner.to_owned(), c));
    }

    fn set(&mut self, var: &str, table: Option<String>, text: Option<String>)
        ensures
            final(self)@ == bound(old(self)@, var@, opt_text(table), opt_text(text)),
    {
        self.frames.insert(var.to_owned(), Binding { text: table });
        self.locals.insert(var.to_owned(), Binding { text });
    }

    fn see_engine(&mut self, engine: &str)
        ensures
            final(self)@ == engine_seen(old(self)@, engine@),
    {
        if self.engine.is_none() {
            self.engine = Some(engine.to_owned());
        }
    }

    fn table_of(&self, id: &str) -> (r: Option<String>)
        ensures
            opt_text(r) == frame_table(self@.scope, id@),
    {
        match self.frames.get(id) {
            Some(b) => replicate_opt(&b.text),
            None => None,
        }
    }

    fn base_table_of(&self, row: &Row, id: &str) -> (r: Option<Option<String>>)
        ensures
            match r {
                Some(t) => base_table(Scope { row: row_view(*row), ..self@.scope }, id@) == Some(
                    opt_text(t),
                ),
                None => base_table(Scope { row: row_view(*row), ..self@.scope }, id@) is None,
            },
    {
        match self.frames.get(id) {
            Some(b) => Some(replicate_opt(&b.text)),
            None => match row {
                Some((param, table)) => if str_eq(param.as_str(), id) {
                    Some(replicate_opt(table))
                } else {
                    None
                },
                None => None,
            },
        }
    }

    fn value_of(&self, id: &str) -> (r: Option<String>)
        ensures
            opt_text(r) == name_value(self@.scope, id@),
    {
        if let Some((var, value)) = &self.loop_var {
            if str_eq(var.as_str(), id) {
                return Some(value.clone());
            }
        }
        match self.locals.get(id) {
            Some(b) => replicate_opt(&b.text),
            None => match self.consts.get(id) {
                Some(s) => Some(s.clone()),
                None => None,
            },
        }
    }

    fn column_name(&self, row: &Row, e: &PyExpr) -> (r: Option<String>)
        ensures
            opt_text(r) == col_name(Scope { row: row_view(*row), ..self@.scope }, e@),
    {
        proof {
            unfold_expr(*e);
        }
        match e {
            PyExpr::Str(_, s) => Some(s.clone()),
            PyExpr::Name(_, n) => {
                let v = self.value_of(n.as_str());
                assert(opt_text(v) == name_value(
                    Scope { row: row_view(*row), ..self@.scope },
                    n@,
                ));
                v
            },
            _ => None,
        }
    }

    fn part(&self, e: &PyExpr) -> (r: String)
        ensures
            r@ == part_text(self@.scope, e@),
    {
        proof {
            unfold_expr(*e);
        }
        match e {
            PyExpr::Str(_, s) => s.clone(),
            PyExpr::Formatted(_, v) => {
                proof {
                    unfold_expr(**v);
                }
                match &**v {
                    PyExpr::Name(_, n) => match self.value_of(n.as_str()) {
                        Some(s) => s,
                        None => "tw_tmpl".to_owned(),
                    },
                    PyExpr::Str(_, s) => s.clone(),
                    _ => "tw_tmpl".to_owned(),
                }
            },
            _ => "tw_tmpl".to_owned(),
        }
    }

    /// The text that an expression stands for.
    fn text(&self, e: &PyExpr) -> (r: Option<String>)
        ensures
            opt_text(r) == text_value(self@.scope, e@),
    {
        proof {
            unfold_expr(*e);
        }
        match e {
            PyExpr::Str(_, s) => Some(s.clone()),
            PyExpr::Name(_, n) => self.value_of(n.as_str()),
            PyExpr::FString(_, parts) => {
                let mut out = String::new();
                let mut i: usize = 0;
                while i < parts.len()
                    invariant
                        i <= parts@.len(),
                        out@ == folded(self@.scope, views(parts@), i as int),
                    decreases parts@.len() - i,
                {
                    assert(views(parts@)[i as int] == parts@[i as int]@);
                    let p = self.part(&parts[i]);
                    out.append(p.as_str());
                    i = i + 1;
                }
                Some(out)
            },
            _ => None,
        }
    }

    fn first_text(&self, args: &Vec<PyExpr>) -> (r: Option<String>)
        ensures
            opt_text(r) == first_text_value(self@.scope, views(args@)),
    {
        if args.len() > 0 {
            assert(views(args@)[0] == args@[0]@);
            self.text(&args[0])
        } else {
            None
        }
    }

    /// Adds the column references of an expression.
    fn collect_cols(&self, row: &Row, expr: &PyExpr, out: &mut Vec<SqlColRef>)
        ensures
            views(final(out)@) == cols_of(
                Scope { row: row_view(*row), ..self@.scope },
                expr@,
                views(old(out)@),
            ),
        decreases expr,
    {
        broadcast use group_views;

        proof {
            unfold_expr(*expr);
        }
        match expr {
            PyExpr::Subscript(_, v, s) => {
                proof {
                    unfold_expr(**v);
                }
                match &**v {
                    PyExpr::Name(_, n) => {
                        let base = self.base_table_of(row, n.as_str());
                        let name = self.column_name(row, s);
                        if let Some(table) = base {
                            if let Some(column) = name {
                                out.push(SqlColRef { table, column });
                            }
                        }
                    },
                    _ => {
                        self.collect_cols(row, v, out);
                    },
                }
            },
            PyExpr::Attribute(_, v, a) => {
                proof {
                    unfold_expr(**v);
                }
                match &**v {
                    PyExpr::Name(_, n) => {
                        if let Some(table) = self.base_table_of(row, n.as_str()) {
                            if !df_method(a.as_str()) {
                                out.push(SqlColRef { table, column: a.clone() });
                            }
                        }
                    },
                    _ => {
                        self.collect_cols(row, v, out);
                    },
                }
            },
            PyExpr::Call(c) => {
                assert(decreases_to!(expr => c));
                self.collect_call_cols(row, c, out);
            },
            PyExpr::BinOp(_, l, r) => {
                self.collect_cols(row, l, out);
                self.collect_cols(row, r, out);
            },
            PyExpr::UnaryOp(_, o) => {
                self.collect_cols(row, o, out);
            },
            PyExpr::Compare(_, l, v) => {
                self.collect_cols(row, l, out);
                self.collect_list_cols(row, v, out);
            },
            PyExpr::List(_, v) => {
                self.collect_list_cols(row, v, out);
            },
            PyExpr::Tuple(_, v) => {
                self.collect_list_cols(row, v, out);
            },
            _ => {},
        }
    }

    fn collect_call_cols(&self, row: &Row, c: &PyCall, out: &mut Vec<SqlColRef>)
        ensures
            views(final(out)@) == cols_of(
                Scope { row: row_view(*row), ..self@.scope },
                PyExprTree::Call(c@),
                views(old(out)@),
            ),
        decreases c,
    {
        broadcast use group_views;

        proof {
            unfold_call(*c);
            unfold_expr(*c.func);
            if c.args@.len() > 0 {
                unfold_expr(c.args@[0]);
                assert(views(c.args@)[0] == c.args@[0]@);
            }
        }
        if c.args.len() == 1 {
            if let PyExpr::Str(_, s) = &c.args[0] {
                if call_is(c, "col") || call_is(c, "column") {
                    out.push(SqlColRef { table: None, column: s.clone() });
                    return;
                }
                if call_is(c, "expr") {
                    let mut refs = expr_fragment_refs(s.as_str());
                    out.append(&mut refs);
                    return;
                }
            }
        }
        if let PyExpr::Attribute(_, v, _) = &*c.func {
            assert(decreases_to!(c => c.func));
            assert(decreases_to!(c.func => v));
            self.collect_cols(row, v, out);
        }
        assert(decreases_to!(c => c.args));
        assert(decreases_to!(c => c.keywords));
        self.collect_list_cols(row, &c.args, out);
        self.collect_keyword_cols(row, &c.keywords, out);
    }

    fn collect_list_cols(&self, row: &Row, v: &Vec<PyExpr>, out: &mut Vec<SqlColRef>)
        ensures
            views(final(out)@) == list_cols(
                Scope { row: row_view(*row), ..self@.scope },
                views(v@),
                v@.len() as int,
                views(old(out)@),
            ),
        decreases v,
    {
        let ghost start = views(out@);
        let ghost sc = Scope { row: row_view(*row), ..self@.scope };
        let mut i: usize = 0;
        while i < v.len()
            invariant
                i <= v@.len(),
                sc == (Scope { row: row_view(*row), ..self@.scope }),
                views(out@) == list_cols(sc, views(v@), i as int, start),
            decreases v@.len() - i,
        {
            assert(decreases_to!(v => v@[i as int]));
            assert(views(v@)[i as int] == v@[i as int]@);
            self.collect_cols(row, &v[i], out);
            i = i + 1;
        }
    }

    fn collect_keyword_cols(&self, row: &Row, k: &Vec<PyKeyword>, out: &mut Vec<SqlColRef>)
        ensures
            views(final(out)@) == keyword_cols(
                Scope { row: row_view(*row), ..self@.scope },
                views(k@),
                k@.len() as int,
                views(old(out)@),
            ),
        decreases k,
    {
        let ghost start = views(out@);
        let ghost sc = Scope { row: row_view(*row), ..self@.scope };
        let mut i: usize = 0;
        while i < k.len()
            invariant
                i <= k@.len(),
                sc == (Scope { row: row_view(*row), ..self@.scope }),
                views(out@) == keyword_cols(sc, views(k@), i as int, start),
            decreases k@.len() - i,
        {
            proof {
                unfold_keyword(k@[i as int]);
            }
            assert(decreases_to!(k => k@[i as int]));
            assert(decreases_to!(k@[i as int] => k@[i as int].value));
            assert(views(k@)[i as int] == k@[i as int]@);
            self.collect_cols(row, &k[i].value, out);
            i = i + 1;
        }
    }

    /// The column references of an expression outside a row lambda.
    fn cols(&self, e: &PyExpr) -> (r: Vec<SqlColRef>)
        ensures
            views(r@) == cols_of(self@.scope, e@, Seq::empty()),
    {
        broadcast use group_views;

        let mut out: Vec<SqlColRef> = Vec::new();
        self.collect_cols(&None, e, &mut out);
        assert((Scope { row: row_view(None), ..self@.scope }) == self@.scope);
        out
    }

    fn label_text(&self, e: &PyExpr) -> (r: String)
        ensures
            r@ == label_of(self@.source, span_of(e@)),
    {
        label(self.source, e.span())
    }

    fn classify(&self, e: &PyExpr, srcs: &Vec<SqlColRef>) -> (r: TransformType)
        ensures
            r == flow_kind(self@.source, e@, views(srcs@)),
    {
        if srcs.len() == 1 && is_pure_colref(e) {
            return TransformType::Identity;
        }
        let text = self.label_text(e);
        let lower = to_lower(text.as_str());
        let l = lower.as_str();
        if contains_str(l, "sum(") || contains_str(l, "mean(") || contains_str(l, "avg(")
            || contains_str(l, "count(") || contains_str(l, "min(") || contains_str(l, "max(")
            || contains_str(l, ".agg(") || contains_str(l, "groupby") {
            return TransformType::Aggregation;
        }
        TransformType::Transformation
    }
}

impl<'a> Analyzer<'a> {
    /// Adds a column made by an operation on a frame; sources without a table
    /// belong to the base table.
    fn push_op_col(
        &mut self,
        owner: &str,
        target: String,
        srcs: &Vec<SqlColRef>,
        table: &Option<String>,
        kind: TransformType,
        function: Option<String>,
    )
        ensures
            final(self)@ == op_column(
                old(self)@,
                owner@,
                target@,
                views(srcs@),
                opt_text(*table),
                kind,
                opt_text(function),
            ),
    {
        let ghost sv = views(srcs@);
        let ghost tv = opt_text(*table);
        let mut sources: Vec<String> = Vec::new();
        let mut i: usize = 0;
        while i < srcs.len()
            invariant
                i <= srcs@.len(),
                sv == views(srcs@),
                tv == opt_text(*table),
                sources@.len() == i,
                forall|k: int|
                    0 <= k < i ==> (#[trigger] sources@[k])@ == rendered(defaulted(sv[k], tv)),
            decreases srcs@.len() - i,
        {
            let own = replicate_opt(&srcs[i].table);
            let with_table = match own {
                Some(t) => Some(t),
                None => replicate_opt(table),
            };
            let r = SqlColRef { table: with_table, column: srcs[i].column.clone() };
            assert(r@ == defaulted(sv[i as int], tv));
            sources.push(render(&r));
            i = i + 1;
        }
        assert(views(sources@) =~= rendered_refs(sv, tv));
        self.push_column(
            owner,
            InferredColumn {
                sources,
                target,
                function,
                transform_type: kind,
                output_table: None,
            },
        );
    }

    /// Adds a column of the base table.
    fn push_base_col(
        &mut self,
        owner: &str,
        target: String,
        column: &str,
        table: &Option<String>,
        kind: TransformType,
        function: Option<String>,
    )
        ensures
            final(self)@ == op_column(
                old(self)@,
                owner@,
                target@,
                base_ref(opt_text(*table), column@),
                opt_text(*table),
                kind,
                opt_text(function),
            ),
    {
        let mut srcs: Vec<SqlColRef> = Vec::new();
        srcs.push(SqlColRef { table: replicate_opt(table), column: column.to_owned() });
        assert(views(srcs@) =~= base_ref(opt_text(*table), column@));
        self.push_op_col(owner, target, &srcs, table, kind, function);
    }

    fn refs_of_value(&self, value: &PyExpr) -> (r: Vec<SqlColRef>)
        ensures
            views(r@) == value_refs(self@.scope, value@),
    {
        broadcast use group_views;

        proof {
            unfold_expr(*value);
        }
        if let PyExpr::Call(c) = value {
            proof {
                unfold_call(*c);
                unfold_expr(*c.func);
            }
            if let PyExpr::Attribute(_, v, a) = &*c.func {
                if str_eq(a.as_str(), "apply") {
                    let table = match innermost_name(v) {
                        Some(n) => self.table_of(n.as_str()),
                        None => None,
                    };
                    let mut out: Vec<SqlColRef> = Vec::new();
                    if c.args.len() > 0 {
                        proof {
                            unfold_expr(c.args@[0]);
                            assert(views(c.args@)[0] == c.args@[0]@);
                        }
                        if let PyExpr::Lambda(_, Some(param), body) = &c.args[0] {
                            let row: Row = Some((param.clone(), table));
                            self.collect_cols(&row, body, &mut out);
                        }
                    }
                    return out;
                }
            }
        }
        self.cols(value)
    }

    /// `owner["col"] = value`
    fn record_column(&mut self, owner: &str, col: String, value: &PyExpr)
        ensures
            final(self)@ == recorded(old(self)@, owner@, col@, value@),
    {
        let srcs = self.refs_of_value(value);
        let ghost sv = views(srcs@);
        if srcs.len() == 0 && !is_literalish(value) {
            let mut d = "couldn't trace sources of `".to_owned();
            d.append(owner);
            d.append("[\"");
            d.append(col.as_str());
            d.append("\"]` — declare it in column_map");
            self.note(value.span(), d);
            return;
        }
        let kind = self.classify(value, &srcs);
        let mut sources: Vec<String> = Vec::new();
        let mut i: usize = 0;
        while i < srcs.len()
            invariant
                i <= srcs@.len(),
                sv == views(srcs@),
                sources@.len() == i,
                forall|k: int| 0 <= k < i ==> (#[trigger] sources@[k])@ == rendered(sv[k]),
            decreases srcs@.len() - i,
        {
            sources.push(render(&srcs[i]));
            i = i + 1;
        }
        assert(views(sources@) =~= Seq::new(sv.len(), |k: int| rendered(sv[k])));
        let function = Some(self.label_text(value));
        let output_table = self.table_of(owner);
        self.push_column(
            owner,
            InferredColumn { sources, target: col, function, transform_type: kind, output_table },
        );
    }

    fn push_subset(&mut self, var: &str, table: &Option<String>, cols: &Vec<String>)
        ensures
            final(self)@ == subset(
                old(self)@,
                var@,
                opt_text(*table),
                views(cols@),
                cols@.len() as int,
            ),
    {
        let ghost start = self@;
        let mut i: usize = 0;
        while i < cols.len()
            invariant
                i <= cols@.len(),
                self@ == subset(start, var@, opt_text(*table), views(cols@), i as int),
            decreases cols@.len() - i,
        {
            let r = SqlColRef { table: replicate_opt(table), column: cols[i].clone() };
            let mut sources: Vec<String> = Vec::new();
            sources.push(render(&r));
            assert(views(sources@) =~= seq![rendered(r@)]);
            self.push_column(
                var,
                InferredColumn {
                    sources,
                    target: cols[i].clone(),
                    function: None,
                    transform_type: TransformType::Identity,
                    output_table: None,
                },
            );
            i = i + 1;
        }
    }

    fn resolve_table(&self, name: &str) -> (r: String)
        ensures
            r@ == resolved_table(self@, name@),
    {
        match self.temp_views.get(name) {
            Some(b) => match &b.text {
                Some(t) => t.clone(),
                None => name.to_owned(),
            },
            None => name.to_owned(),
        }
    }

    fn resolve_tables(&self, names: &Vec<String>) -> (r: Vec<String>)
        ensures
            views(r@) == resolved_tables(self@, views(names@)),
    {
        let mut out: Vec<String> = Vec::new();
        let mut i: usize = 0;
        while i < names.len()
            invariant
                i <= names@.len(),
                out@.len() == i,
                forall|k: int|
                    0 <= k < i ==> (#[trigger] out@[k])@ == resolved_table(
                        self@,
                        views(names@)[k],
                    ),
            decreases names@.len() - i,
        {
            out.push(self.resolve_table(names[i].as_str()));
            i = i + 1;
        }
        assert(views(out@) =~= resolved_tables(self@, views(names@)));
        out
    }

    fn add_inputs(&mut self, tables: &Vec<String>)
        ensures
            final(self)@ == (Flow {
                inputs: extended_new(old(self)@.inputs, views(tables@), tables@.len() as int),
                ..old(self)@
            }),
    {
        let ghost start = self@;
        let mut i: usize = 0;
        while i < tables.len()
            invariant
                i <= tables@.len(),
                self@ == (Flow {
                    inputs: extended_new(start.inputs, views(tables@), i as int),
                    ..start
                }),
            decreases tables@.len() - i,
        {
            vec_push_new(&mut self.inputs, tables[i].clone());
            i = i + 1;
        }
    }

    /// The tables that a reader call reads.
    fn tables_read(&self, seg: &str, c: &PyCall) -> (r: Vec<String>)
        ensures
            views(r@) == reader_tables(self@, seg@, c@),
    {
        broadcast use group_views;

        proof {
            unfold_call(*c);
        }
        let text = if str_eq(seg, "sql") {
            self.first_text(&c.args)
        } else if c.args.len() > 0 {
            assert(views(c.args@)[0] == c.args@[0]@);
            resolve_str(&c.args[0], self.consts)
        } else {
            None
        };
        assert(opt_text(text) == reader_text(self@, seg@, c@));
        match text {
            Some(t) => if reads_sql_text(seg) {
                match column_lineage_from_sql(t.as_str()) {
                    Ok(l) => self.resolve_tables(&l.source_tables),
                    Err(_) => Vec::new(),
                }
            } else if reads_table_name(seg) {
                let mut out: Vec<String> = Vec::new();
                out.push(self.resolve_table(t.as_str()));
                assert(views(out@) =~= seq![resolved_table(self@, t@)]);
                out
            } else {
                Vec::new()
            },
            None => Vec::new(),
        }
    }

    fn group_key_names(&self, args: &Vec<PyExpr>) -> (r: Vec<String>)
        ensures
            views(r@) == group_names(self@.scope, views(args@), args@.len() as int),
    {
        broadcast use group_views;

        let mut out: Vec<String> = Vec::new();
        let mut i: usize = 0;
        while i < args.len()
            invariant
                i <= args@.len(),
                views(out@) == group_names(self@.scope, views(args@), i as int),
            decreases args@.len() - i,
        {
            broadcast use group_views;

            assert(views(args@)[i as int] == args@[i as int]@);
            match const_str(&args[i]) {
                Some(s) => {
                    out.push(s);
                },
                None => {
                    let refs = self.cols(&args[i]);
                    let ghost rv = views(refs@);
                    let ghost before = views(out@);
                    let mut j: usize = 0;
                    while j < refs.len()
                        invariant
                            j <= refs@.len(),
                            rv == views(refs@),
                            views(out@) == before + Seq::new(j as nat, |k: int| rv[k].column),
                        decreases refs@.len() - j,
                    {
                        broadcast use group_views;

                        out.push(refs[j].column.clone());
                        j = j + 1;
                        assert(views(out@) =~= before + Seq::new(
                            j as nat,
                            |k: int| rv[k].column,
                        ));
                    }
                },
            }
            i = i + 1;
        }
        out
    }

    /// `.groupby("k")`: the keys pass through.
    fn collect_group_keys(&mut self, owner: &str, c: &PyCall, table: &Option<String>)
        ensures
            final(self)@ == keyed(old(self)@, owner@, c@, opt_text(*table)),
    {
        proof {
            unfold_call(*c);
        }
        let names = self.group_key_names(&c.args);
        let ghost start = self@;
        let mut i: usize = 0;
        while i < names.len()
            invariant
                i <= names@.len(),
                self@ == grouped(start, owner@, views(names@), opt_text(*table), i as int),
            decreases names@.len() - i,
        {
            self.push_base_col(
                owner,
                names[i].clone(),
                names[i].as_str(),
                table,
                TransformType::Identity,
                None,
            );
            i = i + 1;
        }
        self.note_keys(&c.args);
        self.note_by(&c.keywords);
    }

    fn flag_key(&mut self, span: Span)
        ensures
            final(self)@ == key_note(old(self)@, span),
    {
        self.note(
            span,
            "a key of groupby(…) is not a literal column name — declare it in column_map".to_owned(),
        );
    }

    /// Notes the grouping arguments that name no column.
    fn note_keys(&mut self, args: &Vec<PyExpr>)
        ensures
            final(self)@ == keys_noted(old(self)@, views(args@), args@.len() as int),
    {
        let ghost start = self@;
        let mut i: usize = 0;
        while i < args.len()
            invariant
                i <= args@.len(),
                self@ == keys_noted(start, views(args@), i as int),
                self@.scope == start.scope,
            decreases args@.len() - i,
        {
            assert(views(args@)[i as int] == args@[i as int]@);
            if const_str(&args[i]).is_none() && self.cols(&args[i]).len() == 0 {
                self.flag_key(args[i].span());
            }
            i = i + 1;
        }
    }

    /// Notes the keywords that give grouping keys.
    fn note_by(&mut self, k: &Vec<PyKeyword>)
        ensures
            final(self)@ == by_noted(old(self)@, views(k@), k@.len() as int),
    {
        let ghost start = self@;
        let mut i: usize = 0;
        while i < k.len()
            invariant
                i <= k@.len(),
                self@ == by_noted(start, views(k@), i as int),
            decreases k@.len() - i,
        {
            proof {
                unfold_keyword(k@[i as int]);
            }
            assert(views(k@)[i as int] == k@[i as int]@);
            if keyword_is(&k[i], "by") {
                self.flag_key(k[i].value.span());
            }
            i = i + 1;
        }
    }

    fn flag_agg(&mut self, span: Span)
        ensures
            final(self)@ == agg_note(old(self)@, span),
    {
        self.note(
            span,
            "an aggregation without a literal column name — declare it in column_map".to_owned(),
        );
    }

    fn flag_alias(&mut self, span: Span)
        ensures
            final(self)@ == alias_note(old(self)@, span),
    {
        self.note(
            span,
            "`.alias(…)` has a non-literal name — declare it in column_map".to_owned(),
        );
    }

    fn apply_agg_dict(
        &mut self,
        owner: &str,
        keys: &Vec<Option<PyExpr>>,
        values: &Vec<PyExpr>,
        table: &Option<String>,
    )
        ensures
            final(self)@ == agg_dict(
                old(self)@,
                owner@,
                key_views(keys@),
                views(values@),
                opt_text(*table),
                shorter(keys@.len(), values@.len()),
            ),
    {
        let ghost start = self@;
        let mut i: usize = 0;
        while i < keys.len() && i < values.len()
            invariant
                i <= keys@.len(),
                i <= values@.len(),
                self@ == agg_dict(
                    start,
                    owner@,
                    key_views(keys@),
                    views(values@),
                    opt_text(*table),
                    i as int,
                ),
            decreases keys@.len() - i,
        {
            assert(views(values@)[i as int] == values@[i as int]@);
            match key_text(&keys[i]) {
                Some(col) => {
                    let func = match const_str(&values[i]) {
                        Some(s) => s,
                        None => "agg".to_owned(),
                    };
                    self.push_base_col(
                        owner,
                        col.clone(),
                        col.as_str(),
                        table,
                        TransformType::Aggregation,
                        Some(func),
                    );
                },
                None => {
                    self.flag_agg(values[i].span());
                },
            }
            i = i + 1;
        }
    }

    fn apply_agg_named(&mut self, owner: &str, k: &Vec<PyKeyword>, table: &Option<String>)
        ensures
            final(self)@ == agg_named(
                old(self)@,
                owner@,
                views(k@),
                opt_text(*table),
                k@.len() as int,
            ),
    {
        let ghost start = self@;
        let mut i: usize = 0;
        while i < k.len()
            invariant
                i <= k@.len(),
                self@ == agg_named(start, owner@, views(k@), opt_text(*table), i as int),
            decreases k@.len() - i,
        {
            proof {
                unfold_keyword(k@[i as int]);
                unfold_expr(k@[i as int].value);
            }
            assert(views(k@)[i as int] == k@[i as int]@);
            let mut col: Option<(String, String)> = None;
            if let PyExpr::Tuple(_, t) = &k[i].value {
                if let Some(c) = arg_str(t, 0) {
                    let func = match arg_str(t, 1) {
                        Some(s) => s,
                        None => "agg".to_owned(),
                    };
                    col = Some((c, func));
                }
            }
            match (&k[i].name, col) {
                (Some(name), Some((c, func))) => {
                    self.push_base_col(
                        owner,
                        name.clone(),
                        c.as_str(),
                        table,
                        TransformType::Aggregation,
                        Some(func),
                    );
                },
                _ => {
                    self.flag_agg(k[i].value.span());
                },
            }
            i = i + 1;
        }
    }

    fn apply_agg_aliased(&mut self, owner: &str, args: &Vec<PyExpr>, table: &Option<String>)
        ensures
            final(self)@ == agg_aliased(
                old(self)@,
                owner@,
                views(args@),
                opt_text(*table),
                args@.len() as int,
            ),
    {
        let ghost start = self@;
        let mut i: usize = 0;
        while i < args.len()
            invariant
                i <= args@.len(),
                self@ == agg_aliased(start, owner@, views(args@), opt_text(*table), i as int),
                self@.scope == start.scope,
                self@.source == start.source,
            decreases args@.len() - i,
        {
            proof {
                unfold_expr(args@[i as int]);
            }
            assert(views(args@)[i as int] == args@[i as int]@);
            if let PyExpr::Call(c) = &args[i] {
                proof {
                    unfold_call(*c);
                }
                if call_is(c, "alias") {
                    if let Some((v, name)) = alias_parts(c) {
                        let srcs = self.cols(v);
                        let text = self.label_text(v);
                        self.push_op_col(
                            owner,
                            name,
                            &srcs,
                            table,
                            TransformType::Aggregation,
                            Some(text),
                        );
                    } else {
                        self.flag_alias(c.span);
                    }
                } else {
                    self.note(
                        c.span,
                        "aggregate without .alias() — name it (.alias(\"x\")) or declare it".to_owned(),
                    );
                }
            } else {
                let dict = match &args[i] {
                    PyExpr::Dict(_, _, _) => true,
                    _ => false,
                };
                if !(i == 0 && dict) {
                    self.flag_agg(args[i].span());
                }
            }
            i = i + 1;
        }
    }

    /// `.agg(…)`: a dict, named aggregations, or aliased expressions.
    fn apply_agg(&mut self, owner: &str, c: &PyCall, table: &Option<String>)
        ensures
            final(self)@ == aggregated(old(self)@, owner@, c@, opt_text(*table)),
    {
        proof {
            unfold_call(*c);
            if c.args@.len() > 0 {
                unfold_expr(c.args@[0]);
                assert(views(c.args@)[0] == c.args@[0]@);
            }
        }
        if c.args.len() > 0 {
            if let PyExpr::Dict(_, keys, values) = &c.args[0] {
                self.apply_agg_dict(owner, keys, values, table);
            }
        }
        self.apply_agg_named(owner, &c.keywords, table);
        self.apply_agg_aliased(owner, &c.args, table);
    }

    fn apply_with_column(&mut self, owner: &str, c: &PyCall, table: &Option<String>)
        ensures
            final(self)@ == added_column(old(self)@, owner@, c@, opt_text(*table)),
    {
        proof {
            unfold_call(*c);
        }
        match arg_str(&c.args, 0) {
            Some(target) => {
                if c.args.len() > 1 {
                    assert(views(c.args@)[1] == c.args@[1]@);
                    let e = &c.args[1];
                    let srcs = self.cols(e);
                    if srcs.len() > 0 || is_literalish(e) {
                        let kind = self.classify(e, &srcs);
                        let text = self.label_text(e);
                        self.push_op_col(owner, target, &srcs, table, kind, Some(text));
                        return;
                    }
                }
                let mut d = "couldn't trace sources of withColumn(\"".to_owned();
                d.append(target.as_str());
                d.append("\", …) — declare it in column_map");
                self.note(c.span, d);
            },
            None => {
                self.note(
                    c.span,
                    "withColumn(…) has a non-literal column name — declare it in column_map".to_owned(),
                );
            },
        }
    }

    fn push_sql_items(
        &mut self,
        owner: &str,
        ms: &Vec<SqlMapping>,
        frag: &str,
        span: Span,
        table: &Option<String>,
    )
        ensures
            final(self)@ == sql_items(
                old(self)@,
                owner@,
                views(ms@),
                frag@,
                span,
                opt_text(*table),
                ms@.len() as int,
            ),
    {
        let ghost start = self@;
        let mut i: usize = 0;
        while i < ms.len()
            invariant
                i <= ms@.len(),
                self@ == sql_items(
                    start,
                    owner@,
                    views(ms@),
                    frag@,
                    span,
                    opt_text(*table),
                    i as int,
                ),
            decreases ms@.len() - i,
        {
            assert(views(ms@)[i as int] == ms@[i as int]@);
            if !ms[i].target.as_str().is_empty() {
                self.push_op_col(
                    owner,
                    ms[i].target.clone(),
                    &ms[i].sources,
                    table,
                    ms[i].transform_type,
                    Some(frag.to_owned()),
                );
            } else {
                let mut d = "selectExpr(\"".to_owned();
                d.append(frag);
                d.append("\") has no name — add AS, or declare it in column_map");
                self.note(span, d);
            }
            i = i + 1;
        }
    }

    fn apply_select_expr(&mut self, owner: &str, c: &PyCall, table: &Option<String>)
        ensures
            final(self)@ == selected_sql(
                old(self)@,
                owner@,
                c@,
                opt_text(*table),
                c@.args.len() as int,
            ),
    {
        proof {
            unfold_call(*c);
        }
        let ghost start = self@;
        let mut i: usize = 0;
        while i < c.args.len()
            invariant
                i <= c.args@.len(),
                c@.args == views(c.args@),
                c@.span == c.span,
                self@ == selected_sql(start, owner@, c@, opt_text(*table), i as int),
            decreases c.args@.len() - i,
        {
            assert(views(c.args@)[i as int] == c.args@[i as int]@);
            if let Some(frag) = const_str(&c.args[i]) {
                let ms = select_expr_lineage(frag.as_str());
                if ms.len() == 0 {
                    let mut d = "selectExpr(\"".to_owned();
                    d.append(frag.as_str());
                    d.append("\") couldn't be parsed — declare it in column_map");
                    self.note(c.span, d);
                }
                self.push_sql_items(owner, &ms, frag.as_str(), c.span, table);
            } else {
                self.note(
                    c.args[i].span(),
                    "selectExpr(…) has an argument that is not a literal — declare it in column_map".to_owned(),
                );
            }
            i = i + 1;
        }
    }

    fn apply_renamed(&mut self, owner: &str, c: &PyCall, table: &Option<String>)
        ensures
            final(self)@ == renamed_one(old(self)@, owner@, c@, opt_text(*table)),
    {
        proof {
            unfold_call(*c);
        }
        if let Some(from) = arg_str(&c.args, 0) {
            if let Some(to) = arg_str(&c.args, 1) {
                self.push_base_col(
                    owner,
                    to,
                    from.as_str(),
                    table,
                    TransformType::Identity,
                    Some("rename".to_owned()),
                );
                return;
            }
        }
        self.note(
            c.span,
            "withColumnRenamed(…) has a non-literal column name — declare it in column_map".to_owned(),
        );
    }

    fn flag_rename(&mut self, span: Span)
        ensures
            final(self)@ == rename_note(old(self)@, span),
    {
        self.note(
            span,
            "rename(…) has a non-literal column name — declare it in column_map".to_owned(),
        );
    }

    fn apply_rename_dict(
        &mut self,
        owner: &str,
        keys: &Vec<Option<PyExpr>>,
        values: &Vec<PyExpr>,
        table: &Option<String>,
    )
        ensures
            final(self)@ == renamed_dict(
                old(self)@,
                owner@,
                key_views(keys@),
                views(values@),
                opt_text(*table),
                shorter(keys@.len(), values@.len()),
            ),
    {
        let ghost start = self@;
        let mut i: usize = 0;
        while i < keys.len() && i < values.len()
            invariant
                i <= keys@.len(),
                i <= values@.len(),
                self@ == renamed_dict(
                    start,
                    owner@,
                    key_views(keys@),
                    views(values@),
                    opt_text(*table),
                    i as int,
                ),
            decreases keys@.len() - i,
        {
            assert(views(values@)[i as int] == values@[i as int]@);
            match (key_text(&keys[i]), const_str(&values[i])) {
                (Some(from), Some(to)) => {
                    self.push_base_col(
                        owner,
                        to,
                        from.as_str(),
                        table,
                        TransformType::Identity,
                        Some("rename".to_owned()),
                    );
                },
                _ => {
                    self.flag_rename(values[i].span());
                },
            }
            i = i + 1;
        }
    }

    fn apply_rename(&mut self, owner: &str, c: &PyCall, table: &Option<String>)
        ensures
            final(self)@ == renamed_all(old(self)@, owner@, c@, opt_text(*table)),
    {
        proof {
            unfold_call(*c);
        }
        let ghost start = self@;
        let mut i: usize = 0;
        while i < c.keywords.len()
            invariant
                i <= c.keywords@.len(),
                c@.keywords == views(c.keywords@),
                c@.span == c.span,
                self@ == renamed(start, owner@, c@, opt_text(*table), i as int),
            decreases c.keywords@.len() - i,
        {
            proof {
                unfold_keyword(c.keywords@[i as int]);
                unfold_expr(c.keywords@[i as int].value);
            }
            assert(views(c.keywords@)[i as int] == c.keywords@[i as int]@);
            if keyword_is(&c.keywords[i], "columns") {
                match &c.keywords[i].value {
                    PyExpr::Dict(_, keys, values) => {
                        self.apply_rename_dict(owner, keys, values, table);
                    },
                    _ => {
                        self.note(
                            c.span,
                            "rename(columns=…) is not a literal dict — declare the renames in column_map".to_owned(),
                        );
                    },
                }
            } else if c.keywords[i].name.is_none() {
                self.flag_rename(c.keywords[i].value.span());
            }
            i = i + 1;
        }
        if c.args.len() > 0 {
            self.flag_rename(c.span);
        }
    }

    fn apply_assign(&mut self, owner: &str, k: &Vec<PyKeyword>, table: &Option<String>)
        ensures
            final(self)@ == assigned_columns(
                old(self)@,
                owner@,
                views(k@),
                opt_text(*table),
                k@.len() as int,
            ),
    {
        let ghost start = self@;
        let mut i: usize = 0;
        while i < k.len()
            invariant
                i <= k@.len(),
                self@ == assigned_columns(start, owner@, views(k@), opt_text(*table), i as int),
                self@.scope == start.scope,
                self@.source == start.source,
            decreases k@.len() - i,
        {
            proof {
                unfold_keyword(k@[i as int]);
            }
            assert(views(k@)[i as int] == k@[i as int]@);
            if let Some(name) = &k[i].name {
                let srcs = self.cols(&k[i].value);
                let kind = self.classify(&k[i].value, &srcs);
                let text = self.label_text(&k[i].value);
                self.push_op_col(owner, name.clone(), &srcs, table, kind, Some(text));
            } else {
                self.note(
                    k[i].value.span(),
                    "assign(**…) has no literal column names — declare them in column_map".to_owned(),
                );
            }
            i = i + 1;
        }
    }

    /// One argument of a `select(…)`.
    fn select_item(&mut self, owner: &str, arg: &PyExpr, table: &Option<String>)
        ensures
            final(self)@ == selected_one(old(self)@, owner@, arg@, opt_text(*table)),
    {
        proof {
            unfold_expr(*arg);
        }
        if let PyExpr::Str(_, name) = arg {
            self.push_base_col(
                owner,
                name.clone(),
                name.as_str(),
                table,
                TransformType::Identity,
                None,
            );
            return;
        }
        if let PyExpr::Call(c) = arg {
            proof {
                unfold_call(*c);
            }
            if let Some((v, name)) = alias_parts(c) {
                let srcs = self.cols(v);
                let kind = if is_pure_colref(v) {
                    TransformType::Identity
                } else {
                    TransformType::Transformation
                };
                let text = self.label_text(v);
                self.push_op_col(owner, name, &srcs, table, kind, Some(text));
                return;
            }
        }
        let srcs = self.cols(arg);
        let traced = srcs.len() == 1;
        if traced {
            assert(views(srcs@)[0] == srcs@[0]@);
            let target = srcs[0].column.clone();
            self.push_op_col(owner, target, &srcs, table, TransformType::Identity, None);
        }
        if let PyExpr::Call(c) = arg {
            if str_eq(method(c), "alias") {
                self.flag_alias(c.span);
                return;
            }
        }
        if !traced {
            self.note(
                arg.span(),
                "an item of select(…) can't be traced — name a column, or declare it in column_map".to_owned(),
            );
        }
    }

    fn apply_select(&mut self, owner: &str, args: &Vec<PyExpr>, table: &Option<String>)
        ensures
            final(self)@ == selected(
                old(self)@,
                owner@,
                views(args@),
                opt_text(*table),
                args@.len() as int,
            ),
    {
        let ghost start = self@;
        let mut i: usize = 0;
        while i < args.len()
            invariant
                i <= args@.len(),
                self@ == selected(start, owner@, views(args@), opt_text(*table), i as int),
            decreases args@.len() - i,
        {
            assert(views(args@)[i as int] == args@[i as int]@);
            self.select_item(owner, &args[i], table);
            i = i + 1;
        }
    }

    /// One operation of a chain on a frame.
    fn apply_op(&mut self, owner: &str, c: &PyCall, table: &Option<String>)
        ensures
            final(self)@ == operated(old(self)@, owner@, c@, opt_text(*table)),
    {
        proof {
            unfold_call(*c);
        }
        let seg = method(c);
        if str_eq(seg, "groupby") || str_eq(seg, "groupBy") {
            self.collect_group_keys(owner, c, table);
        } else if str_eq(seg, "agg") {
            self.apply_agg(owner, c, table);
        } else if str_eq(seg, "withColumn") {
            self.apply_with_column(owner, c, table);
        } else if str_eq(seg, "selectExpr") {
            self.apply_select_expr(owner, c, table);
        } else if str_eq(seg, "withColumnRenamed") {
            self.apply_renamed(owner, c, table);
        } else if str_eq(seg, "rename") {
            self.apply_rename(owner, c, table);
        } else if str_eq(seg, "assign") {
            self.apply_assign(owner, &c.keywords, table);
        } else if str_eq(seg, "select") {
            self.apply_select(owner, &c.args, table);
        } else if passthrough_op(seg) {
        } else if opaque_op(seg) {
            let mut d = "`.".to_owned();
            d.append(seg);
            d.append("(…)` can't be traced statically — declare the columns it produces");
            self.note(c.span, d);
        }
    }

    fn apply_chain(&mut self, owner: &str, ops: &Vec<&PyCall>, table: &Option<String>, start: usize)
        requires
            start <= ops@.len(),
        ensures
            final(self)@ == operated_chain(
                old(self)@,
                owner@,
                views(ops@),
                opt_text(*table),
                start as int,
                ops@.len() as int,
            ),
    {
        let ghost begin = self@;
        let mut i: usize = start;
        while i < ops.len()
            invariant
                start <= i <= ops@.len(),
                self@ == operated_chain(
                    begin,
                    owner@,
                    views(ops@),
                    opt_text(*table),
                    start as int,
                    i as int,
                ),
            decreases ops@.len() - i,
        {
            assert(views(ops@)[i as int] == ops@[i as int]@);
            self.apply_op(owner, ops[i], table);
            i = i + 1;
        }
    }
}

/// `<expr>.alias("name")`: the expression and the name.
fn alias_parts<'e>(c: &'e PyCall) -> (r: Option<(&'e PyExpr, String)>)
    ensures
        match r {
            Some((v, name)) => aliased(c@) == Some((v@, name@)),
            None => aliased(c@) is None,
        },
{
    proof {
        unfold_call(*c);
        unfold_expr(*c.func);
    }
    match &*c.func {
        PyExpr::Attribute(_, v, a) => {
            if str_eq(a.as_str(), "alias") {
                match arg_str(&c.args, 0) {
                    Some(name) => Some((&**v, name)),
                    None => None,
                }
            } else {
                None
            }
        },
        _ => None,
    }
}

/// True when a keyword has the name.
pub(crate) fn keyword_is(k: &PyKeyword, name: &str) -> (r: bool)
    ensures
        r == (k@.name == Some(name@)),
{
    proof {
        unfold_keyword(*k);
    }
    match &k.name {
        Some(n) => str_eq(n.as_str(), name),
        None => false,
    }
}

impl<'a> Analyzer<'a> {
    /// `var = <chain of calls>`
    fn bind_call(&mut self, var: &str, rhs: &PyExpr)
        ensures
            final(self)@ == bound_call(old(self)@, var@, rhs@),
    {
        let ops = unwind(rhs);
        if ops.len() > 0 {
            assert(views(ops@)[0] == ops@[0]@);
            let seg = method(ops[0]);
            if reads_sql_text(seg) || reads_table_name(seg) || reads_from_path(seg) {
                let tables = self.tables_read(seg, ops[0]);
                self.add_inputs(&tables);
                if pandas_reader(seg) {
                    self.see_engine("pandas");
                } else {
                    self.see_engine("spark");
                }
                let table = if tables.len() > 0 {
                    Some(tables[0].clone())
                } else {
                    None
                };
                self.apply_chain(var, &ops, &table, 1);
                self.set(var, table, None);
                return;
            }
        }
        let base = receiver(rhs);
        proof {
            unfold_expr(*base);
        }
        let table = match base {
            PyExpr::Name(_, n) => self.table_of(n.as_str()),
            _ => None,
        };
        self.apply_chain(var, &ops, &table, 0);
        self.set(var, table, None);
    }

    /// `var = rhs`
    fn bind(&mut self, var: &str, rhs: &PyExpr)
        ensures
            final(self)@ == bound_to(old(self)@, var@, rhs@),
    {
        proof {
            unfold_expr(*rhs);
        }
        match rhs {
            PyExpr::Name(_, n) => {
                let table = self.table_of(n.as_str());
                let text = self.value_of(n.as_str());
                self.set(var, table, text);
            },
            PyExpr::Str(_, s) => {
                self.set(var, None, Some(s.clone()));
            },
            PyExpr::Subscript(_, v, s) => {
                proof {
                    unfold_expr(**v);
                }
                if let PyExpr::Name(_, n) = &**v {
                    if let Some(cols) = list_of_strings(s) {
                        let table = self.table_of(n.as_str());
                        self.push_subset(var, &table, &cols);
                        self.set(var, table, None);
                        return;
                    }
                }
                self.set(var, None, None);
            },
            PyExpr::Call(_) => {
                self.bind_call(var, rhs);
            },
            _ => {
                self.set(var, None, None);
            },
        }
    }

    /// `target = value`
    fn assign(&mut self, target: &PyExpr, value: &PyExpr)
        ensures
            final(self)@ == assigned_to(old(self)@, target@, value@),
    {
        proof {
            unfold_expr(*target);
        }
        match target {
            PyExpr::Subscript(_, v, s) => {
                proof {
                    unfold_expr(**v);
                }
                if let PyExpr::Name(_, owner) = &**v {
                    let name = self.column_name(&None, s);
                    assert((Scope { row: row_view(None), ..self@.scope }) == self@.scope);
                    match name {
                        Some(col) => {
                            self.record_column(owner.as_str(), col, value);
                        },
                        None => {
                            let mut d = "`".to_owned();
                            d.append(owner.as_str());
                            d.append(
                                "[…] = …` has a non-literal column name — declare it in column_map",
                            );
                            self.note(target.span(), d);
                        },
                    }
                } else if let Some(owner) = innermost_name(v) {
                    if self.frames.contains_key(owner.as_str()) {
                        let mut d = "an assignment into `".to_owned();
                        d.append(owner.as_str());
                        d.append("` that names no column of it — declare it in column_map");
                        self.note(target.span(), d);
                    }
                }
            },
            PyExpr::Name(_, n) => {
                self.bind(n.as_str(), value);
            },
            PyExpr::Attribute(_, v, a) => {
                proof {
                    unfold_expr(**v);
                }
                if let PyExpr::Name(_, owner) = &**v {
                    if str_eq(a.as_str(), "columns") && self.frames.contains_key(owner.as_str()) {
                        let mut d = "`".to_owned();
                        d.append(owner.as_str());
                        d.append(
                            ".columns = …` rewrites columns positionally — declare them in column_map",
                        );
                        self.note(target.span(), d);
                    }
                }
            },
            _ => {},
        }
    }

    /// A frame written to a table, or to a path when there is none.
    fn write_frame(&mut self, base: &PyExpr, table: Option<String>, engine: &str)
        ensures
            final(self)@ == written(old(self)@, base@, opt_text(table), engine@),
    {
        if let Some(var) = innermost_name(base) {
            if let Some(t) = &table {
                vec_push_new(&mut self.outputs, t.clone());
            }
            self.writes.insert(var, Binding { text: table });
            self.see_engine(engine);
        }
    }

    /// `frame.createOrReplaceTempView("name")`
    fn make_view(&mut self, base: &PyExpr, name: Option<String>)
        ensures
            final(self)@ == viewed(old(self)@, base@, opt_text(name)),
    {
        if let Some(var) = innermost_name(base) {
            if let Some(v) = name {
                let table = self.table_of(var.as_str());
                self.temp_views.insert(v, Binding { text: table });
            }
        }
    }

    fn query_source(&self, r: &SqlColRef, tables: &Vec<String>) -> (s: String)
        ensures
            s@ == rendered(query_ref(self@, r@, views(tables@))),
    {
        let table = match &r.table {
            Some(q) => Some(self.resolve_table(q.as_str())),
            None => if tables.len() == 1 {
                assert(views(tables@)[0] == tables@[0]@);
                Some(tables[0].clone())
            } else {
                None
            },
        };
        let c = SqlColRef { table, column: r.column.clone() };
        assert(c@ == query_ref(self@, r@, views(tables@)));
        render(&c)
    }

    fn push_query_columns(&mut self, ms: &Vec<SqlMapping>, tables: &Vec<String>, table: &str)
        ensures
            final(self)@ == query_columns(
                old(self)@,
                views(ms@),
                views(tables@),
                table@,
                ms@.len() as int,
            ),
    {
        let ghost start = self@;
        let mut i: usize = 0;
        while i < ms.len()
            invariant
                i <= ms@.len(),
                self@ == query_columns(start, views(ms@), views(tables@), table@, i as int),
                self@.temp_views == start.temp_views,
            decreases ms@.len() - i,
        {
            let ghost m = views(ms@)[i as int];
            assert(m == ms@[i as int]@);
            let mut sources: Vec<String> = Vec::new();
            let mut j: usize = 0;
            while j < ms[i].sources.len()
                invariant
                    i < ms@.len(),
                    j <= ms@[i as int].sources@.len(),
                    m == ms@[i as int]@,
                    self@.temp_views == start.temp_views,
                    sources@.len() == j,
                    forall|k: int|
                        0 <= k < j ==> (#[trigger] sources@[k])@ == rendered(
                            query_ref(start, m.sources[k], views(tables@)),
                        ),
                decreases ms@[i as int].sources@.len() - j,
            {
                let s = self.query_source(&ms[i].sources[j], tables);
                assert(s@ == rendered(query_ref(start, m.sources[j as int], views(tables@))));
                sources.push(s);
                j = j + 1;
            }
            assert(views(sources@) =~= Seq::new(
                m.sources.len(),
                |k: int| rendered(query_ref(start, m.sources[k], views(tables@))),
            ));
            proof {
                reveal_strlit("");
                assert(""@ =~= Seq::<char>::empty());
            }
            self.push_column(
                "",
                InferredColumn {
                    sources,
                    target: ms[i].target.clone(),
                    function: Some(ms[i].function.clone()),
                    transform_type: ms[i].transform_type,
                    output_table: Some(table.to_owned()),
                },
            );
            i = i + 1;
        }
    }

    /// A query that is run for its effect.
    fn run_query(&mut self, c: &PyCall)
        ensures
            final(self)@ == queried(old(self)@, c@),
    {
        proof {
            unfold_call(*c);
        }
        let text = self.first_text(&c.args);
        if text.is_none() && c.args.len() > 0 {
            self.note(
                c.span,
                "a query that is built at run time can't be traced — declare its columns in column_map".to_owned(),
            );
        }
        if let Some(q) = text {
            if let Ok(l) = column_lineage_from_sql(q.as_str()) {
                if let Some(t) = &l.target_table {
                    let tables = self.resolve_tables(&l.source_tables);
                    self.add_inputs(&tables);
                    vec_push_new(&mut self.outputs, t.clone());
                    self.see_engine("spark");
                    self.push_query_columns(&l.mappings, &tables, t.as_str());
                    if l.wildcard_in_projection || l.arity_mismatch.is_some() {
                        self.note(
                            c.span,
                            "the projection of this query can't be paired with its target columns — declare them in column_map".to_owned(),
                        );
                    }
                }
            }
        }
    }

    /// An expression statement: a write, a temporary view or a query.
    fn detect_write(&mut self, e: &PyExpr)
        ensures
            final(self)@ == stated(old(self)@, e@),
    {
        let ops = unwind(e);
        if ops.len() == 0 {
            return;
        }
        let c = ops[ops.len() - 1];
        assert(views(ops@).last() == c@);
        proof {
            unfold_call(*c);
        }
        let seg = method(c);
        let base = receiver(e);
        if str_eq(seg, "to_sql") {
            let t = arg_str(&c.args, 0);
            self.write_frame(base, t, "pandas");
        } else if str_eq(seg, "saveAsTable") || str_eq(seg, "insertInto") {
            let t = arg_str(&c.args, 0);
            self.write_frame(base, t, "spark");
        } else if str_eq(seg, "to_parquet") || str_eq(seg, "to_csv") {
            self.write_frame(base, None, "pandas");
        } else if str_eq(seg, "parquet") || str_eq(seg, "csv") || str_eq(seg, "save") {
            self.write_frame(base, None, "spark");
        } else if str_eq(seg, "createOrReplaceTempView") {
            let name = self.first_text(&c.args);
            self.make_view(base, name);
        } else if str_eq(seg, "sql") {
            self.run_query(c);
        }
        if writer(seg) && chain_rewrites(e, true) {
            self.note(
                e.span(),
                "columns are made in the expression that is written — assign it to a variable first, or declare them in column_map".to_owned(),
            );
        }
    }

    /// True when an expression statement makes columns.
    fn expr_makes(&self, e: &PyExpr) -> (r: bool)
        ensures
            r == states_columns(self@.scope, e@),
    {
        let ops = unwind(e);
        if ops.len() == 0 {
            return false;
        }
        let c = ops[ops.len() - 1];
        assert(views(ops@).last() == c@);
        proof {
            unfold_call(*c);
        }
        let seg = method(c);
        if writer(seg) && chain_rewrites(e, true) {
            return true;
        }
        if str_eq(seg, "sql") && c.args.len() > 0 {
            match self.first_text(&c.args) {
                Some(q) => match column_lineage_from_sql(q.as_str()) {
                    Ok(l) => l.target_table.is_some(),
                    Err(_) => false,
                },
                None => true,
            }
        } else {
            false
        }
    }

    fn stmt_makes(&self, s: &PyStmt) -> (r: bool)
        ensures
            r == makes_columns(self@.scope, s@),
        decreases s,
    {
        proof {
            unfold_stmt(*s);
        }
        match s {
            PyStmt::Assign(t, v) => any_subscript_target(t) || chain_rewrites(v, false),
            PyStmt::AugAssign(t, _) => is_subscript(t),
            PyStmt::AnnAssign(t, v) => match v {
                Some(v) => is_subscript(t) || chain_rewrites(v, false),
                None => false,
            },
            PyStmt::Expr(e) => self.expr_makes(e),
            PyStmt::If(b, o) => {
                let first = self.block_assigns_columns(b);
                let second = self.block_assigns_columns(o);
                first || second
            },
            PyStmt::With(_, b) => self.block_assigns_columns(b),
            PyStmt::For(f) => {
                proof {
                    unfold_for(*f);
                }
                assert(decreases_to!(s => f));
                assert(decreases_to!(f => f.body));
                assert(decreases_to!(f => f.orelse));
                let first = self.block_assigns_columns(&f.body);
                let second = self.block_assigns_columns(&f.orelse);
                first || second
            },
            PyStmt::While(_, b, o) => {
                let first = self.block_assigns_columns(b);
                let second = self.block_assigns_columns(o);
                first || second
            },
            PyStmt::Try(_, b, h, o, x) => {
                let first = self.block_assigns_columns(b);
                let second = self.handlers_assign_columns(h);
                let third = self.block_assigns_columns(o);
                let fourth = self.block_assigns_columns(x);
                first || second || third || fourth
            },
            _ => false,
        }
    }

    /// True when a statement of the block makes columns of a frame.
    fn block_assigns_columns(&self, b: &Vec<PyStmt>) -> (r: bool)
        ensures
            r == block_makes(self@.scope, views(b@), b@.len() as int),
        decreases b,
    {
        let mut any = false;
        let mut i: usize = 0;
        while i < b.len()
            invariant
                i <= b@.len(),
                any == block_makes(self@.scope, views(b@), i as int),
            decreases b@.len() - i,
        {
            assert(decreases_to!(b => b@[i as int]));
            assert(views(b@)[i as int] == b@[i as int]@);
            let here = self.stmt_makes(&b[i]);
            any = any || here;
            i = i + 1;
        }
        any
    }

    /// True when one of the `except` parts makes columns of a frame.
    fn handlers_assign_columns(&self, h: &Vec<PyHandler>) -> (r: bool)
        ensures
            r == handlers_make(self@.scope, views(h@), h@.len() as int),
        decreases h,
    {
        let mut any = false;
        let mut i: usize = 0;
        while i < h.len()
            invariant
                i <= h@.len(),
                any == handlers_make(self@.scope, views(h@), i as int),
            decreases h@.len() - i,
        {
            assert(decreases_to!(h => h@[i as int]));
            assert(decreases_to!(h@[i as int] => h@[i as int].body));
            assert(views(h@)[i as int] == h@[i as int]@);
            proof {
                unfold_handler(h@[i as int]);
            }
            let here = self.block_assigns_columns(&h[i].body);
            any = any || here;
            i = i + 1;
        }
        any
    }

    /// Passes over a statement that is not followed.
    fn pass_over(&mut self, s: &PyStmt)
        ensures
            final(self)@ == passed_over(old(self)@, s@),
    {
        proof {
            unfold_stmt(*s);
        }
        if !self.stmt_makes(s) {
            return;
        }
        match s {
            PyStmt::Assign(_, v) => {
                self.note(
                    v.span(),
                    "an assignment to several targets can't be traced — declare its columns in column_map".to_owned(),
                );
            },
            PyStmt::AugAssign(t, _) => {
                self.note(
                    t.span(),
                    "a column that is updated in place can't be traced — declare it in column_map".to_owned(),
                );
            },
            PyStmt::AnnAssign(t, _) => {
                self.note(
                    t.span(),
                    "an assignment with a type can't be traced — declare its columns in column_map".to_owned(),
                );
            },
            PyStmt::While(sp, _, _) => {
                self.flag_opaque_loop(*sp);
            },
            PyStmt::Try(sp, _, _, _, _) => {
                self.note(
                    *sp,
                    "columns made in a `try` statement can't be traced — declare them in column_map".to_owned(),
                );
            },
            _ => {},
        }
    }

    fn flag_opaque_loop(&mut self, span: Span)
        ensures
            final(self)@ == loop_note(old(self)@, span),
    {
        self.note(
            span,
            "column assigned in a loop the analyzer can't unroll — declare it, or iterate a literal list: `for c in [\"a\", \"b\"]:`".to_owned(),
        );
    }

    fn stmt(&mut self, s: &PyStmt)
        ensures
            final(self)@ == stepped(old(self)@, s@),
        decreases s, 0int,
    {
        proof {
            unfold_stmt(*s);
        }
        match s {
            PyStmt::Assign(t, v) => {
                if t.len() == 1 {
                    assert(views(t@)[0] == t@[0]@);
                    self.assign(&t[0], v);
                } else {
                    self.pass_over(s);
                }
            },
            PyStmt::Expr(e) => {
                self.detect_write(e);
            },
            PyStmt::With(_, b) => {
                self.block(b);
            },
            PyStmt::If(b, o) => {
                self.block(b);
                self.block(o);
            },
            PyStmt::For(f) => {
                assert(decreases_to!(s => f));
                self.handle_for(f);
            },
            _ => {
                self.pass_over(s);
            },
        }
    }

    /// A loop; one over a list of string literals is unrolled.
    fn handle_for(&mut self, f: &PyFor)
        ensures
            final(self)@ == stepped(old(self)@, PyStmtTree::For(f@)),
        decreases f, 0int,
    {
        proof {
            unfold_for(*f);
            unfold_expr(f.target);
        }
        if self.block_assigns_columns(&f.body) {
            let mut done = false;
            if let PyExpr::Name(_, var) = &f.target {
                if let Some(values) = list_of_strings(&f.iter) {
                    if self.loop_var.is_none() {
                        assert(decreases_to!(f => f.body));
                        self.unroll(var.as_str(), &values, &f.body);
                        self.loop_var = None;
                        done = true;
                    }
                }
            }
            if !done {
                self.flag_opaque_loop(f.span);
            }
        }
        if self.block_assigns_columns(&f.orelse) {
            self.flag_opaque_loop(f.span);
        }
    }

    fn unroll(&mut self, var: &str, values: &Vec<String>, body: &Vec<PyStmt>)
        ensures
            final(self)@ == unrolled(
                old(self)@,
                var@,
                views(values@),
                values@.len() as int,
                views(body@),
            ),
        decreases body, 1int,
    {
        let ghost start = self@;
        let mut i: usize = 0;
        while i < values.len()
            invariant
                i <= values@.len(),
                self@ == unrolled(start, var@, views(values@), i as int, views(body@)),
            decreases values@.len() - i,
        {
            let ghost prev = self@;
            self.loop_var = Some((var.to_owned(), values[i].clone()));
            assert(self@ == (Flow {
                scope: Scope {
                    loop_var: Some((var@, views(values@)[i as int])),
                    ..prev.scope
                },
                ..prev
            }));
            self.block(body);
            i = i + 1;
        }
    }

    fn block(&mut self, stmts: &Vec<PyStmt>)
        ensures
            final(self)@ == walked(old(self)@, views(stmts@), stmts@.len() as int),
        decreases stmts, 0int,
    {
        let ghost start = self@;
        let mut i: usize = 0;
        while i < stmts.len()
            invariant
                i <= stmts@.len(),
                self@ == walked(start, views(stmts@), i as int),
            decreases stmts@.len() - i,
        {
            assert(decreases_to!(stmts => stmts@[i as int]));
            assert(views(stmts@)[i as int] == stmts@[i as int]@);
            self.stmt(&stmts[i]);
            i = i + 1;
        }
    }

    /// Places the columns in the tables that their variables were written to.
    fn finish(self) -> (r: DataflowResult)
        ensures
            r@ == finished(self@),
    {
        broadcast use group_views;

        let ghost f = self@;
        let mut columns: Vec<InferredColumn> = Vec::new();
        let mut i: usize = 0;
        while i < self.columns.len()
            invariant
                i <= self.columns@.len(),
                f == self@,
                f.columns == views(self.columns@),
                f.writes == self.writes@,
                views(columns@) == placed_columns(f, i as int),
            decreases self.columns@.len() - i,
        {
            let mut c = self.columns[i].1.replicate();
            assert(f.columns[i as int] == self.columns@[i as int]@);
            if let Some(b) = self.writes.get(self.columns[i].0.as_str()) {
                c.output_table = replicate_opt(&b.text);
            }
            assert(c@ == placed(f.writes, f.columns[i as int].0, f.columns[i as int].1));
            vec_push_new(&mut columns, c);
            i = i + 1;
        }
        DataflowResult {
            columns,
            opaque: self.opaque,
            inputs: self.inputs,
            outputs: self.outputs,
            engine: self.engine,
        }
    }
}

/// What a function body says about columns.
pub fn analyze(body: &Vec<PyStmt>, consts: &StrMap<String>, source: &str) -> (r: DataflowResult)
    ensures
        r@ == dataflow_of(views(body@), consts@, source@),
{
    broadcast use group_views;

    let mut a = Analyzer {
        consts,
        source,
        frames: StrMap::new(),
        locals: StrMap::new(),
        loop_var: None,
        columns: Vec::new(),
        writes: StrMap::new(),
        temp_views: StrMap::new(),
        opaque: Vec::new(),
        inputs: Vec::new(),
        outputs: Vec::new(),
        engine: None,
    };
    assert(a@ == fresh_flow(consts@, source@));
    a.block(body);
    a.finish()
}

} // verus!

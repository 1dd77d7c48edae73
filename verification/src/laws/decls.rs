//! Declarations and the calls that make them: what the arguments of a
//! decorator say.

use vstd::prelude::*;

use crate::decls::{
    column_map_of, configured, dataset_list, dataset_text, datasets_upto, decl_keywords, decl_of,
    decl_start, literals_upto, map_entries, map_entry, maps_column, named_imports, resolved_text,
    text_list, texts_upto, uri_list, uris_upto, with_copies, ColumnMapEntryView, DeclCtx,
    DecoratorKind, Imports, ModuleConfigView, TaskDeclView,
};
use crate::laws::reading::{lists_those, one_more};
use crate::pyast::{span_of, PyAliasTree, PyCallTree, PyExprTree, PyKeywordTree, PyStmtTree};
use crate::source::source_text;

verus! {

// ───────────────────────────────── lists ──────────────────────────────

/// True when the expression stands for the text: it is that literal, or the
/// name of a constant that holds it.
pub open spec fn is_text(
    consts: Map<Seq<char>, Seq<char>>,
    e: PyExprTree,
    text: Seq<char>,
) -> bool {
    ||| e is Str && e->Str_1 == text
    ||| e is Name && consts.contains_key(e->Name_1) && consts[e->Name_1] == text
}

/// True when the expression stands for a text.
pub open spec fn has_text(consts: Map<Seq<char>, Seq<char>>, e: PyExprTree) -> bool {
    exists|s: Seq<char>| is_text(consts, e, s)
}

proof fn text_is_resolved(consts: Map<Seq<char>, Seq<char>>, e: PyExprTree)
    ensures
        has_text(consts, e) <==> resolved_text(consts, e) is Some,
        forall|s: Seq<char>| #[trigger]
            is_text(consts, e, s) <==> resolved_text(consts, e) == Some(s),
{
    if resolved_text(consts, e) is Some {
        assert(is_text(consts, e, resolved_text(consts, e)->0));
    }
}

/// The elements of a list or a tuple; none for anything else.
pub open spec fn members(e: PyExprTree) -> Seq<PyExprTree> {
    if e is List {
        e->List_1
    } else if e is Tuple {
        e->Tuple_1
    } else {
        Seq::empty()
    }
}

pub open spec fn texts_at(consts: Map<Seq<char>, Seq<char>>, v: Seq<PyExprTree>) -> spec_fn(
    int,
) -> bool {
    |i: int| has_text(consts, v[i])
}

/// True when the texts are those of the elements that stand for one, in order.
pub open spec fn are_texts(
    out: Seq<Seq<char>>,
    consts: Map<Seq<char>, Seq<char>>,
    v: Seq<PyExprTree>,
) -> bool {
    exists|chosen: Seq<int>|
        {
            &&& #[trigger] lists_those(chosen, v.len() as int, texts_at(consts, v))
            &&& out.len() == chosen.len()
            &&& forall|k: int|
                0 <= k < chosen.len() ==> is_text(consts, v[chosen[k]], #[trigger] out[k])
        }
}

proof fn texts_in_turn(
    consts: Map<Seq<char>, Seq<char>>,
    v: Seq<PyExprTree>,
    n: int,
) -> (chosen: Seq<int>)
    requires
        0 <= n <= v.len(),
    ensures
        lists_those(chosen, n, texts_at(consts, v)),
        texts_upto(consts, v, n).len() == chosen.len(),
        forall|k: int|
            0 <= k < chosen.len() ==> is_text(
                consts,
                v[chosen[k]],
                #[trigger] texts_upto(consts, v, n)[k],
            ),
    decreases n,
{
    if n > 0 {
        let before = texts_in_turn(consts, v, n - 1);
        text_is_resolved(consts, v[n - 1]);
        one_more(before, n, texts_at(consts, v))
    } else {
        Seq::empty()
    }
}

/// A list of texts is read element by element; what stands for no text is left
/// out.
pub proof fn each_text_is_read(consts: Map<Seq<char>, Seq<char>>, e: PyExprTree)
    ensures
        are_texts(text_list(consts, e), consts, members(e)),
{
    let v = members(e);
    let chosen = texts_in_turn(consts, v, v.len() as int);
}

pub open spec fn datasets_at(ctx: DeclCtx, v: Seq<PyExprTree>) -> spec_fn(int) -> bool {
    |i: int| dataset_text(ctx, v[i]) is Some
}

/// True when the names are those of the elements that stand for a dataset, in
/// order.
pub open spec fn are_datasets(out: Seq<Seq<char>>, ctx: DeclCtx, v: Seq<PyExprTree>) -> bool {
    exists|chosen: Seq<int>|
        {
            &&& #[trigger] lists_those(chosen, v.len() as int, datasets_at(ctx, v))
            &&& out.len() == chosen.len()
            &&& forall|k: int|
                0 <= k < chosen.len() ==> dataset_text(ctx, v[chosen[k]]) == Some(
                    #[trigger] out[k],
                )
        }
}

proof fn datasets_in_turn(ctx: DeclCtx, v: Seq<PyExprTree>, n: int) -> (chosen: Seq<int>)
    requires
        0 <= n <= v.len(),
    ensures
        lists_those(chosen, n, datasets_at(ctx, v)),
        datasets_upto(ctx, v, n).len() == chosen.len(),
        forall|k: int|
            0 <= k < chosen.len() ==> dataset_text(ctx, v[chosen[k]]) == Some(
                #[trigger] datasets_upto(ctx, v, n)[k],
            ),
    decreases n,
{
    if n > 0 {
        let before = datasets_in_turn(ctx, v, n - 1);
        one_more(before, n, datasets_at(ctx, v))
    } else {
        Seq::empty()
    }
}

/// A list of datasets is read element by element; what stands for no dataset
/// is left out.
pub proof fn each_dataset_is_read(ctx: DeclCtx, e: PyExprTree)
    ensures
        are_datasets(dataset_list(ctx, e), ctx, members(e)),
{
    let v = members(e);
    let chosen = datasets_in_turn(ctx, v, v.len() as int);
}

proof fn uris_in_turn(ctx: DeclCtx, v: Seq<PyExprTree>, n: int)
    requires
        0 <= n <= v.len(),
    ensures
        uris_upto(ctx, v, n).0.len() == n,
        forall|i: int|
            0 <= i < n ==> #[trigger] uris_upto(ctx, v, n).0[i] == match dataset_text(ctx, v[i]) {
                Some(s) => s,
                None => source_text(ctx.source, span_of(v[i])),
            },
        forall|t: Seq<char>| #[trigger]
            uris_upto(ctx, v, n).1.contains(t) <==> exists|i: int|
                0 <= i < n && dataset_text(ctx, #[trigger] v[i]) is None && t == source_text(
                    ctx.source,
                    span_of(v[i]),
                ),
    decreases n,
{
    if n > 0 {
        uris_in_turn(ctx, v, n - 1);
        let (vals, texts) = uris_upto(ctx, v, n - 1);
        let now = uris_upto(ctx, v, n);
        assert forall|t: Seq<char>| #[trigger] now.1.contains(t) <==> exists|i: int|
            0 <= i < n && dataset_text(ctx, #[trigger] v[i]) is None && t == source_text(
                ctx.source,
                span_of(v[i]),
            ) by {
            assert(texts.contains(t) <==> exists|i: int|
                0 <= i < n - 1 && dataset_text(ctx, #[trigger] v[i]) is None && t == source_text(
                    ctx.source,
                    span_of(v[i]),
                ));
            if dataset_text(ctx, v[n - 1]) is None {
                assert(now.1 == texts.insert(source_text(ctx.source, span_of(v[n - 1]))));
            }
        }
    }
}

/// The ends of a `@lineage` list keep their places: each is the dataset that
/// the element stands for, or else its source text, which is marked as such.
pub proof fn each_end_is_read(ctx: DeclCtx, e: PyExprTree)
    requires
        e is List || e is Tuple,
    ensures
        uri_list(ctx, e).0.len() == members(e).len(),
        forall|i: int|
            0 <= i < members(e).len() ==> #[trigger] uri_list(ctx, e).0[i] == match dataset_text(
                ctx,
                members(e)[i],
            ) {
                Some(s) => s,
                None => source_text(ctx.source, span_of(members(e)[i])),
            },
        forall|t: Seq<char>| #[trigger]
            uri_list(ctx, e).1.contains(t) <==> exists|i: int|
                0 <= i < members(e).len() && dataset_text(ctx, #[trigger] members(e)[i]) is None
                    && t == source_text(ctx.source, span_of(members(e)[i])),
{
    let v = members(e);
    uris_in_turn(ctx, v, v.len() as int);
}

// ────────────────────────────── column maps ───────────────────────────

/// True when the expression is an entry of a column map: a tuple or list of at
/// least a source and a target.
pub open spec fn states_entry(consts: Map<Seq<char>, Seq<char>>, e: PyExprTree) -> bool {
    members(e).len() >= 2 && has_text(consts, members(e)[1])
}

/// True when the entry is the one that the expression states: the target, the
/// one source or every source of a list, and the label.
pub open spec fn is_entry(
    x: ColumnMapEntryView,
    consts: Map<Seq<char>, Seq<char>>,
    e: PyExprTree,
) -> bool {
    let t = members(e);
    &&& t.len() >= 2
    &&& is_text(consts, t[1], x.target)
    &&& if has_text(consts, t[0]) {
        x.sources.len() == 1 && is_text(consts, t[0], x.sources[0])
    } else {
        are_texts(x.sources, consts, members(t[0]))
    }
    &&& match x.function {
        Some(f) => t.len() > 2 && is_text(consts, t[2], f),
        None => t.len() > 2 ==> !has_text(consts, t[2]),
    }
}

proof fn entry_is_stated(consts: Map<Seq<char>, Seq<char>>, e: PyExprTree)
    ensures
        map_entry(consts, e) is Some <==> states_entry(consts, e),
        map_entry(consts, e) is Some ==> is_entry(map_entry(consts, e)->0, consts, e),
{
    let t = members(e);
    if t.len() >= 2 {
        text_is_resolved(consts, t[0]);
        text_is_resolved(consts, t[1]);
        each_text_is_read(consts, t[0]);
        if t.len() > 2 {
            text_is_resolved(consts, t[2]);
        }
    }
}

pub open spec fn entries_at(consts: Map<Seq<char>, Seq<char>>, v: Seq<PyExprTree>) -> spec_fn(
    int,
) -> bool {
    |i: int| states_entry(consts, v[i])
}

proof fn entries_in_turn(
    consts: Map<Seq<char>, Seq<char>>,
    v: Seq<PyExprTree>,
    n: int,
) -> (chosen: Seq<int>)
    requires
        0 <= n <= v.len(),
    ensures
        lists_those(chosen, n, entries_at(consts, v)),
        map_entries(consts, v, n).len() == chosen.len(),
        forall|k: int|
            0 <= k < chosen.len() ==> is_entry(
                #[trigger] map_entries(consts, v, n)[k],
                consts,
                v[chosen[k]],
            ),
    decreases n,
{
    if n > 0 {
        let before = entries_in_turn(consts, v, n - 1);
        entry_is_stated(consts, v[n - 1]);
        one_more(before, n, entries_at(consts, v))
    } else {
        Seq::empty()
    }
}

/// True when the column map has, in order, the entries that the expression
/// states.
pub open spec fn is_column_map(
    m: Seq<ColumnMapEntryView>,
    consts: Map<Seq<char>, Seq<char>>,
    e: PyExprTree,
) -> bool {
    exists|chosen: Seq<int>|
        {
            &&& #[trigger] lists_those(
                chosen,
                members(e).len() as int,
                entries_at(consts, members(e)),
            )
            &&& m.len() == chosen.len()
            &&& forall|k: int|
                0 <= k < chosen.len() ==> is_entry(#[trigger] m[k], consts, members(e)[chosen[k]])
        }
}

/// A column map is read entry by entry, with every source of each entry.
pub proof fn each_entry_is_read(consts: Map<Seq<char>, Seq<char>>, e: PyExprTree)
    ensures
        is_column_map(column_map_of(consts, e), consts, e),
{
    let v = members(e);
    let chosen = entries_in_turn(consts, v, v.len() as int);
}

/// True when the entry copies a column under its own name.
pub open spec fn is_copy(x: ColumnMapEntryView, column: Seq<char>) -> bool {
    &&& x.target == column
    &&& x.sources == seq![column]
    &&& x.function == Some("direct copy"@)
}

proof fn copies_in_turn(m: Seq<ColumnMapEntryView>, copy: Seq<Seq<char>>, n: int)
    requires
        0 <= n <= copy.len(),
    ensures
        m.len() <= with_copies(m, copy, n).len(),
        forall|i: int| 0 <= i < m.len() ==> #[trigger] with_copies(m, copy, n)[i] == m[i],
        forall|i: int|
            m.len() <= i < with_copies(m, copy, n).len() ==> is_copy(
                #[trigger] with_copies(m, copy, n)[i],
                with_copies(m, copy, n)[i].target,
            ) && copy.contains(with_copies(m, copy, n)[i].target),
        forall|k: int| 0 <= k < n ==> maps_column(with_copies(m, copy, n), #[trigger] copy[k]),
    decreases n,
{
    if n > 0 {
        copies_in_turn(m, copy, n - 1);
        let prev = with_copies(m, copy, n - 1);
        let r = with_copies(m, copy, n);
        assert forall|k: int| 0 <= k < n implies maps_column(r, #[trigger] copy[k]) by {
            if k < n - 1 {
                assert(maps_column(prev, copy[k]));
                let i = choose|i: int| 0 <= i < prev.len() && (#[trigger] prev[i]).target == copy[k];
                assert(r[i].target == copy[k]);
            } else if !maps_column(prev, copy[k]) {
                assert(r[prev.len() as int].target == copy[k]);
            }
        }
        assert(copy.contains(copy[n - 1]));
    }
}

/// Each column that is to be copied has an entry; the entries that were there
/// stay in front, and each that is added is a copy.
pub proof fn each_copy_has_an_entry(m: Seq<ColumnMapEntryView>, copy: Seq<Seq<char>>)
    ensures
        ({
            let r = with_copies(m, copy, copy.len() as int);
            &&& m.len() <= r.len()
            &&& forall|i: int| 0 <= i < m.len() ==> #[trigger] r[i] == m[i]
            &&& forall|i: int|
                m.len() <= i < r.len() ==> is_copy(#[trigger] r[i], r[i].target) && copy.contains(
                    r[i].target,
                )
            &&& forall|k: int| 0 <= k < copy.len() ==> maps_column(r, #[trigger] copy[k])
        }),
{
    copies_in_turn(m, copy, copy.len() as int);
}

// ─────────────────────────────── arguments ────────────────────────────

/// True when keyword `i` is the last with the name.
pub open spec fn is_last(k: Seq<PyKeywordTree>, i: int, name: Seq<char>) -> bool {
    &&& 0 <= i < k.len()
    &&& k[i].name == Some(name)
    &&& forall|j: int| i < j < k.len() ==> (#[trigger] k[j]).name != Some(name)
}

proof fn keys_differ()
    ensures
        "dag"@.len() == 3 && "dag"@[0] == 'd',
        "inputs"@.len() == 6 && "inputs"@[0] == 'i',
        "outputs"@.len() == 7,
        "engine"@.len() == 6 && "engine"@[0] == 'e',
        "sql"@.len() == 3 && "sql"@[0] == 's',
        "description"@.len() == 11,
        "transform"@.len() == 9,
        "column_map"@.len() == 10,
        "copy"@.len() == 4,
{
    reveal_strlit("dag");
    reveal_strlit("inputs");
    reveal_strlit("outputs");
    reveal_strlit("engine");
    reveal_strlit("sql");
    reveal_strlit("description");
    reveal_strlit("transform");
    reveal_strlit("column_map");
    reveal_strlit("copy");
}

proof fn last_keyword_counts(
    ctx: DeclCtx,
    d: TaskDeclView,
    k: Seq<PyKeywordTree>,
    n: int,
    i: int,
)
    requires
        0 <= i < n <= k.len(),
    ensures
        ({
            let r = decl_keywords(ctx, d, k, n);
            let v = k[i].value;
            &&& k[i].name == Some("inputs"@) && (forall|j: int|
                i < j < n ==> (#[trigger] k[j]).name != Some("inputs"@)) ==> r.inputs
                == dataset_list(ctx, v)
            &&& k[i].name == Some("outputs"@) && (forall|j: int|
                i < j < n ==> (#[trigger] k[j]).name != Some("outputs"@)) ==> r.outputs
                == dataset_list(ctx, v)
            &&& k[i].name == Some("column_map"@) && (forall|j: int|
                i < j < n ==> (#[trigger] k[j]).name != Some("column_map"@)) ==> r.column_map
                == column_map_of(ctx.consts, v)
            &&& k[i].name == Some("copy"@) && (forall|j: int|
                i < j < n ==> (#[trigger] k[j]).name != Some("copy"@)) ==> r.copy == text_list(
                ctx.consts,
                v,
            )
            &&& k[i].name == Some("sql"@) && resolved_text(ctx.consts, v) is Some && (forall|
                j: int,
            |
                i < j < n ==> (#[trigger] k[j]).name != Some("sql"@)) ==> r.sql == resolved_text(
                ctx.consts,
                v,
            )
            &&& k[i].name == Some("dag"@) && resolved_text(ctx.consts, v) is Some && (forall|
                j: int,
            |
                i < j < n ==> (#[trigger] k[j]).name != Some("dag"@)) ==> r.dag == resolved_text(
                ctx.consts,
                v,
            )
            &&& k[i].name == Some("engine"@) && resolved_text(ctx.consts, v) is Some && (forall|
                j: int,
            |
                i < j < n ==> (#[trigger] k[j]).name != Some("engine"@)) ==> r.engine
                == resolved_text(ctx.consts, v)
            &&& k[i].name == Some("description"@) && resolved_text(ctx.consts, v) is Some && (
            forall|j: int| i < j < n ==> (#[trigger] k[j]).name != Some("description"@))
                ==> r.description == resolved_text(ctx.consts, v)
            &&& k[i].name == Some("transform"@) && resolved_text(ctx.consts, v) is Some && (forall|
                j: int,
            |
                i < j < n ==> (#[trigger] k[j]).name != Some("transform"@)) ==> r.transform
                == resolved_text(ctx.consts, v)
        }),
    decreases n,
{
    keys_differ();
    if i < n - 1 {
        last_keyword_counts(ctx, d, k, n - 1, i);
        assert(k[n - 1].name == k[n - 1].name);
    }
}

/// A declaration has what the arguments of its call say, the last of each
/// name: its inputs, its outputs, its column map with a copy of each column
/// that is to be copied, its query, its DAG, its engine, its description and
/// its kind.
pub proof fn declaration_has_what_its_call_says(
    ctx: DeclCtx,
    name: Seq<char>,
    c: PyCallTree,
    kind: DecoratorKind,
    i: int,
)
    requires
        0 <= i < c.keywords.len(),
    ensures
        ({
            let d = decl_of(ctx, name, c, kind);
            let k = c.keywords;
            let v = k[i].value;
            &&& is_last(k, i, "inputs"@) ==> are_datasets(d.inputs, ctx, members(v))
            &&& is_last(k, i, "outputs"@) ==> are_datasets(d.outputs, ctx, members(v))
            &&& is_last(k, i, "copy"@) ==> are_texts(d.copy, ctx.consts, members(v))
            &&& forall|s: Seq<char>|
                is_last(k, i, "sql"@) && #[trigger] is_text(ctx.consts, v, s) ==> d.sql == Some(s)
            &&& forall|s: Seq<char>|
                is_last(k, i, "dag"@) && #[trigger] is_text(ctx.consts, v, s) ==> d.dag == Some(s)
            &&& forall|s: Seq<char>|
                is_last(k, i, "engine"@) && #[trigger] is_text(ctx.consts, v, s) ==> d.engine
                    == Some(s)
            &&& forall|s: Seq<char>|
                is_last(k, i, "description"@) && #[trigger] is_text(ctx.consts, v, s)
                    ==> d.description == Some(s)
            &&& forall|s: Seq<char>|
                is_last(k, i, "transform"@) && #[trigger] is_text(ctx.consts, v, s)
                    ==> d.transform == Some(s)
        }),
{
    let v = c.keywords[i].value;
    last_keyword_counts(
        ctx,
        decl_start(ctx, name, c, kind),
        c.keywords,
        c.keywords.len() as int,
        i,
    );
    each_dataset_is_read(ctx, v);
    each_text_is_read(ctx.consts, v);
    text_is_resolved(ctx.consts, v);
}

/// The column map of a declaration begins with the entries that its call
/// states, and has an entry for each column that is to be copied.
pub proof fn declaration_has_its_column_map(
    ctx: DeclCtx,
    name: Seq<char>,
    c: PyCallTree,
    kind: DecoratorKind,
    i: int,
)
    requires
        is_last(c.keywords, i, "column_map"@),
    ensures
        exists|n: int|
            {
                let d = decl_of(ctx, name, c, kind);
                &&& 0 <= n <= d.column_map.len()
                &&& is_column_map(
                    #[trigger] decl_of(ctx, name, c, kind).column_map.subrange(0, n),
                    ctx.consts,
                    c.keywords[i].value,
                )
                &&& forall|k: int|
                    n <= k < d.column_map.len() ==> is_copy(
                        #[trigger] d.column_map[k],
                        d.column_map[k].target,
                    ) && d.copy.contains(d.column_map[k].target)
                &&& forall|k: int|
                    0 <= k < d.copy.len() ==> maps_column(d.column_map, #[trigger] d.copy[k])
            },
{
    let d = decl_of(ctx, name, c, kind);
    let base = decl_keywords(
        ctx,
        decl_start(ctx, name, c, kind),
        c.keywords,
        c.keywords.len() as int,
    );
    last_keyword_counts(
        ctx,
        decl_start(ctx, name, c, kind),
        c.keywords,
        c.keywords.len() as int,
        i,
    );
    each_entry_is_read(ctx.consts, c.keywords[i].value);
    each_copy_has_an_entry(base.column_map, base.copy);
    let n = base.column_map.len() as int;
    assert(d.column_map.subrange(0, n) =~= base.column_map);
}

// ─────────────────────────────── constants ────────────────────────────

/// True when the statement binds the name to the literal.
pub open spec fn binds(s: PyStmtTree, name: Seq<char>, text: Seq<char>) -> bool {
    &&& s is Assign
    &&& s->Assign_0.len() == 1
    &&& s->Assign_0[0] is Name
    &&& s->Assign_0[0]->Name_1 == name
    &&& s->Assign_1 is Str
    &&& s->Assign_1->Str_1 == text
}

/// True when the statement binds the name to a literal.
pub open spec fn binds_any(s: PyStmtTree, name: Seq<char>) -> bool {
    exists|t: Seq<char>| #[trigger] binds(s, name, t)
}

/// A name holds the literal that it was bound to last.
pub proof fn last_binding_counts(
    s: Seq<PyStmtTree>,
    n: int,
    i: int,
    name: Seq<char>,
    text: Seq<char>,
)
    requires
        0 <= i < n <= s.len(),
        binds(s[i], name, text),
        forall|j: int| i < j < n ==> !binds_any(#[trigger] s[j], name),
    ensures
        literals_upto(s, n).contains_key(name),
        literals_upto(s, n)[name] == text,
    decreases n,
{
    if i < n - 1 {
        last_binding_counts(s, n - 1, i, name, text);
        assert(!binds_any(s[n - 1], name));
        if let PyStmtTree::Assign(t, PyExprTree::Str(_, v)) = s[n - 1] {
            if t.len() == 1 && t[0] is Name && t[0]->Name_1 == name {
                assert(binds(s[n - 1], name, v));
            }
        }
    }
}

// ──────────────────────── configuration and imports ───────────────────

proof fn config_keys()
    ensures
        "service"@.len() == 7,
        "database"@.len() == 8,
        "schema"@.len() == 6,
        "dag"@.len() == 3,
{
    reveal_strlit("service");
    reveal_strlit("database");
    reveal_strlit("schema");
    reveal_strlit("dag");
}

/// True when keyword `i` is the last of the first `n` with the name.
pub open spec fn is_last_of(k: Seq<PyKeywordTree>, n: int, i: int, name: Seq<char>) -> bool {
    &&& 0 <= i < n
    &&& k[i].name == Some(name)
    &&& forall|j: int| i < j < n ==> (#[trigger] k[j]).name != Some(name)
}

/// A configuration has what the last argument of each name says, and what it
/// had where no argument has the name.
pub proof fn configuration_has_what_its_call_says(
    consts: Map<Seq<char>, Seq<char>>,
    k: Seq<PyKeywordTree>,
    n: int,
    cfg: ModuleConfigView,
)
    requires
        0 <= n <= k.len(),
    ensures
        ({
            let r = configured(consts, k, n, cfg);
            &&& forall|i: int| #[trigger]
                is_last_of(k, n, i, "service"@) ==> r.service == resolved_text(consts, k[i].value)
            &&& forall|i: int| #[trigger]
                is_last_of(k, n, i, "database"@) ==> r.database == resolved_text(
                    consts,
                    k[i].value,
                )
            &&& forall|i: int| #[trigger]
                is_last_of(k, n, i, "schema"@) ==> r.schema == resolved_text(consts, k[i].value)
            &&& forall|i: int| #[trigger]
                is_last_of(k, n, i, "dag"@) ==> r.dag == resolved_text(consts, k[i].value)
            &&& lacks(k, n, "service"@) ==> r.service == cfg.service
            &&& lacks(k, n, "database"@) ==> r.database == cfg.database
            &&& lacks(k, n, "schema"@) ==> r.schema == cfg.schema
            &&& lacks(k, n, "dag"@) ==> r.dag == cfg.dag
        }),
    decreases n,
{
    config_keys();
    if n > 0 {
        configuration_has_what_its_call_says(consts, k, n - 1, cfg);
        last_or_before(k, n, "service"@);
        last_or_before(k, n, "database"@);
        last_or_before(k, n, "schema"@);
        last_or_before(k, n, "dag"@);
    }
}

/// True when none of the first `n` keywords has the name.
pub open spec fn lacks(k: Seq<PyKeywordTree>, n: int, name: Seq<char>) -> bool {
    forall|j: int| 0 <= j < n ==> (#[trigger] k[j]).name != Some(name)
}

proof fn last_or_before(k: Seq<PyKeywordTree>, n: int, name: Seq<char>)
    requires
        0 < n <= k.len(),
    ensures
        k[n - 1].name == Some(name) ==> !lacks(k, n, name) && forall|i: int| #[trigger]
            is_last_of(k, n, i, name) ==> i == n - 1,
        k[n - 1].name != Some(name) ==> (lacks(k, n, name) ==> lacks(k, n - 1, name)) && forall|
            i: int,
        | #[trigger]
            is_last_of(k, n, i, name) ==> is_last_of(k, n - 1, i, name),
{
    if k[n - 1].name == Some(name) {
        assert forall|i: int| #[trigger] is_last_of(k, n, i, name) implies i == n - 1 by {
            if i < n - 1 {
                assert(k[n - 1].name != Some(name));
            }
        }
    }
}

/// The name that an import binds.
pub open spec fn bound_name(a: PyAliasTree) -> Seq<char> {
    match a.asname {
        Some(x) => x,
        None => a.name,
    }
}

/// `from module import a as b, …` binds each name to what it is in the module;
/// of two that bind the same name the later counts.
pub proof fn each_import_binds_its_name(
    env: Imports,
    module: Seq<char>,
    names: Seq<PyAliasTree>,
    n: int,
    k: int,
)
    requires
        0 <= k < n <= names.len(),
        names[k].name != "*"@,
        forall|j: int|
            k < j < n ==> (#[trigger] names[j]).name == "*"@ || bound_name(names[j]) != bound_name(
                names[k],
            ),
    ensures
        named_imports(env, module, names, n).from_imports.contains_key(bound_name(names[k])),
        named_imports(env, module, names, n).from_imports[bound_name(names[k])] == (
            module,
            names[k].name,
        ),
        named_imports(env, module, names, n).module_aliases == env.module_aliases,
    decreases n,
{
    named_imports_keep(env, module, names, n);
    if k < n - 1 {
        each_import_binds_its_name(env, module, names, n - 1, k);
        assert(names[n - 1].name == "*"@ || bound_name(names[n - 1]) != bound_name(names[k]));
    }
}

proof fn named_imports_keep(env: Imports, module: Seq<char>, names: Seq<PyAliasTree>, n: int)
    ensures
        named_imports(env, module, names, n).module_aliases == env.module_aliases,
    decreases n,
{
    if n > 0 {
        named_imports_keep(env, module, names, n - 1);
    }
}

} // verus!

//! Reads task declarations from Python source. No code is run: only literals,
//! module constants and imported constants count.

use vstd::prelude::*;

use crate::collections::{StrMap, StrSet};
use crate::dataflow::{analyze, call_is, callee_final_segment, const_str, keyword_is};
use crate::decls::{
    add_task, aliases_upto, as_lineage, as_task, block_calls, callable_name, callable_task,
    callables_in, callables_upto, calls_function, chased, column_map_of, columns_upto, config_in,
    config_upto, configured, constant_value, constants_of, dag_configured, dataset_list,
    dataset_text, datasets_unresolved, datasets_upto, decl_keyword, decl_keywords, decl_of,
    decl_start, declared_task, declared_upto, dotted, elements, find_caller, find_function,
    find_lineage, find_task, flagged, has_task, import_module, imports_upto, keyword_value,
    kwarg_of, kwarg_text, lineage_aliases, lineage_decl_of, lineage_keyword, lineage_keywords,
    lineage_names_upto, literals_upto, looked_up, map_entries, map_entry, maps_column, module_has,
    module_of, named_imports, names_lineage, nonempty_upto, operator_sql, operator_task,
    operators_in, operators_upto, plain_imports, query_task, resolved_text, scalar,
    scalar_unresolved, single_module, statement_call, target_name, text_list, texts_unresolved,
    texts_upto, uri_list, uris_upto, with_configured, with_copies, ColumnMapEntry, DeclCtx,
    DecoratorKind, Imports, ModuleConfig, OperatorCtx, ScannedModule, ScannedModuleView, TaskDecl,
    TaskDeclView, MAX_ALIAS_DEPTH,
};
use crate::pyast::{
    parse_module, python_parse, unfold_call, unfold_expr, unfold_for, unfold_function,
    unfold_keyword, unfold_stmt, PyAlias, PyCall, PyCallTree, PyExpr, PyExprTree, PyFunction,
    PyKeyword, PyStmt,
};
use crate::source::{byte_to_line, fits, span_source_text};
use crate::sql::column_lineage_from_sql;
use crate::text::{
    ends_with_str, group_views, join, opt_text, replicate_opt, split_str, split_text, str_eq, views,
    Replicate,
};

verus! {

// ───────────────────────── constants of other modules ─────────────────

/// The string constants of many modules, by their dotted paths.
#[derive(Debug, Clone)]
pub struct ConstTable {
    modules: StrMap<StrMap<String>>,
}

impl View for ConstTable {
    type V = Map<Seq<char>, Map<Seq<char>, Seq<char>>>;

    closed spec fn view(&self) -> Map<Seq<char>, Map<Seq<char>, Seq<char>>> {
        self.modules@
    }
}

impl Default for ConstTable {
    fn default() -> (r: Self)
        ensures
            r@ == Map::<Seq<char>, Map<Seq<char>, Seq<char>>>::empty(),
    {
        ConstTable { modules: StrMap::new() }
    }
}

impl ConstTable {
    /// Records the constants of a module; one without any is left out.
    pub fn insert_module(&mut self, path: &str, consts: StrMap<String>)
        ensures
            final(self)@ == if consts@ == Map::<Seq<char>, Seq<char>>::empty() {
                old(self)@
            } else {
                old(self)@.insert(path@, consts@)
            },
    {
        if consts.is_empty() {
            return;
        }
        self.modules.insert(path.to_owned(), consts);
    }

    fn has(&self, module: &str, name: &str, key: &str) -> (r: Option<String>)
        ensures
            match r {
                Some(s) => module_has(self@, module@, name@, key@) && s@ == self@[key@][name@],
                None => !module_has(self@, module@, name@, key@),
            },
    {
        let mut dotted_module = ".".to_owned();
        dotted_module.append(module);
        let mut dotted_key = ".".to_owned();
        dotted_key.append(key);
        let related = str_eq(key, module) || ends_with_str(key, dotted_module.as_str())
            || ends_with_str(module, dotted_key.as_str());
        if !related {
            return None;
        }
        match self.modules.get(key) {
            Some(m) => match m.get(name) {
                Some(s) => Some(s.clone()),
                None => None,
            },
            None => None,
        }
    }

    /// The constant of a module: of the module itself, or else of the only
    /// related module that has it.
    pub(crate) fn lookup(&self, module: &str, name: &str) -> (r: Option<String>)
        ensures
            opt_text(r) == looked_up(self@, module@, name@),
    {
        if let Some(m) = self.modules.get(module) {
            if let Some(s) = m.get(name) {
                return Some(s.clone());
            }
        }
        let keys = self.modules.keys();
        let ghost kv = views(keys@);
        let ghost t = self@;
        let mut hit: Option<String> = None;
        let ghost mut at: int = 0;
        let mut i: usize = 0;
        while i < keys.len()
            invariant
                i <= keys@.len(),
                kv == views(keys@),
                t == self@,
                kv.no_duplicates(),
                forall|k: Seq<char>| #[trigger] kv.contains(k) == t.contains_key(k),
                !(t.contains_key(module@) && t[module@].contains_key(name@)),
                match hit {
                    Some(s) => 0 <= at < i && module_has(t, module@, name@, kv[at]) && s@
                        == t[kv[at]][name@],
                    None => true,
                },
                forall|k: int|
                    0 <= k < i && module_has(t, module@, name@, #[trigger] kv[k]) ==> hit is Some
                        && k == at,
            decreases keys@.len() - i,
        {
            assert(kv[i as int] == keys@[i as int]@);
            if let Some(s) = self.has(module, name, keys[i].as_str()) {
                if hit.is_some() {
                    proof {
                        assert(module_has(t, module@, name@, kv[i as int]));
                        assert(module_has(t, module@, name@, kv[at]));
                        assert(kv[i as int] != kv[at]);
                        assert forall|k: Seq<char>| !single_module(t, module@, name@, k) by {}
                    }
                    return None;
                }
                hit = Some(s);
                proof {
                    at = i as int;
                }
            }
            i = i + 1;
        }
        proof {
            assert forall|j: Seq<char>| #[trigger] module_has(t, module@, name@, j) implies hit
                is Some && j == kv[at] by {
                assert(kv.contains(j));
                let k = choose|k: int| 0 <= k < kv.len() && kv[k] == j;
                assert(module_has(t, module@, name@, kv[k]));
            }
            if hit is Some {
                assert(single_module(t, module@, name@, kv[at]));
            }
        }
        hit
    }
}

// ───────────────────────────── module constants ───────────────────────

fn single_target_name(targets: &Vec<PyExpr>) -> (r: Option<String>)
    ensures
        opt_text(r) == target_name(views(targets@)),
{
    if targets.len() != 1 {
        return None;
    }
    proof {
        unfold_expr(targets@[0]);
        assert(views(targets@)[0] == targets@[0]@);
    }
    match &targets[0] {
        PyExpr::Name(_, n) => Some(n.clone()),
        _ => None,
    }
}

fn chase(literals: &StrMap<String>, aliases: &StrMap<String>, name: &str, first: &str) -> (r:
    Option<String>)
    ensures
        opt_text(r) == chased(
            literals@,
            aliases@,
            first@,
            set![name@],
            MAX_ALIAS_DEPTH as int,
        ),
{
    let mut target = first.to_owned();
    let mut seen = StrSet::new();
    let _fresh = seen.insert(name.to_owned());
    assert(seen@ =~= set![name@]);
    let ghost goal = chased(literals@, aliases@, first@, set![name@], MAX_ALIAS_DEPTH as int);
    let mut left: usize = MAX_ALIAS_DEPTH;
    while left > 0
        invariant
            goal == chased(literals@, aliases@, first@, set![name@], MAX_ALIAS_DEPTH as int),
            goal == chased(literals@, aliases@, target@, seen@, left as int),
        decreases left,
    {
        if seen.contains(target.as_str()) {
            return None;
        }
        if let Some(s) = literals.get(target.as_str()) {
            return Some(s.clone());
        }
        match aliases.get(target.as_str()) {
            Some(next) => {
                let _fresh = seen.insert(target);
                target = next.clone();
            },
            None => {
                return None;
            },
        }
        left = left - 1;
    }
    None
}

/// The string constants that the statements of a module define.
pub fn constants_from_suite(suite: &Vec<PyStmt>) -> (r: StrMap<String>)
    ensures
        r@ == constants_of(views(suite@)),
{
    let ghost sv = views(suite@);
    let mut literals: StrMap<String> = StrMap::new();
    let mut aliases: StrMap<String> = StrMap::new();
    let mut i: usize = 0;
    while i < suite.len()
        invariant
            i <= suite@.len(),
            sv == views(suite@),
            literals@ == literals_upto(sv, i as int),
            aliases@ == aliases_upto(sv, i as int),
        decreases suite@.len() - i,
    {
        proof {
            unfold_stmt(suite@[i as int]);
            assert(sv[i as int] == suite@[i as int]@);
        }
        if let PyStmt::Assign(t, v) = &suite[i] {
            proof {
                unfold_expr(*v);
            }
            if let Some(name) = single_target_name(t) {
                match v {
                    PyExpr::Str(_, s) => {
                        literals.insert(name, s.clone());
                    },
                    PyExpr::Name(_, n) => {
                        aliases.insert(name, n.clone());
                    },
                    _ => {},
                }
            }
        }
        i = i + 1;
    }
    let ghost l = literals@;
    let ghost a = aliases@;
    let mut out = literals.replicate();
    let names = aliases.keys();
    let ghost nv = views(names@);
    let mut j: usize = 0;
    while j < names.len()
        invariant
            j <= names@.len(),
            nv == views(names@),
            l == literals@,
            a == aliases@,
            forall|k: Seq<char>| #[trigger] nv.contains(k) == a.contains_key(k),
            forall|k: Seq<char>|
                #[trigger] out@.contains_key(k) ==> constant_value(l, a, k) == Some(out@[k]),
            forall|k: Seq<char>| l.contains_key(k) ==> #[trigger] out@.contains_key(k),
            forall|q: int|
                0 <= q < j && constant_value(l, a, #[trigger] nv[q]) is Some
                    ==> out@.contains_key(nv[q]),
        decreases names@.len() - j,
    {
        assert(nv[j as int] == names@[j as int]@);
        assert(nv.contains(nv[j as int]));
        if !literals.contains_key(names[j].as_str()) {
            if let Some(first) = aliases.get(names[j].as_str()) {
                if let Some(s) = chase(&literals, &aliases, names[j].as_str(), first.as_str()) {
                    out.insert(names[j].clone(), s);
                }
            }
        }
        j = j + 1;
    }
    proof {
        let want = constants_of(sv);
        assert forall|k: Seq<char>| out@.contains_key(k) == want.contains_key(k) by {
            if want.contains_key(k) && !l.contains_key(k) {
                assert(nv.contains(k));
                let q = choose|q: int| 0 <= q < nv.len() && nv[q] == k;
                assert(constant_value(l, a, nv[q]) is Some);
            }
        }
        assert(out@ =~= want);
    }
    out
}

/// The string constants of a source text; none when it cannot be parsed.
pub fn collect_module_constants(source: &str) -> (r: StrMap<String>)
    requires
        fits(source@),
    ensures
        r@ == (match python_parse(source@) {
            Ok(s) => constants_of(s),
            Err(_) => Map::empty(),
        }),
{
    match parse_module(source) {
        Ok(suite) => constants_from_suite(&suite),
        Err(_) => StrMap::new(),
    }
}

// ──────────────────────────────── imports ─────────────────────────────

pub(crate) struct ImportEnv {
    from_imports: StrMap<(String, String)>,
    module_aliases: StrMap<String>,
}

impl View for ImportEnv {
    type V = Imports;

    closed spec fn view(&self) -> Imports {
        Imports { from_imports: self.from_imports@, module_aliases: self.module_aliases@ }
    }
}

fn package_parts(current: &str, level: usize) -> (r: Vec<String>)
    ensures
        ({
            let all = split_text(current@, '.');
            let p = nonempty_upto(all, all.len() as int);
            views(r@) == p.take(if level < p.len() { p.len() - level } else { 0 })
        }),
{
    broadcast use group_views;

    let all = split_str(current, '.');
    let ghost av = views(all@);
    let mut parts: Vec<String> = Vec::new();
    let mut i: usize = 0;
    while i < all.len()
        invariant
            i <= all@.len(),
            av == views(all@),
            views(parts@) == nonempty_upto(av, i as int),
        decreases all@.len() - i,
    {
        broadcast use group_views;

        if !all[i].as_str().is_empty() {
            parts.push(all[i].clone());
        }
        i = i + 1;
    }
    let ghost p = views(parts@);
    let keep: usize = if level < parts.len() {
        parts.len() - level
    } else {
        0
    };
    parts.truncate(keep);
    assert(views(parts@) =~= p.take(keep as int));
    parts
}

/// The absolute module of a `from` import in the module `current`.
pub fn resolve_import_module(current: &str, level: usize, base: &str) -> (r: String)
    ensures
        r@ == import_module(current@, level as int, base@),
{
    if level == 0 {
        return base.to_owned();
    }
    let parts = package_parts(current, level);
    let pkg = join(&parts, ".");
    if pkg.as_str().is_empty() {
        base.to_owned()
    } else if base.is_empty() {
        pkg
    } else {
        let mut s = pkg;
        s.append(".");
        s.append(base);
        s
    }
}

impl ImportEnv {
    fn add_plain(&mut self, names: &Vec<PyAlias>)
        ensures
            final(self)@ == plain_imports(old(self)@, views(names@), names@.len() as int),
    {
        let ghost start = self@;
        let mut i: usize = 0;
        while i < names.len()
            invariant
                i <= names@.len(),
                self@ == plain_imports(start, views(names@), i as int),
            decreases names@.len() - i,
        {
            assert(views(names@)[i as int] == names@[i as int]@);
            if let Some(a) = &names[i].asname {
                self.module_aliases.insert(a.clone(), names[i].name.clone());
            }
            i = i + 1;
        }
    }

    fn add_named(&mut self, module: &str, names: &Vec<PyAlias>)
        ensures
            final(self)@ == named_imports(
                old(self)@,
                module@,
                views(names@),
                names@.len() as int,
            ),
    {
        let ghost start = self@;
        let mut i: usize = 0;
        while i < names.len()
            invariant
                i <= names@.len(),
                self@ == named_imports(start, module@, views(names@), i as int),
            decreases names@.len() - i,
        {
            assert(views(names@)[i as int] == names@[i as int]@);
            if !str_eq(names[i].name.as_str(), "*") {
                let local = match &names[i].asname {
                    Some(a) => a.clone(),
                    None => names[i].name.clone(),
                };
                let pair = (module.to_owned(), names[i].name.clone());
                self.from_imports.insert(local, pair);
            }
            i = i + 1;
        }
    }
}

fn collect_imports(suite: &Vec<PyStmt>, own_module: &str) -> (r: ImportEnv)
    ensures
        r@ == imports_upto(views(suite@), own_module@, suite@.len() as int),
{
    let ghost sv = views(suite@);
    let mut env = ImportEnv { from_imports: StrMap::new(), module_aliases: StrMap::new() };
    let mut i: usize = 0;
    while i < suite.len()
        invariant
            i <= suite@.len(),
            sv == views(suite@),
            env@ == imports_upto(sv, own_module@, i as int),
        decreases suite@.len() - i,
    {
        proof {
            unfold_stmt(suite@[i as int]);
            assert(sv[i as int] == suite@[i as int]@);
        }
        match &suite[i] {
            PyStmt::Import(names) => {
                env.add_plain(names);
            },
            PyStmt::ImportFrom(m, level, names) => {
                let base = match m {
                    Some(s) => s.clone(),
                    None => String::new(),
                };
                let module = resolve_import_module(own_module, *level, base.as_str());
                env.add_named(module.as_str(), names);
            },
            _ => {},
        }
        i = i + 1;
    }
    env
}

// ────────────────────────────── reading values ────────────────────────

fn dotted_path(e: &PyExpr) -> (r: Option<String>)
    ensures
        opt_text(r) == dotted(e@),
    decreases e,
{
    proof {
        unfold_expr(*e);
    }
    match e {
        PyExpr::Name(_, n) => Some(n.clone()),
        PyExpr::Attribute(_, v, a) => match dotted_path(v) {
            Some(p) => {
                let mut s = p;
                s.append(".");
                s.append(a.as_str());
                Some(s)
            },
            None => None,
        },
        _ => None,
    }
}

pub(crate) fn resolve_str(e: &PyExpr, consts: &StrMap<String>) -> (r: Option<String>)
    ensures
        opt_text(r) == resolved_text(consts@, e@),
{
    proof {
        unfold_expr(*e);
    }
    match e {
        PyExpr::Str(_, s) => Some(s.clone()),
        PyExpr::Name(_, n) => match consts.get(n.as_str()) {
            Some(s) => Some(s.clone()),
            None => None,
        },
        _ => None,
    }
}

fn is_explicit_none(e: &PyExpr) -> (r: bool)
    ensures
        r == (e@ is NoneLiteral),
{
    proof {
        unfold_expr(*e);
    }
    match e {
        PyExpr::NoneLiteral(_) => true,
        _ => false,
    }
}

fn list_elements<'e>(e: &'e PyExpr) -> (r: Option<&'e Vec<PyExpr>>)
    ensures
        match r {
            Some(v) => elements(e@) == Some(views(v@)),
            None => elements(e@) is None,
        },
{
    proof {
        unfold_expr(*e);
    }
    match e {
        PyExpr::List(_, v) => Some(v),
        PyExpr::Tuple(_, v) => Some(v),
        _ => None,
    }
}

fn resolve_str_list(e: &PyExpr, consts: &StrMap<String>) -> (r: Vec<String>)
    ensures
        views(r@) == text_list(consts@, e@),
{
    broadcast use group_views;

    let mut out: Vec<String> = Vec::new();
    if let Some(v) = list_elements(e) {
        let mut i: usize = 0;
        while i < v.len()
            invariant
                i <= v@.len(),
                views(out@) == texts_upto(consts@, views(v@), i as int),
            decreases v@.len() - i,
        {
            broadcast use group_views;

            assert(views(v@)[i as int] == v@[i as int]@);
            if let Some(s) = resolve_str(&v[i], consts) {
                out.push(s);
            }
            i = i + 1;
        }
    }
    out
}

fn list_has_unresolved(e: &PyExpr, consts: &StrMap<String>) -> (r: bool)
    ensures
        r == texts_unresolved(consts@, e@),
{
    match list_elements(e) {
        Some(v) => {
            let ghost vv = views(v@);
            let mut i: usize = 0;
            while i < v.len()
                invariant
                    i <= v@.len(),
                    vv == views(v@),
                    elements(e@) == Some(vv),
                    forall|k: int| 0 <= k < i ==> resolved_text(consts@, #[trigger] vv[k]) is Some,
                decreases v@.len() - i,
            {
                assert(vv[i as int] == v@[i as int]@);
                if resolve_str(&v[i], consts).is_none() {
                    assert(resolved_text(consts@, vv[i as int]) is None);
                    return true;
                }
                i = i + 1;
            }
            false
        },
        None => true,
    }
}

fn parse_map_entry(e: &PyExpr, consts: &StrMap<String>) -> (r: Option<ColumnMapEntry>)
    ensures
        match r {
            Some(x) => map_entry(consts@, e@) == Some(x@),
            None => map_entry(consts@, e@) is None,
        },
{
    match list_elements(e) {
        Some(t) => {
            if t.len() < 2 {
                return None;
            }
            assert(views(t@)[0] == t@[0]@);
            assert(views(t@)[1] == t@[1]@);
            let sources = match resolve_str(&t[0], consts) {
                Some(s) => {
                    let mut one: Vec<String> = Vec::new();
                    one.push(s);
                    assert(views(one@) =~= seq![s@]);
                    one
                },
                None => resolve_str_list(&t[0], consts),
            };
            match resolve_str(&t[1], consts) {
                Some(target) => {
                    let function = if t.len() > 2 {
                        assert(views(t@)[2] == t@[2]@);
                        resolve_str(&t[2], consts)
                    } else {
                        None
                    };
                    Some(ColumnMapEntry { sources, target, function })
                },
                None => None,
            }
        },
        None => None,
    }
}

fn parse_column_map(e: &PyExpr, consts: &StrMap<String>) -> (r: Vec<ColumnMapEntry>)
    ensures
        views(r@) == column_map_of(consts@, e@),
{
    broadcast use group_views;

    let mut out: Vec<ColumnMapEntry> = Vec::new();
    if let Some(v) = list_elements(e) {
        let mut i: usize = 0;
        while i < v.len()
            invariant
                i <= v@.len(),
                views(out@) == map_entries(consts@, views(v@), i as int),
            decreases v@.len() - i,
        {
            broadcast use group_views;

            assert(views(v@)[i as int] == v@[i as int]@);
            if let Some(x) = parse_map_entry(&v[i], consts) {
                out.push(x);
            }
            i = i + 1;
        }
    }
    out
}

pub(crate) struct Ctx<'a> {
    consts: &'a StrMap<String>,
    imports: ImportEnv,
    table: &'a ConstTable,
    source: &'a str,
}

impl View for Ctx<'_> {
    type V = DeclCtx;

    closed spec fn view(&self) -> DeclCtx {
        DeclCtx {
            consts: self.consts@,
            imports: self.imports@,
            table: self.table@,
            source: self.source@,
        }
    }
}

impl Ctx<'_> {
    /// The string of a dataset.
    fn dataset_str(&self, e: &PyExpr) -> (r: Option<String>)
        ensures
            opt_text(r) == dataset_text(self@, e@),
    {
        proof {
            unfold_expr(*e);
        }
        match e {
            PyExpr::Str(_, s) => Some(s.clone()),
            PyExpr::Name(_, n) => {
                if let Some(s) = self.consts.get(n.as_str()) {
                    return Some(s.clone());
                }
                match self.imports.from_imports.get(n.as_str()) {
                    Some(pair) => self.table.lookup(pair.0.as_str(), pair.1.as_str()),
                    None => None,
                }
            },
            PyExpr::Attribute(_, v, a) => match dotted_path(v) {
                Some(base) => {
                    let module = match self.imports.module_aliases.get(base.as_str()) {
                        Some(m) => m.clone(),
                        None => base,
                    };
                    self.table.lookup(module.as_str(), a.as_str())
                },
                None => None,
            },
            _ => None,
        }
    }

    fn dataset_str_list(&self, e: &PyExpr) -> (r: Vec<String>)
        ensures
            views(r@) == dataset_list(self@, e@),
    {
        broadcast use group_views;

        let mut out: Vec<String> = Vec::new();
        if let Some(v) = list_elements(e) {
            let mut i: usize = 0;
            while i < v.len()
                invariant
                    i <= v@.len(),
                    views(out@) == datasets_upto(self@, views(v@), i as int),
                decreases v@.len() - i,
            {
                broadcast use group_views;

                assert(views(v@)[i as int] == v@[i as int]@);
                if let Some(s) = self.dataset_str(&v[i]) {
                    out.push(s);
                }
                i = i + 1;
            }
        }
        out
    }

    fn dataset_list_has_unresolved(&self, e: &PyExpr) -> (r: bool)
        ensures
            r == datasets_unresolved(self@, e@),
    {
        match list_elements(e) {
            Some(v) => {
                let ghost vv = views(v@);
                let mut i: usize = 0;
                while i < v.len()
                    invariant
                        i <= v@.len(),
                        vv == views(v@),
                        elements(e@) == Some(vv),
                        forall|k: int|
                            0 <= k < i ==> dataset_text(self@, #[trigger] vv[k]) is Some,
                    decreases v@.len() - i,
                {
                    assert(vv[i as int] == v@[i as int]@);
                    if self.dataset_str(&v[i]).is_none() {
                        assert(dataset_text(self@, vv[i as int]) is None);
                        return true;
                    }
                    i = i + 1;
                }
                false
            },
            None => true,
        }
    }

    /// The datasets of a `@lineage` list, and those that are source texts.
    fn resolve_uri_list(&self, e: &PyExpr) -> (r: (Vec<String>, StrSet))
        ensures
            (views(r.0@), r.1@) == uri_list(self@, e@),
    {
        broadcast use group_views;

        let mut vals: Vec<String> = Vec::new();
        let mut texts = StrSet::new();
        match list_elements(e) {
            Some(v) => {
                let mut i: usize = 0;
                while i < v.len()
                    invariant
                        i <= v@.len(),
                        (views(vals@), texts@) == uris_upto(self@, views(v@), i as int),
                    decreases v@.len() - i,
                {
                    broadcast use group_views;

                    assert(views(v@)[i as int] == v@[i as int]@);
                    match self.dataset_str(&v[i]) {
                        Some(s) => {
                            vals.push(s);
                        },
                        None => {
                            let t = span_source_text(self.source, v[i].span());
                            vals.push(t.clone());
                            let _fresh = texts.insert(t);
                        },
                    }
                    i = i + 1;
                }
            },
            None => {
                let t = span_source_text(self.source, e.span());
                vals.push(t.clone());
                let _fresh = texts.insert(t);
                assert(views(vals@) =~= uri_list(self@, e@).0);
                assert(texts@ =~= uri_list(self@, e@).1);
            },
        }
        (vals, texts)
    }
}

// ─────────────────────────────── decorators ───────────────────────────

fn flag(d: &mut TaskDecl, key: &str, unresolved: bool)
    ensures
        final(d)@ == flagged(old(d)@, key@, unresolved),
{
    broadcast use group_views;

    if unresolved {
        d.unresolved.push(key.to_owned());
    }
}

/// The value of a scalar argument, and whether it is given and no string.
fn read_scalar(consts: &StrMap<String>, before: &Option<String>, e: &PyExpr) -> (r: (
    Option<String>,
    bool,
))
    ensures
        opt_text(r.0) == scalar(consts@, opt_text(*before), e@),
        r.1 == scalar_unresolved(consts@, e@),
{
    match resolve_str(e, consts) {
        Some(s) => (Some(s), false),
        None => (replicate_opt(before), !is_explicit_none(e)),
    }
}

fn apply_decl_keyword(ctx: &Ctx, d: &mut TaskDecl, k: &PyKeyword)
    ensures
        final(d)@ == decl_keyword(ctx@, old(d)@, k@),
{
    proof {
        unfold_keyword(*k);
    }
    let e = &k.value;
    let c = ctx.consts;
    if let Some(name) = &k.name {
        let key = name.as_str();
        if str_eq(key, "dag") {
            let (v, bad) = read_scalar(c, &d.dag, e);
            d.dag = v;
            flag(d, key, bad);
        } else if str_eq(key, "inputs") {
            d.inputs = ctx.dataset_str_list(e);
            let bad = ctx.dataset_list_has_unresolved(e);
            flag(d, key, bad);
        } else if str_eq(key, "outputs") {
            d.outputs = ctx.dataset_str_list(e);
            let bad = ctx.dataset_list_has_unresolved(e);
            flag(d, key, bad);
        } else if str_eq(key, "engine") {
            let (v, bad) = read_scalar(c, &d.engine, e);
            d.engine = v;
            flag(d, key, bad);
        } else if str_eq(key, "sql") {
            let (v, bad) = read_scalar(c, &d.sql, e);
            d.sql = v;
            flag(d, key, bad);
        } else if str_eq(key, "description") {
            let (v, bad) = read_scalar(c, &d.description, e);
            d.description = v;
            flag(d, key, bad);
        } else if str_eq(key, "transform") {
            let (v, bad) = read_scalar(c, &d.transform, e);
            d.transform = v;
            flag(d, key, bad);
        } else if str_eq(key, "column_map") {
            d.column_map = parse_column_map(e, c);
        } else if str_eq(key, "copy") {
            d.copy = resolve_str_list(e, c);
            let bad = list_has_unresolved(e, c);
            flag(d, key, bad);
        }
    }
}

fn has_entry(m: &Vec<ColumnMapEntry>, target: &str) -> (r: bool)
    ensures
        r == maps_column(views(m@), target@),
{
    let ghost mv = views(m@);
    let mut i: usize = 0;
    while i < m.len()
        invariant
            i <= m@.len(),
            mv == views(m@),
            forall|k: int| 0 <= k < i ==> (#[trigger] mv[k]).target != target@,
        decreases m@.len() - i,
    {
        if str_eq(m[i].target.as_str(), target) {
            assert(mv[i as int].target == target@);
            return true;
        }
        i = i + 1;
    }
    false
}

fn add_copies(m: &mut Vec<ColumnMapEntry>, copy: &Vec<String>)
    ensures
        views(final(m)@) == with_copies(views(old(m)@), views(copy@), copy@.len() as int),
{
    let ghost start = views(m@);
    let mut i: usize = 0;
    while i < copy.len()
        invariant
            i <= copy@.len(),
            views(m@) == with_copies(start, views(copy@), i as int),
        decreases copy@.len() - i,
    {
        broadcast use group_views;

        if !has_entry(m, copy[i].as_str()) {
            let mut sources: Vec<String> = Vec::new();
            sources.push(copy[i].clone());
            assert(views(sources@) =~= seq![copy@[i as int]@]);
            m.push(
                ColumnMapEntry {
                    sources,
                    target: copy[i].clone(),
                    function: Some("direct copy".to_owned()),
                },
            );
        }
        i = i + 1;
    }
}

/// The declaration that a `@task(…)` or `@sql(…)` call makes.
fn build_decl(name: &str, c: &PyCall, ctx: &Ctx, kind: DecoratorKind) -> (r: TaskDecl)
    ensures
        r@ == decl_of(ctx@, name@, c@, kind),
{
    proof {
        unfold_call(*c);
    }
    let mut d = TaskDecl::default();
    d.task_name = name.to_owned();
    d.line = Some(byte_to_line(ctx.source, c.span.start));
    if kind == DecoratorKind::Sql {
        d.engine = Some("sql".to_owned());
        if c.args.len() > 0 {
            assert(views(c.args@)[0] == c.args@[0]@);
            let (v, bad) = read_scalar(ctx.consts, &None, &c.args[0]);
            d.sql = v;
            flag(&mut d, "sql", bad);
        }
    }
    let ghost start = decl_start(ctx@, name@, c@, kind);
    assert(d@ == start);
    let mut i: usize = 0;
    while i < c.keywords.len()
        invariant
            i <= c.keywords@.len(),
            d@ == decl_keywords(ctx@, start, views(c.keywords@), i as int),
        decreases c.keywords@.len() - i,
    {
        assert(views(c.keywords@)[i as int] == c.keywords@[i as int]@);
        apply_decl_keyword(ctx, &mut d, &c.keywords[i]);
        i = i + 1;
    }
    let ghost before = d@;
    let mut m = d.column_map;
    add_copies(&mut m, &d.copy);
    d.column_map = m;
    assert(d@ == (TaskDeclView {
        column_map: with_copies(before.column_map, before.copy, before.copy.len() as int),
        ..before
    }));
    d
}

fn apply_lineage_keyword(ctx: &Ctx, d: &mut TaskDecl, k: &PyKeyword)
    ensures
        final(d)@ == lineage_keyword(ctx@, old(d)@, k@),
{
    proof {
        unfold_keyword(*k);
    }
    let e = &k.value;
    if let Some(name) = &k.name {
        let key = name.as_str();
        if str_eq(key, "inputs") {
            let (vals, texts) = ctx.resolve_uri_list(e);
            d.inputs = vals;
            d.nonliteral.extend_from(&texts);
        } else if str_eq(key, "outputs") {
            let (vals, texts) = ctx.resolve_uri_list(e);
            d.outputs = vals;
            d.nonliteral.extend_from(&texts);
        } else if str_eq(key, "name") {
            if let Some(s) = resolve_str(e, ctx.consts) {
                if !s.as_str().is_empty() {
                    d.task_name = s;
                }
            }
        } else if str_eq(key, "description") {
            match resolve_str(e, ctx.consts) {
                Some(s) => {
                    d.description = Some(s);
                },
                None => {
                    if !is_explicit_none(e) {
                        d.description = Some(span_source_text(ctx.source, e.span()));
                    }
                },
            }
        }
    }
}

/// The declaration that `@lineage`, bare or called, makes.
fn build_lineage_decl(name: &str, call: Option<&PyCall>, ctx: &Ctx) -> (r: TaskDecl)
    ensures
        r@ == lineage_decl_of(
            ctx@,
            name@,
            match call {
                Some(c) => Some(c@),
                None => None,
            },
        ),
{
    let mut d = TaskDecl::default();
    d.task_name = name.to_owned();
    d.lineage = true;
    if let Some(c) = call {
        proof {
            unfold_call(*c);
        }
        d.line = Some(byte_to_line(ctx.source, c.span.start));
        let ghost start = d@;
        let mut i: usize = 0;
        while i < c.keywords.len()
            invariant
                i <= c.keywords@.len(),
                d@ == lineage_keywords(ctx@, start, views(c.keywords@), i as int),
            decreases c.keywords@.len() - i,
        {
            assert(views(c.keywords@)[i as int] == c.keywords@[i as int]@);
            apply_lineage_keyword(ctx, &mut d, &c.keywords[i]);
            i = i + 1;
        }
    }
    d
}

fn collect_lineage_names(suite: &Vec<PyStmt>) -> (r: StrSet)
    ensures
        r@ == lineage_names_upto(views(suite@), suite@.len() as int),
{
    let ghost sv = views(suite@);
    let mut out = StrSet::new();
    let _fresh = out.insert("lineage".to_owned());
    let mut i: usize = 0;
    while i < suite.len()
        invariant
            i <= suite@.len(),
            sv == views(suite@),
            out@ == lineage_names_upto(sv, i as int),
        decreases suite@.len() - i,
    {
        proof {
            unfold_stmt(suite@[i as int]);
            assert(sv[i as int] == suite@[i as int]@);
        }
        if let PyStmt::ImportFrom(_, _, names) = &suite[i] {
            let ghost start = out@;
            let mut j: usize = 0;
            while j < names.len()
                invariant
                    j <= names@.len(),
                    out@ == lineage_aliases(views(names@), j as int, start),
                decreases names@.len() - j,
            {
                assert(views(names@)[j as int] == names@[j as int]@);
                if str_eq(names[j].name.as_str(), "lineage") {
                    let bound = match &names[j].asname {
                        Some(a) => a.clone(),
                        None => "lineage".to_owned(),
                    };
                    let _fresh = out.insert(bound);
                }
                j = j + 1;
            }
        }
        i = i + 1;
    }
    out
}

fn is_lineage_name(e: &PyExpr, names: &StrSet) -> (r: bool)
    ensures
        r == names_lineage(e@, names@),
{
    proof {
        unfold_expr(*e);
    }
    match e {
        PyExpr::Name(_, n) => names.contains(n.as_str()),
        PyExpr::Attribute(_, _, a) => str_eq(a.as_str(), "lineage"),
        _ => false,
    }
}

spec fn opt_call(c: Option<&PyCall>) -> Option<PyCallTree> {
    match c {
        Some(x) => Some(x@),
        None => None,
    }
}

fn lineage_decorator<'e>(e: &'e PyExpr, names: &StrSet) -> (r: Option<Option<&'e PyCall>>)
    ensures
        match r {
            Some(c) => as_lineage(e@, names@) == Some(opt_call(c)),
            None => as_lineage(e@, names@) is None,
        },
{
    proof {
        unfold_expr(*e);
    }
    if is_lineage_name(e, names) {
        return Some(None);
    }
    if let PyExpr::Call(c) = e {
        proof {
            unfold_call(*c);
        }
        if is_lineage_name(&c.func, names) {
            return Some(Some(c));
        }
    }
    None
}

fn first_lineage_decorator<'e>(d: &'e Vec<PyExpr>, names: &StrSet) -> (r: Option<
    Option<&'e PyCall>,
>)
    ensures
        match r {
            Some(c) => find_lineage(views(d@), names@, 0) == Some(opt_call(c)),
            None => find_lineage(views(d@), names@, 0) is None,
        },
{
    let ghost dv = views(d@);
    let mut i: usize = 0;
    while i < d.len()
        invariant
            i <= d@.len(),
            dv == views(d@),
            find_lineage(dv, names@, 0) == find_lineage(dv, names@, i as int),
        decreases d@.len() - i,
    {
        assert(dv[i as int] == d@[i as int]@);
        if let Some(c) = lineage_decorator(&d[i], names) {
            return Some(c);
        }
        i = i + 1;
    }
    None
}

fn task_decorator_call<'e>(e: &'e PyExpr) -> (r: Option<(&'e PyCall, DecoratorKind)>)
    ensures
        match r {
            Some((c, kind)) => as_task(e@) == Some((c@, kind)),
            None => as_task(e@) is None,
        },
{
    proof {
        unfold_expr(*e);
    }
    if let PyExpr::Call(c) = e {
        proof {
            unfold_call(*c);
        }
        if call_is(c, "task") {
            return Some((c, DecoratorKind::Task));
        }
        if call_is(c, "sql") {
            return Some((c, DecoratorKind::Sql));
        }
    }
    None
}

fn first_task_decorator<'e>(d: &'e Vec<PyExpr>) -> (r: Option<(&'e PyCall, DecoratorKind)>)
    ensures
        match r {
            Some((c, kind)) => find_task(views(d@), 0) == Some((c@, kind)),
            None => find_task(views(d@), 0) is None,
        },
{
    let ghost dv = views(d@);
    let mut i: usize = 0;
    while i < d.len()
        invariant
            i <= d@.len(),
            dv == views(d@),
            find_task(dv, 0) == find_task(dv, i as int),
        decreases d@.len() - i,
    {
        assert(dv[i as int] == d@[i as int]@);
        if let Some(x) = task_decorator_call(&d[i]) {
            return Some(x);
        }
        i = i + 1;
    }
    None
}

/// The task that the decorators of a function declare.
fn declare_task(ctx: &Ctx, names: &StrSet, f: &PyFunction) -> (r: Option<TaskDecl>)
    ensures
        match r {
            Some(d) => declared_task(ctx@, names@, f@) == Some(d@),
            None => declared_task(ctx@, names@, f@) is None,
        },
{
    proof {
        unfold_function(*f);
    }
    if let Some(call) = first_lineage_decorator(&f.decorators, names) {
        let mut d = build_lineage_decl(f.name.as_str(), call, ctx);
        d.inferred_columns = analyze(&f.body, ctx.consts, ctx.source).columns;
        return Some(d);
    }
    if let Some((c, kind)) = first_task_decorator(&f.decorators) {
        let mut d = build_decl(f.name.as_str(), c, ctx, kind);
        let sql = match &d.engine {
            Some(e) => str_eq(e.as_str(), "sql"),
            None => false,
        };
        if !(kind == DecoratorKind::Sql || sql) {
            let t = analyze(&f.body, ctx.consts, ctx.source);
            d.inferred_columns = t.columns;
            d.opaque = t.opaque;
        }
        return Some(d);
    }
    None
}

fn declare_tasks(ctx: &Ctx, names: &StrSet, suite: &Vec<PyStmt>) -> (r: (Vec<TaskDecl>, StrSet))
    ensures
        (views(r.0@), r.1@) == declared_upto(ctx@, names@, views(suite@), suite@.len() as int),
{
    broadcast use group_views;

    let ghost sv = views(suite@);
    let mut tasks: Vec<TaskDecl> = Vec::new();
    let mut decorated = StrSet::new();
    let mut i: usize = 0;
    while i < suite.len()
        invariant
            i <= suite@.len(),
            sv == views(suite@),
            (views(tasks@), decorated@) == declared_upto(ctx@, names@, sv, i as int),
        decreases suite@.len() - i,
    {
        broadcast use group_views;

        proof {
            unfold_stmt(suite@[i as int]);
            assert(sv[i as int] == suite@[i as int]@);
        }
        if let PyStmt::FunctionDef(f) = &suite[i] {
            proof {
                unfold_function(*f);
            }
            if let Some(d) = declare_task(ctx, names, f) {
                tasks.push(d);
                let _fresh = decorated.insert(f.name.clone());
            }
        }
        i = i + 1;
    }
    (tasks, decorated)
}

// ─────────────────────────────── operators ────────────────────────────

spec fn opt_expr(e: Option<&PyExpr>) -> Option<PyExprTree> {
    match e {
        Some(x) => Some(x@),
        None => None,
    }
}

/// The value of the first keyword argument with the name.
fn kwarg<'e>(c: &'e PyCall, name: &str) -> (r: Option<&'e PyExpr>)
    ensures
        opt_expr(r) == kwarg_of(c@, name@),
{
    proof {
        unfold_call(*c);
    }
    let ghost kv = views(c.keywords@);
    let mut i: usize = 0;
    while i < c.keywords.len()
        invariant
            i <= c.keywords@.len(),
            kv == views(c.keywords@),
            kwarg_of(c@, name@) == keyword_value(kv, name@, i as int),
        decreases c.keywords@.len() - i,
    {
        proof {
            unfold_keyword(c.keywords@[i as int]);
            assert(kv[i as int] == c.keywords@[i as int]@);
        }
        if keyword_is(&c.keywords[i], name) {
            return Some(&c.keywords[i].value);
        }
        i = i + 1;
    }
    None
}

fn kwarg_str(c: &PyCall, name: &str) -> (r: Option<String>)
    ensures
        opt_text(r) == kwarg_text(c@, name@),
{
    match kwarg(c, name) {
        Some(e) => const_str(e),
        None => None,
    }
}

fn call_of_statement<'e>(s: &'e PyStmt) -> (r: Option<&'e PyCall>)
    ensures
        opt_call(r) == statement_call(s@),
{
    proof {
        unfold_stmt(*s);
    }
    let e = match s {
        PyStmt::Assign(_, v) => v,
        PyStmt::Expr(v) => v,
        _ => {
            return None;
        },
    };
    proof {
        unfold_expr(*e);
    }
    match e {
        PyExpr::Call(c) => Some(c),
        _ => None,
    }
}

/// The last function of a module with the name.
fn function_named<'e>(suite: &'e Vec<PyStmt>, name: &str) -> (r: Option<&'e PyFunction>)
    ensures
        match r {
            Some(f) => find_function(views(suite@), name@, suite@.len() as int) == Some(f@),
            None => find_function(views(suite@), name@, suite@.len() as int) is None,
        },
{
    let ghost sv = views(suite@);
    let mut i: usize = suite.len();
    while i > 0
        invariant
            i <= suite@.len(),
            sv == views(suite@),
            find_function(sv, name@, suite@.len() as int) == find_function(sv, name@, i as int),
        decreases i,
    {
        i = i - 1;
        proof {
            unfold_stmt(suite@[i as int]);
            assert(sv[i as int] == suite@[i as int]@);
        }
        if let PyStmt::FunctionDef(f) = &suite[i] {
            proof {
                unfold_function(*f);
            }
            if str_eq(f.name.as_str(), name) {
                return Some(f);
            }
        }
    }
    None
}

struct OperatorScan<'a> {
    consts: &'a StrMap<String>,
    source: &'a str,
    suite: &'a Vec<PyStmt>,
    decorated: &'a StrSet,
}

impl View for OperatorScan<'_> {
    type V = OperatorCtx;

    closed spec fn view(&self) -> OperatorCtx {
        OperatorCtx {
            consts: self.consts@,
            source: self.source@,
            suite: views(self.suite@),
            decorated: self.decorated@,
        }
    }
}

fn callable_of(c: &PyCall) -> (r: Option<String>)
    ensures
        opt_text(r) == callable_name(c@),
{
    match kwarg(c, "python_callable") {
        Some(e) => {
            proof {
                unfold_expr(*e);
            }
            match e {
                PyExpr::Name(_, n) => Some(n.clone()),
                _ => None,
            }
        },
        None => None,
    }
}

spec fn opt_decl(d: Option<TaskDecl>) -> Option<TaskDeclView> {
    match d {
        Some(x) => Some(x@),
        None => None,
    }
}

impl OperatorScan<'_> {
    fn python_task(&self, c: &PyCall, fname: &str) -> (r: Option<TaskDecl>)
        ensures
            opt_decl(r) == callable_task(self@, c@, fname@),
    {
        proof {
            unfold_call(*c);
        }
        if self.decorated.contains(fname) {
            return None;
        }
        match function_named(self.suite, fname) {
            Some(f) => {
                proof {
                    unfold_function(*f);
                }
                let t = analyze(&f.body, self.consts, self.source);
                if t.inputs.len() == 0 && t.outputs.len() == 0 && t.columns.len() == 0 {
                    return None;
                }
                let mut d = TaskDecl::default();
                d.task_name = match kwarg_str(c, "task_id") {
                    Some(id) => id,
                    None => fname.to_owned(),
                };
                d.inputs = t.inputs;
                d.outputs = t.outputs;
                d.engine = match t.engine {
                    Some(e) => Some(e),
                    None => Some("python".to_owned()),
                };
                d.inferred_columns = t.columns;
                d.opaque = t.opaque;
                d.line = Some(byte_to_line(self.source, c.span.start));
                d.discovered = true;
                Some(d)
            },
            None => None,
        }
    }

    fn sql_of(&self, c: &PyCall) -> (r: Option<String>)
        ensures
            opt_text(r) == operator_sql(self@, c@),
    {
        let first = kwarg(c, "sql");
        let e = match first {
            Some(x) => Some(x),
            None => kwarg(c, "query"),
        };
        match e {
            Some(x) => resolve_str(x, self.consts),
            None => None,
        }
    }

    fn sql_task(&self, c: &PyCall, sql: String) -> (r: TaskDecl)
        ensures
            r@ == query_task(self@, c@, sql@),
    {
        broadcast use group_views;

        proof {
            unfold_call(*c);
        }
        let mut d = TaskDecl::default();
        d.task_name = match kwarg_str(c, "task_id") {
            Some(id) => id,
            None => "sql_task".to_owned(),
        };
        d.engine = Some("sql".to_owned());
        if let Ok(l) = column_lineage_from_sql(sql.as_str()) {
            d.inputs = l.source_tables;
            let mut outputs: Vec<String> = Vec::new();
            if let Some(t) = l.target_table {
                outputs.push(t);
                assert(views(outputs@) =~= seq![t@]);
            }
            d.outputs = outputs;
        }
        d.sql = Some(sql);
        d.line = Some(byte_to_line(self.source, c.span.start));
        d.discovered = true;
        d
    }

    /// The task that an operator constructor makes, if it moves data.
    fn build_operator_task(&self, c: &PyCall) -> (r: Option<TaskDecl>)
        ensures
            opt_decl(r) == operator_task(self@, c@),
    {
        proof {
            unfold_call(*c);
        }
        match callee_final_segment(&c.func) {
            Some(seg) => {
                if !ends_with_str(seg.as_str(), "Operator") {
                    return None;
                }
                match callable_of(c) {
                    Some(fname) => self.python_task(c, fname.as_str()),
                    None => match self.sql_of(c) {
                        Some(sql) => Some(self.sql_task(c, sql)),
                        None => None,
                    },
                }
            },
            None => None,
        }
    }

    fn discover_in(&self, s: &PyStmt, tasks: &mut Vec<TaskDecl>)
        ensures
            views(final(tasks)@) == operators_in(self@, s@, views(old(tasks)@)),
        decreases s,
    {
        proof {
            unfold_stmt(*s);
        }
        if let Some(c) = call_of_statement(s) {
            if let Some(d) = self.build_operator_task(c) {
                push_task(tasks, d);
            }
        }
        match s {
            PyStmt::With(_, b) => {
                self.discover_operators(b, tasks);
            },
            PyStmt::If(b, o) => {
                self.discover_operators(b, tasks);
                self.discover_operators(o, tasks);
            },
            PyStmt::For(f) => {
                proof {
                    unfold_for(*f);
                }
                assert(decreases_to!(s => f));
                assert(decreases_to!(f => f.body));
                self.discover_operators(&f.body, tasks);
            },
            PyStmt::While(_, b, _) => {
                self.discover_operators(b, tasks);
            },
            PyStmt::Try(_, b, _, _, f) => {
                self.discover_operators(b, tasks);
                self.discover_operators(f, tasks);
            },
            _ => {},
        }
    }

    /// Adds a task for each operator that moves data.
    fn discover_operators(&self, stmts: &Vec<PyStmt>, tasks: &mut Vec<TaskDecl>)
        ensures
            views(final(tasks)@) == operators_upto(
                self@,
                views(stmts@),
                stmts@.len() as int,
                views(old(tasks)@),
            ),
        decreases stmts,
    {
        let ghost start = views(tasks@);
        let mut i: usize = 0;
        while i < stmts.len()
            invariant
                i <= stmts@.len(),
                views(tasks@) == operators_upto(self@, views(stmts@), i as int, start),
            decreases stmts@.len() - i,
        {
            assert(decreases_to!(stmts => stmts@[i as int]));
            assert(views(stmts@)[i as int] == stmts@[i as int]@);
            self.discover_in(&stmts[i], tasks);
            i = i + 1;
        }
    }
}

fn task_exists(tasks: &Vec<TaskDecl>, name: &str) -> (r: bool)
    ensures
        r == has_task(views(tasks@), name@),
{
    let ghost tv = views(tasks@);
    let mut i: usize = 0;
    while i < tasks.len()
        invariant
            i <= tasks@.len(),
            tv == views(tasks@),
            forall|k: int| 0 <= k < i ==> (#[trigger] tv[k]).task_name != name@,
        decreases tasks@.len() - i,
    {
        if str_eq(tasks[i].task_name.as_str(), name) {
            assert(tv[i as int].task_name == name@);
            return true;
        }
        i = i + 1;
    }
    false
}

fn push_task(tasks: &mut Vec<TaskDecl>, d: TaskDecl)
    ensures
        views(final(tasks)@) == add_task(views(old(tasks)@), Some(d@)),
{
    broadcast use group_views;

    if !task_exists(tasks, d.task_name.as_str()) {
        tasks.push(d);
    }
}

fn callables_of_statement(s: &PyStmt, out: &mut StrSet)
    ensures
        final(out)@ == callables_in(s@, old(out)@),
    decreases s,
{
    proof {
        unfold_stmt(*s);
    }
    if let Some(c) = call_of_statement(s) {
        if let Some(n) = callable_of(c) {
            let _fresh = out.insert(n);
        }
    }
    match s {
        PyStmt::With(_, b) => {
            collect_python_callables(b, out);
        },
        PyStmt::If(b, o) => {
            collect_python_callables(b, out);
            collect_python_callables(o, out);
        },
        PyStmt::For(f) => {
            proof {
                unfold_for(*f);
            }
            assert(decreases_to!(s => f));
            assert(decreases_to!(f => f.body));
            collect_python_callables(&f.body, out);
        },
        PyStmt::While(_, b, _) => {
            collect_python_callables(b, out);
        },
        PyStmt::Try(_, b, _, _, f) => {
            collect_python_callables(b, out);
            collect_python_callables(f, out);
        },
        _ => {},
    }
}

/// Adds the names of the functions that operators run.
fn collect_python_callables(stmts: &Vec<PyStmt>, out: &mut StrSet)
    ensures
        final(out)@ == callables_upto(views(stmts@), stmts@.len() as int, old(out)@),
    decreases stmts,
{
    let ghost start = out@;
    let mut i: usize = 0;
    while i < stmts.len()
        invariant
            i <= stmts@.len(),
            out@ == callables_upto(views(stmts@), i as int, start),
        decreases stmts@.len() - i,
    {
        assert(decreases_to!(stmts => stmts@[i as int]));
        assert(views(stmts@)[i as int] == stmts@[i as int]@);
        callables_of_statement(&stmts[i], out);
        i = i + 1;
    }
}

// ──────────────────────────── columns without task ────────────────────

fn statement_calls(s: &PyStmt, name: &str) -> (r: bool)
    ensures
        r == calls_function(s@, name@),
    decreases s,
{
    proof {
        unfold_stmt(*s);
    }
    if let Some(c) = call_of_statement(s) {
        proof {
            unfold_call(*c);
            unfold_expr(*c.func);
        }
        if let PyExpr::Name(_, n) = &*c.func {
            if str_eq(n.as_str(), name) {
                return true;
            }
        }
    }
    match s {
        PyStmt::With(_, b) => body_calls(b, name),
        PyStmt::If(b, o) => {
            let first = body_calls(b, name);
            let second = body_calls(o, name);
            first || second
        },
        PyStmt::For(f) => {
            proof {
                unfold_for(*f);
            }
            assert(decreases_to!(s => f));
            assert(decreases_to!(f => f.body));
            body_calls(&f.body, name)
        },
        PyStmt::While(_, b, _) => body_calls(b, name),
        PyStmt::Try(_, b, _, _, f) => {
            let first = body_calls(b, name);
            let second = body_calls(f, name);
            first || second
        },
        _ => false,
    }
}

/// True when a statement of the block calls the function by its plain name.
fn body_calls(stmts: &Vec<PyStmt>, name: &str) -> (r: bool)
    ensures
        r == block_calls(views(stmts@), name@, stmts@.len() as int),
    decreases stmts,
{
    let mut any = false;
    let mut i: usize = 0;
    while i < stmts.len()
        invariant
            i <= stmts@.len(),
            any == block_calls(views(stmts@), name@, i as int),
        decreases stmts@.len() - i,
    {
        assert(decreases_to!(stmts => stmts@[i as int]));
        assert(views(stmts@)[i as int] == stmts@[i as int]@);
        let here = statement_calls(&stmts[i], name);
        any = any || here;
        i = i + 1;
    }
    any
}

fn caller_of(ctx: &Ctx, names: &StrSet, suite: &Vec<PyStmt>, name: &str) -> (r: Option<String>)
    ensures
        opt_text(r) == find_caller(ctx@, names@, views(suite@), name@, 0),
{
    let ghost sv = views(suite@);
    let mut i: usize = 0;
    while i < suite.len()
        invariant
            i <= suite@.len(),
            sv == views(suite@),
            find_caller(ctx@, names@, sv, name@, 0) == find_caller(
                ctx@,
                names@,
                sv,
                name@,
                i as int,
            ),
        decreases suite@.len() - i,
    {
        proof {
            unfold_stmt(suite@[i as int]);
            assert(sv[i as int] == suite@[i as int]@);
        }
        if let PyStmt::FunctionDef(f) = &suite[i] {
            proof {
                unfold_function(*f);
            }
            if body_calls(&f.body, name) {
                if let Some(d) = declare_task(ctx, names, f) {
                    return Some(d.task_name);
                }
            }
        }
        i = i + 1;
    }
    None
}

/// Adds the columns of the functions that nothing claims.
fn discover_dataflow_columns(
    ctx: &Ctx,
    names: &StrSet,
    claimed: &StrSet,
    suite: &Vec<PyStmt>,
    tasks: &mut Vec<TaskDecl>,
)
    ensures
        views(final(tasks)@) == columns_upto(
            ctx@,
            names@,
            claimed@,
            views(suite@),
            suite@.len() as int,
            views(old(tasks)@),
        ),
{
    let ghost sv = views(suite@);
    let ghost start = views(tasks@);
    let mut i: usize = 0;
    while i < suite.len()
        invariant
            i <= suite@.len(),
            sv == views(suite@),
            views(tasks@) == columns_upto(ctx@, names@, claimed@, sv, i as int, start),
        decreases suite@.len() - i,
    {
        broadcast use group_views;

        proof {
            unfold_stmt(suite@[i as int]);
            assert(sv[i as int] == suite@[i as int]@);
        }
        if let PyStmt::FunctionDef(f) = &suite[i] {
            proof {
                unfold_function(*f);
            }
            if !claimed.contains(f.name.as_str()) && !task_exists(tasks, f.name.as_str()) {
                let t = analyze(&f.body, ctx.consts, ctx.source);
                if t.columns.len() > 0 {
                    let mut d = TaskDecl::default();
                    d.task_name = f.name.clone();
                    d.inputs = t.inputs;
                    d.outputs = t.outputs;
                    d.engine = match t.engine {
                        Some(e) => Some(e),
                        None => Some("python".to_owned()),
                    };
                    d.inferred_columns = t.columns;
                    d.line = Some(byte_to_line(ctx.source, f.span.start));
                    d.discovered = true;
                    d.column_only = true;
                    d.caller = caller_of(ctx, names, suite, f.name.as_str());
                    tasks.push(d);
                }
            }
        }
        i = i + 1;
    }
}

// ────────────────────────────── configuration ─────────────────────────

fn apply_configure(consts: &StrMap<String>, k: &Vec<PyKeyword>, cfg: &mut ModuleConfig)
    ensures
        final(cfg)@ == configured(consts@, views(k@), k@.len() as int, old(cfg)@),
{
    let ghost start = cfg@;
    let mut i: usize = 0;
    while i < k.len()
        invariant
            i <= k@.len(),
            cfg@ == configured(consts@, views(k@), i as int, start),
        decreases k@.len() - i,
    {
        proof {
            unfold_keyword(k@[i as int]);
            assert(views(k@)[i as int] == k@[i as int]@);
        }
        if let Some(name) = &k[i].name {
            let key = name.as_str();
            let v = resolve_str(&k[i].value, consts);
            if str_eq(key, "service") {
                cfg.service = v;
            } else if str_eq(key, "database") {
                cfg.database = v;
            } else if str_eq(key, "schema") {
                cfg.schema = v;
            } else if str_eq(key, "dag") {
                cfg.dag = v;
            }
        }
        i = i + 1;
    }
}

fn apply_dag(consts: &StrMap<String>, k: &Vec<PyKeyword>, cfg: &mut ModuleConfig)
    ensures
        final(cfg)@ == dag_configured(consts@, views(k@), k@.len() as int, old(cfg)@),
{
    let ghost start = cfg@;
    let mut i: usize = 0;
    while i < k.len()
        invariant
            i <= k@.len(),
            cfg@ == dag_configured(consts@, views(k@), i as int, start),
        decreases k@.len() - i,
    {
        proof {
            unfold_keyword(k@[i as int]);
            assert(views(k@)[i as int] == k@[i as int]@);
        }
        if keyword_is(&k[i], "dag_id") && cfg.dag.is_none() {
            cfg.dag = resolve_str(&k[i].value, consts);
        }
        i = i + 1;
    }
}

fn apply_with(consts: &StrMap<String>, items: &Vec<PyExpr>, cfg: &mut ModuleConfig)
    ensures
        final(cfg)@ == with_configured(consts@, views(items@), items@.len() as int, old(cfg)@),
{
    let ghost start = cfg@;
    let mut i: usize = 0;
    while i < items.len()
        invariant
            i <= items@.len(),
            cfg@ == with_configured(consts@, views(items@), i as int, start),
        decreases items@.len() - i,
    {
        proof {
            unfold_expr(items@[i as int]);
            assert(views(items@)[i as int] == items@[i as int]@);
        }
        if let PyExpr::Call(c) = &items[i] {
            proof {
                unfold_call(*c);
            }
            if call_is(c, "DAG") {
                apply_dag(consts, &c.keywords, cfg);
            }
        }
        i = i + 1;
    }
}

fn config_of_statement(s: &PyStmt, consts: &StrMap<String>, cfg: &mut ModuleConfig)
    ensures
        final(cfg)@ == config_in(consts@, s@, old(cfg)@),
    decreases s,
{
    proof {
        unfold_stmt(*s);
    }
    match s {
        PyStmt::Expr(e) => {
            proof {
                unfold_expr(*e);
            }
            if let PyExpr::Call(c) = e {
                proof {
                    unfold_call(*c);
                }
                if call_is(c, "configure") {
                    apply_configure(consts, &c.keywords, cfg);
                }
            }
        },
        PyStmt::With(items, b) => {
            apply_with(consts, items, cfg);
            walk_config(b, consts, cfg);
        },
        PyStmt::If(b, o) => {
            walk_config(b, consts, cfg);
            walk_config(o, consts, cfg);
        },
        PyStmt::For(f) => {
            proof {
                unfold_for(*f);
            }
            assert(decreases_to!(s => f));
            assert(decreases_to!(f => f.body));
            assert(decreases_to!(f => f.orelse));
            walk_config(&f.body, consts, cfg);
            walk_config(&f.orelse, consts, cfg);
        },
        PyStmt::While(_, b, o) => {
            walk_config(b, consts, cfg);
            walk_config(o, consts, cfg);
        },
        PyStmt::Try(_, b, _, o, f) => {
            walk_config(b, consts, cfg);
            walk_config(o, consts, cfg);
            walk_config(f, consts, cfg);
        },
        _ => {},
    }
}

/// Reads the configuration calls and the DAG blocks of a list of statements.
fn walk_config(stmts: &Vec<PyStmt>, consts: &StrMap<String>, cfg: &mut ModuleConfig)
    ensures
        final(cfg)@ == config_upto(consts@, views(stmts@), stmts@.len() as int, old(cfg)@),
    decreases stmts,
{
    let ghost start = cfg@;
    let mut i: usize = 0;
    while i < stmts.len()
        invariant
            i <= stmts@.len(),
            cfg@ == config_upto(consts@, views(stmts@), i as int, start),
        decreases stmts@.len() - i,
    {
        assert(decreases_to!(stmts => stmts@[i as int]));
        assert(views(stmts@)[i as int] == stmts@[i as int]@);
        config_of_statement(&stmts[i], consts, cfg);
        i = i + 1;
    }
}

// ──────────────────────────────── modules ─────────────────────────────

/// Reads the statements of a module.
pub fn module_from_suite(
    suite: &Vec<PyStmt>,
    source: &str,
    own_module: &str,
    table: &ConstTable,
) -> (r: ScannedModule)
    ensures
        r@ == module_of(views(suite@), source@, own_module@, table@),
{
    let consts = constants_from_suite(suite);
    let ctx = Ctx { consts: &consts, imports: collect_imports(suite, own_module), table, source };
    let mut config = ModuleConfig::default();
    walk_config(suite, &consts, &mut config);
    let names = collect_lineage_names(suite);
    let (mut tasks, decorated) = declare_tasks(&ctx, &names, suite);
    let scan = OperatorScan { consts: &consts, source, suite, decorated: &decorated };
    scan.discover_operators(suite, &mut tasks);
    let mut claimed = decorated.replicate();
    collect_python_callables(suite, &mut claimed);
    discover_dataflow_columns(&ctx, &names, &claimed, suite, &mut tasks);
    ScannedModule { config, tasks }
}

/// What is read from a source text, or the parser's message.
pub open spec fn scanned_source(
    source: Seq<char>,
    own_module: Seq<char>,
    table: Map<Seq<char>, Map<Seq<char>, Seq<char>>>,
) -> Result<ScannedModuleView, Seq<char>> {
    match python_parse(source) {
        Ok(s) => Ok(module_of(s, source, own_module, table)),
        Err(m) => Err("python parse error: "@ + m),
    }
}

pub open spec fn is_scan_of(
    r: Result<ScannedModuleView, Seq<char>>,
    out: Result<ScannedModule, String>,
) -> bool {
    match out {
        Ok(m) => r == Ok::<ScannedModuleView, Seq<char>>(m@),
        Err(e) => r == Err::<ScannedModuleView, Seq<char>>(e@),
    }
}

/// Reads a module on its own.
pub fn extract_task_decls(source: &str) -> (r: Result<ScannedModule, String>)
    requires
        fits(source@),
    ensures
        is_scan_of(scanned_source(source@, Seq::empty(), Map::empty()), r),
{
    proof {
        reveal_strlit("");
        assert(""@ =~= Seq::<char>::empty());
    }
    extract_task_decls_with(source, "", &ConstTable::default())
}

/// Reads a module; datasets may be constants of other modules. `own_module` is
/// the dotted path of the module, which relative imports start from.
pub fn extract_task_decls_with(source: &str, own_module: &str, table: &ConstTable) -> (r: Result<
    ScannedModule,
    String,
>)
    requires
        fits(source@),
    ensures
        is_scan_of(scanned_source(source@, own_module@, table@), r),
{
    match parse_module(source) {
        Ok(suite) => Ok(module_from_suite(&suite, source, own_module, table)),
        Err(m) => {
            let mut e = "python parse error: ".to_owned();
            e.append(m.as_str());
            Err(e)
        },
    }
}

} // verus!

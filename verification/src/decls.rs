//! What a Python module declares about its tasks, and the model of how it is
//! read: only literals, module constants and imported constants count.

use vstd::prelude::*;

use crate::collections::StrSet;
use crate::flow::{
    calls, const_text, dataflow_of, final_segment, DataflowResultView, InferredColumn,
    InferredColumnView, OpaqueNote, OpaqueNoteView,
};
use crate::model::either;
use crate::pyast::{PyAliasTree, PyCallTree, PyExprTree, PyFunctionTree, PyKeywordTree, PyStmtTree};
use crate::source::{line_at, source_text};
use crate::sql::sql_lineage;
use crate::text::{
    ends_with_text, group_views, joined, opt_text, replicate_opt, replicate_vec, split_text, views,
    Replicate,
};

verus! {

// ─────────────────────────────── results ──────────────────────────────

/// One entry of a column map: the sources of a target column.
#[derive(Debug, Clone, PartialEq)]
pub struct ColumnMapEntry {
    pub sources: Vec<String>,
    pub target: String,
    pub function: Option<String>,
}

#[verifier::ext_equal]
pub struct ColumnMapEntryView {
    pub sources: Seq<Seq<char>>,
    pub target: Seq<char>,
    pub function: Option<Seq<char>>,
}

impl View for ColumnMapEntry {
    type V = ColumnMapEntryView;

    open spec fn view(&self) -> ColumnMapEntryView {
        ColumnMapEntryView {
            sources: views(self.sources@),
            target: self.target@,
            function: opt_text(self.function),
        }
    }
}

impl Replicate for ColumnMapEntry {
    fn replicate(&self) -> (r: Self) {
        ColumnMapEntry {
            sources: replicate_vec(&self.sources),
            target: self.target.clone(),
            function: replicate_opt(&self.function),
        }
    }
}

/// A task: declared by a decorator, or discovered.
#[derive(Debug, Clone, PartialEq)]
pub struct TaskDecl {
    pub task_name: String,
    pub dag: Option<String>,
    pub inputs: Vec<String>,
    pub outputs: Vec<String>,
    /// The engine as it was written.
    pub engine: Option<String>,
    pub sql: Option<String>,
    pub description: Option<String>,
    /// Short label of the transformation.
    pub transform: Option<String>,
    pub column_map: Vec<ColumnMapEntry>,
    /// Columns declared as plain copies; they are in `column_map` too.
    pub copy: Vec<String>,
    /// Line of the declaration, counted from one.
    pub line: Option<u32>,
    /// Keyword arguments whose value is not a literal or a constant.
    pub unresolved: Vec<String>,
    /// Columns traced in the body.
    pub inferred_columns: Vec<InferredColumn>,
    /// Spots of the body that could not be traced.
    pub opaque: Vec<OpaqueNote>,
    /// True when no decorator declares the task.
    pub discovered: bool,
    /// True when the task is declared by `@lineage`.
    pub lineage: bool,
    /// Datasets of a `@lineage` that are source texts, not literals.
    pub nonliteral: StrSet,
    /// True when only columns were found, and no task.
    pub column_only: bool,
    /// The declared task whose body calls the function that the columns were
    /// found in.
    pub caller: Option<String>,
}

#[verifier::ext_equal]
pub struct TaskDeclView {
    pub task_name: Seq<char>,
    pub dag: Option<Seq<char>>,
    pub inputs: Seq<Seq<char>>,
    pub outputs: Seq<Seq<char>>,
    pub engine: Option<Seq<char>>,
    pub sql: Option<Seq<char>>,
    pub description: Option<Seq<char>>,
    pub transform: Option<Seq<char>>,
    pub column_map: Seq<ColumnMapEntryView>,
    pub copy: Seq<Seq<char>>,
    pub line: Option<u32>,
    pub unresolved: Seq<Seq<char>>,
    pub inferred_columns: Seq<InferredColumnView>,
    pub opaque: Seq<OpaqueNoteView>,
    pub discovered: bool,
    pub lineage: bool,
    pub nonliteral: Set<Seq<char>>,
    pub column_only: bool,
    pub caller: Option<Seq<char>>,
}

impl View for TaskDecl {
    type V = TaskDeclView;

    open spec fn view(&self) -> TaskDeclView {
        TaskDeclView {
            task_name: self.task_name@,
            dag: opt_text(self.dag),
            inputs: views(self.inputs@),
            outputs: views(self.outputs@),
            engine: opt_text(self.engine),
            sql: opt_text(self.sql),
            description: opt_text(self.description),
            transform: opt_text(self.transform),
            column_map: views(self.column_map@),
            copy: views(self.copy@),
            line: self.line,
            unresolved: views(self.unresolved@),
            inferred_columns: views(self.inferred_columns@),
            opaque: views(self.opaque@),
            discovered: self.discovered,
            lineage: self.lineage,
            nonliteral: self.nonliteral@,
            column_only: self.column_only,
            caller: opt_text(self.caller),
        }
    }
}

pub open spec fn empty_decl() -> TaskDeclView {
    TaskDeclView {
        task_name: Seq::empty(),
        dag: None,
        inputs: Seq::empty(),
        outputs: Seq::empty(),
        engine: None,
        sql: None,
        description: None,
        transform: None,
        column_map: Seq::empty(),
        copy: Seq::empty(),
        line: None,
        unresolved: Seq::empty(),
        inferred_columns: Seq::empty(),
        opaque: Seq::empty(),
        discovered: false,
        lineage: false,
        nonliteral: Set::empty(),
        column_only: false,
        caller: None,
    }
}

impl Default for TaskDecl {
    fn default() -> (r: Self)
        ensures
            r@ == empty_decl(),
    {
        broadcast use group_views;

        TaskDecl {
            task_name: String::new(),
            dag: None,
            inputs: Vec::new(),
            outputs: Vec::new(),
            engine: None,
            sql: None,
            description: None,
            transform: None,
            column_map: Vec::new(),
            copy: Vec::new(),
            line: None,
            unresolved: Vec::new(),
            inferred_columns: Vec::new(),
            opaque: Vec::new(),
            discovered: false,
            lineage: false,
            nonliteral: StrSet::new(),
            column_only: false,
            caller: None,
        }
    }
}

/// Defaults of a module, by which bare table names are completed.
#[derive(Debug, Clone, PartialEq)]
pub struct ModuleConfig {
    pub service: Option<String>,
    pub database: Option<String>,
    pub schema: Option<String>,
    pub dag: Option<String>,
}

#[verifier::ext_equal]
pub struct ModuleConfigView {
    pub service: Option<Seq<char>>,
    pub database: Option<Seq<char>>,
    pub schema: Option<Seq<char>>,
    pub dag: Option<Seq<char>>,
}

impl View for ModuleConfig {
    type V = ModuleConfigView;

    open spec fn view(&self) -> ModuleConfigView {
        ModuleConfigView {
            service: opt_text(self.service),
            database: opt_text(self.database),
            schema: opt_text(self.schema),
            dag: opt_text(self.dag),
        }
    }
}

pub open spec fn empty_config() -> ModuleConfigView {
    ModuleConfigView { service: None, database: None, schema: None, dag: None }
}

impl Default for ModuleConfig {
    fn default() -> (r: Self)
        ensures
            r@ == empty_config(),
    {
        ModuleConfig { service: None, database: None, schema: None, dag: None }
    }
}

/// What was read from a module.
#[derive(Debug, Clone, PartialEq)]
pub struct ScannedModule {
    pub config: ModuleConfig,
    pub tasks: Vec<TaskDecl>,
}

#[verifier::ext_equal]
pub struct ScannedModuleView {
    pub config: ModuleConfigView,
    pub tasks: Seq<TaskDeclView>,
}

impl View for ScannedModule {
    type V = ScannedModuleView;

    open spec fn view(&self) -> ScannedModuleView {
        ScannedModuleView { config: self.config@, tasks: views(self.tasks@) }
    }
}

impl Default for ScannedModule {
    fn default() -> (r: Self)
        ensures
            r@ == (ScannedModuleView { config: empty_config(), tasks: Seq::empty() }),
    {
        broadcast use group_views;

        ScannedModule { config: ModuleConfig::default(), tasks: Vec::new() }
    }
}

// ───────────────────────────── module constants ───────────────────────

/// How many aliases are followed when a constant is resolved.
pub const MAX_ALIAS_DEPTH: usize = 8;

/// The name that an assignment with a single target binds.
pub open spec fn target_name(targets: Seq<PyExprTree>) -> Option<Seq<char>> {
    if targets.len() == 1 {
        match targets[0] {
            PyExprTree::Name(_, n) => Some(n),
            _ => None,
        }
    } else {
        None
    }
}

/// The strings that the first `n` statements bind to names.
pub open spec fn literals_upto(s: Seq<PyStmtTree>, n: int) -> Map<Seq<char>, Seq<char>>
    decreases n,
{
    if n <= 0 {
        Map::empty()
    } else {
        let prev = literals_upto(s, n - 1);
        match s[n - 1] {
            PyStmtTree::Assign(t, PyExprTree::Str(_, v)) => match target_name(t) {
                Some(name) => prev.insert(name, v),
                None => prev,
            },
            _ => prev,
        }
    }
}

/// The names that the first `n` statements bind to names.
pub open spec fn aliases_upto(s: Seq<PyStmtTree>, n: int) -> Map<Seq<char>, Seq<char>>
    decreases n,
{
    if n <= 0 {
        Map::empty()
    } else {
        let prev = aliases_upto(s, n - 1);
        match s[n - 1] {
            PyStmtTree::Assign(t, PyExprTree::Name(_, v)) => match target_name(t) {
                Some(name) => prev.insert(name, v),
                None => prev,
            },
            _ => prev,
        }
    }
}

/// The string at the end of a chain of at most `k` aliases; none for a chain
/// that ends nowhere, comes back or is longer.
pub open spec fn chased(
    literals: Map<Seq<char>, Seq<char>>,
    aliases: Map<Seq<char>, Seq<char>>,
    target: Seq<char>,
    seen: Set<Seq<char>>,
    k: int,
) -> Option<Seq<char>>
    decreases k,
{
    if k <= 0 || seen.contains(target) {
        None
    } else if literals.contains_key(target) {
        Some(literals[target])
    } else if aliases.contains_key(target) {
        chased(literals, aliases, aliases[target], seen.insert(target), k - 1)
    } else {
        None
    }
}

/// The string that a name of a module stands for; a literal wins over an
/// alias.
pub open spec fn constant_value(
    literals: Map<Seq<char>, Seq<char>>,
    aliases: Map<Seq<char>, Seq<char>>,
    name: Seq<char>,
) -> Option<Seq<char>> {
    if literals.contains_key(name) {
        Some(literals[name])
    } else if aliases.contains_key(name) {
        chased(literals, aliases, aliases[name], set![name], MAX_ALIAS_DEPTH as int)
    } else {
        None
    }
}

/// The string constants of a module.
pub open spec fn constants_of(s: Seq<PyStmtTree>) -> Map<Seq<char>, Seq<char>> {
    let l = literals_upto(s, s.len() as int);
    let a = aliases_upto(s, s.len() as int);
    Map::new(
        |n: Seq<char>| constant_value(l, a, n) is Some,
        |n: Seq<char>| constant_value(l, a, n)->Some_0,
    )
}

// ───────────────────────── constants of other modules ─────────────────

/// True when one dotted path ends in the other.
pub open spec fn related_modules(key: Seq<char>, module: Seq<char>) -> bool {
    key == module || ends_with_text(key, "."@ + module) || ends_with_text(module, "."@ + key)
}

/// True when the module `key` is related to `module` and has the constant.
pub open spec fn module_has(
    t: Map<Seq<char>, Map<Seq<char>, Seq<char>>>,
    module: Seq<char>,
    name: Seq<char>,
    key: Seq<char>,
) -> bool {
    t.contains_key(key) && related_modules(key, module) && t[key].contains_key(name)
}

/// The constant of a module: of the module itself, or else of the only related
/// module that has it.
pub open spec fn looked_up(
    t: Map<Seq<char>, Map<Seq<char>, Seq<char>>>,
    module: Seq<char>,
    name: Seq<char>,
) -> Option<Seq<char>> {
    if t.contains_key(module) && t[module].contains_key(name) {
        Some(t[module][name])
    } else if exists|k: Seq<char>| single_module(t, module, name, k) {
        Some(t[choose|k: Seq<char>| single_module(t, module, name, k)][name])
    } else {
        None
    }
}

/// True when `k` is the only related module that has the constant.
pub open spec fn single_module(
    t: Map<Seq<char>, Map<Seq<char>, Seq<char>>>,
    module: Seq<char>,
    name: Seq<char>,
    k: Seq<char>,
) -> bool {
    module_has(t, module, name, k) && forall|j: Seq<char>|
        #[trigger] module_has(t, module, name, j) ==> j == k
}

/// What the imports of a module bind.
#[verifier::ext_equal]
pub struct Imports {
    /// Local name to module and name there.
    pub from_imports: Map<Seq<char>, (Seq<char>, Seq<char>)>,
    /// Local name to module.
    pub module_aliases: Map<Seq<char>, Seq<char>>,
}

/// The first `n` names of `import … as …`.
pub open spec fn plain_imports(env: Imports, names: Seq<PyAliasTree>, n: int) -> Imports
    decreases n,
{
    if n <= 0 {
        env
    } else {
        let prev = plain_imports(env, names, n - 1);
        match names[n - 1].asname {
            Some(a) => Imports {
                module_aliases: prev.module_aliases.insert(a, names[n - 1].name),
                ..prev
            },
            None => prev,
        }
    }
}

/// The first `n` names of `from module import …`; a star binds nothing.
pub open spec fn named_imports(env: Imports, module: Seq<char>, names: Seq<PyAliasTree>, n: int) -> Imports
    decreases n,
{
    if n <= 0 {
        env
    } else {
        let prev = named_imports(env, module, names, n - 1);
        let a = names[n - 1];
        if a.name == "*"@ {
            prev
        } else {
            let local = match a.asname {
                Some(x) => x,
                None => a.name,
            };
            Imports { from_imports: prev.from_imports.insert(local, (module, a.name)), ..prev }
        }
    }
}

/// The pieces that are not empty, of the first `n`.
pub open spec fn nonempty_upto(p: Seq<Seq<char>>, n: int) -> Seq<Seq<char>>
    decreases n,
{
    if n <= 0 {
        Seq::empty()
    } else if p[n - 1].len() > 0 {
        nonempty_upto(p, n - 1).push(p[n - 1])
    } else {
        nonempty_upto(p, n - 1)
    }
}

/// The package that a relative import with `level` dots starts from.
pub open spec fn package_of(current: Seq<char>, level: int) -> Seq<char> {
    let all = split_text(current, '.');
    let p = nonempty_upto(all, all.len() as int);
    joined(p.take(if level < p.len() { p.len() - level } else { 0 }), "."@)
}

/// The absolute module of a `from` import.
pub open spec fn import_module(current: Seq<char>, level: int, base: Seq<char>) -> Seq<char> {
    if level == 0 {
        base
    } else {
        let pkg = package_of(current, level);
        if pkg.len() == 0 {
            base
        } else if base.len() == 0 {
            pkg
        } else {
            pkg + "."@ + base
        }
    }
}

pub open spec fn opt_or_empty(o: Option<Seq<char>>) -> Seq<char> {
    match o {
        Some(s) => s,
        None => Seq::empty(),
    }
}

/// What the imports among the first `n` statements bind.
pub open spec fn imports_upto(s: Seq<PyStmtTree>, own_module: Seq<char>, n: int) -> Imports
    decreases n,
{
    if n <= 0 {
        Imports { from_imports: Map::empty(), module_aliases: Map::empty() }
    } else {
        let prev = imports_upto(s, own_module, n - 1);
        match s[n - 1] {
            PyStmtTree::Import(names) => plain_imports(prev, names, names.len() as int),
            PyStmtTree::ImportFrom(m, level, names) => named_imports(
                prev,
                import_module(own_module, level as int, opt_or_empty(m)),
                names,
                names.len() as int,
            ),
            _ => prev,
        }
    }
}

// ────────────────────────────── reading values ────────────────────────

/// All that values are resolved with.
#[verifier::ext_equal]
pub struct DeclCtx {
    pub consts: Map<Seq<char>, Seq<char>>,
    pub imports: Imports,
    pub table: Map<Seq<char>, Map<Seq<char>, Seq<char>>>,
    pub source: Seq<char>,
}

/// The dotted path of names and attributes.
pub open spec fn dotted(e: PyExprTree) -> Option<Seq<char>>
    decreases e,
{
    match e {
        PyExprTree::Name(_, n) => Some(n),
        PyExprTree::Attribute(_, v, a) => match dotted(*v) {
            Some(p) => Some(p + "."@ + a),
            None => None,
        },
        _ => None,
    }
}

/// The string of a literal or of a constant of the module.
pub open spec fn resolved_text(consts: Map<Seq<char>, Seq<char>>, e: PyExprTree) -> Option<Seq<char>> {
    match e {
        PyExprTree::Str(_, s) => Some(s),
        PyExprTree::Name(_, n) => if consts.contains_key(n) {
            Some(consts[n])
        } else {
            None
        },
        _ => None,
    }
}

/// The string of a dataset: a literal, a constant of the module, or an
/// imported constant.
pub open spec fn dataset_text(ctx: DeclCtx, e: PyExprTree) -> Option<Seq<char>> {
    match e {
        PyExprTree::Str(_, s) => Some(s),
        PyExprTree::Name(_, n) => if ctx.consts.contains_key(n) {
            Some(ctx.consts[n])
        } else if ctx.imports.from_imports.contains_key(n) {
            looked_up(
                ctx.table,
                ctx.imports.from_imports[n].0,
                ctx.imports.from_imports[n].1,
            )
        } else {
            None
        },
        PyExprTree::Attribute(_, v, a) => match dotted(*v) {
            Some(base) => looked_up(
                ctx.table,
                if ctx.imports.module_aliases.contains_key(base) {
                    ctx.imports.module_aliases[base]
                } else {
                    base
                },
                a,
            ),
            None => None,
        },
        _ => None,
    }
}

/// The elements of a list or tuple display.
pub open spec fn elements(e: PyExprTree) -> Option<Seq<PyExprTree>> {
    match e {
        PyExprTree::List(_, v) => Some(v),
        PyExprTree::Tuple(_, v) => Some(v),
        _ => None,
    }
}

/// The datasets among the first `n` elements.
pub open spec fn datasets_upto(ctx: DeclCtx, v: Seq<PyExprTree>, n: int) -> Seq<Seq<char>>
    decreases n,
{
    if n <= 0 {
        Seq::empty()
    } else {
        match dataset_text(ctx, v[n - 1]) {
            Some(s) => datasets_upto(ctx, v, n - 1).push(s),
            None => datasets_upto(ctx, v, n - 1),
        }
    }
}

pub open spec fn dataset_list(ctx: DeclCtx, e: PyExprTree) -> Seq<Seq<char>> {
    match elements(e) {
        Some(v) => datasets_upto(ctx, v, v.len() as int),
        None => Seq::empty(),
    }
}

/// True when an element is no dataset, or there is no list at all.
pub open spec fn datasets_unresolved(ctx: DeclCtx, e: PyExprTree) -> bool {
    match elements(e) {
        Some(v) => exists|i: int| 0 <= i < v.len() && dataset_text(ctx, #[trigger] v[i]) is None,
        None => true,
    }
}

/// The strings among the first `n` elements.
pub open spec fn texts_upto(consts: Map<Seq<char>, Seq<char>>, v: Seq<PyExprTree>, n: int) -> Seq<
    Seq<char>,
>
    decreases n,
{
    if n <= 0 {
        Seq::empty()
    } else {
        match resolved_text(consts, v[n - 1]) {
            Some(s) => texts_upto(consts, v, n - 1).push(s),
            None => texts_upto(consts, v, n - 1),
        }
    }
}

pub open spec fn text_list(consts: Map<Seq<char>, Seq<char>>, e: PyExprTree) -> Seq<Seq<char>> {
    match elements(e) {
        Some(v) => texts_upto(consts, v, v.len() as int),
        None => Seq::empty(),
    }
}

/// True when an element is no string, or there is no list at all.
pub open spec fn texts_unresolved(consts: Map<Seq<char>, Seq<char>>, e: PyExprTree) -> bool {
    match elements(e) {
        Some(v) => exists|i: int|
            0 <= i < v.len() && resolved_text(consts, #[trigger] v[i]) is None,
        None => true,
    }
}

/// The entry that a tuple of a column map stands for.
pub open spec fn map_entry(consts: Map<Seq<char>, Seq<char>>, e: PyExprTree) -> Option<
    ColumnMapEntryView,
> {
    match elements(e) {
        Some(t) => if t.len() < 2 {
            None
        } else {
            match resolved_text(consts, t[1]) {
                Some(target) => Some(
                    ColumnMapEntryView {
                        sources: match resolved_text(consts, t[0]) {
                            Some(s) => seq![s],
                            None => text_list(consts, t[0]),
                        },
                        target,
                        function: if t.len() > 2 {
                            resolved_text(consts, t[2])
                        } else {
                            None
                        },
                    },
                ),
                None => None,
            }
        },
        None => None,
    }
}

/// The entries of the first `n` tuples of a column map.
pub open spec fn map_entries(consts: Map<Seq<char>, Seq<char>>, v: Seq<PyExprTree>, n: int) -> Seq<
    ColumnMapEntryView,
>
    decreases n,
{
    if n <= 0 {
        Seq::empty()
    } else {
        match map_entry(consts, v[n - 1]) {
            Some(e) => map_entries(consts, v, n - 1).push(e),
            None => map_entries(consts, v, n - 1),
        }
    }
}

pub open spec fn column_map_of(consts: Map<Seq<char>, Seq<char>>, e: PyExprTree) -> Seq<
    ColumnMapEntryView,
> {
    match elements(e) {
        Some(v) => map_entries(consts, v, v.len() as int),
        None => Seq::empty(),
    }
}

// ─────────────────────────────── decorators ───────────────────────────

/// The value of a scalar argument after an expression: the string, or the
/// value before when there is none.
pub open spec fn scalar(
    consts: Map<Seq<char>, Seq<char>>,
    before: Option<Seq<char>>,
    e: PyExprTree,
) -> Option<Seq<char>> {
    either(resolved_text(consts, e), before)
}

/// True when a scalar argument is given and is no string.
pub open spec fn scalar_unresolved(consts: Map<Seq<char>, Seq<char>>, e: PyExprTree) -> bool {
    resolved_text(consts, e) is None && !(e is NoneLiteral)
}

pub open spec fn flagged(d: TaskDeclView, key: Seq<char>, unresolved: bool) -> TaskDeclView {
    if unresolved {
        TaskDeclView { unresolved: d.unresolved.push(key), ..d }
    } else {
        d
    }
}

/// The declaration after one keyword argument of a decorator.
pub open spec fn decl_keyword(ctx: DeclCtx, d: TaskDeclView, k: PyKeywordTree) -> TaskDeclView {
    let v = k.value;
    let c = ctx.consts;
    match k.name {
        None => d,
        Some(key) => if key == "dag"@ {
            flagged(
                TaskDeclView { dag: scalar(c, d.dag, v), ..d },
                key,
                scalar_unresolved(c, v),
            )
        } else if key == "inputs"@ {
            flagged(
                TaskDeclView { inputs: dataset_list(ctx, v), ..d },
                key,
                datasets_unresolved(ctx, v),
            )
        } else if key == "outputs"@ {
            flagged(
                TaskDeclView { outputs: dataset_list(ctx, v), ..d },
                key,
                datasets_unresolved(ctx, v),
            )
        } else if key == "engine"@ {
            flagged(
                TaskDeclView { engine: scalar(c, d.engine, v), ..d },
                key,
                scalar_unresolved(c, v),
            )
        } else if key == "sql"@ {
            flagged(
                TaskDeclView { sql: scalar(c, d.sql, v), ..d },
                key,
                scalar_unresolved(c, v),
            )
        } else if key == "description"@ {
            flagged(
                TaskDeclView { description: scalar(c, d.description, v), ..d },
                key,
                scalar_unresolved(c, v),
            )
        } else if key == "transform"@ {
            flagged(
                TaskDeclView { transform: scalar(c, d.transform, v), ..d },
                key,
                scalar_unresolved(c, v),
            )
        } else if key == "column_map"@ {
            TaskDeclView { column_map: column_map_of(c, v), ..d }
        } else if key == "copy"@ {
            flagged(
                TaskDeclView { copy: text_list(c, v), ..d },
                key,
                texts_unresolved(c, v),
            )
        } else {
            d
        },
    }
}

pub open spec fn decl_keywords(ctx: DeclCtx, d: TaskDeclView, k: Seq<PyKeywordTree>, n: int) -> TaskDeclView
    decreases n,
{
    if n <= 0 {
        d
    } else {
        decl_keyword(ctx, decl_keywords(ctx, d, k, n - 1), k[n - 1])
    }
}

/// True when a column map has an entry for the target.
pub open spec fn maps_column(m: Seq<ColumnMapEntryView>, target: Seq<char>) -> bool {
    exists|i: int| 0 <= i < m.len() && (#[trigger] m[i]).target == target
}

/// The column map with the first `n` copied columns added where they have no
/// entry.
pub open spec fn with_copies(m: Seq<ColumnMapEntryView>, copy: Seq<Seq<char>>, n: int) -> Seq<
    ColumnMapEntryView,
>
    decreases n,
{
    if n <= 0 {
        m
    } else {
        let prev = with_copies(m, copy, n - 1);
        if maps_column(prev, copy[n - 1]) {
            prev
        } else {
            prev.push(
                ColumnMapEntryView {
                    sources: seq![copy[n - 1]],
                    target: copy[n - 1],
                    function: Some("direct copy"@),
                },
            )
        }
    }
}

/// Which decorator declares a task.
#[derive(Debug, Clone, Copy, PartialEq, Eq, Structural)]
pub enum DecoratorKind {
    Task,
    /// Implies the engine, with the query as the first argument.
    Sql,
}

/// The declaration before its keyword arguments.
pub open spec fn decl_start(ctx: DeclCtx, name: Seq<char>, c: PyCallTree, kind: DecoratorKind) -> TaskDeclView {
    let d = TaskDeclView {
        task_name: name,
        line: Some(line_at(ctx.source, c.span.start)),
        ..empty_decl()
    };
    if kind == DecoratorKind::Sql {
        let e = TaskDeclView { engine: Some("sql"@), ..d };
        if c.args.len() > 0 {
            flagged(
                TaskDeclView { sql: scalar(ctx.consts, None, c.args[0]), ..e },
                "sql"@,
                scalar_unresolved(ctx.consts, c.args[0]),
            )
        } else {
            e
        }
    } else {
        d
    }
}

/// The declaration that a `@task(…)` or `@sql(…)` call makes.
pub open spec fn decl_of(ctx: DeclCtx, name: Seq<char>, c: PyCallTree, kind: DecoratorKind) -> TaskDeclView {
    let d = decl_keywords(
        ctx,
        decl_start(ctx, name, c, kind),
        c.keywords,
        c.keywords.len() as int,
    );
    TaskDeclView { column_map: with_copies(d.column_map, d.copy, d.copy.len() as int), ..d }
}

/// The datasets of a `@lineage` list, and those among them that are source
/// texts, of the first `n` elements.
pub open spec fn uris_upto(ctx: DeclCtx, v: Seq<PyExprTree>, n: int) -> (Seq<Seq<char>>, Set<Seq<char>>)
    decreases n,
{
    if n <= 0 {
        (Seq::empty(), Set::empty())
    } else {
        let (vals, texts) = uris_upto(ctx, v, n - 1);
        match dataset_text(ctx, v[n - 1]) {
            Some(s) => (vals.push(s), texts),
            None => {
                let t = source_text(ctx.source, crate::pyast::span_of(v[n - 1]));
                (vals.push(t), texts.insert(t))
            },
        }
    }
}

pub open spec fn uri_list(ctx: DeclCtx, e: PyExprTree) -> (Seq<Seq<char>>, Set<Seq<char>>) {
    match elements(e) {
        Some(v) => uris_upto(ctx, v, v.len() as int),
        None => {
            let t = source_text(ctx.source, crate::pyast::span_of(e));
            (seq![t], set![t])
        },
    }
}

/// The declaration after one keyword argument of `@lineage`.
pub open spec fn lineage_keyword(ctx: DeclCtx, d: TaskDeclView, k: PyKeywordTree) -> TaskDeclView {
    let v = k.value;
    match k.name {
        None => d,
        Some(key) => if key == "inputs"@ {
            let (vals, texts) = uri_list(ctx, v);
            TaskDeclView { inputs: vals, nonliteral: d.nonliteral.union(texts), ..d }
        } else if key == "outputs"@ {
            let (vals, texts) = uri_list(ctx, v);
            TaskDeclView { outputs: vals, nonliteral: d.nonliteral.union(texts), ..d }
        } else if key == "name"@ {
            match resolved_text(ctx.consts, v) {
                Some(s) => if s.len() > 0 {
                    TaskDeclView { task_name: s, ..d }
                } else {
                    d
                },
                None => d,
            }
        } else if key == "description"@ {
            match resolved_text(ctx.consts, v) {
                Some(s) => TaskDeclView { description: Some(s), ..d },
                None => if v is NoneLiteral {
                    d
                } else {
                    TaskDeclView {
                        description: Some(source_text(ctx.source, crate::pyast::span_of(v))),
                        ..d
                    }
                },
            }
        } else {
            d
        },
    }
}

pub open spec fn lineage_keywords(ctx: DeclCtx, d: TaskDeclView, k: Seq<PyKeywordTree>, n: int) -> TaskDeclView
    decreases n,
{
    if n <= 0 {
        d
    } else {
        lineage_keyword(ctx, lineage_keywords(ctx, d, k, n - 1), k[n - 1])
    }
}

/// The declaration that `@lineage`, bare or called, makes.
pub open spec fn lineage_decl_of(ctx: DeclCtx, name: Seq<char>, call: Option<PyCallTree>) -> TaskDeclView {
    let d = TaskDeclView { task_name: name, lineage: true, ..empty_decl() };
    match call {
        Some(c) => lineage_keywords(
            ctx,
            TaskDeclView { line: Some(line_at(ctx.source, c.span.start)), ..d },
            c.keywords,
            c.keywords.len() as int,
        ),
        None => d,
    }
}

/// The names that the first `n` names of an import bind `lineage` to.
pub open spec fn lineage_aliases(names: Seq<PyAliasTree>, n: int, out: Set<Seq<char>>) -> Set<Seq<char>>
    decreases n,
{
    if n <= 0 {
        out
    } else {
        let prev = lineage_aliases(names, n - 1, out);
        if names[n - 1].name == "lineage"@ {
            prev.insert(
                match names[n - 1].asname {
                    Some(a) => a,
                    None => "lineage"@,
                },
            )
        } else {
            prev
        }
    }
}

/// The local names of the `lineage` decorator, by the first `n` statements.
pub open spec fn lineage_names_upto(s: Seq<PyStmtTree>, n: int) -> Set<Seq<char>>
    decreases n,
{
    if n <= 0 {
        Set::empty().insert("lineage"@)
    } else {
        let prev = lineage_names_upto(s, n - 1);
        match s[n - 1] {
            PyStmtTree::ImportFrom(_, _, names) => lineage_aliases(
                names,
                names.len() as int,
                prev,
            ),
            _ => prev,
        }
    }
}

/// True for the name or the attribute that is the `lineage` decorator.
pub open spec fn names_lineage(e: PyExprTree, names: Set<Seq<char>>) -> bool {
    match e {
        PyExprTree::Name(_, n) => names.contains(n),
        PyExprTree::Attribute(_, _, a) => a == "lineage"@,
        _ => false,
    }
}

/// The call of a `lineage` decorator, none inside for a bare one.
pub open spec fn as_lineage(e: PyExprTree, names: Set<Seq<char>>) -> Option<Option<PyCallTree>> {
    if names_lineage(e, names) {
        Some(None)
    } else {
        match e {
            PyExprTree::Call(c) => if names_lineage(*c.func, names) {
                Some(Some(c))
            } else {
                None
            },
            _ => None,
        }
    }
}

/// The first `lineage` decorator from `k` on.
pub open spec fn find_lineage(d: Seq<PyExprTree>, names: Set<Seq<char>>, k: int) -> Option<
    Option<PyCallTree>,
>
    decreases d.len() - k,
{
    if k >= d.len() {
        None
    } else {
        match as_lineage(d[k], names) {
            Some(c) => Some(c),
            None => find_lineage(d, names, k + 1),
        }
    }
}

/// The call of a task decorator.
pub open spec fn as_task(e: PyExprTree) -> Option<(PyCallTree, DecoratorKind)> {
    match e {
        PyExprTree::Call(c) => if calls(c, "task"@) {
            Some((c, DecoratorKind::Task))
        } else if calls(c, "sql"@) {
            Some((c, DecoratorKind::Sql))
        } else {
            None
        },
        _ => None,
    }
}

/// The first task decorator from `k` on.
pub open spec fn find_task(d: Seq<PyExprTree>, k: int) -> Option<(PyCallTree, DecoratorKind)>
    decreases d.len() - k,
{
    if k >= d.len() {
        None
    } else {
        match as_task(d[k]) {
            Some(c) => Some(c),
            None => find_task(d, k + 1),
        }
    }
}

/// The declaration with what its body says about columns.
pub open spec fn traced_decl(d: TaskDeclView, r: DataflowResultView) -> TaskDeclView {
    TaskDeclView { inferred_columns: r.columns, opaque: r.opaque, ..d }
}

/// The task that the decorators of a function declare.
pub open spec fn declared_task(ctx: DeclCtx, names: Set<Seq<char>>, f: PyFunctionTree) -> Option<
    TaskDeclView,
> {
    match find_lineage(f.decorators, names, 0) {
        Some(c) => Some(
            TaskDeclView {
                inferred_columns: dataflow_of(f.body, ctx.consts, ctx.source).columns,
                ..lineage_decl_of(ctx, f.name, c)
            },
        ),
        None => match find_task(f.decorators, 0) {
            Some((c, kind)) => {
                let d = decl_of(ctx, f.name, c, kind);
                if kind == DecoratorKind::Sql || d.engine == Some("sql"@) {
                    Some(d)
                } else {
                    Some(traced_decl(d, dataflow_of(f.body, ctx.consts, ctx.source)))
                }
            },
            None => None,
        },
    }
}

/// The tasks declared among the first `n` statements, and the functions that
/// declare them.
pub open spec fn declared_upto(ctx: DeclCtx, names: Set<Seq<char>>, s: Seq<PyStmtTree>, n: int) -> (
    Seq<TaskDeclView>,
    Set<Seq<char>>,
)
    decreases n,
{
    if n <= 0 {
        (Seq::empty(), Set::empty())
    } else {
        let (tasks, decorated) = declared_upto(ctx, names, s, n - 1);
        match s[n - 1] {
            PyStmtTree::FunctionDef(f) => match declared_task(ctx, names, f) {
                Some(d) => (tasks.push(d), decorated.insert(f.name)),
                None => (tasks, decorated),
            },
            _ => (tasks, decorated),
        }
    }
}

// ─────────────────────────────── operators ────────────────────────────

/// The value of the first keyword argument from `i` on that has the name.
pub open spec fn keyword_value(k: Seq<PyKeywordTree>, name: Seq<char>, i: int) -> Option<PyExprTree>
    decreases k.len() - i,
{
    if i >= k.len() {
        None
    } else if k[i].name == Some(name) {
        Some(k[i].value)
    } else {
        keyword_value(k, name, i + 1)
    }
}

pub open spec fn kwarg_of(c: PyCallTree, name: Seq<char>) -> Option<PyExprTree> {
    keyword_value(c.keywords, name, 0)
}

/// The call that a statement consists of, or assigns.
pub open spec fn statement_call(s: PyStmtTree) -> Option<PyCallTree> {
    match s {
        PyStmtTree::Assign(_, PyExprTree::Call(c)) => Some(c),
        PyStmtTree::Expr(PyExprTree::Call(c)) => Some(c),
        _ => None,
    }
}

/// The last function among the first `n` statements that has the name.
pub open spec fn find_function(s: Seq<PyStmtTree>, name: Seq<char>, n: int) -> Option<PyFunctionTree>
    decreases n,
{
    if n <= 0 {
        None
    } else {
        match s[n - 1] {
            PyStmtTree::FunctionDef(f) => if f.name == name {
                Some(f)
            } else {
                find_function(s, name, n - 1)
            },
            _ => find_function(s, name, n - 1),
        }
    }
}

/// All that operators are read with.
#[verifier::ext_equal]
pub struct OperatorCtx {
    pub consts: Map<Seq<char>, Seq<char>>,
    pub source: Seq<char>,
    /// The statements of the module, where callables are found.
    pub suite: Seq<PyStmtTree>,
    /// The functions that a decorator declares.
    pub decorated: Set<Seq<char>>,
}

/// The function that an operator runs.
pub open spec fn callable_name(c: PyCallTree) -> Option<Seq<char>> {
    match kwarg_of(c, "python_callable"@) {
        Some(PyExprTree::Name(_, n)) => Some(n),
        _ => None,
    }
}

pub open spec fn kwarg_text(c: PyCallTree, name: Seq<char>) -> Option<Seq<char>> {
    match kwarg_of(c, name) {
        Some(e) => const_text(e),
        None => None,
    }
}

/// The engine of a traced body; `python` when it does not tell.
pub open spec fn traced_engine(r: DataflowResultView) -> Seq<char> {
    match r.engine {
        Some(e) => e,
        None => "python"@,
    }
}

/// The task of an operator that runs a function.
pub open spec fn callable_task(x: OperatorCtx, c: PyCallTree, fname: Seq<char>) -> Option<
    TaskDeclView,
> {
    if x.decorated.contains(fname) {
        None
    } else {
        match find_function(x.suite, fname, x.suite.len() as int) {
            Some(f) => {
                let r = dataflow_of(f.body, x.consts, x.source);
                if r.inputs.len() == 0 && r.outputs.len() == 0 && r.columns.len() == 0 {
                    None
                } else {
                    Some(
                        TaskDeclView {
                            task_name: match kwarg_text(c, "task_id"@) {
                                Some(id) => id,
                                None => fname,
                            },
                            inputs: r.inputs,
                            outputs: r.outputs,
                            engine: Some(traced_engine(r)),
                            inferred_columns: r.columns,
                            opaque: r.opaque,
                            line: Some(line_at(x.source, c.span.start)),
                            discovered: true,
                            ..empty_decl()
                        },
                    )
                }
            },
            None => None,
        }
    }
}

/// The query of an operator.
pub open spec fn operator_sql(x: OperatorCtx, c: PyCallTree) -> Option<Seq<char>> {
    match either(kwarg_of(c, "sql"@), kwarg_of(c, "query"@)) {
        Some(e) => resolved_text(x.consts, e),
        None => None,
    }
}

/// The task of an operator that runs a query.
pub open spec fn query_task(x: OperatorCtx, c: PyCallTree, sql: Seq<char>) -> TaskDeclView {
    let l = sql_lineage(sql);
    TaskDeclView {
        task_name: match kwarg_text(c, "task_id"@) {
            Some(id) => id,
            None => "sql_task"@,
        },
        engine: Some("sql"@),
        sql: Some(sql),
        inputs: l.source_tables,
        outputs: match l.target_table {
            Some(t) => seq![t],
            None => Seq::empty(),
        },
        line: Some(line_at(x.source, c.span.start)),
        discovered: true,
        ..empty_decl()
    }
}

/// The task that an operator constructor makes, if it moves data.
pub open spec fn operator_task(x: OperatorCtx, c: PyCallTree) -> Option<TaskDeclView> {
    match final_segment(*c.func) {
        Some(seg) => if !ends_with_text(seg, "Operator"@) {
            None
        } else {
            match callable_name(c) {
                Some(fname) => callable_task(x, c, fname),
                None => match operator_sql(x, c) {
                    Some(sql) => Some(query_task(x, c, sql)),
                    None => None,
                },
            }
        },
        None => None,
    }
}

/// True when a task has the name.
pub open spec fn has_task(t: Seq<TaskDeclView>, name: Seq<char>) -> bool {
    exists|i: int| 0 <= i < t.len() && (#[trigger] t[i]).task_name == name
}

pub open spec fn add_task(t: Seq<TaskDeclView>, d: Option<TaskDeclView>) -> Seq<TaskDeclView> {
    match d {
        Some(x) => if has_task(t, x.task_name) {
            t
        } else {
            t.push(x)
        },
        None => t,
    }
}

/// The tasks after the operator of a statement, and those of its blocks.
pub open spec fn operators_in(x: OperatorCtx, s: PyStmtTree, t: Seq<TaskDeclView>) -> Seq<TaskDeclView>
    decreases s, 0int,
{
    let here = match statement_call(s) {
        Some(c) => add_task(t, operator_task(x, c)),
        None => t,
    };
    match s {
        PyStmtTree::With(_, b) => operators_upto(x, b, b.len() as int, here),
        PyStmtTree::If(b, o) => operators_upto(
            x,
            o,
            o.len() as int,
            operators_upto(x, b, b.len() as int, here),
        ),
        PyStmtTree::For(f) => operators_upto(x, f.body, f.body.len() as int, here),
        PyStmtTree::While(_, b, _) => operators_upto(x, b, b.len() as int, here),
        PyStmtTree::Try(_, b, _, _, f) => operators_upto(
            x,
            f,
            f.len() as int,
            operators_upto(x, b, b.len() as int, here),
        ),
        _ => here,
    }
}

/// The tasks after the operators of the first `n` statements.
pub open spec fn operators_upto(
    x: OperatorCtx,
    s: Seq<PyStmtTree>,
    n: int,
    t: Seq<TaskDeclView>,
) -> Seq<TaskDeclView>
    decreases s, n,
{
    if n <= 0 || n > s.len() {
        t
    } else {
        operators_in(x, s[n - 1], operators_upto(x, s, n - 1, t))
    }
}

/// The functions that operators run, in a statement and its blocks.
pub open spec fn callables_in(s: PyStmtTree, out: Set<Seq<char>>) -> Set<Seq<char>>
    decreases s, 0int,
{
    let here = match statement_call(s) {
        Some(c) => match callable_name(c) {
            Some(n) => out.insert(n),
            None => out,
        },
        None => out,
    };
    match s {
        PyStmtTree::With(_, b) => callables_upto(b, b.len() as int, here),
        PyStmtTree::If(b, o) => callables_upto(
            o,
            o.len() as int,
            callables_upto(b, b.len() as int, here),
        ),
        PyStmtTree::For(f) => callables_upto(f.body, f.body.len() as int, here),
        PyStmtTree::While(_, b, _) => callables_upto(b, b.len() as int, here),
        PyStmtTree::Try(_, b, _, _, f) => callables_upto(
            f,
            f.len() as int,
            callables_upto(b, b.len() as int, here),
        ),
        _ => here,
    }
}

pub open spec fn callables_upto(s: Seq<PyStmtTree>, n: int, out: Set<Seq<char>>) -> Set<Seq<char>>
    decreases s, n,
{
    if n <= 0 || n > s.len() {
        out
    } else {
        callables_in(s[n - 1], callables_upto(s, n - 1, out))
    }
}

// ──────────────────────────── columns without task ────────────────────

/// True when a statement, or one of its blocks, calls the function by its
/// plain name.
pub open spec fn calls_function(s: PyStmtTree, name: Seq<char>) -> bool
    decreases s, 0int,
{
    let here = match statement_call(s) {
        Some(c) => match *c.func {
            PyExprTree::Name(_, n) => n == name,
            _ => false,
        },
        None => false,
    };
    here || match s {
        PyStmtTree::With(_, b) => block_calls(b, name, b.len() as int),
        PyStmtTree::If(b, o) => block_calls(b, name, b.len() as int) || block_calls(
            o,
            name,
            o.len() as int,
        ),
        PyStmtTree::For(f) => block_calls(f.body, name, f.body.len() as int),
        PyStmtTree::While(_, b, _) => block_calls(b, name, b.len() as int),
        PyStmtTree::Try(_, b, _, _, f) => block_calls(b, name, b.len() as int) || block_calls(
            f,
            name,
            f.len() as int,
        ),
        _ => false,
    }
}

pub open spec fn block_calls(s: Seq<PyStmtTree>, name: Seq<char>, n: int) -> bool
    decreases s, n,
{
    if n <= 0 || n > s.len() {
        false
    } else {
        block_calls(s, name, n - 1) || calls_function(s[n - 1], name)
    }
}

/// The first declared task from `k` on whose body calls the function.
pub open spec fn find_caller(
    ctx: DeclCtx,
    names: Set<Seq<char>>,
    s: Seq<PyStmtTree>,
    name: Seq<char>,
    k: int,
) -> Option<Seq<char>>
    decreases s.len() - k,
{
    if k >= s.len() {
        None
    } else {
        match s[k] {
            PyStmtTree::FunctionDef(f) => match declared_task(ctx, names, f) {
                Some(d) => if block_calls(f.body, name, f.body.len() as int) {
                    Some(d.task_name)
                } else {
                    find_caller(ctx, names, s, name, k + 1)
                },
                None => find_caller(ctx, names, s, name, k + 1),
            },
            _ => find_caller(ctx, names, s, name, k + 1),
        }
    }
}

/// The columns found in a function that no task was found for.
pub open spec fn columns_only(
    ctx: DeclCtx,
    names: Set<Seq<char>>,
    s: Seq<PyStmtTree>,
    f: PyFunctionTree,
) -> Option<TaskDeclView> {
    let r = dataflow_of(f.body, ctx.consts, ctx.source);
    if r.columns.len() == 0 {
        None
    } else {
        Some(
            TaskDeclView {
                task_name: f.name,
                inputs: r.inputs,
                outputs: r.outputs,
                engine: Some(traced_engine(r)),
                inferred_columns: r.columns,
                line: Some(line_at(ctx.source, f.span.start)),
                discovered: true,
                column_only: true,
                caller: find_caller(ctx, names, s, f.name, 0),
                ..empty_decl()
            },
        )
    }
}

/// The tasks after the columns of the functions among the first `n` statements
/// that nothing claims.
pub open spec fn columns_upto(
    ctx: DeclCtx,
    names: Set<Seq<char>>,
    claimed: Set<Seq<char>>,
    s: Seq<PyStmtTree>,
    n: int,
    t: Seq<TaskDeclView>,
) -> Seq<TaskDeclView>
    decreases n,
{
    if n <= 0 {
        t
    } else {
        let prev = columns_upto(ctx, names, claimed, s, n - 1, t);
        match s[n - 1] {
            PyStmtTree::FunctionDef(f) => if claimed.contains(f.name) || has_task(prev, f.name) {
                prev
            } else {
                match columns_only(ctx, names, s, f) {
                    Some(d) => prev.push(d),
                    None => prev,
                }
            },
            _ => prev,
        }
    }
}

// ────────────────────────────── configuration ─────────────────────────

/// The configuration after the first `n` keywords of `configure(…)`.
pub open spec fn configured(
    consts: Map<Seq<char>, Seq<char>>,
    k: Seq<PyKeywordTree>,
    n: int,
    cfg: ModuleConfigView,
) -> ModuleConfigView
    decreases n,
{
    if n <= 0 {
        cfg
    } else {
        let prev = configured(consts, k, n - 1, cfg);
        let v = resolved_text(consts, k[n - 1].value);
        match k[n - 1].name {
            Some(key) => if key == "service"@ {
                ModuleConfigView { service: v, ..prev }
            } else if key == "database"@ {
                ModuleConfigView { database: v, ..prev }
            } else if key == "schema"@ {
                ModuleConfigView { schema: v, ..prev }
            } else if key == "dag"@ {
                ModuleConfigView { dag: v, ..prev }
            } else {
                prev
            },
            None => prev,
        }
    }
}

/// The configuration after the first `n` keywords of `DAG(…)`: the first id
/// counts, unless one is set.
pub open spec fn dag_configured(
    consts: Map<Seq<char>, Seq<char>>,
    k: Seq<PyKeywordTree>,
    n: int,
    cfg: ModuleConfigView,
) -> ModuleConfigView
    decreases n,
{
    if n <= 0 {
        cfg
    } else {
        let prev = dag_configured(consts, k, n - 1, cfg);
        if k[n - 1].name == Some("dag_id"@) && prev.dag is None {
            ModuleConfigView { dag: resolved_text(consts, k[n - 1].value), ..prev }
        } else {
            prev
        }
    }
}

/// The configuration after the first `n` items of a `with`.
pub open spec fn with_configured(
    consts: Map<Seq<char>, Seq<char>>,
    items: Seq<PyExprTree>,
    n: int,
    cfg: ModuleConfigView,
) -> ModuleConfigView
    decreases n,
{
    if n <= 0 {
        cfg
    } else {
        let prev = with_configured(consts, items, n - 1, cfg);
        match items[n - 1] {
            PyExprTree::Call(c) => if calls(c, "DAG"@) {
                dag_configured(consts, c.keywords, c.keywords.len() as int, prev)
            } else {
                prev
            },
            _ => prev,
        }
    }
}

/// The configuration after a statement and its blocks.
pub open spec fn config_in(
    consts: Map<Seq<char>, Seq<char>>,
    s: PyStmtTree,
    cfg: ModuleConfigView,
) -> ModuleConfigView
    decreases s, 0int,
{
    match s {
        PyStmtTree::Expr(PyExprTree::Call(c)) => if calls(c, "configure"@) {
            configured(consts, c.keywords, c.keywords.len() as int, cfg)
        } else {
            cfg
        },
        PyStmtTree::With(items, b) => config_upto(
            consts,
            b,
            b.len() as int,
            with_configured(consts, items, items.len() as int, cfg),
        ),
        PyStmtTree::If(b, o) => config_upto(
            consts,
            o,
            o.len() as int,
            config_upto(consts, b, b.len() as int, cfg),
        ),
        PyStmtTree::For(f) => config_upto(
            consts,
            f.orelse,
            f.orelse.len() as int,
            config_upto(consts, f.body, f.body.len() as int, cfg),
        ),
        PyStmtTree::While(_, b, o) => config_upto(
            consts,
            o,
            o.len() as int,
            config_upto(consts, b, b.len() as int, cfg),
        ),
        PyStmtTree::Try(_, b, _, o, f) => config_upto(
            consts,
            f,
            f.len() as int,
            config_upto(consts, o, o.len() as int, config_upto(consts, b, b.len() as int, cfg)),
        ),
        _ => cfg,
    }
}

/// The configuration after the first `n` statements.
pub open spec fn config_upto(
    consts: Map<Seq<char>, Seq<char>>,
    s: Seq<PyStmtTree>,
    n: int,
    cfg: ModuleConfigView,
) -> ModuleConfigView
    decreases s, n,
{
    if n <= 0 || n > s.len() {
        cfg
    } else {
        config_in(consts, s[n - 1], config_upto(consts, s, n - 1, cfg))
    }
}

// ──────────────────────────────── modules ─────────────────────────────

/// What values of a module are resolved with.
pub open spec fn module_ctx(
    s: Seq<PyStmtTree>,
    source: Seq<char>,
    own_module: Seq<char>,
    table: Map<Seq<char>, Map<Seq<char>, Seq<char>>>,
) -> DeclCtx {
    DeclCtx {
        consts: constants_of(s),
        imports: imports_upto(s, own_module, s.len() as int),
        table,
        source,
    }
}

/// What is read from the statements of a module: its declared tasks, then the
/// tasks of its operators, then the columns of the functions that neither
/// claims.
pub open spec fn module_of(
    s: Seq<PyStmtTree>,
    source: Seq<char>,
    own_module: Seq<char>,
    table: Map<Seq<char>, Map<Seq<char>, Seq<char>>>,
) -> ScannedModuleView {
    let n = s.len() as int;
    let ctx = module_ctx(s, source, own_module, table);
    let names = lineage_names_upto(s, n);
    let (declared, decorated) = declared_upto(ctx, names, s, n);
    let x = OperatorCtx { consts: ctx.consts, source, suite: s, decorated };
    let with_operators = operators_upto(x, s, n, declared);
    let claimed = callables_upto(s, n, decorated);
    ScannedModuleView {
        config: config_upto(ctx.consts, s, n, empty_config()),
        tasks: columns_upto(ctx, names, claimed, s, n, with_operators),
    }
}

// ──────────────────────────────── laws ────────────────────────────────

/// True when the string is the value of one of the literals.
pub open spec fn is_literal_value(literals: Map<Seq<char>, Seq<char>>, v: Seq<char>) -> bool {
    exists|k: Seq<char>| #[trigger] literals.contains_key(k) && literals[k] == v
}

proof fn chased_is_literal(
    literals: Map<Seq<char>, Seq<char>>,
    aliases: Map<Seq<char>, Seq<char>>,
    target: Seq<char>,
    seen: Set<Seq<char>>,
    k: int,
)
    ensures
        chased(literals, aliases, target, seen, k) matches Some(v) ==> is_literal_value(
            literals,
            v,
        ),
    decreases k,
{
    if k > 0 && !seen.contains(target) && !literals.contains_key(target) && aliases.contains_key(
        target,
    ) {
        chased_is_literal(literals, aliases, aliases[target], seen.insert(target), k - 1);
    }
}

/// A constant is never guessed: whatever a name resolves to is a string that
/// is written in the module.
pub proof fn constants_are_literals(
    literals: Map<Seq<char>, Seq<char>>,
    aliases: Map<Seq<char>, Seq<char>>,
    name: Seq<char>,
)
    ensures
        constant_value(literals, aliases, name) matches Some(v) ==> is_literal_value(literals, v),
{
    if !literals.contains_key(name) && aliases.contains_key(name) {
        chased_is_literal(
            literals,
            aliases,
            aliases[name],
            set![name],
            MAX_ALIAS_DEPTH as int,
        );
    }
}

proof fn cycle_is_not_chased(
    literals: Map<Seq<char>, Seq<char>>,
    aliases: Map<Seq<char>, Seq<char>>,
    cycle: Set<Seq<char>>,
    target: Seq<char>,
    seen: Set<Seq<char>>,
    k: int,
)
    requires
        cycle.contains(target),
        forall|n: Seq<char>| #[trigger]
            cycle.contains(n) ==> !literals.contains_key(n) && aliases.contains_key(n)
                && cycle.contains(aliases[n]),
    ensures
        chased(literals, aliases, target, seen, k) is None,
    decreases k,
{
    if k > 0 && !seen.contains(target) {
        cycle_is_not_chased(
            literals,
            aliases,
            cycle,
            aliases[target],
            seen.insert(target),
            k - 1,
        );
    }
}

/// Names that are only aliases of each other resolve to nothing.
pub proof fn alias_cycle_resolves_to_nothing(
    literals: Map<Seq<char>, Seq<char>>,
    aliases: Map<Seq<char>, Seq<char>>,
    cycle: Set<Seq<char>>,
    name: Seq<char>,
)
    requires
        cycle.contains(name),
        forall|n: Seq<char>| #[trigger]
            cycle.contains(n) ==> !literals.contains_key(n) && aliases.contains_key(n)
                && cycle.contains(aliases[n]),
    ensures
        constant_value(literals, aliases, name) is None,
{
    cycle_is_not_chased(
        literals,
        aliases,
        cycle,
        aliases[name],
        set![name],
        MAX_ALIAS_DEPTH as int,
    );
}

/// True when discovery only adds: the tasks that were there stay in their
/// places, and every task after them is a discovered one with a name of its
/// own.
pub open spec fn only_discovers(t: Seq<TaskDeclView>, r: Seq<TaskDeclView>) -> bool {
    &&& t.len() <= r.len()
    &&& forall|i: int| 0 <= i < t.len() ==> #[trigger] r[i] == t[i]
    &&& forall|i: int| t.len() <= i < r.len() ==> (#[trigger] r[i]).discovered
    &&& forall|i: int, j: int|
        0 <= j < i && t.len() <= i < r.len() ==> (#[trigger] r[j]).task_name != (
        #[trigger] r[i]).task_name
}

proof fn discovers_on(a: Seq<TaskDeclView>, b: Seq<TaskDeclView>, c: Seq<TaskDeclView>)
    requires
        only_discovers(a, b),
        only_discovers(b, c),
    ensures
        only_discovers(a, c),
{
    assert forall|i: int| 0 <= i < a.len() implies #[trigger] c[i] == a[i] by {
        assert(c[i] == b[i]);
    }
    assert forall|i: int| a.len() <= i < c.len() implies (#[trigger] c[i]).discovered by {
        if i < b.len() {
            assert(c[i] == b[i]);
        }
    }
    assert forall|i: int, j: int| 0 <= j < i && a.len() <= i < c.len() implies (
    #[trigger] c[j]).task_name != (#[trigger] c[i]).task_name by {
        if i < b.len() {
            assert(c[i] == b[i] && c[j] == b[j]);
        }
    }
}

proof fn operator_discovers(x: OperatorCtx, c: PyCallTree, t: Seq<TaskDeclView>)
    ensures
        only_discovers(t, add_task(t, operator_task(x, c))),
{
}

proof fn statement_discovers(x: OperatorCtx, s: PyStmtTree, t: Seq<TaskDeclView>)
    ensures
        only_discovers(t, operators_in(x, s, t)),
    decreases s, 0int,
{
    let here = match statement_call(s) {
        Some(c) => {
            operator_discovers(x, c, t);
            add_task(t, operator_task(x, c))
        },
        None => t,
    };
    match s {
        PyStmtTree::With(_, b) => {
            block_discovers(x, b, b.len() as int, here);
            discovers_on(t, here, operators_upto(x, b, b.len() as int, here));
        },
        PyStmtTree::If(b, o) => {
            let mid = operators_upto(x, b, b.len() as int, here);
            block_discovers(x, b, b.len() as int, here);
            discovers_on(t, here, mid);
            block_discovers(x, o, o.len() as int, mid);
            discovers_on(t, mid, operators_upto(x, o, o.len() as int, mid));
        },
        PyStmtTree::For(f) => {
            block_discovers(x, f.body, f.body.len() as int, here);
            discovers_on(t, here, operators_upto(x, f.body, f.body.len() as int, here));
        },
        PyStmtTree::While(_, b, _) => {
            block_discovers(x, b, b.len() as int, here);
            discovers_on(t, here, operators_upto(x, b, b.len() as int, here));
        },
        PyStmtTree::Try(_, b, _, _, f) => {
            let mid = operators_upto(x, b, b.len() as int, here);
            block_discovers(x, b, b.len() as int, here);
            discovers_on(t, here, mid);
            block_discovers(x, f, f.len() as int, mid);
            discovers_on(t, mid, operators_upto(x, f, f.len() as int, mid));
        },
        _ => {},
    }
}

proof fn block_discovers(x: OperatorCtx, s: Seq<PyStmtTree>, n: int, t: Seq<TaskDeclView>)
    ensures
        only_discovers(t, operators_upto(x, s, n, t)),
    decreases s, n,
{
    if 0 < n <= s.len() {
        block_discovers(x, s, n - 1, t);
        let mid = operators_upto(x, s, n - 1, t);
        statement_discovers(x, s[n - 1], mid);
        discovers_on(t, mid, operators_in(x, s[n - 1], mid));
    }
}

proof fn columns_discover(
    ctx: DeclCtx,
    names: Set<Seq<char>>,
    claimed: Set<Seq<char>>,
    s: Seq<PyStmtTree>,
    n: int,
    t: Seq<TaskDeclView>,
)
    ensures
        only_discovers(t, columns_upto(ctx, names, claimed, s, n, t)),
        forall|i: int|
            t.len() <= i < columns_upto(ctx, names, claimed, s, n, t).len() ==> !claimed.contains(
                (#[trigger] columns_upto(ctx, names, claimed, s, n, t)[i]).task_name,
            ),
    decreases n,
{
    if n > 0 {
        columns_discover(ctx, names, claimed, s, n - 1, t);
        let mid = columns_upto(ctx, names, claimed, s, n - 1, t);
        let r = columns_upto(ctx, names, claimed, s, n, t);
        assert(only_discovers(mid, r));
        discovers_on(t, mid, r);
    }
}

/// Declarations go before discovery: the tasks of a module are those that
/// decorators declare, in their order, followed by discovered ones, none of
/// which has the name of a task before it.
pub proof fn declarations_go_before_discovery(
    s: Seq<PyStmtTree>,
    source: Seq<char>,
    own_module: Seq<char>,
    table: Map<Seq<char>, Map<Seq<char>, Seq<char>>>,
)
    ensures
        ({
            let ctx = module_ctx(s, source, own_module, table);
            let names = lineage_names_upto(s, s.len() as int);
            only_discovers(
                declared_upto(ctx, names, s, s.len() as int).0,
                module_of(s, source, own_module, table).tasks,
            )
        }),
{
    let n = s.len() as int;
    let ctx = module_ctx(s, source, own_module, table);
    let names = lineage_names_upto(s, n);
    let (declared, decorated) = declared_upto(ctx, names, s, n);
    let x = OperatorCtx { consts: ctx.consts, source, suite: s, decorated };
    let with_operators = operators_upto(x, s, n, declared);
    let claimed = callables_upto(s, n, decorated);
    block_discovers(x, s, n, declared);
    columns_discover(ctx, names, claimed, s, n, with_operators);
    discovers_on(
        declared,
        with_operators,
        columns_upto(ctx, names, claimed, s, n, with_operators),
    );
}

proof fn callables_grow_in(s: PyStmtTree, out: Set<Seq<char>>)
    ensures
        out.subset_of(callables_in(s, out)),
    decreases s, 0int,
{
    let here = match statement_call(s) {
        Some(c) => match callable_name(c) {
            Some(n) => out.insert(n),
            None => out,
        },
        None => out,
    };
    match s {
        PyStmtTree::With(_, b) => callables_grow(b, b.len() as int, here),
        PyStmtTree::If(b, o) => {
            callables_grow(b, b.len() as int, here);
            callables_grow(o, o.len() as int, callables_upto(b, b.len() as int, here));
        },
        PyStmtTree::For(f) => callables_grow(f.body, f.body.len() as int, here),
        PyStmtTree::While(_, b, _) => callables_grow(b, b.len() as int, here),
        PyStmtTree::Try(_, b, _, _, f) => {
            callables_grow(b, b.len() as int, here);
            callables_grow(f, f.len() as int, callables_upto(b, b.len() as int, here));
        },
        _ => {},
    }
}

proof fn callables_grow(s: Seq<PyStmtTree>, n: int, out: Set<Seq<char>>)
    ensures
        out.subset_of(callables_upto(s, n, out)),
    decreases s, n,
{
    if 0 < n <= s.len() {
        callables_grow(s, n - 1, out);
        callables_grow_in(s[n - 1], callables_upto(s, n - 1, out));
    }
}

/// A decorator overrides discovery: an operator that runs a decorated function
/// makes no task, and column discovery leaves the function alone.
pub proof fn decorated_functions_are_not_discovered(
    s: Seq<PyStmtTree>,
    source: Seq<char>,
    own_module: Seq<char>,
    table: Map<Seq<char>, Map<Seq<char>, Seq<char>>>,
)
    ensures
        ({
            let n = s.len() as int;
            let ctx = module_ctx(s, source, own_module, table);
            let (declared, decorated) = declared_upto(ctx, lineage_names_upto(s, n), s, n);
            let x = OperatorCtx { consts: ctx.consts, source, suite: s, decorated };
            let tasks = module_of(s, source, own_module, table).tasks;
            &&& forall|c: PyCallTree|
                callable_name(c) is Some && decorated.contains(callable_name(c)->0)
                    ==> #[trigger] operator_task(x, c) is None
            &&& forall|i: int|
                operators_upto(x, s, n, declared).len() <= i < tasks.len() ==> !decorated.contains(
                    (#[trigger] tasks[i]).task_name,
                )
        }),
{
    let n = s.len() as int;
    let ctx = module_ctx(s, source, own_module, table);
    let names = lineage_names_upto(s, n);
    let (declared, decorated) = declared_upto(ctx, names, s, n);
    let x = OperatorCtx { consts: ctx.consts, source, suite: s, decorated };
    let claimed = callables_upto(s, n, decorated);
    callables_grow(s, n, decorated);
    columns_discover(ctx, names, claimed, s, n, operators_upto(x, s, n, declared));
}

} // verus!

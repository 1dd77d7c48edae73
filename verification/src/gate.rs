//! Metrics that a gate decides by: how many tasks have lineage and were
//! annotated, and how many edges are declared. Columns found by column
//! discovery are counted apart, and move no ratio.

use vstd::prelude::*;

use crate::collections::ascending;
use crate::model::{DocumentView, Edge, EdgeView, Job, JobView, WeaveDocument};
use crate::text::{
    group_views, str_eq, str_lt, text_lt, text_lt_irreflexive, text_lt_total, text_lt_transitive,
    views,
};

verus! {

// ───────────────────────────────── ratios ─────────────────────────────

/// A part of a whole.
#[derive(Debug, Clone, Copy, PartialEq, Eq, Structural)]
pub struct Ratio {
    pub part: usize,
    pub whole: usize,
}

/// The ratio of two counts; `empty` to one when there is nothing to count.
pub open spec fn ratio_of(part: usize, whole: usize, empty: usize) -> Ratio {
    if whole == 0 {
        Ratio { part: empty, whole: 1 }
    } else {
        Ratio { part, whole }
    }
}

fn frac(part: usize, whole: usize, empty: usize) -> (r: Ratio)
    ensures
        r == ratio_of(part, whole, empty),
        r.whole > 0,
{
    if whole == 0 {
        Ratio { part: empty, whole: 1 }
    } else {
        Ratio { part, whole }
    }
}

// ───────────────────────────────── counts ─────────────────────────────

/// What is counted in a document, or in one of its DAGs.
#[derive(Debug, Clone, Copy, PartialEq, Eq, Structural)]
pub struct Counts {
    pub tasks_total: usize,
    pub tasks_with_lineage: usize,
    pub tasks_annotated: usize,
    pub edges_total: usize,
    pub high_confidence_edges: usize,
    /// Edges of column discovery.
    pub column_edges: usize,
    /// Mappings on edges of column discovery.
    pub column_mappings: u128,
}

#[verifier::ext_equal]
pub struct CountsView {
    pub tasks_total: nat,
    pub tasks_with_lineage: nat,
    pub tasks_annotated: nat,
    pub edges_total: nat,
    pub high_confidence_edges: nat,
    pub column_edges: nat,
    pub column_mappings: nat,
}

impl View for Counts {
    type V = CountsView;

    open spec fn view(&self) -> CountsView {
        CountsView {
            tasks_total: self.tasks_total as nat,
            tasks_with_lineage: self.tasks_with_lineage as nat,
            tasks_annotated: self.tasks_annotated as nat,
            edges_total: self.edges_total as nat,
            high_confidence_edges: self.high_confidence_edges as nat,
            column_edges: self.column_edges as nat,
            column_mappings: self.column_mappings as nat,
        }
    }
}

pub open spec fn no_counts() -> CountsView {
    CountsView {
        tasks_total: 0,
        tasks_with_lineage: 0,
        tasks_annotated: 0,
        edges_total: 0,
        high_confidence_edges: 0,
        column_edges: 0,
        column_mappings: 0,
    }
}

/// One when true.
pub open spec fn one_if(b: bool) -> nat {
    if b {
        1
    } else {
        0
    }
}

/// True when an edge that is not one of column discovery is attributed to the
/// job.
pub open spec fn job_has_edge(es: Seq<EdgeView>, id: Seq<char>) -> bool {
    exists|i: int|
        0 <= i < es.len() && !(#[trigger] es[i]).column_discovery && es[i].job == Some(id)
}

/// The DAG of a job.
pub open spec fn job_dag(j: JobView) -> Seq<char> {
    match j.dag {
        Some(g) => g,
        None => "default"@,
    }
}

/// The last of the first `n` jobs that has the id.
pub open spec fn job_with_id(jobs: Seq<JobView>, id: Seq<char>, n: int) -> Option<JobView>
    decreases n,
{
    if n <= 0 {
        None
    } else if jobs[n - 1].id == id {
        Some(jobs[n - 1])
    } else {
        job_with_id(jobs, id, n - 1)
    }
}

/// The DAG of an edge: that of its job.
pub open spec fn edge_dag(jobs: Seq<JobView>, e: EdgeView) -> Seq<char> {
    match e.job {
        Some(id) => match job_with_id(jobs, id, jobs.len() as int) {
            Some(j) => job_dag(j),
            None => "default"@,
        },
        None => "default"@,
    }
}

/// True when a DAG is counted; all are when none is picked.
pub open spec fn counted(scope: Option<Seq<char>>, dag: Seq<char>) -> bool {
    match scope {
        Some(g) => g == dag,
        None => true,
    }
}

/// The counts after a job: it is annotated when it is declared.
pub open spec fn count_job(d: DocumentView, c: CountsView, j: JobView) -> CountsView {
    CountsView {
        tasks_total: c.tasks_total + 1,
        tasks_with_lineage: c.tasks_with_lineage + one_if(job_has_edge(d.edges, j.id)),
        tasks_annotated: c.tasks_annotated + one_if(!j.origin.inferred()),
        ..c
    }
}

/// The counts after an edge. One of column discovery is counted apart.
pub open spec fn count_edge(c: CountsView, e: EdgeView) -> CountsView {
    if e.column_discovery {
        CountsView {
            column_edges: c.column_edges + 1,
            column_mappings: c.column_mappings + e.column_lineage.len(),
            ..c
        }
    } else {
        CountsView {
            edges_total: c.edges_total + 1,
            high_confidence_edges: c.high_confidence_edges + one_if(!e.origin.inferred()),
            ..c
        }
    }
}

/// The counts of the first `n` jobs.
pub open spec fn count_jobs(d: DocumentView, scope: Option<Seq<char>>, n: int) -> CountsView
    decreases n,
{
    if n <= 0 {
        no_counts()
    } else {
        let c = count_jobs(d, scope, n - 1);
        if counted(scope, job_dag(d.jobs[n - 1])) {
            count_job(d, c, d.jobs[n - 1])
        } else {
            c
        }
    }
}

/// The counts of the first `n` edges, on top of those of the jobs.
pub open spec fn count_edges(d: DocumentView, scope: Option<Seq<char>>, n: int) -> CountsView
    decreases n,
{
    if n <= 0 {
        count_jobs(d, scope, d.jobs.len() as int)
    } else {
        let c = count_edges(d, scope, n - 1);
        if counted(scope, edge_dag(d.jobs, d.edges[n - 1])) {
            count_edge(c, d.edges[n - 1])
        } else {
            c
        }
    }
}

/// The counts of a document, or of one of its DAGs.
pub open spec fn counts_of(d: DocumentView, scope: Option<Seq<char>>) -> CountsView {
    count_edges(d, scope, d.edges.len() as int)
}

fn has_edge(es: &Vec<Edge>, id: &str) -> (r: bool)
    ensures
        r == job_has_edge(views(es@), id@),
{
    let ghost ev = views(es@);
    let mut i: usize = 0;
    while i < es.len()
        invariant
            i <= es@.len(),
            ev == views(es@),
            forall|k: int|
                0 <= k < i ==> (#[trigger] ev[k]).column_discovery || ev[k].job != Some(id@),
        decreases es@.len() - i,
    {
        assert(ev[i as int] == es@[i as int]@);
        if !es[i].column_discovery {
            if let Some(j) = &es[i].job {
                if str_eq(j.as_str(), id) {
                    return true;
                }
            }
        }
        i = i + 1;
    }
    false
}

fn dag_of<'a>(j: &'a Job) -> (r: &'a str)
    ensures
        r@ == job_dag(j@),
{
    match &j.dag {
        Some(g) => g.as_str(),
        None => "default",
    }
}

fn dag_of_edge<'a>(jobs: &'a Vec<Job>, e: &Edge) -> (r: &'a str)
    ensures
        r@ == edge_dag(views(jobs@), e@),
{
    let id = match &e.job {
        Some(id) => id.as_str(),
        None => {
            return "default";
        },
    };
    let ghost jv = views(jobs@);
    let mut i: usize = jobs.len();
    while i > 0
        invariant
            i <= jobs@.len(),
            jv == views(jobs@),
            e@.job == Some(id@),
            job_with_id(jv, id@, jv.len() as int) == job_with_id(jv, id@, i as int),
        decreases i,
    {
        assert(jv[i - 1] == jobs@[i - 1]@);
        if str_eq(jobs[i - 1].id.as_str(), id) {
            return dag_of(&jobs[i - 1]);
        }
        i = i - 1;
    }
    "default"
}

fn in_scope(scope: &Option<String>, dag: &str) -> (r: bool)
    ensures
        r == counted(crate::text::opt_text(*scope), dag@),
{
    match scope {
        Some(g) => str_eq(g.as_str(), dag),
        None => true,
    }
}

fn unit(b: bool) -> (r: usize)
    ensures
        r == one_if(b),
        r <= 1,
{
    if b {
        1
    } else {
        0
    }
}

fn count_scope(doc: &WeaveDocument, scope: &Option<String>) -> (r: Counts)
    ensures
        r@ == counts_of(doc@, crate::text::opt_text(*scope)),
{
    let ghost sc = crate::text::opt_text(*scope);
    let mut c = Counts {
        tasks_total: 0,
        tasks_with_lineage: 0,
        tasks_annotated: 0,
        edges_total: 0,
        high_confidence_edges: 0,
        column_edges: 0,
        column_mappings: 0,
    };
    let mut i: usize = 0;
    while i < doc.jobs.len()
        invariant
            i <= doc.jobs@.len(),
            sc == crate::text::opt_text(*scope),
            c@ == count_jobs(doc@, sc, i as int),
            c.tasks_total <= i,
            c.tasks_with_lineage <= i,
            c.tasks_annotated <= i,
            c.edges_total == 0,
            c.high_confidence_edges == 0,
            c.column_edges == 0,
            c.column_mappings == 0,
        decreases doc.jobs@.len() - i,
    {
        let j = &doc.jobs[i];
        assert(doc@.jobs[i as int] == j@);
        if in_scope(scope, dag_of(j)) {
            c.tasks_total = c.tasks_total + 1;
            c.tasks_with_lineage = c.tasks_with_lineage + unit(
                has_edge(&doc.edges, j.id.as_str()),
            );
            c.tasks_annotated = c.tasks_annotated + unit(!j.origin.is_inferred());
        }
        i = i + 1;
    }
    let mut k: usize = 0;
    while k < doc.edges.len()
        invariant
            k <= doc.edges@.len(),
            sc == crate::text::opt_text(*scope),
            c@ == count_edges(doc@, sc, k as int),
            c.edges_total <= k,
            c.high_confidence_edges <= k,
            c.column_edges <= k,
            c.column_mappings <= k * 0xffff_ffff_ffff_ffff,
        decreases doc.edges@.len() - k,
    {
        let e = &doc.edges[k];
        assert(doc@.edges[k as int] == e@);
        if in_scope(scope, dag_of_edge(&doc.jobs, e)) {
            if e.column_discovery {
                c.column_edges = c.column_edges + 1;
                c.column_mappings = c.column_mappings + e.column_lineage.len() as u128;
            } else {
                c.edges_total = c.edges_total + 1;
                c.high_confidence_edges = c.high_confidence_edges + unit(!e.origin.is_inferred());
            }
        }
        k = k + 1;
    }
    c
}

// ────────────────────────────── DAG names ─────────────────────────────

/// The place of a name among sorted names: in front of the first that is not
/// before it.
pub open spec fn name_slot(names: Seq<Seq<char>>, n: Seq<char>, k: int) -> int
    decreases names.len() - k,
{
    if k >= names.len() {
        names.len() as int
    } else if text_lt(names[k], n) {
        name_slot(names, n, k + 1)
    } else {
        k
    }
}

/// Sorted names with one more, unless it is there.
pub open spec fn with_name(names: Seq<Seq<char>>, n: Seq<char>) -> Seq<Seq<char>> {
    let k = name_slot(names, n, 0);
    if k < names.len() && names[k] == n {
        names
    } else {
        names.insert(k, n)
    }
}

/// The DAGs of the first `n` jobs, sorted, each once.
pub open spec fn dags_of_jobs(jobs: Seq<JobView>, n: int) -> Seq<Seq<char>>
    decreases n,
{
    if n <= 0 {
        Seq::empty()
    } else {
        with_name(dags_of_jobs(jobs, n - 1), job_dag(jobs[n - 1]))
    }
}

/// The DAGs of the jobs and of the first `n` edges, sorted, each once.
pub open spec fn dags_upto(d: DocumentView, n: int) -> Seq<Seq<char>>
    decreases n,
{
    if n <= 0 {
        dags_of_jobs(d.jobs, d.jobs.len() as int)
    } else {
        with_name(dags_upto(d, n - 1), edge_dag(d.jobs, d.edges[n - 1]))
    }
}

/// The DAGs of a document, sorted, each once.
pub open spec fn dags(d: DocumentView) -> Seq<Seq<char>> {
    dags_upto(d, d.edges.len() as int)
}

fn add_name(names: &mut Vec<String>, n: &str)
    ensures
        views(final(names)@) == with_name(views(old(names)@), n@),
{
    let ghost nv = views(names@);
    let mut k: usize = 0;
    while k < names.len() && str_lt(names[k].as_str(), n)
        invariant
            k <= names@.len(),
            nv == views(names@),
            name_slot(nv, n@, 0) == name_slot(nv, n@, k as int),
        decreases names@.len() - k,
    {
        assert(nv[k as int] == names@[k as int]@);
        k = k + 1;
    }
    if k < names.len() {
        assert(nv[k as int] == names@[k as int]@);
        if str_eq(names[k].as_str(), n) {
            return;
        }
    }
    let name = n.to_owned();
    names.insert(k, name);
    assert(views(names@) =~= nv.insert(k as int, n@));
}

fn dag_names(doc: &WeaveDocument) -> (r: Vec<String>)
    ensures
        views(r@) == dags(doc@),
{
    broadcast use group_views;

    let mut names: Vec<String> = Vec::new();
    let mut i: usize = 0;
    while i < doc.jobs.len()
        invariant
            i <= doc.jobs@.len(),
            views(names@) == dags_of_jobs(doc@.jobs, i as int),
        decreases doc.jobs@.len() - i,
    {
        assert(doc@.jobs[i as int] == doc.jobs@[i as int]@);
        add_name(&mut names, dag_of(&doc.jobs[i]));
        i = i + 1;
    }
    let mut k: usize = 0;
    while k < doc.edges.len()
        invariant
            k <= doc.edges@.len(),
            views(names@) == dags_upto(doc@, k as int),
        decreases doc.edges@.len() - k,
    {
        assert(doc@.edges[k as int] == doc.edges@[k as int]@);
        add_name(&mut names, dag_of_edge(&doc.jobs, &doc.edges[k]));
        k = k + 1;
    }
    names
}

// ───────────────────────────────── metrics ────────────────────────────

/// The metrics of a DAG.
#[derive(Debug, Clone, PartialEq)]
pub struct DagMetrics {
    pub dag: String,
    pub tasks_total: usize,
    pub tasks_with_lineage: usize,
    pub task_coverage: Ratio,
    pub tasks_annotated: usize,
    pub annotation_coverage: Ratio,
    pub edges_total: usize,
    pub high_confidence_edges: usize,
    pub high_confidence_fraction: Ratio,
    pub column_edges: usize,
    pub column_mappings: u128,
}

/// The metrics of a document.
#[derive(Debug, Clone, PartialEq)]
pub struct GateMetrics {
    pub tasks_total: usize,
    pub tasks_with_lineage: usize,
    pub task_coverage: Ratio,
    pub tasks_annotated: usize,
    pub annotation_coverage: Ratio,
    pub edges_total: usize,
    pub high_confidence_edges: usize,
    pub high_confidence_fraction: Ratio,
    pub column_edges: usize,
    pub column_mappings: u128,
    pub per_dag: Vec<DagMetrics>,
}

impl DagMetrics {
    /// True when these are the metrics of a DAG: without tasks nothing is
    /// covered, and without edges everything is declared.
    pub open spec fn says(&self, dag: Seq<char>, c: CountsView) -> bool {
        &&& self.dag@ == dag
        &&& self.tasks_total == c.tasks_total
        &&& self.tasks_with_lineage == c.tasks_with_lineage
        &&& self.tasks_annotated == c.tasks_annotated
        &&& self.edges_total == c.edges_total
        &&& self.high_confidence_edges == c.high_confidence_edges
        &&& self.column_edges == c.column_edges
        &&& self.column_mappings == c.column_mappings
        &&& self.task_coverage == ratio_of(self.tasks_with_lineage, self.tasks_total, 0)
        &&& self.annotation_coverage == ratio_of(self.tasks_annotated, self.tasks_total, 0)
        &&& self.high_confidence_fraction == ratio_of(
            self.high_confidence_edges,
            self.edges_total,
            1,
        )
    }
}

impl GateMetrics {
    /// True when these are the metrics of a document.
    pub open spec fn says(&self, d: DocumentView) -> bool {
        let c = counts_of(d, None);
        &&& self.tasks_total == c.tasks_total
        &&& self.tasks_with_lineage == c.tasks_with_lineage
        &&& self.tasks_annotated == c.tasks_annotated
        &&& self.edges_total == c.edges_total
        &&& self.high_confidence_edges == c.high_confidence_edges
        &&& self.column_edges == c.column_edges
        &&& self.column_mappings == c.column_mappings
        &&& self.task_coverage == ratio_of(self.tasks_with_lineage, self.tasks_total, 0)
        &&& self.annotation_coverage == ratio_of(self.tasks_annotated, self.tasks_total, 0)
        &&& self.high_confidence_fraction == ratio_of(
            self.high_confidence_edges,
            self.edges_total,
            1,
        )
        &&& self.per_dag@.len() == dags(d).len()
        &&& forall|i: int|
            0 <= i < self.per_dag@.len() ==> (#[trigger] self.per_dag@[i]).says(
                dags(d)[i],
                counts_of(d, Some(dags(d)[i])),
            )
    }
}

fn dag_metrics(doc: &WeaveDocument, dag: &String) -> (r: DagMetrics)
    ensures
        r.says(dag@, counts_of(doc@, Some(dag@))),
{
    let scope: Option<String> = Some(dag.clone());
    let c = count_scope(doc, &scope);
    DagMetrics {
        dag: dag.clone(),
        tasks_total: c.tasks_total,
        tasks_with_lineage: c.tasks_with_lineage,
        task_coverage: frac(c.tasks_with_lineage, c.tasks_total, 0),
        tasks_annotated: c.tasks_annotated,
        annotation_coverage: frac(c.tasks_annotated, c.tasks_total, 0),
        edges_total: c.edges_total,
        high_confidence_edges: c.high_confidence_edges,
        high_confidence_fraction: frac(c.high_confidence_edges, c.edges_total, 1),
        column_edges: c.column_edges,
        column_mappings: c.column_mappings,
    }
}

/// The metrics of a document, in total and for each of its DAGs.
pub fn compute_gate_metrics(doc: &WeaveDocument) -> (r: GateMetrics)
    ensures
        r.says(doc@),
{
    let names = dag_names(doc);
    let ghost nv = views(names@);
    let mut per_dag: Vec<DagMetrics> = Vec::new();
    let mut i: usize = 0;
    while i < names.len()
        invariant
            i <= names@.len(),
            nv == views(names@),
            per_dag@.len() == i,
            forall|k: int|
                0 <= k < i ==> (#[trigger] per_dag@[k]).says(
                    nv[k],
                    counts_of(doc@, Some(nv[k])),
                ),
        decreases names@.len() - i,
    {
        assert(nv[i as int] == names@[i as int]@);
        per_dag.push(dag_metrics(doc, &names[i]));
        i = i + 1;
    }
    let all: Option<String> = None;
    let c = count_scope(doc, &all);
    GateMetrics {
        tasks_total: c.tasks_total,
        tasks_with_lineage: c.tasks_with_lineage,
        task_coverage: frac(c.tasks_with_lineage, c.tasks_total, 0),
        tasks_annotated: c.tasks_annotated,
        annotation_coverage: frac(c.tasks_annotated, c.tasks_total, 0),
        edges_total: c.edges_total,
        high_confidence_edges: c.high_confidence_edges,
        high_confidence_fraction: frac(c.high_confidence_edges, c.edges_total, 1),
        column_edges: c.column_edges,
        column_mappings: c.column_mappings,
        per_dag,
    }
}

// ──────────────────────────────── laws ────────────────────────────────

proof fn name_slot_bounds(names: Seq<Seq<char>>, n: Seq<char>, k: int)
    requires
        0 <= k <= names.len(),
    ensures
        k <= name_slot(names, n, k) <= names.len(),
        name_slot(names, n, k) < names.len() ==> !text_lt(names[name_slot(names, n, k)], n),
        forall|i: int| k <= i < name_slot(names, n, k) ==> text_lt(#[trigger] names[i], n),
    decreases names.len() - k,
{
    if k < names.len() && text_lt(names[k], n) {
        name_slot_bounds(names, n, k + 1);
    }
}

proof fn with_name_ascends(names: Seq<Seq<char>>, n: Seq<char>)
    requires
        ascending(names),
    ensures
        ascending(with_name(names, n)),
        with_name(names, n).contains(n),
        forall|m: Seq<char>| names.contains(m) ==> #[trigger] with_name(names, n).contains(m),
{
    let k = name_slot(names, n, 0);
    let r = with_name(names, n);
    name_slot_bounds(names, n, 0);
    if k < names.len() && names[k] == n {
    } else {
        assert(r[k] == n);
        assert forall|i: int, j: int| 0 <= i < j < r.len() implies text_lt(
            #[trigger] r[i],
            #[trigger] r[j],
        ) by {
            if j < k {
                assert(r[i] == names[i] && r[j] == names[j]);
            } else if j == k {
                assert(r[i] == names[i]);
            } else {
                assert(r[j] == names[j - 1]);
                text_lt_total(n, names[k]);
                if j - 1 > k {
                    text_lt_transitive(n, names[k], names[j - 1]);
                }
                if i < k {
                    assert(r[i] == names[i]);
                } else if i > k {
                    assert(r[i] == names[i - 1]);
                }
            }
        }
        assert forall|m: Seq<char>| names.contains(m) implies #[trigger] r.contains(m) by {
            let i = choose|i: int| 0 <= i < names.len() && names[i] == m;
            if i < k {
                assert(r[i] == m);
            } else {
                assert(r[i + 1] == m);
            }
        }
    }
}

proof fn job_dags_ascend(jobs: Seq<JobView>, n: int)
    requires
        n <= jobs.len(),
    ensures
        ascending(dags_of_jobs(jobs, n)),
        forall|i: int|
            0 <= i < n ==> dags_of_jobs(jobs, n).contains(job_dag(#[trigger] jobs[i])),
    decreases n,
{
    if n > 0 {
        job_dags_ascend(jobs, n - 1);
        with_name_ascends(dags_of_jobs(jobs, n - 1), job_dag(jobs[n - 1]));
    }
}

proof fn dags_ascend(d: DocumentView, n: int)
    requires
        n <= d.edges.len(),
    ensures
        ascending(dags_upto(d, n)),
        forall|i: int|
            0 <= i < d.jobs.len() ==> dags_upto(d, n).contains(job_dag(#[trigger] d.jobs[i])),
        forall|i: int|
            0 <= i < n ==> dags_upto(d, n).contains(edge_dag(d.jobs, #[trigger] d.edges[i])),
    decreases n,
{
    if n > 0 {
        dags_ascend(d, n - 1);
        with_name_ascends(dags_upto(d, n - 1), edge_dag(d.jobs, d.edges[n - 1]));
    } else {
        job_dags_ascend(d.jobs, d.jobs.len() as int);
    }
}

/// The DAGs of a document are listed in ascending order, each once, and none
/// that a job or an edge belongs to is missing.
pub proof fn dags_are_listed(d: DocumentView)
    ensures
        ascending(dags(d)),
        forall|i: int| 0 <= i < d.jobs.len() ==> dags(d).contains(job_dag(#[trigger] d.jobs[i])),
        forall|i: int|
            0 <= i < d.edges.len() ==> dags(d).contains(edge_dag(d.jobs, #[trigger] d.edges[i])),
{
    dags_ascend(d, d.edges.len() as int);
}

/// Two counts together.
pub open spec fn plus(a: CountsView, b: CountsView) -> CountsView {
    CountsView {
        tasks_total: a.tasks_total + b.tasks_total,
        tasks_with_lineage: a.tasks_with_lineage + b.tasks_with_lineage,
        tasks_annotated: a.tasks_annotated + b.tasks_annotated,
        edges_total: a.edges_total + b.edges_total,
        high_confidence_edges: a.high_confidence_edges + b.high_confidence_edges,
        column_edges: a.column_edges + b.column_edges,
        column_mappings: a.column_mappings + b.column_mappings,
    }
}

/// The first `n` counts together.
pub open spec fn sum_upto(s: Seq<CountsView>, n: int) -> CountsView
    decreases n,
{
    if n <= 0 {
        no_counts()
    } else {
        plus(sum_upto(s, n - 1), s[n - 1])
    }
}

proof fn sum_of_update(s: Seq<CountsView>, i: int, more: CountsView, n: int)
    requires
        0 <= i < s.len(),
        n <= s.len(),
    ensures
        sum_upto(s.update(i, plus(s[i], more)), n) == if i < n {
            plus(sum_upto(s, n), more)
        } else {
            sum_upto(s, n)
        },
    decreases n,
{
    if n > 0 {
        sum_of_update(s, i, more, n - 1);
    }
}

proof fn sum_of_none(s: Seq<CountsView>, n: int)
    requires
        n <= s.len(),
        forall|i: int| 0 <= i < s.len() ==> #[trigger] s[i] == no_counts(),
    ensures
        sum_upto(s, n) == no_counts(),
    decreases n,
{
    if n > 0 {
        sum_of_none(s, n - 1);
    }
}

spec fn by_dag_jobs(d: DocumentView, names: Seq<Seq<char>>, n: int) -> Seq<CountsView> {
    Seq::new(names.len(), |i: int| count_jobs(d, Some(names[i]), n))
}

spec fn by_dag_edges(d: DocumentView, names: Seq<Seq<char>>, n: int) -> Seq<CountsView> {
    Seq::new(names.len(), |i: int| count_edges(d, Some(names[i]), n))
}

proof fn jobs_add_up(d: DocumentView, names: Seq<Seq<char>>, n: int)
    requires
        0 <= n <= d.jobs.len(),
        ascending(names),
        forall|i: int| 0 <= i < d.jobs.len() ==> names.contains(job_dag(#[trigger] d.jobs[i])),
    ensures
        sum_upto(by_dag_jobs(d, names, n), names.len() as int) == count_jobs(d, None, n),
    decreases n,
{
    if n <= 0 {
        sum_of_none(by_dag_jobs(d, names, n), names.len() as int);
    } else {
        jobs_add_up(d, names, n - 1);
        let j = d.jobs[n - 1];
        let g = job_dag(j);
        let k = choose|k: int| 0 <= k < names.len() && names[k] == g;
        let before = by_dag_jobs(d, names, n - 1);
        let more = count_job(d, no_counts(), j);
        sum_of_update(before, k, more, names.len() as int);
        assert forall|i: int| 0 <= i < names.len() && i != k implies names[i] != g by {
            if i < k {
                assert(text_lt(names[i], names[k]));
            } else {
                assert(text_lt(names[k], names[i]));
            }
            text_lt_irreflexive(g);
        }
        assert(by_dag_jobs(d, names, n) =~= before.update(k, plus(before[k], more)));
    }
}

proof fn edges_add_up(d: DocumentView, names: Seq<Seq<char>>, n: int)
    requires
        0 <= n <= d.edges.len(),
        ascending(names),
        forall|i: int| 0 <= i < d.jobs.len() ==> names.contains(job_dag(#[trigger] d.jobs[i])),
        forall|i: int|
            0 <= i < d.edges.len() ==> names.contains(edge_dag(d.jobs, #[trigger] d.edges[i])),
    ensures
        sum_upto(by_dag_edges(d, names, n), names.len() as int) == count_edges(d, None, n),
    decreases n,
{
    if n <= 0 {
        jobs_add_up(d, names, d.jobs.len() as int);
        assert(by_dag_edges(d, names, n) =~= by_dag_jobs(d, names, d.jobs.len() as int));
    } else {
        edges_add_up(d, names, n - 1);
        let e = d.edges[n - 1];
        let g = edge_dag(d.jobs, e);
        let k = choose|k: int| 0 <= k < names.len() && names[k] == g;
        let before = by_dag_edges(d, names, n - 1);
        let more = count_edge(no_counts(), e);
        sum_of_update(before, k, more, names.len() as int);
        assert forall|i: int| 0 <= i < names.len() && i != k implies names[i] != g by {
            if i < k {
                assert(text_lt(names[i], names[k]));
            } else {
                assert(text_lt(names[k], names[i]));
            }
            text_lt_irreflexive(g);
        }
        assert(by_dag_edges(d, names, n) =~= before.update(k, plus(before[k], more)));
    }
}

/// The counts of the DAGs of a document.
pub open spec fn counts_by_dag(d: DocumentView) -> Seq<CountsView> {
    Seq::new(dags(d).len(), |i: int| counts_of(d, Some(dags(d)[i])))
}

/// The counts of the DAGs add up to those of the document.
pub proof fn dag_counts_add_up(d: DocumentView)
    ensures
        sum_upto(counts_by_dag(d), dags(d).len() as int) == counts_of(d, None),
{
    dags_are_listed(d);
    edges_add_up(d, dags(d), d.edges.len() as int);
    assert(counts_by_dag(d) =~= by_dag_edges(d, dags(d), d.edges.len() as int));
}

proof fn jobs_counted_alike(a: DocumentView, b: DocumentView, scope: Option<Seq<char>>, n: int)
    requires
        n <= a.jobs.len(),
        a.jobs == b.jobs,
        forall|id: Seq<char>| #[trigger] job_has_edge(a.edges, id) == job_has_edge(b.edges, id),
    ensures
        count_jobs(a, scope, n) == count_jobs(b, scope, n),
    decreases n,
{
    if n > 0 {
        jobs_counted_alike(a, b, scope, n - 1);
        assert(job_has_edge(a.edges, a.jobs[n - 1].id) == job_has_edge(
            b.edges,
            a.jobs[n - 1].id,
        ));
    }
}

proof fn edges_counted_alike(a: DocumentView, b: DocumentView, scope: Option<Seq<char>>, n: int)
    requires
        0 <= n <= a.edges.len() <= b.edges.len(),
        a.jobs == b.jobs,
        b.edges.subrange(0, a.edges.len() as int) == a.edges,
        count_edges(a, scope, 0) == count_edges(b, scope, 0),
    ensures
        count_edges(a, scope, n) == count_edges(b, scope, n),
    decreases n,
{
    if n > 0 {
        edges_counted_alike(a, b, scope, n - 1);
        assert(b.edges.subrange(0, a.edges.len() as int)[n - 1] == b.edges[n - 1]);
    }
}

/// An edge of column discovery, with a job or without, moves no ratio of the
/// document or of a DAG: it only adds to the counts of column edges and
/// mappings, where it is counted.
pub proof fn discovery_moves_no_ratio(d: DocumentView, e: EdgeView, scope: Option<Seq<char>>)
    requires
        e.column_discovery,
    ensures
        counts_of(DocumentView { edges: d.edges.push(e), ..d }, scope) == if counted(
            scope,
            edge_dag(d.jobs, e),
        ) {
            CountsView {
                column_edges: counts_of(d, scope).column_edges + 1,
                column_mappings: counts_of(d, scope).column_mappings + e.column_lineage.len(),
                ..counts_of(d, scope)
            }
        } else {
            counts_of(d, scope)
        },
{
    let b = DocumentView { edges: d.edges.push(e), ..d };
    assert forall|id: Seq<char>| #[trigger] job_has_edge(d.edges, id) == job_has_edge(
        b.edges,
        id,
    ) by {
        if job_has_edge(d.edges, id) {
            let i = choose|i: int|
                0 <= i < d.edges.len() && !(#[trigger] d.edges[i]).column_discovery
                    && d.edges[i].job == Some(id);
            assert(b.edges[i] == d.edges[i]);
        }
        if job_has_edge(b.edges, id) {
            let i = choose|i: int|
                0 <= i < b.edges.len() && !(#[trigger] b.edges[i]).column_discovery
                    && b.edges[i].job == Some(id);
            assert(b.edges[i] == d.edges[i]);
        }
    }
    jobs_counted_alike(d, b, scope, d.jobs.len() as int);
    assert(b.edges.subrange(0, d.edges.len() as int) =~= d.edges);
    edges_counted_alike(d, b, scope, d.edges.len() as int);
}

} // verus!

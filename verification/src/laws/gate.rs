//! The metrics of a document, as numbers of things that can be pointed at.

use vstd::prelude::*;

use crate::gate::{
    count_edges, count_jobs, counted, counts_of, edge_dag, job_dag, job_has_edge, job_with_id,
    no_counts, CountsView,
};
use crate::laws::reading::{lists_those, one_more};
use crate::model::{DocumentView, EdgeView, JobView};
use crate::origin::OriginSource;

verus! {

/// How many positions below `n` satisfy `keep`.
spec fn how_many(n: int, keep: spec_fn(int) -> bool) -> nat
    decreases n,
{
    if n <= 0 {
        0
    } else if keep(n - 1) {
        how_many(n - 1, keep) + 1
    } else {
        how_many(n - 1, keep)
    }
}

proof fn listed(n: int, keep: spec_fn(int) -> bool) -> (chosen: Seq<int>)
    requires
        0 <= n,
    ensures
        lists_those(chosen, n, keep),
        chosen.len() == how_many(n, keep),
    decreases n,
{
    if n > 0 {
        let before = listed(n - 1, keep);
        one_more(before, n, keep)
    } else {
        Seq::empty()
    }
}

/// True when the count is how many positions below `n` satisfy `keep`.
pub open spec fn counts_those(count: nat, n: int, keep: spec_fn(int) -> bool) -> bool {
    exists|chosen: Seq<int>| #[trigger] lists_those(chosen, n, keep) && chosen.len() == count
}

/// True when the job is in the DAG that is asked for; one without a DAG is in
/// the default one.
pub open spec fn job_is_in(j: JobView, scope: Option<Seq<char>>) -> bool {
    scope matches Some(g) ==> g == match j.dag {
        Some(own) => own,
        None => "default"@,
    }
}

/// True when the edge is in the DAG that is asked for: that of the last job
/// that has its job id, or the default one where there is none.
pub open spec fn edge_is_in(d: DocumentView, e: EdgeView, scope: Option<Seq<char>>) -> bool {
    scope matches Some(g) ==> {
        ||| exists|k: int| #[trigger] makes_edge(d.jobs, e, k) && job_is_in(d.jobs[k], Some(g))
        ||| (forall|k: int| !#[trigger] makes_edge(d.jobs, e, k)) && g == "default"@
    }
}

/// True when job `k` is the last with the id that the edge names.
pub open spec fn makes_edge(jobs: Seq<JobView>, e: EdgeView, k: int) -> bool {
    &&& 0 <= k < jobs.len()
    &&& e.job == Some(jobs[k].id)
    &&& forall|l: int| k < l < jobs.len() ==> e.job != Some((#[trigger] jobs[l]).id)
}

proof fn last_with_id(jobs: Seq<JobView>, id: Seq<char>, n: int)
    requires
        0 <= n <= jobs.len(),
    ensures
        match job_with_id(jobs, id, n) {
            Some(j) => exists|k: int|
                0 <= k < n && jobs[k] == j && jobs[k].id == id && forall|l: int|
                    k < l < n ==> (#[trigger] jobs[l]).id != id,
            None => forall|l: int| 0 <= l < n ==> (#[trigger] jobs[l]).id != id,
        },
    decreases n,
{
    if n > 0 {
        last_with_id(jobs, id, n - 1);
        if jobs[n - 1].id == id {
            assert(jobs[n - 1] == jobs[n - 1]);
        } else if job_with_id(jobs, id, n - 1) is Some {
            let j = job_with_id(jobs, id, n - 1)->0;
            let k = choose|k: int|
                0 <= k < n - 1 && jobs[k] == j && jobs[k].id == id && forall|l: int|
                    k < l < n - 1 ==> (#[trigger] jobs[l]).id != id;
            assert(jobs[k] == j);
        }
    }
}

proof fn edge_in_its_dag(d: DocumentView, e: EdgeView, scope: Option<Seq<char>>)
    ensures
        counted(scope, edge_dag(d.jobs, e)) == edge_is_in(d, e, scope),
{
    let jobs = d.jobs;
    let n = jobs.len() as int;
    if let (Some(g), Some(id)) = (scope, e.job) {
        last_with_id(jobs, id, n);
        match job_with_id(jobs, id, n) {
            Some(j) => {
                let k = choose|k: int|
                    0 <= k < n && jobs[k] == j && jobs[k].id == id && forall|l: int|
                        k < l < n ==> (#[trigger] jobs[l]).id != id;
                assert(makes_edge(jobs, e, k));
                assert forall|l: int| #[trigger] makes_edge(jobs, e, l) implies l == k by {
                    if l < k {
                        assert(e.job != Some(jobs[k].id));
                    }
                    if k < l {
                        assert(jobs[l].id != id);
                    }
                }
            },
            None => {
                assert(forall|k: int| !#[trigger] makes_edge(jobs, e, k));
            },
        }
    }
}

/// True when an edge that is no guess at columns names the job.
pub open spec fn has_lineage(d: DocumentView, j: JobView) -> bool {
    exists|i: int|
        0 <= i < d.edges.len() && (#[trigger] d.edges[i]).job == Some(j.id)
            && !d.edges[i].column_discovery
}

pub open spec fn jobs_in(d: DocumentView, scope: Option<Seq<char>>) -> spec_fn(int) -> bool {
    |i: int| job_is_in(d.jobs[i], scope)
}

pub open spec fn jobs_with_lineage(d: DocumentView, scope: Option<Seq<char>>) -> spec_fn(
    int,
) -> bool {
    |i: int| job_is_in(d.jobs[i], scope) && has_lineage(d, d.jobs[i])
}

pub open spec fn declared_jobs(d: DocumentView, scope: Option<Seq<char>>) -> spec_fn(int) -> bool {
    |i: int|
        job_is_in(d.jobs[i], scope) && d.jobs[i].origin.source == OriginSource::Declared
}

pub open spec fn edges_in(d: DocumentView, scope: Option<Seq<char>>) -> spec_fn(int) -> bool {
    |i: int| edge_is_in(d, d.edges[i], scope) && !d.edges[i].column_discovery
}

pub open spec fn declared_edges(d: DocumentView, scope: Option<Seq<char>>) -> spec_fn(int) -> bool {
    |i: int|
        edge_is_in(d, d.edges[i], scope) && !d.edges[i].column_discovery
            && d.edges[i].origin.source == OriginSource::Declared
}

pub open spec fn column_edges_in(d: DocumentView, scope: Option<Seq<char>>) -> spec_fn(
    int,
) -> bool {
    |i: int| edge_is_in(d, d.edges[i], scope) && d.edges[i].column_discovery
}

proof fn jobs_are_counted(d: DocumentView, scope: Option<Seq<char>>, n: int)
    requires
        0 <= n <= d.jobs.len(),
    ensures
        count_jobs(d, scope, n) == (CountsView {
            tasks_total: how_many(n, jobs_in(d, scope)),
            tasks_with_lineage: how_many(n, jobs_with_lineage(d, scope)),
            tasks_annotated: how_many(n, declared_jobs(d, scope)),
            ..no_counts()
        }),
    decreases n,
{
    if n > 0 {
        jobs_are_counted(d, scope, n - 1);
        let j = d.jobs[n - 1];
        assert(counted(scope, job_dag(j)) == job_is_in(j, scope));
        assert(job_has_edge(d.edges, j.id) == has_lineage(d, j));
    }
}

proof fn edges_are_counted(d: DocumentView, scope: Option<Seq<char>>, n: int)
    requires
        0 <= n <= d.edges.len(),
    ensures
        ({
            let c = count_edges(d, scope, n);
            let j = count_jobs(d, scope, d.jobs.len() as int);
            &&& c.tasks_total == j.tasks_total
            &&& c.tasks_with_lineage == j.tasks_with_lineage
            &&& c.tasks_annotated == j.tasks_annotated
            &&& c.edges_total == how_many(n, edges_in(d, scope))
            &&& c.high_confidence_edges == how_many(n, declared_edges(d, scope))
            &&& c.column_edges == how_many(n, column_edges_in(d, scope))
        }),
    decreases n,
{
    jobs_are_counted(d, scope, d.jobs.len() as int);
    if n > 0 {
        edges_are_counted(d, scope, n - 1);
        edge_in_its_dag(d, d.edges[n - 1], scope);
    }
}

/// The numbers added up.
pub open spec fn sum_of(s: Seq<nat>) -> nat
    decreases s.len(),
{
    if s.len() == 0 {
        0
    } else {
        sum_of(s.drop_last()) + s.last()
    }
}

/// The numbers of mappings of the edges at those positions.
pub open spec fn mappings_at(es: Seq<EdgeView>, chosen: Seq<int>) -> Seq<nat> {
    Seq::new(chosen.len(), |k: int| es[chosen[k]].column_lineage.len())
}

proof fn mappings_are_counted(d: DocumentView, scope: Option<Seq<char>>, n: int) -> (chosen: Seq<
    int,
>)
    requires
        0 <= n <= d.edges.len(),
    ensures
        lists_those(chosen, n, column_edges_in(d, scope)),
        count_edges(d, scope, n).column_mappings == sum_of(mappings_at(d.edges, chosen)),
    decreases n,
{
    let keep = column_edges_in(d, scope);
    if n > 0 {
        let before = mappings_are_counted(d, scope, n - 1);
        edge_in_its_dag(d, d.edges[n - 1], scope);
        let r = one_more(before, n, keep);
        if keep(n - 1) {
            let s = mappings_at(d.edges, r);
            assert(s.drop_last() =~= mappings_at(d.edges, before));
            assert(s.last() == d.edges[n - 1].column_lineage.len());
        }
        r
    } else {
        jobs_are_counted(d, scope, d.jobs.len() as int);
        Seq::empty()
    }
}

/// The mappings that are counted are those of the edges that were found for
/// columns alone, all of each.
pub proof fn metrics_count_mappings(d: DocumentView, scope: Option<Seq<char>>)
    ensures
        exists|chosen: Seq<int>|
            {
                &&& #[trigger] lists_those(
                    chosen,
                    d.edges.len() as int,
                    column_edges_in(d, scope),
                )
                &&& counts_of(d, scope).column_mappings == sum_of(mappings_at(d.edges, chosen))
            },
{
    let chosen = mappings_are_counted(d, scope, d.edges.len() as int);
}

/// The metrics are numbers of jobs and edges of the document, or of the DAG
/// that is asked for: all jobs, those that an edge names, those that are
/// declared, all edges, those that are declared, and, apart from them, those
/// that were found for columns alone.
pub proof fn metrics_count_jobs_and_edges(d: DocumentView, scope: Option<Seq<char>>)
    ensures
        ({
            let c = counts_of(d, scope);
            let jobs = d.jobs.len() as int;
            let edges = d.edges.len() as int;
            &&& counts_those(c.tasks_total, jobs, jobs_in(d, scope))
            &&& counts_those(c.tasks_with_lineage, jobs, jobs_with_lineage(d, scope))
            &&& counts_those(c.tasks_annotated, jobs, declared_jobs(d, scope))
            &&& counts_those(c.edges_total, edges, edges_in(d, scope))
            &&& counts_those(c.high_confidence_edges, edges, declared_edges(d, scope))
            &&& counts_those(c.column_edges, edges, column_edges_in(d, scope))
        }),
{
    let jobs = d.jobs.len() as int;
    let edges = d.edges.len() as int;
    jobs_are_counted(d, scope, jobs);
    edges_are_counted(d, scope, edges);
    let a = listed(jobs, jobs_in(d, scope));
    let b = listed(jobs, jobs_with_lineage(d, scope));
    let c = listed(jobs, declared_jobs(d, scope));
    let e = listed(edges, edges_in(d, scope));
    let f = listed(edges, declared_edges(d, scope));
    let g = listed(edges, column_edges_in(d, scope));
}

} // verus!

//! The graph of a document and its edges and jobs: who feeds whom, and which
//! edges the jobs add.

use vstd::prelude::*;

use crate::graph::{
    add_inputs, add_outputs, add_pair, derived_edges, downstream, has_pair, job_edge,
    merged_origin, upstream, with_job_edges,
};
use crate::laws::reading::{lists_those, one_more};
use crate::model::{DocumentView, EdgeView, JobView};
use crate::origin::{OriginSource, OriginView};

verus! {

pub open spec fn leads_to(es: Seq<EdgeView>, name: Seq<char>) -> spec_fn(int) -> bool {
    |i: int| es[i].to == name
}

pub open spec fn leaves(es: Seq<EdgeView>, name: Seq<char>) -> spec_fn(int) -> bool {
    |i: int| es[i].from == name
}

proof fn feeders_in_turn(es: Seq<EdgeView>, name: Seq<char>, n: int) -> (chosen: Seq<int>)
    requires
        0 <= n <= es.len(),
    ensures
        lists_those(chosen, n, leads_to(es, name)),
        upstream(es, name, n).len() == chosen.len(),
        forall|k: int|
            0 <= k < chosen.len() ==> #[trigger] upstream(es, name, n)[k] == es[chosen[k]].from,
    decreases n,
{
    if n > 0 {
        let before = feeders_in_turn(es, name, n - 1);
        one_more(before, n, leads_to(es, name))
    } else {
        Seq::empty()
    }
}

/// What feeds a dataset are the sources of the edges that lead to it, one for
/// each, in the order of the edges.
pub proof fn upstream_lists_each_feeder(es: Seq<EdgeView>, name: Seq<char>)
    ensures
        exists|chosen: Seq<int>|
            {
                &&& #[trigger] lists_those(chosen, es.len() as int, leads_to(es, name))
                &&& upstream(es, name, es.len() as int).len() == chosen.len()
                &&& forall|k: int|
                    0 <= k < chosen.len() ==> #[trigger] upstream(es, name, es.len() as int)[k]
                        == es[chosen[k]].from
            },
        forall|x: Seq<char>| #[trigger]
            upstream(es, name, es.len() as int).contains(x) <==> has_pair(es, x, name),
{
    let chosen = feeders_in_turn(es, name, es.len() as int);
    let u = upstream(es, name, es.len() as int);
    let keep = leads_to(es, name);
    assert forall|x: Seq<char>| #[trigger] u.contains(x) <==> has_pair(es, x, name) by {
        if u.contains(x) {
            let k = choose|k: int| 0 <= k < u.len() && u[k] == x;
            assert(keep(chosen[k]));
            assert(es[chosen[k]].from == x && es[chosen[k]].to == name);
        }
        if has_pair(es, x, name) {
            let i = choose|i: int|
                0 <= i < es.len() && (#[trigger] es[i]).from == x && es[i].to == name;
            assert(keep(i));
            let k = choose|k: int| 0 <= k < chosen.len() && chosen[k] == i;
            assert(u[k] == x);
        }
    }
}

proof fn fed_in_turn(es: Seq<EdgeView>, name: Seq<char>, n: int) -> (chosen: Seq<int>)
    requires
        0 <= n <= es.len(),
    ensures
        lists_those(chosen, n, leaves(es, name)),
        downstream(es, name, n).len() == chosen.len(),
        forall|k: int|
            0 <= k < chosen.len() ==> #[trigger] downstream(es, name, n)[k] == es[chosen[k]].to,
    decreases n,
{
    if n > 0 {
        let before = fed_in_turn(es, name, n - 1);
        one_more(before, n, leaves(es, name))
    } else {
        Seq::empty()
    }
}

/// What a dataset feeds are the targets of the edges that leave it, one for
/// each, in the order of the edges.
pub proof fn downstream_lists_each_target(es: Seq<EdgeView>, name: Seq<char>)
    ensures
        exists|chosen: Seq<int>|
            {
                &&& #[trigger] lists_those(chosen, es.len() as int, leaves(es, name))
                &&& downstream(es, name, es.len() as int).len() == chosen.len()
                &&& forall|k: int|
                    0 <= k < chosen.len() ==> #[trigger] downstream(es, name, es.len() as int)[k]
                        == es[chosen[k]].to
            },
        forall|x: Seq<char>| #[trigger]
            downstream(es, name, es.len() as int).contains(x) <==> has_pair(es, name, x),
{
    let chosen = fed_in_turn(es, name, es.len() as int);
    let u = downstream(es, name, es.len() as int);
    let keep = leaves(es, name);
    assert forall|x: Seq<char>| #[trigger] u.contains(x) <==> has_pair(es, name, x) by {
        if u.contains(x) {
            let k = choose|k: int| 0 <= k < u.len() && u[k] == x;
            assert(keep(chosen[k]));
            assert(es[chosen[k]].from == name && es[chosen[k]].to == x);
        }
        if has_pair(es, name, x) {
            let i = choose|i: int|
                0 <= i < es.len() && (#[trigger] es[i]).from == name && es[i].to == x;
            assert(keep(i));
            let k = choose|k: int| 0 <= k < chosen.len() && chosen[k] == i;
            assert(u[k] == x);
        }
    }
}

/// A dataset feeds another exactly when the other is fed by it.
pub proof fn feeding_goes_both_ways(es: Seq<EdgeView>, a: Seq<char>, b: Seq<char>)
    ensures
        downstream(es, a, es.len() as int).contains(b) <==> upstream(
            es,
            b,
            es.len() as int,
        ).contains(a),
{
    upstream_lists_each_feeder(es, b);
    downstream_lists_each_target(es, a);
}

/// True when the edge is one that the job adds: between one of its inputs and
/// one of its outputs, with its description, its query and its origin, and
/// without mappings.
pub open spec fn is_added_by(e: EdgeView, j: JobView) -> bool {
    &&& j.inputs.contains(e.from)
    &&& j.outputs.contains(e.to)
    &&& e.from == e.to ==> j.origin.source == OriginSource::Declared
    &&& e.job == Some(j.id)
    &&& e.transform.description == j.description
    &&& e.transform.sql == j.sql
    &&& e.origin == j.origin
    &&& e.column_lineage.len() == 0
}

/// True when edge `k` is the first between its two datasets.
pub open spec fn is_first_pair(es: Seq<EdgeView>, k: int) -> bool {
    forall|i: int| 0 <= i < k ==> !((#[trigger] es[i]).from == es[k].from && es[i].to == es[k].to)
}

spec fn adds(es: Seq<EdgeView>, base: int, j: JobView) -> bool {
    forall|k: int|
        base <= k < es.len() ==> is_added_by(#[trigger] es[k], j) && is_first_pair(es, k)
}

proof fn pair_adds(es: Seq<EdgeView>, base: int, j: JobView, a: int, b: int)
    requires
        0 <= base <= es.len(),
        adds(es, base, j),
        0 <= a < j.inputs.len(),
        0 <= b < j.outputs.len(),
    ensures
        adds(add_pair(es, j, j.inputs[a], j.outputs[b]), base, j),
        es.len() <= add_pair(es, j, j.inputs[a], j.outputs[b]).len(),
        forall|i: int|
            0 <= i < es.len() ==> #[trigger] add_pair(es, j, j.inputs[a], j.outputs[b])[i]
                == es[i],
{
    let r = add_pair(es, j, j.inputs[a], j.outputs[b]);
    assert forall|k: int| base <= k < r.len() implies is_added_by(#[trigger] r[k], j)
        && is_first_pair(r, k) by {
        if k < es.len() {
            assert(r[k] == es[k]);
            assert(is_first_pair(es, k));
        } else {
            assert(r[k] == job_edge(j, j.inputs[a], j.outputs[b]));
            assert(j.inputs.contains(j.inputs[a]) && j.outputs.contains(j.outputs[b]));
            assert forall|i: int| 0 <= i < k implies !((#[trigger] r[i]).from == r[k].from
                && r[i].to == r[k].to) by {
                assert(r[i] == es[i]);
            }
        }
    }
}

proof fn outputs_add(es: Seq<EdgeView>, base: int, j: JobView, a: int, n: int)
    requires
        0 <= base <= es.len(),
        adds(es, base, j),
        0 <= a < j.inputs.len(),
        0 <= n <= j.outputs.len(),
    ensures
        adds(add_outputs(es, j, j.inputs[a], n), base, j),
        es.len() <= add_outputs(es, j, j.inputs[a], n).len(),
        forall|i: int|
            0 <= i < es.len() ==> #[trigger] add_outputs(es, j, j.inputs[a], n)[i] == es[i],
    decreases n,
{
    if n > 0 {
        outputs_add(es, base, j, a, n - 1);
        pair_adds(add_outputs(es, j, j.inputs[a], n - 1), base, j, a, n - 1);
    }
}

proof fn inputs_add(es: Seq<EdgeView>, base: int, j: JobView, n: int)
    requires
        0 <= base <= es.len(),
        adds(es, base, j),
        0 <= n <= j.inputs.len(),
    ensures
        adds(add_inputs(es, j, n), base, j),
        es.len() <= add_inputs(es, j, n).len(),
        forall|i: int| 0 <= i < es.len() ==> #[trigger] add_inputs(es, j, n)[i] == es[i],
    decreases n,
{
    if n > 0 {
        inputs_add(es, base, j, n - 1);
        outputs_add(add_inputs(es, j, n - 1), base, j, n - 1, j.outputs.len() as int);
    }
}

proof fn jobs_add(es: Seq<EdgeView>, jobs: Seq<JobView>, n: int, k: int)
    requires
        0 <= n <= jobs.len(),
        es.len() <= k < derived_edges(es, jobs, n).len(),
    ensures
        es.len() <= derived_edges(es, jobs, n).len(),
        is_first_pair(derived_edges(es, jobs, n), k),
        exists|m: int|
            0 <= m < n && is_added_by(derived_edges(es, jobs, n)[k], #[trigger] jobs[m]),
    decreases n,
{
    if n > 0 {
        let prev = derived_edges(es, jobs, n - 1);
        let r = derived_edges(es, jobs, n);
        let j = jobs[n - 1];
        inputs_add(prev, prev.len() as int, j, j.inputs.len() as int);
        if k < prev.len() {
            jobs_add(es, jobs, n - 1, k);
            assert(r[k] == prev[k]);
            assert forall|i: int| 0 <= i < k implies !((#[trigger] r[i]).from == r[k].from
                && r[i].to == r[k].to) by {
                assert(r[i] == prev[i]);
            }
            let m = choose|m: int| 0 <= m < n - 1 && is_added_by(prev[k], #[trigger] jobs[m]);
            assert(is_added_by(r[k], jobs[m]));
        } else {
            assert(is_added_by(r[k], jobs[n - 1]));
        }
    }
}

/// Each edge that derivation adds comes from a job, between one of its inputs
/// and one of its outputs, and no edge before it joins the same datasets.
pub proof fn derived_edges_come_from_jobs(d: DocumentView, k: int)
    requires
        d.edges.len() <= k < with_job_edges(d).len(),
    ensures
        is_first_pair(with_job_edges(d), k),
        exists|m: int|
            0 <= m < d.jobs.len() && is_added_by(with_job_edges(d)[k], #[trigger] d.jobs[m]),
{
    jobs_add(d.edges, d.jobs, d.jobs.len() as int, k);
}

/// Of two origins one is taken: a declared one before an inferred one, and of
/// two inferred ones none that the other exceeds.
pub proof fn merged_origin_is_the_surer(a: OriginView, b: OriginView)
    ensures
        merged_origin(a, b) == a || merged_origin(a, b) == b,
        a.source == OriginSource::Declared ==> merged_origin(a, b) == a,
        a.source != OriginSource::Declared && b.source == OriginSource::Declared ==> merged_origin(
            a,
            b,
        ) == b,
        a.source != OriginSource::Declared && b.source != OriginSource::Declared && a.confidence
            is Some && b.confidence is Some ==> {
            &&& a.confidence->0.exceeds(b.confidence->0) ==> merged_origin(a, b) == a
            &&& b.confidence->0.exceeds(a.confidence->0) ==> merged_origin(a, b) == b
        },
{
}

} // verus!

//! The graph of a document: edges derived from jobs, neighbours, and an order
//! of the edges that respects dependencies.

use vstd::prelude::*;

use crate::model::{
    new_edge, DocumentView, Edge, EdgeView, Job, JobView, Transform, TransformView, WeaveDocument,
};
use crate::origin::{Confidence, Origin, OriginView};
use crate::text::{
    group_views, opt_text, replicate_opt, str_eq, str_lt, text_lt, text_lt_irreflexive,
    text_lt_total, text_lt_transitive, views, Replicate,
};

verus! {

// ─────────────────────────────── derivation ───────────────────────────

/// True when an edge leads from `from` to `to`.
pub open spec fn has_pair(es: Seq<EdgeView>, from: Seq<char>, to: Seq<char>) -> bool {
    exists|i: int| 0 <= i < es.len() && (#[trigger] es[i]).from == from && es[i].to == to
}

/// The edge of a job between two of its datasets.
pub open spec fn job_edge(j: JobView, from: Seq<char>, to: Seq<char>) -> EdgeView {
    EdgeView {
        job: Some(j.id),
        transform: TransformView { kind: None, description: j.description, sql: j.sql },
        origin: j.origin,
        ..new_edge(from, to)
    }
}

/// The edges with the one of a job added, unless the pair is there. An edge
/// from a dataset to itself is only made of a declared job.
pub open spec fn add_pair(es: Seq<EdgeView>, j: JobView, from: Seq<char>, to: Seq<char>) -> Seq<EdgeView> {
    if (from == to && j.origin.inferred()) || has_pair(es, from, to) {
        es
    } else {
        es.push(job_edge(j, from, to))
    }
}

/// The edges after the pairs of one input with the first `n` outputs.
pub open spec fn add_outputs(es: Seq<EdgeView>, j: JobView, from: Seq<char>, n: int) -> Seq<EdgeView>
    decreases n,
{
    if n <= 0 {
        es
    } else {
        add_pair(add_outputs(es, j, from, n - 1), j, from, j.outputs[n - 1])
    }
}

/// The edges after the pairs of the first `n` inputs of a job.
pub open spec fn add_inputs(es: Seq<EdgeView>, j: JobView, n: int) -> Seq<EdgeView>
    decreases n,
{
    if n <= 0 {
        es
    } else {
        add_outputs(add_inputs(es, j, n - 1), j, j.inputs[n - 1], j.outputs.len() as int)
    }
}

/// The edges after the pairs of the first `n` jobs.
pub open spec fn derived_edges(es: Seq<EdgeView>, jobs: Seq<JobView>, n: int) -> Seq<EdgeView>
    decreases n,
{
    if n <= 0 {
        es
    } else {
        add_inputs(
            derived_edges(es, jobs, n - 1),
            jobs[n - 1],
            jobs[n - 1].inputs.len() as int,
        )
    }
}

/// The edges of a document after those of its jobs were added.
pub open spec fn with_job_edges(d: DocumentView) -> Seq<EdgeView> {
    derived_edges(d.edges, d.jobs, d.jobs.len() as int)
}

fn pair_exists(es: &Vec<Edge>, from: &str, to: &str) -> (r: bool)
    ensures
        r == has_pair(views(es@), from@, to@),
{
    let ghost ev = views(es@);
    let mut i: usize = 0;
    while i < es.len()
        invariant
            i <= es@.len(),
            ev == views(es@),
            forall|k: int| 0 <= k < i ==> !((#[trigger] ev[k]).from == from@ && ev[k].to == to@),
        decreases es@.len() - i,
    {
        if str_eq(es[i].from.as_str(), from) && str_eq(es[i].to.as_str(), to) {
            assert(ev[i as int].from == from@ && ev[i as int].to == to@);
            return true;
        }
        i = i + 1;
    }
    false
}

fn push_job_edges(es: &mut Vec<Edge>, j: &Job)
    ensures
        views(final(es)@) == add_inputs(views(old(es)@), j@, j@.inputs.len() as int),
        final(es)@.len() >= old(es)@.len(),
{
    let ghost start = views(es@);
    let ghost size = es@.len();
    let mut i: usize = 0;
    while i < j.inputs.len()
        invariant
            i <= j.inputs@.len(),
            es@.len() >= size,
            views(es@) == add_inputs(start, j@, i as int),
        decreases j.inputs@.len() - i,
    {
        let ghost before = views(es@);
        let from = j.inputs[i].as_str();
        assert(j@.inputs[i as int] == from@);
        let mut k: usize = 0;
        while k < j.outputs.len()
            invariant
                k <= j.outputs@.len(),
                es@.len() >= size,
                views(es@) == add_outputs(before, j@, from@, k as int),
            decreases j.outputs@.len() - k,
        {
            broadcast use group_views;

            let to = j.outputs[k].as_str();
            assert(j@.outputs[k as int] == to@);
            let noise = str_eq(from, to) && j.origin.is_inferred();
            if !noise && !pair_exists(es, from, to) {
                let mut e = Edge::new(from, to);
                e.job = Some(j.id.clone());
                e.transform = Transform {
                    kind: None,
                    description: replicate_opt(&j.description),
                    sql: replicate_opt(&j.sql),
                };
                e.origin = j.origin.replicate();
                assert(e@ == job_edge(j@, from@, to@));
                es.push(e);
            }
            k = k + 1;
        }
        i = i + 1;
    }
}

impl WeaveDocument {
    /// Adds an edge for each pair of an input and an output of a job that has
    /// none, and says how many were added.
    pub fn derive_edges_from_jobs(&mut self) -> (n: usize)
        ensures
            final(self)@ == (DocumentView { edges: with_job_edges(old(self)@), ..old(self)@ }),
            n == final(self)@.edges.len() - old(self)@.edges.len(),
    {
        let ghost start = self@;
        let before: usize = self.edges.len();
        let mut i: usize = 0;
        while i < self.jobs.len()
            invariant
                i <= self.jobs@.len(),
                before <= self.edges@.len(),
                self@ == (DocumentView {
                    edges: derived_edges(start.edges, start.jobs, i as int),
                    ..start
                }),
            decreases self.jobs@.len() - i,
        {
            assert(start.jobs[i as int] == self.jobs@[i as int]@);
            push_job_edges(&mut self.edges, &self.jobs[i]);
            i = i + 1;
        }
        self.edges.len() - before
    }
}

// ─────────────────────────────── neighbours ───────────────────────────

/// The sources of the edges among the first `n` that lead to `target`.
pub open spec fn upstream(es: Seq<EdgeView>, target: Seq<char>, n: int) -> Seq<Seq<char>>
    decreases n,
{
    if n <= 0 {
        Seq::empty()
    } else if es[n - 1].to == target {
        upstream(es, target, n - 1).push(es[n - 1].from)
    } else {
        upstream(es, target, n - 1)
    }
}

/// The targets of the edges among the first `n` that leave `source`.
pub open spec fn downstream(es: Seq<EdgeView>, source: Seq<char>, n: int) -> Seq<Seq<char>>
    decreases n,
{
    if n <= 0 {
        Seq::empty()
    } else if es[n - 1].from == source {
        downstream(es, source, n - 1).push(es[n - 1].to)
    } else {
        downstream(es, source, n - 1)
    }
}

impl WeaveDocument {
    /// The datasets that feed `target` directly, one for each edge.
    pub fn upstream_of<'a>(&'a self, target: &str) -> (r: Vec<&'a str>)
        ensures
            views(r@) == upstream(self@.edges, target@, self@.edges.len() as int),
    {
        broadcast use group_views;

        let ghost ev = self@.edges;
        let mut out: Vec<&'a str> = Vec::new();
        let mut i: usize = 0;
        while i < self.edges.len()
            invariant
                i <= self.edges@.len(),
                ev == views(self.edges@),
                views(out@) == upstream(ev, target@, i as int),
            decreases self.edges@.len() - i,
        {
            broadcast use group_views;

            if str_eq(self.edges[i].to.as_str(), target) {
                out.push(self.edges[i].from.as_str());
            }
            i = i + 1;
        }
        out
    }

    /// The datasets that `source` feeds directly, one for each edge.
    pub fn downstream_of<'a>(&'a self, source: &str) -> (r: Vec<&'a str>)
        ensures
            views(r@) == downstream(self@.edges, source@, self@.edges.len() as int),
    {
        broadcast use group_views;

        let ghost ev = self@.edges;
        let mut out: Vec<&'a str> = Vec::new();
        let mut i: usize = 0;
        while i < self.edges.len()
            invariant
                i <= self.edges@.len(),
                ev == views(self.edges@),
                views(out@) == downstream(ev, source@, i as int),
            decreases self.edges@.len() - i,
        {
            broadcast use group_views;

            if str_eq(self.edges[i].from.as_str(), source) {
                out.push(self.edges[i].to.as_str());
            }
            i = i + 1;
        }
        out
    }
}

// ───────────────────────────── dataset order ──────────────────────────

/// True when the dataset is on an edge.
pub open spec fn on_edge(es: Seq<EdgeView>, n: Seq<char>) -> bool {
    exists|i: int| 0 <= i < es.len() && ((#[trigger] es[i]).from == n || es[i].to == n)
}

/// True when the dataset is not placed yet, and everything that feeds it is.
pub open spec fn ready(es: Seq<EdgeView>, placed: Seq<Seq<char>>, n: Seq<char>) -> bool {
    &&& on_edge(es, n)
    &&& !placed.contains(n)
    &&& forall|i: int| 0 <= i < es.len() && (#[trigger] es[i]).to == n ==> placed.contains(es[i].from)
}

/// True when the dataset is the first by name of those that are ready.
pub open spec fn is_next(es: Seq<EdgeView>, placed: Seq<Seq<char>>, n: Seq<char>) -> bool {
    ready(es, placed, n) && forall|m: Seq<char>| #[trigger]
        ready(es, placed, m) ==> m == n || text_lt(n, m)
}

/// The datasets that can be placed in at most `k` steps, each step placing the
/// first that is ready.
pub open spec fn order_upto(es: Seq<EdgeView>, k: int) -> Seq<Seq<char>>
    decreases k,
{
    if k <= 0 {
        Seq::empty()
    } else {
        let placed = order_upto(es, k - 1);
        if exists|n: Seq<char>| is_next(es, placed, n) {
            placed.push(choose|n: Seq<char>| is_next(es, placed, n))
        } else {
            placed
        }
    }
}

/// The datasets in dependency order; those on or behind a cycle are missing.
pub open spec fn dataset_order(es: Seq<EdgeView>) -> Seq<Seq<char>> {
    order_upto(es, 2 * es.len() as int)
}

proof fn next_is_unique(es: Seq<EdgeView>, placed: Seq<Seq<char>>, a: Seq<char>, b: Seq<char>)
    requires
        is_next(es, placed, a),
        is_next(es, placed, b),
    ensures
        a == b,
{
    if a != b {
        text_lt_transitive(a, b, a);
        text_lt_irreflexive(a);
    }
}

fn placed_at(placed: &Vec<String>, n: &str) -> (r: bool)
    ensures
        r == views(placed@).contains(n@),
{
    let ghost pv = views(placed@);
    let mut i: usize = 0;
    while i < placed.len()
        invariant
            i <= placed@.len(),
            pv == views(placed@),
            forall|k: int| 0 <= k < i ==> pv[k] != n@,
        decreases placed@.len() - i,
    {
        if str_eq(placed[i].as_str(), n) {
            assert(pv[i as int] == n@);
            return true;
        }
        i = i + 1;
    }
    false
}

/// True when the dataset, which is on an edge, is ready.
fn is_ready(es: &Vec<Edge>, placed: &Vec<String>, n: &str) -> (r: bool)
    requires
        on_edge(views(es@), n@),
    ensures
        r == ready(views(es@), views(placed@), n@),
{
    if placed_at(placed, n) {
        return false;
    }
    let ghost ev = views(es@);
    let ghost pv = views(placed@);
    let mut i: usize = 0;
    while i < es.len()
        invariant
            i <= es@.len(),
            ev == views(es@),
            pv == views(placed@),
            forall|k: int| 0 <= k < i && (#[trigger] ev[k]).to == n@ ==> pv.contains(ev[k].from),
        decreases es@.len() - i,
    {
        if str_eq(es[i].to.as_str(), n) && !placed_at(placed, es[i].from.as_str()) {
            assert(ev[i as int].to == n@ && !pv.contains(ev[i as int].from));
            return false;
        }
        i = i + 1;
    }
    true
}

/// True when `a` is `b` or before it.
pub open spec fn text_le(a: Seq<char>, b: Seq<char>) -> bool {
    a == b || text_lt(a, b)
}

proof fn text_le_transitive(a: Seq<char>, b: Seq<char>, c: Seq<char>)
    requires
        text_le(a, b),
        text_le(b, c),
    ensures
        text_le(a, c),
{
    if a != b && b != c {
        text_lt_transitive(a, b, c);
    }
}

/// True when `best` is the first by name of the ready datasets on the first
/// `n` edges.
spec fn best_of(es: Seq<EdgeView>, placed: Seq<Seq<char>>, best: Option<Seq<char>>, n: int) -> bool {
    match best {
        Some(b) => ready(es, placed, b) && forall|i: int|
            0 <= i < n ==> (ready(es, placed, (#[trigger] es[i]).from) ==> text_le(b, es[i].from))
                && (ready(es, placed, es[i].to) ==> text_le(b, es[i].to)),
        None => forall|i: int|
            0 <= i < n ==> !ready(es, placed, (#[trigger] es[i]).from) && !ready(
                es,
                placed,
                es[i].to,
            ),
    }
}

/// The first by name of `best` and `n`.
fn first_of(best: Option<String>, n: &str) -> (r: String)
    ensures
        r@ == n@ || (best is Some && r@ == best->0@),
        text_le(r@, n@),
        best matches Some(b) ==> text_le(r@, b@),
{
    match best {
        Some(b) => {
            if str_lt(n, b.as_str()) {
                n.to_owned()
            } else {
                proof {
                    text_lt_total(n@, b@);
                }
                b
            }
        },
        None => n.to_owned(),
    }
}

proof fn best_kept(
    es: Seq<EdgeView>,
    placed: Seq<Seq<char>>,
    best: Option<Seq<char>>,
    next: Seq<char>,
    n: int,
)
    requires
        best_of(es, placed, best, n),
        ready(es, placed, next),
        best matches Some(b) ==> text_le(next, b),
    ensures
        best_of(es, placed, Some(next), n),
{
    if best is Some {
        assert forall|i: int| 0 <= i < n implies (ready(es, placed, (#[trigger] es[i]).from)
            ==> text_le(next, es[i].from)) && (ready(es, placed, es[i].to) ==> text_le(
            next,
            es[i].to,
        )) by {
            if ready(es, placed, es[i].from) {
                text_le_transitive(next, best->0, es[i].from);
            }
            if ready(es, placed, es[i].to) {
                text_le_transitive(next, best->0, es[i].to);
            }
        }
    }
}

/// The dataset to place next, if one is ready.
fn next_ready(es: &Vec<Edge>, placed: &Vec<String>) -> (r: Option<String>)
    ensures
        match r {
            Some(n) => is_next(views(es@), views(placed@), n@),
            None => forall|n: Seq<char>| !#[trigger] ready(views(es@), views(placed@), n),
        },
{
    let ghost ev = views(es@);
    let ghost pv = views(placed@);
    let mut best: Option<String> = None;
    let mut i: usize = 0;
    while i < es.len()
        invariant
            i <= es@.len(),
            ev == views(es@),
            pv == views(placed@),
            best_of(ev, pv, opt_text(best), i as int),
        decreases es@.len() - i,
    {
        assert(on_edge(ev, ev[i as int].from) && on_edge(ev, ev[i as int].to));
        let from = es[i].from.as_str();
        let ghost b0 = opt_text(best);
        if is_ready(es, placed, from) {
            best = Some(first_of(best, from));
            proof {
                best_kept(ev, pv, b0, best->0@, i as int);
            }
        }
        let to = es[i].to.as_str();
        let ghost b1 = opt_text(best);
        if is_ready(es, placed, to) {
            best = Some(first_of(best, to));
            proof {
                best_kept(ev, pv, b1, best->0@, i as int);
                if ready(ev, pv, ev[i as int].from) {
                    text_le_transitive(best->0@, b1->0, ev[i as int].from);
                }
            }
        }
        i = i + 1;
    }
    proof {
        if best is Some {
            let n = best->0@;
            assert forall|m: Seq<char>| #[trigger] ready(ev, pv, m) implies m == n || text_lt(
                n,
                m,
            ) by {
                let k = choose|k: int|
                    0 <= k < ev.len() && ((#[trigger] ev[k]).from == m || ev[k].to == m);
                assert(text_le(n, m));
            }
        }
    }
    best
}

/// Once nothing is ready, further steps place nothing.
proof fn order_settles(es: Seq<EdgeView>, k: int, n: int)
    requires
        0 <= k <= n,
        forall|m: Seq<char>| !#[trigger] ready(es, order_upto(es, k), m),
    ensures
        order_upto(es, n) == order_upto(es, k),
    decreases n - k,
{
    if k < n {
        order_settles(es, k, n - 1);
    }
}

/// Everything placed is on an edge, and nothing is placed twice.
proof fn order_is_distinct(es: Seq<EdgeView>, k: int)
    ensures
        order_upto(es, k).no_duplicates(),
        forall|i: int|
            0 <= i < order_upto(es, k).len() ==> on_edge(es, #[trigger] order_upto(es, k)[i]),
        order_upto(es, k).len() <= if k <= 0 {
            0
        } else {
            k
        },
    decreases k,
{
    if k > 0 {
        order_is_distinct(es, k - 1);
        let placed = order_upto(es, k - 1);
        if exists|n: Seq<char>| is_next(es, placed, n) {
            let n = choose|n: Seq<char>| is_next(es, placed, n);
            assert(ready(es, placed, n));
        }
    }
}

/// Places the datasets in dependency order.
fn place_datasets(es: &Vec<Edge>) -> (r: Vec<String>)
    ensures
        views(r@) == dataset_order(views(es@)),
{
    broadcast use group_views;

    let ghost ev = views(es@);
    let mut placed: Vec<String> = Vec::new();
    let mut step: usize = 0;
    while step < es.len()
        invariant
            step <= es@.len(),
            ev == views(es@),
            views(placed@) == order_upto(ev, 2 * step as int),
        decreases es@.len() - step,
    {
        broadcast use group_views;

        let ghost p0 = views(placed@);
        match next_ready(es, &placed) {
            Some(n) => {
                proof {
                    let c = choose|c: Seq<char>| is_next(ev, p0, c);
                    next_is_unique(ev, p0, c, n@);
                }
                placed.push(n);
            },
            None => {
                proof {
                    order_settles(ev, 2 * step as int, 2 * ev.len() as int);
                }
                return placed;
            },
        }
        let ghost p1 = views(placed@);
        assert(p1 == order_upto(ev, 2 * step as int + 1));
        match next_ready(es, &placed) {
            Some(n) => {
                proof {
                    let c = choose|c: Seq<char>| is_next(ev, p1, c);
                    next_is_unique(ev, p1, c, n@);
                }
                placed.push(n);
            },
            None => {
                proof {
                    order_settles(ev, 2 * step as int + 1, 2 * ev.len() as int);
                }
                return placed;
            },
        }
        assert(views(placed@) == order_upto(ev, 2 * step as int + 2));
        step = step + 1;
    }
    placed
}

// ──────────────────────────────── edge order ──────────────────────────

/// The position of a dataset in the order; past every position for one that
/// is not in it.
pub open spec fn rank(order: Seq<Seq<char>>, n: Seq<char>, k: int) -> int
    decreases order.len() - k,
{
    if k >= order.len() {
        usize::MAX as int
    } else if order[k] == n {
        k
    } else {
        rank(order, n, k + 1)
    }
}

/// True when edge `a` comes before edge `b`: by the position of the source,
/// then of the target, then by their names.
pub open spec fn edge_before(order: Seq<Seq<char>>, a: EdgeView, b: EdgeView) -> bool {
    let (af, bf) = (rank(order, a.from, 0), rank(order, b.from, 0));
    let (at, bt) = (rank(order, a.to, 0), rank(order, b.to, 0));
    if af != bf {
        af < bf
    } else if at != bt {
        at < bt
    } else if a.from != b.from {
        text_lt(a.from, b.from)
    } else {
        text_lt(a.to, b.to)
    }
}

/// The position at which `e` goes into the sorted edges: in front of the first
/// that it comes before.
pub open spec fn slot(order: Seq<Seq<char>>, es: Seq<EdgeView>, e: EdgeView, k: int) -> int
    decreases es.len() - k,
{
    if k >= es.len() {
        es.len() as int
    } else if edge_before(order, e, es[k]) {
        k
    } else {
        slot(order, es, e, k + 1)
    }
}

/// The first `n` edges, sorted; edges that are equal in the order keep theirs.
pub open spec fn sorted_edges(order: Seq<Seq<char>>, es: Seq<EdgeView>, n: int) -> Seq<EdgeView>
    decreases n,
{
    if n <= 0 {
        Seq::empty()
    } else {
        let s = sorted_edges(order, es, n - 1);
        s.insert(slot(order, s, es[n - 1], 0), es[n - 1])
    }
}

/// The edges in dependency order.
pub open spec fn topo_edges(es: Seq<EdgeView>) -> Seq<EdgeView> {
    sorted_edges(dataset_order(es), es, es.len() as int)
}

fn rank_of(order: &Vec<String>, n: &str) -> (r: usize)
    ensures
        r == rank(views(order@), n@, 0),
{
    let ghost ov = views(order@);
    let mut i: usize = 0;
    while i < order.len()
        invariant
            i <= order@.len(),
            ov == views(order@),
            rank(ov, n@, 0) == rank(ov, n@, i as int),
        decreases order@.len() - i,
    {
        assert(ov[i as int] == order@[i as int]@);
        if str_eq(order[i].as_str(), n) {
            return i;
        }
        i = i + 1;
    }
    usize::MAX
}

fn is_before(order: &Vec<String>, a: &Edge, b: &Edge) -> (r: bool)
    ensures
        r == edge_before(views(order@), a@, b@),
{
    let af: usize = rank_of(order, a.from.as_str());
    let bf: usize = rank_of(order, b.from.as_str());
    if af != bf {
        return af < bf;
    }
    let at: usize = rank_of(order, a.to.as_str());
    let bt: usize = rank_of(order, b.to.as_str());
    if at != bt {
        return at < bt;
    }
    if !str_eq(a.from.as_str(), b.from.as_str()) {
        return str_lt(a.from.as_str(), b.from.as_str());
    }
    str_lt(a.to.as_str(), b.to.as_str())
}

fn slot_of(order: &Vec<String>, es: &Vec<&Edge>, e: &Edge) -> (r: usize)
    ensures
        r == slot(views(order@), views(es@), e@, 0),
        r <= es@.len(),
{
    let ghost ev = views(es@);
    let mut i: usize = 0;
    while i < es.len()
        invariant
            i <= es@.len(),
            ev == views(es@),
            slot(views(order@), ev, e@, 0) == slot(views(order@), ev, e@, i as int),
        decreases es@.len() - i,
    {
        assert(ev[i as int] == es@[i as int]@);
        if is_before(order, e, es[i]) {
            return i;
        }
        i = i + 1;
    }
    i
}

impl WeaveDocument {
    /// The edges in an order that respects dependencies and does not depend on
    /// anything but the edges.
    pub fn edges_in_topo_order<'a>(&'a self) -> (r: Vec<&'a Edge>)
        ensures
            views(r@) == topo_edges(self@.edges),
    {
        broadcast use group_views;

        let ghost ev = self@.edges;
        let order = place_datasets(&self.edges);
        let ghost ov = views(order@);
        let mut out: Vec<&'a Edge> = Vec::new();
        let mut i: usize = 0;
        while i < self.edges.len()
            invariant
                i <= self.edges@.len(),
                ev == views(self.edges@),
                ov == views(order@),
                views(out@) == sorted_edges(ov, ev, i as int),
            decreases self.edges@.len() - i,
        {
            let e = &self.edges[i];
            assert(ev[i as int] == e@);
            let at: usize = slot_of(&order, &out, e);
            let ghost before = out@;
            out.insert(at, e);
            assert(views(out@) =~= views(before).insert(at as int, e@));
            i = i + 1;
        }
        out
    }
}

// ──────────────────────────────── origins ─────────────────────────────

/// A confidence, zero where none is known.
pub open spec fn confidence_or_zero(c: Option<Confidence>) -> Confidence {
    match c {
        Some(c) => c,
        None => Confidence { bits: 0 },
    }
}

fn known_confidence(c: Option<Confidence>) -> (r: Confidence)
    ensures
        r == confidence_or_zero(c),
{
    match c {
        Some(c) => c,
        None => Confidence { bits: 0 },
    }
}

/// The origin of an element that two sources describe: a declared origin wins,
/// and of two inferences the more confident.
pub open spec fn merged_origin(a: OriginView, b: OriginView) -> OriginView {
    if !a.inferred() {
        a
    } else if !b.inferred() {
        b
    } else if confidence_or_zero(b.confidence).exceeds(confidence_or_zero(a.confidence)) {
        b
    } else {
        a
    }
}

/// Combines the origins of one element.
pub fn merge_origin(a: Origin, b: Origin) -> (r: Origin)
    ensures
        r@ == merged_origin(a@, b@),
{
    if !a.is_inferred() {
        a
    } else if !b.is_inferred() {
        b
    } else if known_confidence(b.confidence).greater_than(known_confidence(a.confidence)) {
        b
    } else {
        a
    }
}

// ──────────────────────────── laws of derivation ──────────────────────

/// True when the pair of an input and an output of the job is to have an edge.
pub open spec fn owed_pair(j: JobView, a: int, b: int) -> bool {
    &&& 0 <= a < j.inputs.len()
    &&& 0 <= b < j.outputs.len()
    &&& !(j.inputs[a] == j.outputs[b] && j.origin.inferred())
}

/// True when each pair that the job owes has an edge.
pub open spec fn job_covered(es: Seq<EdgeView>, j: JobView) -> bool {
    forall|a: int, b: int| #[trigger]
        owed_pair(j, a, b) ==> has_pair(es, j.inputs[a], j.outputs[b])
}

/// True when `es` begins with the edges of `base`.
pub open spec fn extends(es: Seq<EdgeView>, base: Seq<EdgeView>) -> bool {
    base.len() <= es.len() && es.subrange(0, base.len() as int) == base
}

proof fn extends_pairs(es: Seq<EdgeView>, base: Seq<EdgeView>)
    requires
        extends(es, base),
    ensures
        forall|f: Seq<char>, t: Seq<char>| #[trigger]
            has_pair(base, f, t) ==> has_pair(es, f, t),
{
    assert forall|f: Seq<char>, t: Seq<char>| #[trigger] has_pair(base, f, t) implies has_pair(
        es,
        f,
        t,
    ) by {
        let i = choose|i: int| 0 <= i < base.len() && (#[trigger] base[i]).from == f && base[i].to == t;
        assert(es.subrange(0, base.len() as int)[i] == es[i]);
        assert(es[i].from == f && es[i].to == t);
    }
}

proof fn extends_transitive(a: Seq<EdgeView>, b: Seq<EdgeView>, c: Seq<EdgeView>)
    requires
        extends(b, a),
        extends(c, b),
    ensures
        extends(c, a),
{
    assert(c.subrange(0, a.len() as int) =~= c.subrange(0, b.len() as int).subrange(
        0,
        a.len() as int,
    ));
}

proof fn add_pair_extends(es: Seq<EdgeView>, j: JobView, from: Seq<char>, to: Seq<char>)
    ensures
        extends(add_pair(es, j, from, to), es),
        !(from == to && j.origin.inferred()) ==> has_pair(add_pair(es, j, from, to), from, to),
{
    let r = add_pair(es, j, from, to);
    assert(r.subrange(0, es.len() as int) =~= es);
    if r.len() > es.len() {
        assert(r[es.len() as int].from == from);
    }
}

proof fn add_outputs_extends(es: Seq<EdgeView>, j: JobView, from: Seq<char>, n: int)
    requires
        n <= j.outputs.len(),
    ensures
        extends(add_outputs(es, j, from, n), es),
        forall|b: int|
            0 <= b < n && !(from == #[trigger] j.outputs[b] && j.origin.inferred()) ==> has_pair(
                add_outputs(es, j, from, n),
                from,
                j.outputs[b],
            ),
    decreases n,
{
    if n <= 0 {
        assert(es.subrange(0, es.len() as int) =~= es);
    } else {
        add_outputs_extends(es, j, from, n - 1);
        let s = add_outputs(es, j, from, n - 1);
        add_pair_extends(s, j, from, j.outputs[n - 1]);
        extends_transitive(es, s, add_outputs(es, j, from, n));
        extends_pairs(add_outputs(es, j, from, n), s);
    }
}

proof fn add_inputs_extends(es: Seq<EdgeView>, j: JobView, n: int)
    requires
        n <= j.inputs.len(),
    ensures
        extends(add_inputs(es, j, n), es),
        forall|a: int, b: int| #[trigger]
            owed_pair(j, a, b) && a < n ==> has_pair(
                add_inputs(es, j, n),
                j.inputs[a],
                j.outputs[b],
            ),
    decreases n,
{
    if n <= 0 {
        assert(es.subrange(0, es.len() as int) =~= es);
    } else {
        add_inputs_extends(es, j, n - 1);
        let s = add_inputs(es, j, n - 1);
        add_outputs_extends(s, j, j.inputs[n - 1], j.outputs.len() as int);
        extends_transitive(es, s, add_inputs(es, j, n));
        extends_pairs(add_inputs(es, j, n), s);
        assert forall|a: int, b: int| #[trigger] owed_pair(j, a, b) && a < n implies has_pair(
            add_inputs(es, j, n),
            j.inputs[a],
            j.outputs[b],
        ) by {
            if a < n - 1 {
                assert(has_pair(s, j.inputs[a], j.outputs[b]));
            }
        }
    }
}

/// Deriving edges keeps every edge that was there, unchanged and in its place,
/// and leaves each pair of an input and an output of a job with an edge.
pub proof fn derivation_covers_jobs(es: Seq<EdgeView>, jobs: Seq<JobView>, n: int)
    requires
        0 <= n <= jobs.len(),
    ensures
        extends(derived_edges(es, jobs, n), es),
        forall|k: int| 0 <= k < n ==> job_covered(derived_edges(es, jobs, n), #[trigger] jobs[k]),
    decreases n,
{
    if n <= 0 {
        assert(es.subrange(0, es.len() as int) =~= es);
    } else {
        derivation_covers_jobs(es, jobs, n - 1);
        let s = derived_edges(es, jobs, n - 1);
        let r = derived_edges(es, jobs, n);
        add_inputs_extends(s, jobs[n - 1], jobs[n - 1].inputs.len() as int);
        extends_transitive(es, s, r);
        extends_pairs(r, s);
        assert forall|k: int| 0 <= k < n implies job_covered(r, #[trigger] jobs[k]) by {
            if k < n - 1 {
                assert(job_covered(s, jobs[k]));
                assert forall|a: int, b: int| #[trigger] owed_pair(jobs[k], a, b) implies has_pair(
                    r,
                    jobs[k].inputs[a],
                    jobs[k].outputs[b],
                ) by {
                    assert(has_pair(s, jobs[k].inputs[a], jobs[k].outputs[b]));
                }
            }
        }
    }
}

proof fn covered_adds_nothing_outputs(es: Seq<EdgeView>, j: JobView, a: int, n: int)
    requires
        job_covered(es, j),
        0 <= a < j.inputs.len(),
        n <= j.outputs.len(),
    ensures
        add_outputs(es, j, j.inputs[a], n) == es,
    decreases n,
{
    if n > 0 {
        covered_adds_nothing_outputs(es, j, a, n - 1);
        if !(j.inputs[a] == j.outputs[n - 1] && j.origin.inferred()) {
            assert(owed_pair(j, a, n - 1));
        }
    }
}

proof fn covered_adds_nothing(es: Seq<EdgeView>, j: JobView, n: int)
    requires
        job_covered(es, j),
        n <= j.inputs.len(),
    ensures
        add_inputs(es, j, n) == es,
    decreases n,
{
    if n > 0 {
        covered_adds_nothing(es, j, n - 1);
        covered_adds_nothing_outputs(es, j, n - 1, j.outputs.len() as int);
    }
}

proof fn all_covered_adds_nothing(es: Seq<EdgeView>, jobs: Seq<JobView>, n: int)
    requires
        0 <= n <= jobs.len(),
        forall|k: int| 0 <= k < jobs.len() ==> job_covered(es, #[trigger] jobs[k]),
    ensures
        derived_edges(es, jobs, n) == es,
    decreases n,
{
    if n > 0 {
        all_covered_adds_nothing(es, jobs, n - 1);
        covered_adds_nothing(es, jobs[n - 1], jobs[n - 1].inputs.len() as int);
    }
}

/// Deriving edges a second time adds nothing.
pub proof fn derivation_is_idempotent(d: DocumentView)
    ensures
        with_job_edges(DocumentView { edges: with_job_edges(d), ..d }) == with_job_edges(d),
{
    derivation_covers_jobs(d.edges, d.jobs, d.jobs.len() as int);
    all_covered_adds_nothing(with_job_edges(d), d.jobs, d.jobs.len() as int);
}

// ───────────────────────────── laws of the order ──────────────────────

proof fn rank_bounds(order: Seq<Seq<char>>, n: Seq<char>, k: int)
    requires
        0 <= k <= order.len(),
        order.len() <= usize::MAX,
    ensures
        k <= rank(order, n, k) <= usize::MAX,
        rank(order, n, k) < order.len() ==> order[rank(order, n, k)] == n,
        rank(order, n, k) < order.len() || rank(order, n, k) == usize::MAX,
        forall|i: int| k <= i < order.len() && #[trigger] order[i] == n ==> rank(order, n, k) <= i,
    decreases order.len() - k,
{
    if k < order.len() && order[k] != n {
        rank_bounds(order, n, k + 1);
    }
}

/// Everything that feeds a placed dataset is placed before it.
proof fn placed_after_feeders(es: Seq<EdgeView>, k: int, at: int, e: int)
    requires
        0 <= at < order_upto(es, k).len(),
        0 <= e < es.len(),
        es[e].to == order_upto(es, k)[at],
    ensures
        exists|i: int| 0 <= i < at && #[trigger] order_upto(es, k)[i] == es[e].from,
    decreases k,
{
    let order = order_upto(es, k);
    let placed = order_upto(es, k - 1);
    if exists|n: Seq<char>| is_next(es, placed, n) {
        let n = choose|n: Seq<char>| is_next(es, placed, n);
        assert(ready(es, placed, n));
        if at < placed.len() {
            placed_after_feeders(es, k - 1, at, e);
            let i = choose|i: int| 0 <= i < at && #[trigger] placed[i] == es[e].from;
            assert(order[i] == es[e].from);
        } else {
            assert(placed.contains(es[e].from));
            let i = choose|i: int| 0 <= i < placed.len() && placed[i] == es[e].from;
            assert(order[i] == es[e].from);
        }
    } else {
        placed_after_feeders(es, k - 1, at, e);
    }
}

proof fn edge_before_irreflexive(order: Seq<Seq<char>>, a: EdgeView)
    ensures
        !edge_before(order, a, a),
{
    text_lt_irreflexive(a.to);
}

/// For edges, not coming before is transitive: the order is a total preorder.
proof fn edge_order_transitive(order: Seq<Seq<char>>, a: EdgeView, b: EdgeView, c: EdgeView)
    requires
        !edge_before(order, b, a),
        !edge_before(order, c, b),
    ensures
        !edge_before(order, c, a),
{
    if edge_before(order, c, a) {
        text_lt_total(a.from, b.from);
        text_lt_total(b.from, c.from);
        text_lt_total(a.to, b.to);
        text_lt_total(b.to, c.to);
        if a.from != c.from {
            text_lt_total(a.from, c.from);
            if text_lt(a.from, b.from) && text_lt(b.from, c.from) {
                text_lt_transitive(a.from, b.from, c.from);
            }
            if text_lt(a.from, c.from) && text_lt(c.from, a.from) {
                text_lt_transitive(a.from, c.from, a.from);
                text_lt_irreflexive(a.from);
            }
            if text_lt(a.from, b.from) && text_lt(b.from, a.from) {
                text_lt_transitive(a.from, b.from, a.from);
                text_lt_irreflexive(a.from);
            }
        }
        if a.from == c.from && a.from != b.from && text_lt(a.from, b.from) && text_lt(
            b.from,
            a.from,
        ) {
            text_lt_transitive(a.from, b.from, a.from);
            text_lt_irreflexive(a.from);
        }
        if text_lt(a.to, b.to) && text_lt(b.to, c.to) {
            text_lt_transitive(a.to, b.to, c.to);
        }
        if text_lt(a.to, c.to) && text_lt(c.to, a.to) {
            text_lt_transitive(a.to, c.to, a.to);
            text_lt_irreflexive(a.to);
        }
        if text_lt(a.to, b.to) && text_lt(b.to, a.to) {
            text_lt_transitive(a.to, b.to, a.to);
            text_lt_irreflexive(a.to);
        }
    }
}

/// True when no edge comes before one that stands in front of it.
pub open spec fn in_order(order: Seq<Seq<char>>, es: Seq<EdgeView>) -> bool {
    forall|i: int, j: int|
        0 <= i < j < es.len() ==> !edge_before(order, #[trigger] es[j], #[trigger] es[i])
}

proof fn slot_bounds(order: Seq<Seq<char>>, es: Seq<EdgeView>, e: EdgeView, k: int)
    requires
        0 <= k <= es.len(),
    ensures
        k <= slot(order, es, e, k) <= es.len(),
        slot(order, es, e, k) < es.len() ==> edge_before(order, e, es[slot(order, es, e, k)]),
        forall|i: int|
            k <= i < slot(order, es, e, k) ==> !edge_before(order, e, #[trigger] es[i]),
    decreases es.len() - k,
{
    if k < es.len() && !edge_before(order, e, es[k]) {
        slot_bounds(order, es, e, k + 1);
    }
}

proof fn edge_before_asymmetric(order: Seq<Seq<char>>, a: EdgeView, b: EdgeView)
    requires
        edge_before(order, a, b),
    ensures
        !edge_before(order, b, a),
{
    if edge_before(order, b, a) {
        if a.from != b.from && text_lt(a.from, b.from) && text_lt(b.from, a.from) {
            text_lt_transitive(a.from, b.from, a.from);
            text_lt_irreflexive(a.from);
        }
        if text_lt(a.to, b.to) && text_lt(b.to, a.to) {
            text_lt_transitive(a.to, b.to, a.to);
            text_lt_irreflexive(a.to);
        }
    }
}

proof fn sorted_is_in_order(order: Seq<Seq<char>>, es: Seq<EdgeView>, n: int)
    requires
        0 <= n <= es.len(),
    ensures
        in_order(order, sorted_edges(order, es, n)),
        sorted_edges(order, es, n).len() == n,
        sorted_edges(order, es, n).to_multiset() =~= es.subrange(0, n).to_multiset(),
    decreases n,
{
    broadcast use vstd::seq_lib::group_to_multiset_ensures;

    if n <= 0 {
        assert(es.subrange(0, n) =~= Seq::<EdgeView>::empty());
    } else {
        sorted_is_in_order(order, es, n - 1);
        let s = sorted_edges(order, es, n - 1);
        let e = es[n - 1];
        let at = slot(order, s, e, 0);
        slot_bounds(order, s, e, 0);
        let r = sorted_edges(order, es, n);
        assert forall|i: int, j: int| 0 <= i < j < r.len() implies !edge_before(
            order,
            #[trigger] r[j],
            #[trigger] r[i],
        ) by {
            if j < at {
                assert(r[i] == s[i] && r[j] == s[j]);
            } else if j == at {
                assert(r[i] == s[i]);
            } else {
                assert(r[j] == s[j - 1]);
                edge_before_asymmetric(order, e, s[at]);
                if j - 1 > at {
                    edge_order_transitive(order, e, s[at], s[j - 1]);
                }
                if i < at {
                    assert(r[i] == s[i]);
                } else if i > at {
                    assert(r[i] == s[i - 1]);
                }
            }
        }
        assert(r.remove(at) =~= s);
        assert(r[at] == e);
        assert(r.contains(e));
        assert(r.to_multiset() =~= s.to_multiset().insert(e));
        assert(es.subrange(0, n) =~= es.subrange(0, n - 1).push(e));
    }
}

/// The order of the edges holds each edge as often as the document does, and
/// no edge stands behind one that it comes before.
pub proof fn topo_order_is_sorted_permutation(es: Seq<EdgeView>)
    ensures
        topo_edges(es).to_multiset() == es.to_multiset(),
        in_order(dataset_order(es), topo_edges(es)),
{
    sorted_is_in_order(dataset_order(es), es, es.len() as int);
    assert(es.subrange(0, es.len() as int) =~= es);
}

/// True when no two edges have the same source and target.
pub open spec fn pairs_distinct(es: Seq<EdgeView>) -> bool {
    forall|i: int, j: int|
        0 <= i < j < es.len() ==> !((#[trigger] es[i]).from == (#[trigger] es[j]).from && es[i].to
            == es[j].to)
}

/// True when both hold the same edges, each as often.
proof fn same_members(a: Seq<EdgeView>, b: Seq<EdgeView>)
    requires
        a.to_multiset() == b.to_multiset(),
    ensures
        a.len() == b.len(),
        forall|e: EdgeView| a.contains(e) == b.contains(e),
{
    broadcast use vstd::seq_lib::group_to_multiset_ensures;

    assert forall|e: EdgeView| a.contains(e) == b.contains(e) by {
        assert(a.contains(e) <==> a.to_multiset().count(e) > 0);
        assert(b.contains(e) <==> b.to_multiset().count(e) > 0);
    }
    a.to_multiset_ensures();
    b.to_multiset_ensures();
}

proof fn ready_alike(a: Seq<EdgeView>, b: Seq<EdgeView>, placed: Seq<Seq<char>>, n: Seq<char>)
    requires
        forall|e: EdgeView| a.contains(e) == b.contains(e),
        ready(a, placed, n),
    ensures
        ready(b, placed, n),
{
    let i = choose|i: int| 0 <= i < a.len() && ((#[trigger] a[i]).from == n || a[i].to == n);
    assert(b.contains(a[i]));
    let j = choose|j: int| 0 <= j < b.len() && b[j] == a[i];
    assert(b[j].from == n || b[j].to == n);
    assert forall|k: int| 0 <= k < b.len() && (#[trigger] b[k]).to == n implies placed.contains(
        b[k].from,
    ) by {
        assert(b.contains(b[k]));
        assert(a.contains(b[k]));
        let m = choose|m: int| 0 <= m < a.len() && a[m] == b[k];
        assert(a[m].to == n);
    }
}

proof fn next_alike(a: Seq<EdgeView>, b: Seq<EdgeView>, placed: Seq<Seq<char>>, n: Seq<char>)
    requires
        forall|e: EdgeView| a.contains(e) == b.contains(e),
        is_next(a, placed, n),
    ensures
        is_next(b, placed, n),
{
    ready_alike(a, b, placed, n);
    assert forall|m: Seq<char>| #[trigger] ready(b, placed, m) implies m == n || text_lt(n, m) by {
        ready_alike(b, a, placed, m);
    }
}

proof fn order_alike(a: Seq<EdgeView>, b: Seq<EdgeView>, k: int)
    requires
        forall|e: EdgeView| a.contains(e) == b.contains(e),
    ensures
        order_upto(a, k) == order_upto(b, k),
    decreases k,
{
    if k > 0 {
        order_alike(a, b, k - 1);
        let placed = order_upto(a, k - 1);
        if exists|n: Seq<char>| is_next(a, placed, n) {
            let n = choose|n: Seq<char>| is_next(a, placed, n);
            next_alike(a, b, placed, n);
            let m = choose|m: Seq<char>| is_next(b, placed, m);
            next_is_unique(b, placed, n, m);
        } else if exists|n: Seq<char>| is_next(b, placed, n) {
            let n = choose|n: Seq<char>| is_next(b, placed, n);
            next_alike(b, a, placed, n);
        }
    }
}

/// Edges with distinct pairs can be in order in one way only.
proof fn order_is_unique(order: Seq<Seq<char>>, a: Seq<EdgeView>, b: Seq<EdgeView>)
    requires
        a.to_multiset() == b.to_multiset(),
        in_order(order, a),
        in_order(order, b),
        pairs_distinct(a),
    ensures
        a == b,
    decreases a.len(),
{
    broadcast use vstd::seq_lib::group_to_multiset_ensures;

    same_members(a, b);
    if a.len() == 0 {
        assert(a =~= b);
    } else {
        let n = a.len() - 1;
        let x = a[n];
        let y = b[n];
        assert(a.contains(x) && b.contains(y));
        assert(b.contains(x) && a.contains(y));
        let j = choose|j: int| 0 <= j < b.len() && b[j] == x;
        let i = choose|i: int| 0 <= i < a.len() && a[i] == y;
        edge_before_irreflexive(order, x);
        edge_before_irreflexive(order, y);
        assert(!edge_before(order, x, y)) by {
            if i < n {
                assert(!edge_before(order, a[n], a[i]));
            }
        }
        assert(!edge_before(order, y, x)) by {
            if j < n {
                assert(!edge_before(order, b[n], b[j]));
            }
        }
        text_lt_total(x.from, y.from);
        text_lt_total(x.to, y.to);
        assert(x.from == y.from && x.to == y.to);
        assert(i == n);
        let a2 = a.drop_last();
        let b2 = b.drop_last();
        assert(a =~= a2.push(x));
        assert(b =~= b2.push(x));
        assert(a2.to_multiset().insert(x) == b2.to_multiset().insert(x));
        assert(a2.to_multiset() =~= a2.to_multiset().insert(x).remove(x));
        assert(b2.to_multiset() =~= b2.to_multiset().insert(x).remove(x));
        assert(in_order(order, a2)) by {
            assert forall|i: int, j: int| 0 <= i < j < a2.len() implies !edge_before(
                order,
                #[trigger] a2[j],
                #[trigger] a2[i],
            ) by {
                assert(a2[i] == a[i] && a2[j] == a[j]);
            }
        }
        assert(in_order(order, b2)) by {
            assert forall|i: int, j: int| 0 <= i < j < b2.len() implies !edge_before(
                order,
                #[trigger] b2[j],
                #[trigger] b2[i],
            ) by {
                assert(b2[i] == b[i] && b2[j] == b[j]);
            }
        }
        assert(pairs_distinct(a2)) by {
            assert forall|i: int, j: int| 0 <= i < j < a2.len() implies !((#[trigger] a2[i]).from
                == (#[trigger] a2[j]).from && a2[i].to == a2[j].to) by {
                assert(a2[i] == a[i] && a2[j] == a[j]);
            }
        }
        order_is_unique(order, a2, b2);
    }
}

proof fn members_distinct(a: Seq<EdgeView>, b: Seq<EdgeView>)
    requires
        a.to_multiset() == b.to_multiset(),
        pairs_distinct(a),
    ensures
        pairs_distinct(b),
{
    broadcast use vstd::seq_lib::group_to_multiset_ensures;

    same_members(a, b);
    assert forall|i: int, j: int| 0 <= i < j < b.len() implies !((#[trigger] b[i]).from == (
    #[trigger] b[j]).from && b[i].to == b[j].to) by {
        if b[i].from == b[j].from && b[i].to == b[j].to {
            assert(b.contains(b[i]) && b.contains(b[j]));
            assert(a.contains(b[i]) && a.contains(b[j]));
            let x = choose|x: int| 0 <= x < a.len() && a[x] == b[i];
            let y = choose|y: int| 0 <= y < a.len() && a[y] == b[j];
            assert(x == y);
            assert(b[i] == b[j]);
            assert(a.no_duplicates());
            a.lemma_multiset_has_no_duplicates();
            b.lemma_multiset_has_no_duplicates_conv();
        }
    }
}

/// The order of the edges does not depend on the order in which they were
/// added.
pub proof fn topo_order_ignores_insertion(a: Seq<EdgeView>, b: Seq<EdgeView>)
    requires
        a.to_multiset() == b.to_multiset(),
        pairs_distinct(a),
    ensures
        topo_edges(a) == topo_edges(b),
{
    same_members(a, b);
    order_alike(a, b, 2 * a.len() as int);
    topo_order_is_sorted_permutation(a);
    topo_order_is_sorted_permutation(b);
    members_distinct(a, topo_edges(a));
    order_is_unique(dataset_order(a), topo_edges(a), topo_edges(b));
}

/// An edge into a dataset stands in front of every edge out of it, unless the
/// dataset is on or behind a cycle and so has no place in the order.
pub proof fn topo_order_respects_dependencies(es: Seq<EdgeView>, i: int, j: int)
    requires
        2 * es.len() <= usize::MAX,
        0 <= i < topo_edges(es).len(),
        0 <= j < topo_edges(es).len(),
        topo_edges(es)[i].to == topo_edges(es)[j].from,
        dataset_order(es).contains(topo_edges(es)[j].from),
    ensures
        i < j,
{
    broadcast use vstd::seq_lib::group_to_multiset_ensures;

    let order = dataset_order(es);
    let t = topo_edges(es);
    let n = t[j].from;
    topo_order_is_sorted_permutation(es);
    order_is_distinct(es, 2 * es.len() as int);
    assert(t.to_multiset().contains(t[i]));
    assert(es.to_multiset().contains(t[i]));
    let e = choose|e: int| 0 <= e < es.len() && es[e] == t[i];
    let at = choose|at: int| 0 <= at < order.len() && order[at] == n;
    rank_bounds(order, n, 0);
    let r = rank(order, n, 0);
    placed_after_feeders(es, 2 * es.len() as int, r, e);
    let f = choose|f: int| 0 <= f < r && #[trigger] order[f] == es[e].from;
    rank_bounds(order, t[i].from, 0);
    assert(rank(order, t[i].from, 0) < rank(order, t[j].from, 0));
    assert(edge_before(order, t[i], t[j]));
    edge_before_irreflexive(order, t[i]);
}

/// The datasets on the edges, those of each edge one after the other.
spec fn endpoints(es: Seq<EdgeView>) -> Seq<Seq<char>> {
    Seq::new(
        2 * es.len(),
        |i: int|
            if i % 2 == 0 {
                es[i / 2].from
            } else {
                es[i / 2].to
            },
    )
}

proof fn order_fills(es: Seq<EdgeView>, k: int)
    requires
        0 <= k,
        exists|m: Seq<char>| #[trigger] ready(es, order_upto(es, k), m),
        next_exists(es),
    ensures
        order_upto(es, k).len() == k,
    decreases k,
{
    if k > 0 {
        if forall|m: Seq<char>| !#[trigger] ready(es, order_upto(es, k - 1), m) {
            order_settles(es, k - 1, k);
        } else {
            order_fills(es, k - 1);
            let placed = order_upto(es, k - 1);
            let m = choose|m: Seq<char>| #[trigger] ready(es, placed, m);
            assert(exists|n: Seq<char>| is_next(es, placed, n));
        }
    }
}

/// Whenever something is ready, one ready dataset is the first by name.
spec fn next_exists(es: Seq<EdgeView>) -> bool {
    forall|placed: Seq<Seq<char>>, m: Seq<char>| #[trigger]
        ready(es, placed, m) ==> exists|n: Seq<char>| is_next(es, placed, n)
}

proof fn some_best(es: Seq<EdgeView>, placed: Seq<Seq<char>>, n: int) -> (best: Option<Seq<char>>)
    requires
        0 <= n <= es.len(),
    ensures
        best_of(es, placed, best, n),
    decreases n,
{
    if n <= 0 {
        None
    } else {
        let b0 = some_best(es, placed, n - 1);
        let from = es[n - 1].from;
        let to = es[n - 1].to;
        let b1 = if ready(es, placed, from) && (b0 is None || text_lt(from, b0->0)) {
            Some(from)
        } else {
            b0
        };
        let b2 = if ready(es, placed, to) && (b1 is None || text_lt(to, b1->0)) {
            Some(to)
        } else {
            b1
        };
        if b1 is Some {
            best_kept(es, placed, b0, b1->0, n - 1);
        }
        if b2 is Some {
            best_kept(es, placed, b1, b2->0, n - 1);
        }
        if ready(es, placed, from) && b0 is Some {
            text_lt_total(from, b0->0);
        }
        if ready(es, placed, to) && b1 is Some {
            text_lt_total(to, b1->0);
        }
        if ready(es, placed, from) {
            text_le_transitive(b2->0, b1->0, from);
        }
        b2
    }
}

proof fn something_is_next(es: Seq<EdgeView>)
    ensures
        next_exists(es),
{
    assert forall|placed: Seq<Seq<char>>, m: Seq<char>| #[trigger]
        ready(es, placed, m) implies exists|n: Seq<char>| is_next(es, placed, n) by {
        let best = some_best(es, placed, es.len() as int);
        let k = choose|k: int| 0 <= k < es.len() && ((#[trigger] es[k]).from == m || es[k].to == m);
        assert(best is Some);
        let b = best->0;
        assert forall|x: Seq<char>| #[trigger] ready(es, placed, x) implies x == b || text_lt(
            b,
            x,
        ) by {
            let k = choose|k: int|
                0 <= k < es.len() && ((#[trigger] es[k]).from == x || es[k].to == x);
            assert(text_le(b, x));
        }
        assert(is_next(es, placed, b));
    }
}

/// A dataset without a place in the order is fed by another without one: only
/// what is on a cycle, or behind one, is left out.
pub proof fn unplaced_dataset_has_unplaced_feeder(es: Seq<EdgeView>, n: Seq<char>)
    requires
        on_edge(es, n),
        !dataset_order(es).contains(n),
    ensures
        exists|i: int|
            0 <= i < es.len() && (#[trigger] es[i]).to == n && !dataset_order(es).contains(
                es[i].from,
            ),
{
    let size = 2 * es.len() as int;
    let order = dataset_order(es);
    something_is_next(es);
    if ready(es, order, n) {
        order_fills(es, size);
        order_is_distinct(es, size);
        let more = order.push(n);
        let ends = endpoints(es);
        assert(more.no_duplicates());
        assert forall|x: Seq<char>| more.to_set().contains(x) implies ends.to_set().contains(x) by {
            let i = choose|i: int| 0 <= i < more.len() && more[i] == x;
            assert(on_edge(es, x));
            let k = choose|k: int| 0 <= k < es.len() && ((#[trigger] es[k]).from == x || es[k].to == x);
            if es[k].from == x {
                assert(ends[2 * k] == x);
            } else {
                assert(ends[2 * k + 1] == x);
            }
        }
        more.unique_seq_to_set();
        ends.lemma_cardinality_of_set();
        vstd::set_lib::lemma_len_subset(more.to_set(), ends.to_set());
    }
}

} // verus!

//! Ways to read a result: the members of an object, and the positions that a
//! list was chosen from.

use vstd::prelude::*;

use crate::json::{members_upto, object_of, JsonTree};
use crate::model::{dataset_index, dataset_index_bounds, has_dataset, DatasetView};

verus! {

/// The member of an object under a key.
pub open spec fn member(t: JsonTree, key: Seq<char>) -> Option<JsonTree> {
    if t is Object && t->Object_0.contains_key(key) {
        Some(t->Object_0[key])
    } else {
        None
    }
}

/// True when the object has the text under the key.
pub open spec fn says(t: JsonTree, key: Seq<char>, text: Seq<char>) -> bool {
    member(t, key) == Some(JsonTree::Text(text))
}

/// True when the object has the text under the key, or nothing where there is
/// no text.
pub open spec fn says_if_any(t: JsonTree, key: Seq<char>, text: Option<Seq<char>>) -> bool {
    match text {
        Some(x) => says(t, key, x),
        None => member(t, key) is None,
    }
}

/// The items of the list under a key; none where there is no list.
pub open spec fn items(t: JsonTree, key: Seq<char>) -> Seq<JsonTree> {
    match member(t, key) {
        Some(JsonTree::List(l)) => l,
        _ => Seq::empty(),
    }
}

/// True when the object has a list under the key.
pub open spec fn lists(t: JsonTree, key: Seq<char>) -> bool {
    member(t, key) matches Some(x) && x is List
}

/// True when no two entries have the same key.
pub open spec fn keys_differ(entries: Seq<(Seq<char>, JsonTree)>) -> bool {
    forall|i: int, j: int| 0 <= i < j < entries.len() ==> entries[i].0 != entries[j].0
}

/// True when entry `i` is the last with its key.
pub open spec fn last_with_key(entries: Seq<(Seq<char>, JsonTree)>, i: int) -> bool {
    0 <= i < entries.len() && forall|j: int|
        i < j < entries.len() ==> (#[trigger] entries[j]).0 != entries[i].0
}

proof fn members_read(entries: Seq<(Seq<char>, JsonTree)>, n: int)
    requires
        0 <= n <= entries.len(),
    ensures
        forall|i: int|
            0 <= i < n && (forall|j: int| i < j < n ==> (#[trigger] entries[j]).0 != entries[i].0)
                ==> members_upto(entries, n).contains_key((#[trigger] entries[i]).0)
                && members_upto(entries, n)[entries[i].0] == entries[i].1,
        forall|k: Seq<char>| #[trigger]
            members_upto(entries, n).contains_key(k) ==> exists|i: int|
                0 <= i < n && (#[trigger] entries[i]).0 == k,
    decreases n,
{
    if n > 0 {
        members_read(entries, n - 1);
        let prev = members_upto(entries, n - 1);
        let now = members_upto(entries, n);
        assert(now == prev.insert(entries[n - 1].0, entries[n - 1].1));
        assert forall|i: int|
            0 <= i < n && (forall|j: int|
                i < j < n ==> (#[trigger] entries[j]).0 != entries[i].0) implies now.contains_key(
            (#[trigger] entries[i]).0,
        ) && now[entries[i].0] == entries[i].1 by {
            if i < n - 1 {
                assert(entries[n - 1].0 != entries[i].0);
                assert(forall|j: int| i < j < n - 1 ==> (#[trigger] entries[j]).0 != entries[i].0);
            }
        }
        assert forall|k: Seq<char>| #[trigger] now.contains_key(k) implies exists|i: int|
            0 <= i < n && (#[trigger] entries[i]).0 == k by {
            if k == entries[n - 1].0 {
            } else {
                assert(prev.contains_key(k));
            }
        }
    }
}

/// An object has the last value of each of its keys, and no other member.
pub proof fn object_is_read_back(entries: Seq<(Seq<char>, JsonTree)>)
    ensures
        object_of(entries) is Object,
        forall|i: int|
            0 <= i < entries.len() && last_with_key(entries, i) ==> member(
                object_of(entries),
                (#[trigger] entries[i]).0,
            ) == Some(entries[i].1),
        forall|k: Seq<char>| #[trigger]
            member(object_of(entries), k) is Some ==> exists|i: int|
                0 <= i < entries.len() && (#[trigger] entries[i]).0 == k,
{
    members_read(entries, entries.len() as int);
    assert forall|k: Seq<char>| #[trigger] member(object_of(entries), k) is Some implies exists|
        i: int,
    | 0 <= i < entries.len() && (#[trigger] entries[i]).0 == k by {
        assert(members_upto(entries, entries.len() as int).contains_key(k));
    }
}

/// True when `chosen` lists, in order, the positions below `n` that satisfy
/// `keep`.
pub open spec fn lists_those(chosen: Seq<int>, n: int, keep: spec_fn(int) -> bool) -> bool {
    &&& forall|k: int| 0 <= k < chosen.len() ==> 0 <= #[trigger] chosen[k] < n && keep(chosen[k])
    &&& forall|k: int, l: int| 0 <= k < l < chosen.len() ==> chosen[k] < chosen[l]
    &&& forall|i: int| 0 <= i < n && #[trigger] keep(i) ==> chosen.contains(i)
}

/// The positions below `n` are those below `n - 1`, and the last where it is
/// chosen too.
pub(crate) proof fn one_more(chosen: Seq<int>, n: int, keep: spec_fn(int) -> bool) -> (r: Seq<int>)
    requires
        n > 0,
        lists_those(chosen, n - 1, keep),
    ensures
        lists_those(r, n, keep),
        keep(n - 1) ==> r == chosen.push(n - 1),
        !keep(n - 1) ==> r == chosen,
{
    if keep(n - 1) {
        let r = chosen.push(n - 1);
        assert forall|i: int| 0 <= i < n && #[trigger] keep(i) implies r.contains(i) by {
            if i == n - 1 {
                assert(r[chosen.len() as int] == i);
            } else {
                let k = choose|k: int| 0 <= k < chosen.len() && chosen[k] == i;
                assert(r[k] == i);
            }
        }
        r
    } else {
        chosen
    }
}

/// True when dataset `i` is the first with the name.
pub open spec fn is_dataset(ds: Seq<DatasetView>, i: int, name: Seq<char>) -> bool {
    &&& 0 <= i < ds.len()
    &&& ds[i].name == name
    &&& forall|j: int| 0 <= j < i ==> (#[trigger] ds[j]).name != name
}

/// True when no dataset has the name.
pub open spec fn lacks_dataset(ds: Seq<DatasetView>, name: Seq<char>) -> bool {
    forall|j: int| 0 <= j < ds.len() ==> (#[trigger] ds[j]).name != name
}

/// A dataset is found by its name exactly when there is one, and the first is.
pub proof fn first_dataset_is_found(ds: Seq<DatasetView>, name: Seq<char>)
    ensures
        has_dataset(ds, name) <==> !lacks_dataset(ds, name),
        has_dataset(ds, name) ==> is_dataset(ds, dataset_index(ds, name, 0), name),
        forall|i: int| #[trigger] is_dataset(ds, i, name) ==> i == dataset_index(ds, name, 0),
{
    dataset_index_bounds(ds, name, 0);
    let k = dataset_index(ds, name, 0);
    assert forall|i: int| #[trigger] is_dataset(ds, i, name) implies i == k by {
        if k < i {
            assert(ds[k].name != name);
        }
    }
}

/// What a list holds after an item was put behind it.
pub(crate) proof fn pushed_has<A>(s: Seq<A>, x: A, r: A)
    ensures
        s.push(x).contains(r) <==> s.contains(r) || r == x,
{
    let t = s.push(x);
    if s.contains(r) {
        let i = choose|i: int| 0 <= i < s.len() && s[i] == r;
        assert(t[i] == r);
    }
    if r == x {
        assert(t[s.len() as int] == r);
    }
}

/// What two lists hold, one behind the other.
pub(crate) proof fn joined_has<A>(s: Seq<A>, t: Seq<A>, r: A)
    ensures
        (s + t).contains(r) <==> s.contains(r) || t.contains(r),
{
    let u = s + t;
    if s.contains(r) {
        let i = choose|i: int| 0 <= i < s.len() && s[i] == r;
        assert(u[i] == r);
    }
    if t.contains(r) {
        let i = choose|i: int| 0 <= i < t.len() && t[i] == r;
        assert(u[s.len() + i] == r);
    }
}

} // verus!

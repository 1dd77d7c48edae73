//! Maps and sets keyed by text.

use vstd::prelude::*;

use crate::text::{
    push_new, replicate_vec, str_eq, str_lt, text_lt, text_lt_irreflexive, text_lt_total,
    text_lt_transitive, vec_push_new, views, Replicate,
};

verus! {

/// True when the keys of the entries ascend; each is there once.
spec fn keys_ascend<V>(entries: Seq<(String, V)>) -> bool {
    forall|i: int, j: int|
        0 <= i < j < entries.len() ==> text_lt(#[trigger] entries[i].0@, #[trigger] entries[j].0@)
}

/// The map of the first `n` entries.
spec fn map_upto<V: View>(entries: Seq<(String, V)>, n: int) -> Map<Seq<char>, V::V>
    decreases n,
{
    if n <= 0 {
        Map::empty()
    } else {
        map_upto(entries, n - 1).insert(entries[n - 1].0@, entries[n - 1].1@)
    }
}

/// The map has the keys of the entries, each with its value.
proof fn map_upto_holds<V: View>(entries: Seq<(String, V)>, n: int)
    requires
        0 <= n <= entries.len(),
        keys_ascend(entries),
    ensures
        forall|k: Seq<char>| #[trigger]
            map_upto(entries, n).contains_key(k) <==> exists|i: int|
                0 <= i < n && (#[trigger] entries[i]).0@ == k,
        forall|i: int|
            0 <= i < n ==> map_upto(entries, n)[(#[trigger] entries[i]).0@] == entries[i].1@,
    decreases n,
{
    if n > 0 {
        map_upto_holds(entries, n - 1);
        let m = map_upto(entries, n);
        assert forall|k: Seq<char>| #[trigger] m.contains_key(k) implies exists|i: int|
            0 <= i < n && (#[trigger] entries[i]).0@ == k by {
            if k == entries[n - 1].0@ {
                assert(entries[n - 1].0@ == k);
            } else {
                assert(map_upto(entries, n - 1).contains_key(k));
            }
        }
        assert forall|i: int| 0 <= i < n implies m[(#[trigger] entries[i]).0@] == entries[i].1@
            && m.contains_key(entries[i].0@) by {
            if i < n - 1 {
                assert(text_lt(entries[i].0@, entries[n - 1].0@));
                text_lt_irreflexive(entries[i].0@);
                assert(map_upto(entries, n - 1).contains_key(entries[i].0@));
            }
        }
    }
}

/// A map from texts to values. The entries are kept in the order of their
/// keys, so that maps with the same contents have the same entries.
#[derive(Debug, PartialEq)]
pub struct StrMap<V> {
    entries: Vec<(String, V)>,
}

impl<V: View> View for StrMap<V> {
    type V = Map<Seq<char>, V::V>;

    closed spec fn view(&self) -> Map<Seq<char>, V::V> {
        map_upto(self.entries@, self.entries@.len() as int)
    }
}

impl<V> StrMap<V> {
    #[verifier::type_invariant]
    spec fn in_order(&self) -> bool {
        keys_ascend(self.entries@)
    }
}

impl<V: View> StrMap<V> {
    pub fn new() -> (r: Self)
        ensures
            r@ == Map::<Seq<char>, V::V>::empty(),
    {
        StrMap { entries: Vec::new() }
    }

    pub fn insert(&mut self, key: String, value: V)
        ensures
            final(self)@ == old(self)@.insert(key@, value@),
    {
        proof {
            use_type_invariant(&*self);
        }
        let mut entries: Vec<(String, V)> = Vec::new();
        std::mem::swap(&mut entries, &mut self.entries);
        let ghost before = entries@;
        let mut at: usize = 0;
        while at < entries.len() && str_lt(entries[at].0.as_str(), key.as_str())
            invariant
                at <= entries@.len(),
                entries@ == before,
                forall|i: int| 0 <= i < at ==> text_lt((#[trigger] before[i]).0@, key@),
            decreases entries@.len() - at,
        {
            at = at + 1;
        }
        let ghost k = key@;
        let ghost v = value@;
        if at < entries.len() && str_eq(entries[at].0.as_str(), key.as_str()) {
            entries.set(at, (key, value));
        } else {
            proof {
                inserted_in_order(before, at as int, (key, value));
            }
            entries.insert(at, (key, value));
        }
        proof {
            let n = before.len() as int;
            map_upto_holds(before, n);
            map_upto_holds(entries@, entries@.len() as int);
            same_map(before, entries@, at as int, k, v);
        }
        self.entries = entries;
    }

    pub fn get(&self, key: &str) -> (r: Option<&V>)
        ensures
            match r {
                Some(v) => self@.contains_key(key@) && v@ == self@[key@],
                None => !self@.contains_key(key@),
            },
    {
        proof {
            use_type_invariant(self);
            map_upto_holds(self.entries@, self.entries@.len() as int);
        }
        let mut i: usize = 0;
        while i < self.entries.len()
            invariant
                i <= self.entries@.len(),
                forall|k: int| 0 <= k < i ==> (#[trigger] self.entries@[k]).0@ != key@,
            decreases self.entries@.len() - i,
        {
            if str_eq(self.entries[i].0.as_str(), key) {
                proof {
                    use_type_invariant(self);
                    map_upto_holds(self.entries@, self.entries@.len() as int);
                    assert(self.entries@[i as int].0@ == key@);
                }
                return Some(&self.entries[i].1);
            }
            i = i + 1;
        }
        None
    }

    pub fn contains_key(&self, key: &str) -> (r: bool)
        ensures
            r == self@.contains_key(key@),
    {
        self.get(key).is_some()
    }

    pub fn is_empty(&self) -> (r: bool)
        ensures
            r == (self@ == Map::<Seq<char>, V::V>::empty()),
    {
        if self.entries.len() > 0 {
            assert(self@.contains_key(self.entries@[self.entries@.len() - 1].0@));
            false
        } else {
            true
        }
    }
}

/// Entries stay in order when one goes between those before and those behind
/// its key.
proof fn inserted_in_order<V>(entries: Seq<(String, V)>, at: int, x: (String, V))
    requires
        0 <= at <= entries.len(),
        keys_ascend(entries),
        forall|i: int| 0 <= i < at ==> text_lt((#[trigger] entries[i]).0@, x.0@),
        at < entries.len() ==> !text_lt(entries[at].0@, x.0@) && entries[at].0@ != x.0@,
    ensures
        keys_ascend(entries.insert(at, x)),
{
    let r = entries.insert(at, x);
    entries.insert_ensures(at, x);
    assert forall|i: int, j: int| 0 <= i < j < r.len() implies text_lt(
        #[trigger] r[i].0@,
        #[trigger] r[j].0@,
    ) by {
        if i < at && j > at {
            assert(r[i] == entries[i] && r[j] == entries[j - 1]);
        } else if i < at && j < at {
            assert(r[i] == entries[i] && r[j] == entries[j]);
        } else if i > at {
            assert(r[i] == entries[i - 1] && r[j] == entries[j - 1]);
        } else if i == at {
            text_lt_total(x.0@, entries[at].0@);
            assert(r[j] == entries[j - 1]);
            if j - 1 > at {
                assert(text_lt(entries[at].0@, entries[j - 1].0@));
                text_lt_transitive(x.0@, entries[at].0@, entries[j - 1].0@);
            }
        } else {
            assert(r[i] == entries[i]);
        }
    }
}

/// The map after an entry was replaced or inserted.
proof fn same_map<V: View>(
    before: Seq<(String, V)>,
    after: Seq<(String, V)>,
    at: int,
    k: Seq<char>,
    v: V::V,
)
    requires
        0 <= at <= before.len(),
        keys_ascend(before),
        keys_ascend(after),
        at < after.len(),
        after[at].0@ == k,
        after[at].1@ == v,
        after == before.insert(at, after[at]) || (at < before.len() && before[at].0@ == k && after
            == before.update(at, after[at])),
    ensures
        map_upto(after, after.len() as int) == map_upto(before, before.len() as int).insert(k, v),
{
    map_upto_holds(before, before.len() as int);
    map_upto_holds(after, after.len() as int);
    let a = map_upto(before, before.len() as int).insert(k, v);
    let b = map_upto(after, after.len() as int);
    let grown = after.len() > before.len();
    if grown {
        before.insert_ensures(at, after[at]);
    }
    assert forall|x: Seq<char>| #[trigger] a.contains_key(x) == b.contains_key(x) && (
    b.contains_key(x) ==> a[x] == b[x]) by {
        if b.contains_key(x) {
            let i = choose|i: int| 0 <= i < after.len() && (#[trigger] after[i]).0@ == x;
            if i != at {
                if i < at {
                    assert(text_lt(after[i].0@, after[at].0@));
                } else {
                    assert(text_lt(after[at].0@, after[i].0@));
                }
                text_lt_irreflexive(k);
                let j = if grown && i > at {
                    i - 1
                } else {
                    i
                };
                assert(before[j] == after[i]);
                assert(before[j].0@ == x);
            }
        }
        if a.contains_key(x) && x != k {
            let j = choose|j: int| 0 <= j < before.len() && (#[trigger] before[j]).0@ == x;
            let i = if grown && j >= at {
                j + 1
            } else {
                j
            };
            assert(after[i] == before[j]);
            assert(after[i].0@ == x);
        }
        if x == k {
            assert(after[at].0@ == x);
        }
    }
    assert(a =~= b);
}

impl<V: Clone> Clone for StrMap<V> {
    fn clone(&self) -> (r: Self) {
        proof {
            use_type_invariant(self);
        }
        let ghost all = self.entries@;
        let mut out: Vec<(String, V)> = Vec::new();
        let mut i: usize = 0;
        while i < self.entries.len()
            invariant
                i <= self.entries@.len(),
                all == self.entries@,
                out@.len() == i,
                keys_ascend(all),
                forall|k: int| 0 <= k < i ==> (#[trigger] out@[k]).0@ == all[k].0@,
            decreases self.entries@.len() - i,
        {
            out.push((self.entries[i].0.clone(), self.entries[i].1.clone()));
            i = i + 1;
        }
        StrMap { entries: out }
    }
}

/// What a list holds after an item was added unless it was there.
pub proof fn push_new_holds<A>(s: Seq<A>, x: A)
    ensures
        forall|y: A| #[trigger] push_new(s, x).contains(y) == (s.contains(y) || y == x),
        s.no_duplicates() ==> push_new(s, x).no_duplicates(),
{
    let t = push_new(s, x);
    assert forall|y: A| #[trigger] t.contains(y) == (s.contains(y) || y == x) by {
        if s.contains(y) {
            let k = choose|k: int| 0 <= k < s.len() && s[k] == y;
            assert(t[k] == y);
        }
        if y == x && !s.contains(x) {
            assert(t[s.len() as int] == x);
        }
        if t.contains(y) && y != x {
            let k = choose|k: int| 0 <= k < t.len() && t[k] == y;
            assert(s[k] == y);
        }
    }
}

impl<V: View> StrMap<V> {
    /// The keys, each once.
    pub fn keys(&self) -> (r: Vec<String>)
        ensures
            views(r@).no_duplicates(),
            forall|k: Seq<char>| #[trigger] views(r@).contains(k) == self@.contains_key(k),
    {
        let mut out: Vec<String> = Vec::new();
        let mut i: usize = 0;
        while i < self.entries.len()
            invariant
                i <= self.entries@.len(),
                views(out@).no_duplicates(),
                forall|k: Seq<char>| #[trigger]
                    views(out@).contains(k) == map_upto(self.entries@, i as int).contains_key(k),
            decreases self.entries@.len() - i,
        {
            proof {
                push_new_holds(views(out@), self.entries@[i as int].0@);
            }
            vec_push_new(&mut out, self.entries[i].0.clone());
            i = i + 1;
        }
        out
    }
}

impl StrMap<String> {
    /// The same map once more.
    pub(crate) fn replicate(&self) -> (r: Self)
        ensures
            r@ == self@,
    {
        let mut out: StrMap<String> = StrMap { entries: Vec::new() };
        let mut i: usize = 0;
        while i < self.entries.len()
            invariant
                i <= self.entries@.len(),
                out@ == map_upto(self.entries@, i as int),
            decreases self.entries@.len() - i,
        {
            out.insert(self.entries[i].0.clone(), self.entries[i].1.clone());
            i = i + 1;
        }
        out
    }
}

/// A set of texts. They are kept in their order, so that sets with the same
/// contents hold the same list.
#[derive(Debug, PartialEq)]
pub struct StrSet {
    items: Vec<String>,
}

impl StrSet {
    #[verifier::type_invariant]
    spec fn in_order(&self) -> bool {
        ascending(views(self.items@))
    }
}

/// True when the texts ascend; each is there once.
pub open spec fn ascending(s: Seq<Seq<char>>) -> bool {
    forall|i: int, j: int| 0 <= i < j < s.len() ==> text_lt(#[trigger] s[i], #[trigger] s[j])
}

proof fn insert_ascends(s: Seq<Seq<char>>, at: int, x: Seq<char>)
    requires
        0 <= at <= s.len(),
        ascending(s),
        !s.contains(x),
        forall|i: int| 0 <= i < at ==> text_lt(#[trigger] s[i], x),
        at < s.len() ==> !text_lt(s[at], x),
    ensures
        ascending(s.insert(at, x)),
        forall|t: Seq<char>| #[trigger] s.insert(at, x).contains(t) == (s.contains(t) || t == x),
{
    let r = s.insert(at, x);
    s.insert_ensures(at, x);
    assert forall|i: int, j: int| 0 <= i < j < r.len() implies text_lt(
        #[trigger] r[i],
        #[trigger] r[j],
    ) by {
        if i == at {
            text_lt_total(x, s[at]);
            assert(r[j] == s[j - 1]);
            if j - 1 > at {
                text_lt_transitive(x, s[at], s[j - 1]);
            }
        } else if i > at {
            assert(r[i] == s[i - 1] && r[j] == s[j - 1]);
        } else if j > at {
            assert(r[i] == s[i] && r[j] == s[j - 1]);
        }
    }
    assert forall|t: Seq<char>| #[trigger] r.contains(t) == (s.contains(t) || t == x) by {
        if s.contains(t) {
            let k = choose|k: int| 0 <= k < s.len() && s[k] == t;
            assert(r[if k < at {
                k
            } else {
                k + 1
            }] == t);
        }
        assert(r[at] == x);
        if r.contains(t) && t != x {
            let k = choose|k: int| 0 <= k < r.len() && r[k] == t;
            assert(s[if k < at {
                k
            } else {
                k - 1
            }] == t);
        }
    }
}

impl View for StrSet {
    type V = Set<Seq<char>>;

    closed spec fn view(&self) -> Set<Seq<char>> {
        Set::new(|s: Seq<char>| views(self.items@).contains(s))
    }
}

impl StrSet {
    pub fn new() -> (r: Self)
        ensures
            r@ == Set::<Seq<char>>::empty(),
    {
        let r = StrSet { items: Vec::new() };
        assert(r@ =~= Set::<Seq<char>>::empty());
        r
    }

    pub fn contains(&self, s: &str) -> (r: bool)
        ensures
            r == self@.contains(s@),
    {
        let mut i: usize = 0;
        while i < self.items.len()
            invariant
                i <= self.items@.len(),
                forall|k: int| 0 <= k < i ==> views(self.items@)[k] != s@,
            decreases self.items@.len() - i,
        {
            if str_eq(self.items[i].as_str(), s) {
                assert(views(self.items@)[i as int] == s@);
                return true;
            }
            i = i + 1;
        }
        false
    }

    /// Adds `s`, and says whether it was new.
    pub fn insert(&mut self, s: String) -> (r: bool)
        ensures
            final(self)@ == old(self)@.insert(s@),
            r == !old(self)@.contains(s@),
    {
        if self.contains(s.as_str()) {
            assert(self@ =~= old(self)@.insert(s@));
            return false;
        }
        proof {
            use_type_invariant(&*self);
        }
        let mut items: Vec<String> = Vec::new();
        std::mem::swap(&mut items, &mut self.items);
        let ghost before = views(items@);
        let ghost added = s@;
        let mut at: usize = 0;
        while at < items.len() && str_lt(items[at].as_str(), s.as_str())
            invariant
                at <= items@.len(),
                before == views(items@),
                forall|i: int| 0 <= i < at ==> text_lt(#[trigger] before[i], s@),
            decreases items@.len() - at,
        {
            assert(before[at as int] == items@[at as int]@);
            at = at + 1;
        }
        proof {
            if at < items.len() {
                assert(before[at as int] == items@[at as int]@);
            }
            insert_ascends(before, at as int, added);
        }
        items.insert(at, s);
        assert(views(items@) =~= before.insert(at as int, added));
        self.items = items;
        assert(self@ =~= old(self)@.insert(added));
        true
    }
}

impl StrSet {
    pub fn is_empty(&self) -> (r: bool)
        ensures
            r == (self@ == Set::<Seq<char>>::empty()),
    {
        let r = self.items.len() == 0;
        proof {
            if r {
                assert(self@ =~= Set::<Seq<char>>::empty());
            } else {
                assert(views(self.items@)[0] == self.items@[0]@);
                assert(self@.contains(self.items@[0]@));
            }
        }
        r
    }

    /// The texts of the set.
    pub fn items(&self) -> (r: Vec<String>)
        ensures
            forall|t: Seq<char>| #[trigger] views(r@).contains(t) == self@.contains(t),
    {
        replicate_vec(&self.items)
    }

    /// Adds everything in `other`.
    pub fn extend_from(&mut self, other: &StrSet)
        ensures
            final(self)@ == old(self)@.union(other@),
    {
        let ghost start = self@;
        let mut i: usize = 0;
        while i < other.items.len()
            invariant
                i <= other.items@.len(),
                forall|t: Seq<char>| #[trigger]
                    self@.contains(t) == (start.contains(t) || exists|k: int|
                        0 <= k < i && views(other.items@)[k] == t),
            decreases other.items@.len() - i,
        {
            let ghost before = self@;
            let _fresh = self.insert(other.items[i].clone());
            proof {
                let added = views(other.items@)[i as int];
                assert forall|t: Seq<char>| #[trigger]
                    self@.contains(t) == (start.contains(t) || exists|k: int|
                        0 <= k < i + 1 && views(other.items@)[k] == t) by {
                    assert(self@.contains(t) == (before.contains(t) || t == added));
                    if before.contains(t) && !start.contains(t) {
                        let k = choose|k: int| 0 <= k < i && views(other.items@)[k] == t;
                        assert(0 <= k < i + 1 && views(other.items@)[k] == t);
                    }
                }
            }
            i = i + 1;
        }
        assert(self@ =~= start.union(other@));
    }
}

impl Replicate for StrSet {
    fn replicate(&self) -> (r: Self) {
        let mut out = StrSet::new();
        let mut i: usize = 0;
        while i < self.items.len()
            invariant
                i <= self.items@.len(),
                forall|t: Seq<char>|
                    out@.contains(t) == (exists|k: int| 0 <= k < i && views(self.items@)[k] == t),
            decreases self.items@.len() - i,
        {
            let ghost before = out@;
            let _fresh = out.insert(self.items[i].clone());
            proof {
                assert forall|t: Seq<char>|
                    out@.contains(t) == (exists|k: int|
                        0 <= k < i + 1 && views(self.items@)[k] == t) by {
                    assert(views(self.items@)[i as int] == self.items@[i as int]@);
                    if before.contains(t) {
                        let k = choose|k: int| 0 <= k < i && views(self.items@)[k] == t;
                        assert(0 <= k < i + 1 && views(self.items@)[k] == t);
                    }
                }
            }
            i = i + 1;
        }
        assert(out@ =~= self@);
        out
    }
}

impl Clone for StrSet {
    fn clone(&self) -> (r: Self)
        ensures
            r@ == self@,
    {
        self.replicate()
    }
}

} // verus!

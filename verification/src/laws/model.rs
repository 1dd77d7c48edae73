//! Datasets that two sources describe, and what becomes of them.

use vstd::prelude::*;

use crate::laws::reading::{first_dataset_is_found, is_dataset, lacks_dataset};
use crate::model::{
    add_field, has_field, merged_dataset, merged_schema, upserted, DatasetView, FieldView,
};
use crate::origin::OriginSource;

verus! {

/// True when field `k` is the first with its name.
pub open spec fn is_first_named(s: Seq<FieldView>, k: int) -> bool {
    0 <= k < s.len() && forall|j: int| 0 <= j < k ==> (#[trigger] s[j]).name != s[k].name
}

/// True when the field is the first of that name in the schema.
pub open spec fn is_field_of(f: FieldView, s: Seq<FieldView>) -> bool {
    exists|k: int| #[trigger] is_first_named(s, k) && s[k] == f
}

proof fn schema_grows(a: Seq<FieldView>, b: Seq<FieldView>, n: int)
    requires
        0 <= n <= b.len(),
    ensures
        a.len() <= merged_schema(a, b, n).len(),
        forall|i: int| 0 <= i < a.len() ==> #[trigger] merged_schema(a, b, n)[i] == a[i],
        forall|i: int|
            a.len() <= i < merged_schema(a, b, n).len() ==> is_field_of(
                #[trigger] merged_schema(a, b, n)[i],
                b,
            ) && !has_field(a, merged_schema(a, b, n)[i].name),
        forall|x: Seq<char>| #[trigger]
            has_field(merged_schema(a, b, n), x) <==> has_field(a, x) || has_upto(b, n, x),
    decreases n,
{
    if n > 0 {
        schema_grows(a, b, n - 1);
        let prev = merged_schema(a, b, n - 1);
        let now = merged_schema(a, b, n);
        let f = b[n - 1];
        assert(now == add_field(prev, f));
        if !has_field(prev, f.name) {
            assert(has_field(prev, f.name) <==> has_field(a, f.name) || has_upto(
                b,
                n - 1,
                f.name,
            ));
            assert(is_first_named(b, n - 1)) by {
                assert forall|j: int| 0 <= j < n - 1 implies (#[trigger] b[j]).name != f.name by {
                    if b[j].name == f.name {
                        assert(has_upto(b, n - 1, f.name));
                    }
                }
            }
            assert(is_field_of(f, b));
            assert forall|i: int| a.len() <= i < now.len() implies is_field_of(
                #[trigger] now[i],
                b,
            ) && !has_field(a, now[i].name) by {
                if i < prev.len() {
                    assert(now[i] == prev[i]);
                }
            }
        }
        assert forall|x: Seq<char>| #[trigger] has_field(now, x) <==> has_field(a, x) || has_upto(
            b,
            n,
            x,
        ) by {
            assert(has_field(prev, x) <==> has_field(a, x) || has_upto(b, n - 1, x));
            if has_field(prev, x) {
                let k = choose|k: int| 0 <= k < prev.len() && (#[trigger] prev[k]).name == x;
                assert(now[k].name == x);
            }
            if x == f.name && !has_field(prev, x) {
                assert(now[prev.len() as int].name == x);
            }
            if has_field(now, x) && x != f.name {
                let k = choose|k: int| 0 <= k < now.len() && (#[trigger] now[k]).name == x;
                assert(prev[k].name == x);
            }
            if has_upto(b, n - 1, x) {
                let k = choose|k: int| 0 <= k < n - 1 && (#[trigger] b[k]).name == x;
                assert(0 <= k < n && b[k].name == x);
            }
            if x == f.name {
                assert(b[n - 1].name == x);
            }
        }
    }
}

spec fn has_upto(b: Seq<FieldView>, n: int, x: Seq<char>) -> bool {
    exists|k: int| 0 <= k < n && (#[trigger] b[k]).name == x
}

/// Merging two datasets keeps what the first knows, adds what only the second
/// knows, and loses nothing: a column is in the merged schema exactly when one
/// of the two has it, the columns of the first in front and as they were.
pub proof fn merging_loses_nothing(a: DatasetView, b: DatasetView)
    ensures
        ({
            let m = merged_dataset(a, b);
            &&& m.name == a.name
            &&& m.namespace == if a.namespace is Some {
                a.namespace
            } else {
                b.namespace
            }
            &&& m.platform == if a.platform is Some {
                a.platform
            } else {
                b.platform
            }
            &&& m.fqn == if a.fqn is Some {
                a.fqn
            } else {
                b.fqn
            }
            &&& m.origin == if a.origin.source != OriginSource::Declared && b.origin.source
                == OriginSource::Declared {
                b.origin
            } else {
                a.origin
            }
            &&& a.schema.len() <= m.schema.len()
            &&& forall|i: int| 0 <= i < a.schema.len() ==> #[trigger] m.schema[i] == a.schema[i]
            &&& forall|i: int|
                a.schema.len() <= i < m.schema.len() ==> is_field_of(
                    #[trigger] m.schema[i],
                    b.schema,
                ) && !has_field(a.schema, m.schema[i].name)
            &&& forall|x: Seq<char>| #[trigger]
                has_field(m.schema, x) <==> has_field(a.schema, x) || has_field(b.schema, x)
        }),
{
    schema_grows(a.schema, b.schema, b.schema.len() as int);
    assert forall|x: Seq<char>| #[trigger] has_field(merged_dataset(a, b).schema, x) <==> has_field(
        a.schema,
        x,
    ) || has_field(b.schema, x) by {
        assert(has_upto(b.schema, b.schema.len() as int, x) <==> has_field(b.schema, x));
    }
}

/// A dataset is merged into the first with its name, and added behind the
/// others where there is none; no other dataset changes.
pub proof fn upsert_changes_one(ds: Seq<DatasetView>, d: DatasetView)
    ensures
        lacks_dataset(ds, d.name) ==> upserted(ds, d) == ds.push(d),
        forall|i: int| #[trigger]
            is_dataset(ds, i, d.name) ==> {
                &&& upserted(ds, d).len() == ds.len()
                &&& upserted(ds, d)[i] == merged_dataset(ds[i], d)
                &&& forall|j: int|
                    0 <= j < ds.len() && j != i ==> #[trigger] upserted(ds, d)[j] == ds[j]
            },
{
    first_dataset_is_found(ds, d.name);
}

} // verus!

//! Same-name inference: a column that nothing maps is assumed to come from the
//! column of the same name.

use vstd::prelude::*;

use crate::model::{
    has_field, schema_has, ColumnEdge, ColumnEdgeView, ColumnRef, ColumnRefView, Dataset,
    DatasetView, TransformType,
};
use crate::origin::{code_origin, Confidence, Origin, CODE_CONFIDENCE};
use crate::text::{group_views, str_eq, views};

verus! {

/// The first dataset from `k` on whose schema has the column.
pub open spec fn source_with_field(
    sources: Seq<DatasetView>,
    name: Seq<char>,
    k: int,
) -> Option<DatasetView>
    decreases sources.len() - k,
{
    if k >= sources.len() {
        None
    } else if has_field(sources[k].schema, name) {
        Some(sources[k])
    } else {
        source_with_field(sources, name, k + 1)
    }
}

/// The mapping of a column to the column of the same name.
pub open spec fn identity_mapping(source: Seq<char>, target: Seq<char>, column: Seq<char>) -> ColumnEdgeView {
    ColumnEdgeView {
        from_columns: seq![ColumnRefView { dataset: source, column }],
        to_column: ColumnRefView { dataset: target, column },
        function: Some("direct copy"@),
        transform_type: TransformType::Identity,
        origin: code_origin(Confidence { bits: CODE_CONFIDENCE }),
    }
}

/// The mappings for the first `n` columns of the target that are not mapped
/// and that a source has under the same name.
pub open spec fn identity_fill(
    sources: Seq<DatasetView>,
    target: DatasetView,
    mapped: Seq<Seq<char>>,
    n: int,
) -> Seq<ColumnEdgeView>
    decreases n,
{
    if n <= 0 {
        Seq::empty()
    } else {
        let s = identity_fill(sources, target, mapped, n - 1);
        let name = target.schema[n - 1].name;
        match source_with_field(sources, name, 0) {
            Some(src) => if mapped.contains(name) {
                s
            } else {
                s.push(identity_mapping(src.name, target.name, name))
            },
            None => s,
        }
    }
}

fn listed(names: &[String], name: &str) -> (r: bool)
    ensures
        r == views(names@).contains(name@),
{
    let ghost nv = views(names@);
    let mut i: usize = 0;
    while i < names.len()
        invariant
            i <= names@.len(),
            nv == views(names@),
            forall|k: int| 0 <= k < i ==> nv[k] != name@,
        decreases names@.len() - i,
    {
        assert(nv[i as int] == names@[i as int]@);
        if str_eq(names[i].as_str(), name) {
            return true;
        }
        i = i + 1;
    }
    false
}

fn source_having<'a>(sources: &[&'a Dataset], name: &str) -> (r: Option<&'a Dataset>)
    ensures
        crate::text::opt_view(r) == source_with_field(views(sources@), name@, 0),
{
    let ghost sv = views(sources@);
    let mut i: usize = 0;
    while i < sources.len()
        invariant
            i <= sources@.len(),
            sv == views(sources@),
            source_with_field(sv, name@, 0) == source_with_field(sv, name@, i as int),
        decreases sources@.len() - i,
    {
        let s = sources[i];
        assert(sv[i as int] == s@);
        if schema_has(&s.schema, name) {
            return Some(s);
        }
        i = i + 1;
    }
    None
}

/// Mappings for the columns of the target that are not mapped yet: each comes
/// from the first source that has a column of the same name.
pub fn infer_identity_gap_fill(
    sources: &[&Dataset],
    target: &Dataset,
    already_mapped: &[String],
) -> (r: Vec<ColumnEdge>)
    ensures
        views(r@) == identity_fill(
            views(sources@),
            target@,
            views(already_mapped@),
            target@.schema.len() as int,
        ),
{
    broadcast use group_views;

    let ghost sv = views(sources@);
    let ghost mv = views(already_mapped@);
    let mut out: Vec<ColumnEdge> = Vec::new();
    let mut i: usize = 0;
    while i < target.schema.len()
        invariant
            i <= target.schema@.len(),
            sv == views(sources@),
            mv == views(already_mapped@),
            views(out@) == identity_fill(sv, target@, mv, i as int),
        decreases target.schema@.len() - i,
    {
        broadcast use group_views;

        let name = target.schema[i].name.as_str();
        assert(target@.schema[i as int] == target.schema@[i as int]@);
        if !listed(already_mapped, name) {
            if let Some(src) = source_having(sources, name) {
                let mut from: Vec<ColumnRef> = Vec::new();
                from.push(ColumnRef::new(src.name.as_str(), name));
                let mut ce = ColumnEdge::new(from, ColumnRef::new(target.name.as_str(), name));
                ce.function = Some("direct copy".to_owned());
                ce.transform_type = TransformType::Identity;
                ce.origin = Origin::inferred_code(Confidence { bits: CODE_CONFIDENCE });
                assert(ce@ == identity_mapping(src@.name, target@.name, name@));
                out.push(ce);
            }
        }
        i = i + 1;
    }
    out
}

/// Same-name inference maps only columns that were not mapped, and only to
/// columns that a source has.
pub proof fn identity_fill_only_fills(
    sources: Seq<DatasetView>,
    target: DatasetView,
    mapped: Seq<Seq<char>>,
    n: int,
    i: int,
)
    requires
        0 <= i < identity_fill(sources, target, mapped, n).len(),
        n <= target.schema.len(),
    ensures
        ({
            let c = identity_fill(sources, target, mapped, n)[i];
            &&& !mapped.contains(c.to_column.column)
            &&& c.origin.inferred()
            &&& c.from_columns.len() == 1
            &&& c.from_columns[0].column == c.to_column.column
            &&& has_field(target.schema, c.to_column.column)
            &&& exists|k: int|
                0 <= k < sources.len() && (#[trigger] sources[k]).name == c.from_columns[0].dataset
                    && has_field(sources[k].schema, c.to_column.column)
        }),
    decreases n,
{
    let s = identity_fill(sources, target, mapped, n - 1);
    if i < s.len() {
        identity_fill_only_fills(sources, target, mapped, n - 1, i);
    } else {
        let name = target.schema[n - 1].name;
        source_field_found(sources, name, 0);
        assert(target.schema[n - 1].name == name);
    }
}

proof fn source_field_found(sources: Seq<DatasetView>, name: Seq<char>, k: int)
    requires
        0 <= k,
    ensures
        source_with_field(sources, name, k) matches Some(d) ==> exists|i: int|
            0 <= i < sources.len() && #[trigger] sources[i] == d && has_field(d.schema, name),
    decreases sources.len() - k,
{
    if k < sources.len() {
        if has_field(sources[k].schema, name) {
            assert(sources[k] == sources[k]);
        } else {
            source_field_found(sources, name, k + 1);
        }
    }
}

} // verus!

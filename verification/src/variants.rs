//! The variant synthesizer: from the field descriptors to the cases of a
//! generated union, one for each distinct tag.

use vstd::prelude::*;
use crate::model::{
    views, FieldDescriptor, FieldDescriptorView, Ownership, VariantCase, VariantCaseView,
};
use crate::text::str_eq;

verus! {

/// Whether `items[i]` is the first of its kind: none before it is equal to
/// it.
pub open spec fn is_first<A>(items: Seq<A>, i: int) -> bool {
    forall|j: int| 0 <= j < i ==> #[trigger] items[j] != items[i]
}

/// The indices of the items that are the first of their kind, in rising
/// order.
pub open spec fn first_occurrences<A>(items: Seq<A>) -> Seq<int>
    decreases items.len(),
{
    if items.len() == 0 {
        Seq::empty()
    } else if items.drop_last().contains(items.last()) {
        first_occurrences(items.drop_last())
    } else {
        first_occurrences(items.drop_last()).push(items.len() - 1)
    }
}

/// There are no more first occurrences than items.
pub proof fn lemma_first_occurrences_len<A>(items: Seq<A>)
    ensures
        first_occurrences(items).len() <= items.len(),
    decreases items.len(),
{
    if items.len() != 0 {
        lemma_first_occurrences_len(items.drop_last());
    }
}

/// Each of `first_occurrences` is an index in range that holds the first
/// item of its kind.
pub proof fn lemma_first_occurrence_is_first<A>(items: Seq<A>, k: int)
    requires
        0 <= k < first_occurrences(items).len(),
    ensures
        0 <= first_occurrences(items)[k] < items.len(),
        is_first(items, first_occurrences(items)[k]),
    decreases items.len(),
{
    let earlier = items.drop_last();
    let before = first_occurrences(earlier);
    let last = items.len() - 1;
    if k < before.len() {
        // The index was found among the earlier items, and is the first of
        // its kind among them; the last item stands behind it.
        lemma_first_occurrence_is_first(earlier, k);
        let at = before[k];
        assert(first_occurrences(items)[k] == at);
        assert(earlier[at] == items[at]);
        assert forall|j: int| 0 <= j < at implies #[trigger] items[j] != items[at] by {
            assert(earlier[j] == items[j]);
        }
    } else {
        // The index is that of the last item, which none of the earlier
        // items is equal to.
        assert(!earlier.contains(items.last()));
        assert(first_occurrences(items)[k] == last);
        assert forall|j: int| 0 <= j < last implies #[trigger] items[j] != items[last] by {
            assert(earlier[j] == items[j]);
        }
    }
}

/// The indices of `first_occurrences` rise.
pub proof fn lemma_first_occurrences_rise<A>(items: Seq<A>, a: int, b: int)
    requires
        0 <= a < b < first_occurrences(items).len(),
    ensures
        first_occurrences(items)[a] < first_occurrences(items)[b],
    decreases items.len(),
{
    let earlier = items.drop_last();
    let before = first_occurrences(earlier);
    if b < before.len() {
        lemma_first_occurrences_rise(earlier, a, b);
        assert(first_occurrences(items)[a] == before[a]);
        assert(first_occurrences(items)[b] == before[b]);
    } else {
        // `b` is the place of the last item's index; `a` is the place of an
        // index among the earlier items.
        assert(!earlier.contains(items.last()));
        lemma_first_occurrence_is_first(earlier, a);
        assert(first_occurrences(items)[a] == before[a]);
        assert(first_occurrences(items)[b] == items.len() - 1);
    }
}

/// Each item has its equal among the items at `first_occurrences`.
pub proof fn lemma_first_occurrences_cover<A>(items: Seq<A>, i: int)
    requires
        0 <= i < items.len(),
    ensures
        exists|k: int|
            0 <= k < first_occurrences(items).len() && items[#[trigger] first_occurrences(
                items,
            )[k]] == items[i],
    decreases items.len(),
{
    let earlier = items.drop_last();
    let before = first_occurrences(earlier);
    let firsts = first_occurrences(items);
    let last = items.len() - 1;
    if i < last || earlier.contains(items.last()) {
        // An earlier item is equal to `items[i]`, and has its equal among
        // the first occurrences of the earlier items.
        let at = if i < last {
            i
        } else {
            choose|j: int| 0 <= j < earlier.len() && earlier[j] == items.last()
        };
        assert(earlier[at] == items[i]);
        lemma_first_occurrences_cover(earlier, at);
        let k = choose|k: int|
            0 <= k < before.len() && earlier[#[trigger] before[k]] == earlier[at];
        lemma_first_occurrence_is_first(earlier, k);
        assert(firsts[k] == before[k]);
        assert(items[firsts[k]] == earlier[before[k]]);
    } else {
        assert(firsts[firsts.len() - 1] == last);
    }
}

/// Of `first_occurrences`, for all indices at once: each is in range and
/// holds the first item of its kind; they rise; and each item has its equal
/// among the items at them.
pub proof fn lemma_first_occurrences<A>(items: Seq<A>)
    ensures
        first_occurrences(items).len() <= items.len(),
        forall|k: int|
            0 <= k < first_occurrences(items).len() ==> {
                &&& 0 <= #[trigger] first_occurrences(items)[k] < items.len()
                &&& is_first(items, first_occurrences(items)[k])
            },
        forall|a: int, b: int|
            0 <= a < b < first_occurrences(items).len() ==> #[trigger] first_occurrences(items)[a]
                < #[trigger] first_occurrences(items)[b],
        forall|i: int|
            0 <= i < items.len() ==> exists|k: int|
                0 <= k < first_occurrences(items).len() && items[#[trigger] first_occurrences(
                    items,
                )[k]] == #[trigger] items[i],
{
    let firsts = first_occurrences(items);
    lemma_first_occurrences_len(items);
    assert forall|k: int| 0 <= k < firsts.len() implies 0 <= #[trigger] firsts[k] < items.len()
        && is_first(items, firsts[k]) by {
        lemma_first_occurrence_is_first(items, k);
    }
    assert forall|a: int, b: int| 0 <= a < b < firsts.len() implies #[trigger] firsts[a]
        < #[trigger] firsts[b] by {
        lemma_first_occurrences_rise(items, a, b);
    }
    assert forall|i: int| 0 <= i < items.len() implies exists|k: int|
        0 <= k < firsts.len() && items[#[trigger] firsts[k]] == #[trigger] items[i] by {
        lemma_first_occurrences_cover(items, i);
    }
}

/// Each index that holds the first item of its kind is among
/// `first_occurrences`.
pub proof fn lemma_first_occurrences_complete<A>(items: Seq<A>, i: int)
    requires
        0 <= i < items.len(),
        is_first(items, i),
    ensures
        first_occurrences(items).contains(i),
    decreases items.len(),
{
    let earlier = items.drop_last();
    let before = first_occurrences(earlier);
    let firsts = first_occurrences(items);
    if i < items.len() - 1 {
        assert forall|j: int| 0 <= j < i implies #[trigger] earlier[j] != earlier[i] by {
            assert(items[j] != items[i]);
        }
        lemma_first_occurrences_complete(earlier, i);
        let k = choose|k: int| 0 <= k < before.len() && before[k] == i;
        assert(firsts[k] == i);
    } else {
        if earlier.contains(items.last()) {
            let j = choose|j: int| 0 <= j < earlier.len() && earlier[j] == items.last();
            assert(items[j] != items[i]);
        }
        assert(firsts[firsts.len() - 1] == i);
    }
}

/// The tags that `fields` resolve to, in the order of the fields.
pub open spec fn resolved_tags(fields: Seq<FieldDescriptorView>) -> Seq<Seq<char>> {
    Seq::new(fields.len(), |i: int| fields[i].resolved_tag())
}

/// The case that a field opens, where no earlier field resolved to its tag.
pub open spec fn case_of(field: FieldDescriptorView, ownership: Ownership) -> VariantCaseView {
    VariantCaseView {
        tag: field.resolved_tag(),
        representative_type: field.type_signature,
        ownership,
    }
}

/// The cases of the union over `fields`: one for each field that is the
/// first to resolve to its tag, in the order of the fields.
pub open spec fn variant_cases(
    fields: Seq<FieldDescriptorView>,
    ownership: Ownership,
) -> Seq<VariantCaseView> {
    let firsts = first_occurrences(resolved_tags(fields));
    Seq::new(firsts.len(), |k: int| case_of(fields[firsts[k]], ownership))
}

/// Whether one of `cases` has the tag `tag`.
pub open spec fn case_among(cases: Seq<VariantCaseView>, tag: Seq<char>) -> bool {
    exists|k: int| 0 <= k < cases.len() && (#[trigger] cases[k]).tag == tag
}

/// Each case of a union has the tag and the type of a field that is the
/// first to resolve to that tag.
pub proof fn lemma_case_is_of_first_field(
    fields: Seq<FieldDescriptorView>,
    ownership: Ownership,
    k: int,
)
    requires
        0 <= k < variant_cases(fields, ownership).len(),
    ensures
        ({
            let first = first_occurrences(resolved_tags(fields))[k];
            &&& 0 <= first < fields.len()
            &&& is_first(resolved_tags(fields), first)
            &&& variant_cases(fields, ownership)[k] == case_of(fields[first], ownership)
            &&& variant_cases(fields, ownership)[k].tag == resolved_tags(fields)[first]
        }),
{
    lemma_first_occurrence_is_first(resolved_tags(fields), k);
}

/// No two cases of a union have one tag.
pub proof fn lemma_cases_differ(
    fields: Seq<FieldDescriptorView>,
    ownership: Ownership,
    a: int,
    b: int,
)
    requires
        0 <= a < b < variant_cases(fields, ownership).len(),
    ensures
        variant_cases(fields, ownership)[a].tag != variant_cases(fields, ownership)[b].tag,
{
    let tags = resolved_tags(fields);
    let firsts = first_occurrences(tags);
    lemma_case_is_of_first_field(fields, ownership, a);
    lemma_case_is_of_first_field(fields, ownership, b);
    lemma_first_occurrences_rise(tags, a, b);
    // The later case's field is the first of its tag, and the earlier
    // case's field stands before it.
    assert(is_first(tags, firsts[b]));
    assert(tags[firsts[a]] != tags[firsts[b]]);
}

/// The tags of the cases of a union are the tags that the fields resolve
/// to.
pub proof fn lemma_cases_cover(
    fields: Seq<FieldDescriptorView>,
    ownership: Ownership,
    tag: Seq<char>,
)
    ensures
        resolved_tags(fields).contains(tag) <==> case_among(variant_cases(fields, ownership), tag),
{
    let tags = resolved_tags(fields);
    let firsts = first_occurrences(tags);
    let cases = variant_cases(fields, ownership);
    if tags.contains(tag) {
        let i = choose|i: int| 0 <= i < tags.len() && tags[i] == tag;
        lemma_first_occurrences_cover(tags, i);
        let k = choose|k: int| 0 <= k < firsts.len() && tags[#[trigger] firsts[k]] == tags[i];
        lemma_case_is_of_first_field(fields, ownership, k);
        assert(cases[k].tag == tag);
    }
    if case_among(cases, tag) {
        let k = choose|k: int| 0 <= k < cases.len() && (#[trigger] cases[k]).tag == tag;
        lemma_case_is_of_first_field(fields, ownership, k);
        assert(tags[firsts[k]] == tag);
    }
}

/// The dedup law, for all cases at once: each case of a union has the tag
/// and the type of a field that is the first to resolve to that tag; no two
/// cases have one tag; and the tags of the cases are the tags that the
/// fields resolve to.
pub proof fn lemma_variant_cases(fields: Seq<FieldDescriptorView>, ownership: Ownership)
    ensures
        variant_cases(fields, ownership).len() <= fields.len(),
        forall|k: int|
            0 <= k < variant_cases(fields, ownership).len() ==> {
                let first = first_occurrences(resolved_tags(fields))[k];
                &&& 0 <= first < fields.len()
                &&& is_first(resolved_tags(fields), first)
                &&& #[trigger] variant_cases(fields, ownership)[k] == case_of(
                    fields[first],
                    ownership,
                )
            },
        forall|a: int, b: int|
            0 <= a < b < variant_cases(fields, ownership).len() ==> (#[trigger] variant_cases(
                fields,
                ownership,
            )[a]).tag != (#[trigger] variant_cases(fields, ownership)[b]).tag,
        forall|tag: Seq<char>|
            resolved_tags(fields).contains(tag) <==> #[trigger] case_among(
                variant_cases(fields, ownership),
                tag,
            ),
{
    let cases = variant_cases(fields, ownership);
    lemma_first_occurrences_len(resolved_tags(fields));
    assert forall|k: int| 0 <= k < cases.len() implies {
        let first = first_occurrences(resolved_tags(fields))[k];
        &&& 0 <= first < fields.len()
        &&& is_first(resolved_tags(fields), first)
        &&& #[trigger] cases[k] == case_of(fields[first], ownership)
    } by {
        lemma_case_is_of_first_field(fields, ownership, k);
    }
    assert forall|a: int, b: int| 0 <= a < b < cases.len() implies (#[trigger] cases[a]).tag != (
    #[trigger] cases[b]).tag by {
        lemma_cases_differ(fields, ownership, a, b);
    }
    assert forall|tag: Seq<char>|
        resolved_tags(fields).contains(tag) <==> #[trigger] case_among(cases, tag) by {
        lemma_cases_cover(fields, ownership, tag);
    }
}

/// Whether one of `cases` has the tag `tag`.
fn has_case(cases: &Vec<VariantCase>, tag: &str) -> (r: bool)
    ensures
        r == case_among(views(cases@), tag@),
{
    let n: usize = cases.len();
    let mut k: usize = 0;
    while k < n
        invariant
            n == cases.len(),
            k <= n,
            forall|j: int| 0 <= j < k ==> (#[trigger] views(cases@)[j]).tag != tag@,
        decreases n - k,
    {
        if str_eq(cases[k].tag.as_str(), tag) {
            assert(views(cases@)[k as int].tag == tag@);
            return true;
        }
        k = k + 1;
    }
    false
}

/// The cases of the union over the fields of `field_map`, holding shared
/// views, or exclusive ones where `is_mut`: one case for each distinct tag,
/// with the type of the first field that resolves to it.
pub fn generate_enum_variants(field_map: &Vec<FieldDescriptor>, is_mut: bool) -> (cases: Vec<
    VariantCase,
>)
    ensures
        views(cases@) == variant_cases(views(field_map@), Ownership::of(is_mut)),
{
    let ownership = Ownership::from_mut(is_mut);
    let n: usize = field_map.len();
    let mut cases: Vec<VariantCase> = Vec::new();
    let mut i: usize = 0;
    assert(views(field_map@).take(0) == Seq::<FieldDescriptorView>::empty());
    assert(views(cases@) == variant_cases(views(field_map@).take(0), ownership));
    while i < n
        invariant
            n == field_map.len(),
            i <= n,
            ownership == Ownership::of(is_mut),
            views(cases@) == variant_cases(views(field_map@).take(i as int), ownership),
        decreases n - i,
    {
        let ghost earlier = views(field_map@).take(i as int);
        let ghost upto = views(field_map@).take(i + 1);
        let field = &field_map[i];
        let tag = field.tag();
        let fresh = !has_case(&cases, tag.as_str());
        proof {
            lemma_variant_cases(earlier, ownership);
            lemma_first_occurrences(resolved_tags(earlier));
            assert(resolved_tags(upto).drop_last() == resolved_tags(earlier));
            assert(resolved_tags(upto).last() == tag@);
            assert(fresh == !resolved_tags(earlier).contains(tag@));
            let before = first_occurrences(resolved_tags(earlier));
            assert forall|k: int| 0 <= k < before.len() implies upto[#[trigger] before[k]]
                == earlier[before[k]] by {}
            assert(upto[i as int] == field@);
        }
        if fresh {
            let ghost before = views(cases@);
            cases.push(
                VariantCase { tag, representative_type: field.type_signature.clone(), ownership },
            );
            assert(views(cases@) == before.push(case_of(field@, ownership)));
        }
        assert(views(cases@) == variant_cases(upto, ownership));
        i = i + 1;
    }
    assert(views(field_map@).take(n as int) == views(field_map@));
    cases
}

} // verus!

//! What holds of everything that is generated: how fields, tags, cases and
//! arms go together.

use vstd::prelude::*;
use crate::accessor::{first_arm, lemma_first_arm_is, match_arms};
use crate::canonical::canonical_tag;
use crate::customization::{derives, explicit_tag};
use crate::extractor::{declared_fields, descriptors, shape_error};
use crate::generator::generated;
use crate::model::{FieldDescriptorView, Ownership};
use crate::schema::{Declaration, FieldDecl};
use crate::variants::{
    case_among, lemma_first_occurrences, lemma_variant_cases, resolved_tags, variant_cases,
};

verus! {

/// The tag of a declared field, which depends on that field alone: the tag
/// that its attributes give it where they give one, else the canonical tag of
/// its type signature.
pub open spec fn tag_of_field(field: FieldDecl) -> Seq<char> {
    match explicit_tag(field.attrs@) {
        Some(tag) => tag,
        None => canonical_tag(field.ty@),
    }
}

/// Where two fields resolve to one tag, the union has exactly one case of
/// that tag, and the arms of both fields answer with it.
pub proof fn lemma_same_tag_one_case(
    fields: Seq<FieldDescriptorView>,
    union_name: Seq<char>,
    ownership: Ownership,
    i: int,
    j: int,
)
    requires
        0 <= i < fields.len(),
        0 <= j < fields.len(),
        fields[i].resolved_tag() == fields[j].resolved_tag(),
    ensures
        ({
            let cases = variant_cases(fields, ownership);
            let arms = match_arms(fields, union_name, ownership);
            exists|k: int|
                {
                    &&& 0 <= k < cases.len()
                    &&& #[trigger] cases[k].tag == fields[i].resolved_tag()
                    &&& arms[i].tag == cases[k].tag
                    &&& arms[j].tag == cases[k].tag
                    &&& forall|other: int|
                        0 <= other < cases.len() && (#[trigger] cases[other]).tag == cases[k].tag
                            ==> other == k
                }
        }),
{
    let cases = variant_cases(fields, ownership);
    let tag = fields[i].resolved_tag();
    lemma_variant_cases(fields, ownership);
    assert(resolved_tags(fields)[i] == tag);
    assert(resolved_tags(fields).contains(tag));
    assert(case_among(cases, tag));
    let k = choose|k: int| 0 <= k < cases.len() && (#[trigger] cases[k]).tag == tag;
    assert forall|other: int|
        0 <= other < cases.len() && (#[trigger] cases[other]).tag == cases[k].tag implies other
        == k by {
        if other < k {
            assert(cases[other].tag != cases[k].tag);
        } else if k < other {
            assert(cases[k].tag != cases[other].tag);
        }
    }
}

/// The cases of a union depend on the tags that the fields resolve to and on
/// their types, not on where a tag came from: an explicit tag stands in the
/// dedup as a canonical one does.
pub proof fn lemma_cases_by_resolved_tag(
    left: Seq<FieldDescriptorView>,
    right: Seq<FieldDescriptorView>,
    ownership: Ownership,
)
    requires
        left.len() == right.len(),
        forall|i: int|
            0 <= i < left.len() ==> (#[trigger] left[i]).resolved_tag() == right[i].resolved_tag(),
        forall|i: int|
            0 <= i < left.len() ==> (#[trigger] left[i]).type_signature
                == right[i].type_signature,
    ensures
        variant_cases(left, ownership) == variant_cases(right, ownership),
{
    assert(resolved_tags(left) == resolved_tags(right));
    lemma_first_occurrences(resolved_tags(left));
    assert(variant_cases(left, ownership) =~= variant_cases(right, ownership));
}

/// The two unions have the same cases, but for how each holds its views.
pub proof fn lemma_unions_share_cases(fields: Seq<FieldDescriptorView>)
    ensures
        variant_cases(fields, Ownership::Shared).len() == variant_cases(
            fields,
            Ownership::Exclusive,
        ).len(),
        forall|k: int|
            #![trigger variant_cases(fields, Ownership::Shared)[k]]
            #![trigger variant_cases(fields, Ownership::Exclusive)[k]]
            0 <= k < variant_cases(fields, Ownership::Shared).len() ==> {
                let shared = variant_cases(fields, Ownership::Shared)[k];
                let exclusive = variant_cases(fields, Ownership::Exclusive)[k];
                &&& shared.tag == exclusive.tag
                &&& shared.representative_type == exclusive.representative_type
                &&& shared.ownership == Ownership::Shared
                &&& exclusive.ownership == Ownership::Exclusive
            },
{
}

/// A field's explicit tag takes precedence over the canonical tag of its
/// type, for that field only: in both dispatches the arm of each field
/// answers to the field's name with the tag of that field.
pub proof fn lemma_arm_has_tag_of_field(decl: Declaration, i: int)
    requires
        0 <= i < declared_fields(decl).len(),
    ensures
        descriptors(decl)[i].resolved_tag() == tag_of_field(declared_fields(decl)[i]),
        generated(decl).arms.len() == declared_fields(decl).len(),
        generated(decl).arms_mut.len() == declared_fields(decl).len(),
        generated(decl).arms[i].tag == tag_of_field(declared_fields(decl)[i]),
        generated(decl).arms_mut[i].tag == tag_of_field(declared_fields(decl)[i]),
        generated(decl).arms[i].field_name == descriptors(decl)[i].name,
        generated(decl).arms_mut[i].field_name == descriptors(decl)[i].name,
        case_among(generated(decl).shared.cases, tag_of_field(declared_fields(decl)[i])),
        case_among(generated(decl).exclusive.cases, tag_of_field(declared_fields(decl)[i])),
{
    let fields = descriptors(decl);
    lemma_variant_cases(fields, Ownership::Shared);
    lemma_variant_cases(fields, Ownership::Exclusive);
    assert(resolved_tags(fields)[i] == fields[i].resolved_tag());
    assert(resolved_tags(fields).contains(fields[i].resolved_tag()));
}

/// A declaration in scope has a field, so each of its unions has a case and
/// each of its dispatches an arm.
pub proof fn lemma_in_scope_has_fields(decl: Declaration)
    requires
        shape_error(decl) is None,
    ensures
        declared_fields(decl).len() > 0,
        generated(decl).shared.cases.len() > 0,
        generated(decl).exclusive.cases.len() > 0,
        generated(decl).arms.len() == declared_fields(decl).len(),
        generated(decl).arms_mut.len() == declared_fields(decl).len(),
{
    let fields = descriptors(decl);
    let tag = fields[0].resolved_tag();
    lemma_variant_cases(fields, Ownership::Shared);
    lemma_variant_cases(fields, Ownership::Exclusive);
    assert(resolved_tags(fields)[0] == tag);
    assert(resolved_tags(fields).contains(tag));
    assert(case_among(generated(decl).shared.cases, tag));
    assert(case_among(generated(decl).exclusive.cases, tag));
}

/// Both dispatches take, for the name of a declared field, the arm of that
/// field, where no field declared before it has the same name.
pub proof fn lemma_dispatch_finds_field(decl: Declaration, i: int)
    requires
        0 <= i < declared_fields(decl).len(),
        forall|j: int|
            0 <= j < i ==> (#[trigger] descriptors(decl)[j]).name != descriptors(decl)[i].name,
    ensures
        first_arm(generated(decl).arms, descriptors(decl)[i].name) == i,
        first_arm(generated(decl).arms_mut, descriptors(decl)[i].name) == i,
{
    let name = descriptors(decl)[i].name;
    let arms = generated(decl).arms;
    let arms_mut = generated(decl).arms_mut;
    assert forall|j: int| 0 <= j < i implies (#[trigger] arms[j]).field_name != name by {
        assert(descriptors(decl)[j].name != name);
    }
    assert forall|j: int| 0 <= j < i implies (#[trigger] arms_mut[j]).field_name != name by {
        assert(descriptors(decl)[j].name != name);
    }
    lemma_first_arm_is(arms, name, i);
    lemma_first_arm_is(arms_mut, name, i);
}

/// Where the record's attributes hold `derive_all`, the capabilities listed
/// under it are attached to both unions, whatever `derive` and `derive_mut`
/// list.
pub proof fn lemma_derive_all_attaches_to_both(decl: Declaration)
    requires
        derives(decl.attrs@, "derive_all"@) is Some,
    ensures
        generated(decl).shared.attached_capabilities == derives(decl.attrs@, "derive_all"@),
        generated(decl).exclusive.attached_capabilities == derives(decl.attrs@, "derive_all"@),
{
}

/// Without `derive_all`, the shared union has the capabilities listed under
/// `derive` and the exclusive union those under `derive_mut`.
pub proof fn lemma_derive_attaches_to_each(decl: Declaration)
    requires
        derives(decl.attrs@, "derive_all"@) is None,
    ensures
        generated(decl).shared.attached_capabilities == derives(decl.attrs@, "derive"@),
        generated(decl).exclusive.attached_capabilities == derives(decl.attrs@, "derive_mut"@),
{
}

} // verus!

//! The accessor synthesizer: the arms of the dispatch by field name, one for
//! each field, and the lookup that the dispatch performs.

use vstd::prelude::*;
use crate::first::{first_true, lemma_first_true, lemma_first_true_is};
use crate::model::{
    views, FieldDescriptor, FieldDescriptorView, MatchArm, MatchArmView, Ownership,
};
use crate::text::str_eq;

verus! {

/// The arm for a field: asked for the field's name, it answers with the case
/// of the field's tag.
pub open spec fn arm_of(
    field: FieldDescriptorView,
    union_name: Seq<char>,
    ownership: Ownership,
) -> MatchArmView {
    MatchArmView { field_name: field.name, union_name, tag: field.resolved_tag(), ownership }
}

/// The arms of the dispatch over `fields`: one for each field, in the order
/// of the fields.
pub open spec fn match_arms(
    fields: Seq<FieldDescriptorView>,
    union_name: Seq<char>,
    ownership: Ownership,
) -> Seq<MatchArmView> {
    Seq::new(fields.len(), |i: int| arm_of(fields[i], union_name, ownership))
}

/// Whether one of `arms` answers to `name`.
pub open spec fn is_field(arms: Seq<MatchArmView>, name: Seq<char>) -> bool {
    exists|i: int| 0 <= i < arms.len() && (#[trigger] arms[i]).field_name == name
}

/// The index of the first of `arms` that answers to `name`, which is the
/// one that the dispatch takes; `arms.len()` if none does.
pub open spec fn first_arm(arms: Seq<MatchArmView>, name: Seq<char>) -> int {
    first_true(Seq::new(arms.len(), |i: int| arms[i].field_name == name))
}

/// `first_arm` gives the index of an arm that answers to `name`, before
/// which none does; or the number of arms, none of which then does.
pub proof fn lemma_first_arm(arms: Seq<MatchArmView>, name: Seq<char>)
    ensures
        0 <= first_arm(arms, name) <= arms.len(),
        first_arm(arms, name) < arms.len() <==> is_field(arms, name),
        first_arm(arms, name) < arms.len() ==> arms[first_arm(arms, name)].field_name == name,
        forall|j: int| 0 <= j < first_arm(arms, name) ==> (#[trigger] arms[j]).field_name != name,
{
    let flags = Seq::new(arms.len(), |i: int| arms[i].field_name == name);
    lemma_first_true(flags);
    assert forall|j: int| 0 <= j < first_arm(arms, name) implies (#[trigger] arms[j]).field_name
        != name by {
        assert(!flags[j]);
    }
    if is_field(arms, name) {
        let j = choose|j: int| 0 <= j < arms.len() && (#[trigger] arms[j]).field_name == name;
        assert(flags[j]);
    }
    if first_arm(arms, name) < arms.len() {
        assert(flags[first_arm(arms, name)]);
    }
}

/// An index that holds the first arm answering to `name` is the one that
/// `first_arm` gives.
pub proof fn lemma_first_arm_is(arms: Seq<MatchArmView>, name: Seq<char>, k: int)
    requires
        0 <= k <= arms.len(),
        forall|j: int| 0 <= j < k ==> (#[trigger] arms[j]).field_name != name,
        k < arms.len() ==> arms[k].field_name == name,
    ensures
        first_arm(arms, name) == k,
{
    lemma_first_true_is(Seq::new(arms.len(), |i: int| arms[i].field_name == name), k);
}

/// The arms of the dispatch over the fields of `field_map`, answering with
/// cases of the union `value_enum_ident` that hold shared views, or
/// exclusive ones where `is_mut`.
pub fn generate_match_arms(
    field_map: &Vec<FieldDescriptor>,
    value_enum_ident: &str,
    is_mut: bool,
) -> (arms: Vec<MatchArm>)
    ensures
        views(arms@) == match_arms(views(field_map@), value_enum_ident@, Ownership::of(is_mut)),
{
    let ownership = Ownership::from_mut(is_mut);
    let n: usize = field_map.len();
    let mut arms: Vec<MatchArm> = Vec::new();
    let mut i: usize = 0;
    while i < n
        invariant
            n == field_map.len(),
            i <= n,
            arms.len() == i,
            ownership == Ownership::of(is_mut),
            forall|j: int|
                0 <= j < i ==> (#[trigger] arms@[j])@ == arm_of(
                    field_map@[j]@,
                    value_enum_ident@,
                    ownership,
                ),
        decreases n - i,
    {
        let field = &field_map[i];
        arms.push(
            MatchArm {
                field_name: field.name.clone(),
                union_name: value_enum_ident.to_owned(),
                tag: field.tag(),
                ownership,
            },
        );
        i = i + 1;
    }
    assert(views(arms@) == match_arms(views(field_map@), value_enum_ident@, ownership));
    arms
}

/// The place of the arm that the dispatch takes for `fieldname`.
pub fn find_arm(arms: &Vec<MatchArm>, fieldname: &str) -> (found: Option<usize>)
    ensures
        match found {
            Some(i) => i < arms.len() && i == first_arm(views(arms@), fieldname@),
            None => first_arm(views(arms@), fieldname@) == arms.len(),
        },
        found is Some <==> is_field(views(arms@), fieldname@),
{
    let n: usize = arms.len();
    let mut i: usize = 0;
    proof {
        lemma_first_arm(views(arms@), fieldname@);
    }
    while i < n
        invariant
            n == arms.len(),
            i <= n,
            i <= first_arm(views(arms@), fieldname@) <= n,
        decreases n - i,
    {
        proof {
            lemma_first_arm(views(arms@), fieldname@);
        }
        if str_eq(arms[i].field_name.as_str(), fieldname) {
            assert(views(arms@)[i as int].field_name == fieldname@);
            return Some(i);
        }
        assert(views(arms@)[i as int].field_name != fieldname@);
        i = i + 1;
    }
    None
}

} // verus!

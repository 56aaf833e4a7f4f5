//! What the generator produces: field descriptors, the cases of the
//! generated unions, and the arms of the dispatch by field name. Each type
//! has a view that holds its strings as sequences of characters; the
//! contracts speak of the views.

use vstd::prelude::*;
use crate::canonical::{canonical_tag, shorten_type};
use crate::text::option_view;

verus! {

/// The views of the items of `items`, in their order.
pub open spec fn views<T: View>(items: Seq<T>) -> Seq<T::V> {
    Seq::new(items.len(), |i: int| items[i]@)
}

/// How a view holds the field that it shows.
#[derive(Clone, Copy, Debug, PartialEq, Eq, Structural)]
pub enum Ownership {
    /// A read-only view; any number of them may be held at a time.
    Shared,
    /// A view through which the field can be written, held alone.
    Exclusive,
}

impl Ownership {
    /// The ownership of the views of a union that is, or is not, the mutable
    /// one.
    pub open spec fn of(is_mut: bool) -> Ownership {
        if is_mut {
            Ownership::Exclusive
        } else {
            Ownership::Shared
        }
    }

    /// The ownership of the views of a union that is, or is not, the mutable
    /// one.
    pub fn from_mut(is_mut: bool) -> (ownership: Ownership)
        ensures
            ownership == Ownership::of(is_mut),
    {
        if is_mut {
            Ownership::Exclusive
        } else {
            Ownership::Shared
        }
    }
}

/// A field of the record: its name, its type signature, and the tag that its
/// attributes give it, if they give one.
#[derive(Clone, Debug, PartialEq, Eq)]
pub struct FieldDescriptor {
    pub name: String,
    pub type_signature: String,
    pub explicit_tag: Option<String>,
}

/// The view of a field descriptor: the same, with its strings as sequences of
/// characters.
pub struct FieldDescriptorView {
    pub name: Seq<char>,
    pub type_signature: Seq<char>,
    pub explicit_tag: Option<Seq<char>>,
}

impl View for FieldDescriptor {
    type V = FieldDescriptorView;

    open spec fn view(&self) -> FieldDescriptorView {
        FieldDescriptorView {
            name: self.name@,
            type_signature: self.type_signature@,
            explicit_tag: option_view(self.explicit_tag),
        }
    }
}

impl FieldDescriptorView {
    /// The tag that the field resolves to: the explicit one where there is
    /// one, else the canonical tag of the type signature.
    pub open spec fn resolved_tag(self) -> Seq<char> {
        match self.explicit_tag {
            Some(tag) => tag,
            None => canonical_tag(self.type_signature),
        }
    }
}

impl FieldDescriptor {
    /// The tag that the field resolves to.
    pub fn tag(&self) -> (tag: String)
        ensures
            tag@ == self@.resolved_tag(),
    {
        match &self.explicit_tag {
            Some(tag) => tag.clone(),
            None => shorten_type(self.type_signature.clone()),
        }
    }
}

/// A case of a generated union: its tag, and the type of the first field
/// that resolved to that tag, of which the case holds a view.
#[derive(Clone, Debug, PartialEq, Eq)]
pub struct VariantCase {
    pub tag: String,
    pub representative_type: String,
    pub ownership: Ownership,
}

/// The view of a case: the same, with its strings as sequences of
/// characters.
pub struct VariantCaseView {
    pub tag: Seq<char>,
    pub representative_type: Seq<char>,
    pub ownership: Ownership,
}

impl View for VariantCase {
    type V = VariantCaseView;

    open spec fn view(&self) -> VariantCaseView {
        VariantCaseView {
            tag: self.tag@,
            representative_type: self.representative_type@,
            ownership: self.ownership,
        }
    }
}

/// An arm of the dispatch by field name: asked for `field_name`, it answers
/// with the case `tag` of the union `union_name`, holding a view of that
/// field.
#[derive(Clone, Debug, PartialEq, Eq)]
pub struct MatchArm {
    pub field_name: String,
    pub union_name: String,
    pub tag: String,
    pub ownership: Ownership,
}

/// The view of an arm: the same, with its strings as sequences of
/// characters.
pub struct MatchArmView {
    pub field_name: Seq<char>,
    pub union_name: Seq<char>,
    pub tag: Seq<char>,
    pub ownership: Ownership,
}

impl View for MatchArm {
    type V = MatchArmView;

    open spec fn view(&self) -> MatchArmView {
        MatchArmView {
            field_name: self.field_name@,
            union_name: self.union_name@,
            tag: self.tag@,
            ownership: self.ownership,
        }
    }
}

/// A generated union: its name, its cases, how its views hold their fields,
/// and the capabilities attached to it, as the record's attributes list
/// them.
#[derive(Clone, Debug, PartialEq, Eq)]
pub struct GeneratedUnion {
    pub name: String,
    pub cases: Vec<VariantCase>,
    pub ownership: Ownership,
    pub attached_capabilities: Option<String>,
}

/// The view of a generated union: the same, with its strings as sequences of
/// characters.
pub struct GeneratedUnionView {
    pub name: Seq<char>,
    pub cases: Seq<VariantCaseView>,
    pub ownership: Ownership,
    pub attached_capabilities: Option<Seq<char>>,
}

impl View for GeneratedUnion {
    type V = GeneratedUnionView;

    open spec fn view(&self) -> GeneratedUnionView {
        GeneratedUnionView {
            name: self.name@,
            cases: views(self.cases@),
            ownership: self.ownership,
            attached_capabilities: option_view(self.attached_capabilities),
        }
    }
}

/// All that is generated for one record: the two unions, and the arms of the
/// two accessors. The unions and the accessors have the record's visibility.
#[derive(Clone, Debug, PartialEq, Eq)]
pub struct FieldnameAccess {
    pub record_name: String,
    pub visibility: String,
    pub shared: GeneratedUnion,
    pub exclusive: GeneratedUnion,
    pub arms: Vec<MatchArm>,
    pub arms_mut: Vec<MatchArm>,
}

/// The view of what is generated for a record: the same, with its strings as sequences of
/// characters.
pub struct FieldnameAccessView {
    pub record_name: Seq<char>,
    pub visibility: Seq<char>,
    pub shared: GeneratedUnionView,
    pub exclusive: GeneratedUnionView,
    pub arms: Seq<MatchArmView>,
    pub arms_mut: Seq<MatchArmView>,
}

impl View for FieldnameAccess {
    type V = FieldnameAccessView;

    open spec fn view(&self) -> FieldnameAccessView {
        FieldnameAccessView {
            record_name: self.record_name@,
            visibility: self.visibility@,
            shared: self.shared@,
            exclusive: self.exclusive@,
            arms: views(self.arms@),
            arms_mut: views(self.arms_mut@),
        }
    }
}

impl FieldnameAccess {
    /// The names of the record's fields, in the order of declaration.
    pub fn fields(&self) -> (names: Vec<&str>)
        ensures
            names@.len() == self@.arms.len(),
            forall|i: int|
                0 <= i < names@.len() ==> (#[trigger] names@[i])@ == self@.arms[i].field_name,
    {
        let n: usize = self.arms.len();
        let mut names: Vec<&str> = Vec::new();
        let mut i: usize = 0;
        while i < n
            invariant
                n == self.arms.len(),
                i <= n,
                names.len() == i,
                forall|j: int|
                    0 <= j < i ==> (#[trigger] names@[j])@ == self@.arms[j].field_name,
            decreases n - i,
        {
            names.push(self.arms[i].field_name.as_str());
            i = i + 1;
        }
        names
    }
}

} // verus!

//! A record with access to its fields by name: the stored values of the
//! fields, and the dispatch that was generated for the record's declaration.

use vstd::prelude::*;
use crate::accessor::{find_arm, first_arm, is_field, lemma_first_arm};
use crate::model::{FieldnameAccess, FieldnameAccessView, MatchArmView};

verus! {

/// A shared view of a field: the case of the shared union that the field's
/// arm answers with, and the field's value.
pub struct Field<'a, V> {
    pub union_name: &'a str,
    pub tag: &'a str,
    pub value: &'a V,
}

/// An exclusive view of a field: the case of the exclusive union that the
/// field's arm answers with, and the field's value, open to writing.
pub struct FieldMut<'a, V> {
    pub union_name: &'a str,
    pub tag: &'a str,
    pub value: &'a mut V,
}

impl<'a, V> Field<'a, V> {
    /// Whether this view is the case that `arm` answers with, holding
    /// `value`.
    pub open spec fn shows(self, arm: MatchArmView, value: V) -> bool {
        &&& self.union_name@ == arm.union_name
        &&& self.tag@ == arm.tag
        &&& *self.value == value
    }
}

impl<'a, V> FieldMut<'a, V> {
    /// Whether this view is the case that `arm` answers with, holding
    /// `value`.
    pub open spec fn shows(self, arm: MatchArmView, value: V) -> bool {
        &&& self.union_name@ == arm.union_name
        &&& self.tag@ == arm.tag
        &&& *self.value == value
    }
}

/// A record: what was generated for its declaration, and the values of its
/// fields in the order of declaration.
pub struct Record<V> {
    access: FieldnameAccess,
    values: Vec<V>,
}

/// The view of a record.
pub struct RecordView<V> {
    /// What was generated for the record's declaration.
    pub access: FieldnameAccessView,
    /// The values of the fields.
    pub values: Seq<V>,
}

impl<V> View for Record<V> {
    type V = RecordView<V>;

    closed spec fn view(&self) -> RecordView<V> {
        RecordView { access: self.access@, values: self.values@ }
    }
}

impl<V> RecordView<V> {
    /// The arms of the dispatch to shared views.
    pub open spec fn arms(self) -> Seq<MatchArmView> {
        self.access.arms
    }

    /// The arms of the dispatch to exclusive views.
    pub open spec fn arms_mut(self) -> Seq<MatchArmView> {
        self.access.arms_mut
    }
}

impl<V> Record<V> {
    /// Each dispatch has one arm for each value.
    #[verifier::type_invariant]
    closed spec fn wf(&self) -> bool {
        &&& self@.arms().len() == self@.values.len()
        &&& self@.arms_mut().len() == self@.values.len()
    }

    /// A record with what was generated for its declaration and the values
    /// of its fields, the value of each field at the place of its
    /// declaration. There is none where the number of values is not the
    /// number of arms of each dispatch.
    pub fn new(access: FieldnameAccess, values: Vec<V>) -> (r: Option<Record<V>>)
        ensures
            r is Some <==> access@.arms.len() == values@.len() && access@.arms_mut.len()
                == values@.len(),
            r matches Some(record) ==> {
                &&& record@.access == access@
                &&& record@.values == values@
            },
    {
        if access.arms.len() == values.len() && access.arms_mut.len() == values.len() {
            Some(Record { access, values })
        } else {
            None
        }
    }

    /// What was generated for the record's declaration.
    pub fn access(&self) -> (access: &FieldnameAccess)
        ensures
            access@ == self@.access,
    {
        &self.access
    }

    /// The values of the fields, in the order of declaration: one for each
    /// arm of each dispatch.
    pub fn values(&self) -> (values: &Vec<V>)
        ensures
            values@ == self@.values,
            values@.len() == self@.arms().len(),
            values@.len() == self@.arms_mut().len(),
    {
        proof {
            use_type_invariant(self);
        }
        &self.values
    }

    /// The values of the fields, given back.
    pub fn into_values(self) -> (values: Vec<V>)
        ensures
            values@ == self@.values,
    {
        self.values
    }

    /// A shared view of the field named `fieldname`: the case that the first
    /// arm of that name answers with, holding the field's stored value.
    /// `None` where no field has that name.
    pub fn field<'a>(&'a self, fieldname: &str) -> (r: Option<Field<'a, V>>)
        ensures
            r is Some <==> is_field(self@.arms(), fieldname@),
            r matches Some(view) ==> {
                let i = first_arm(self@.arms(), fieldname@);
                &&& 0 <= i < self@.values.len()
                &&& self@.arms()[i].field_name == fieldname@
                &&& view.shows(self@.arms()[i], self@.values[i])
            },
    {
        proof {
            use_type_invariant(&*self);
            lemma_first_arm(self@.arms(), fieldname@);
        }
        match find_arm(&self.access.arms, fieldname) {
            Some(i) => {
                let arm = &self.access.arms[i];
                Some(
                    Field {
                        union_name: arm.union_name.as_str(),
                        tag: arm.tag.as_str(),
                        value: &self.values[i],
                    },
                )
            },
            None => None,
        }
    }

    /// An exclusive view of the field named `fieldname`: the case that the
    /// first arm of that name answers with, holding the field's stored value.
    /// What is written through the view is the field's value once the view
    /// is given up; nothing else of the record changes. `None` where no
    /// field has that name.
    pub fn field_mut<'a>(&'a mut self, fieldname: &str) -> (r: Option<FieldMut<'a, V>>)
        ensures
            final(self)@.access == old(self)@.access,
            r is Some <==> is_field(old(self)@.arms_mut(), fieldname@),
            r matches Some(view) ==> {
                let i = first_arm(old(self)@.arms_mut(), fieldname@);
                &&& 0 <= i < old(self)@.values.len()
                &&& old(self)@.arms_mut()[i].field_name == fieldname@
                &&& view.shows(old(self)@.arms_mut()[i], old(self)@.values[i])
                &&& final(self)@.values == old(self)@.values.update(i, *final(view.value))
            },
            r is None ==> final(self)@.values == old(self)@.values,
    {
        proof {
            use_type_invariant(&*self);
            lemma_first_arm(self@.arms_mut(), fieldname@);
        }
        match find_arm(&self.access.arms_mut, fieldname) {
            Some(i) => {
                let arm = &self.access.arms_mut[i];
                Some(
                    FieldMut {
                        union_name: arm.union_name.as_str(),
                        tag: arm.tag.as_str(),
                        value: &mut self.values[i],
                    },
                )
            },
            None => None,
        }
    }

    /// Each field's name with a shared view of the field, in the order of
    /// declaration.
    pub fn field_iter<'a>(&'a self) -> (items: Vec<(&'a str, Field<'a, V>)>)
        ensures
            items@.len() == self@.values.len(),
            items@.len() == self@.arms().len(),
            forall|i: int|
                0 <= i < items@.len() ==> {
                    &&& (#[trigger] items@[i]).0@ == self@.arms()[i].field_name
                    &&& items@[i].1.shows(self@.arms()[i], self@.values[i])
                },
    {
        proof {
            use_type_invariant(self);
        }
        let n: usize = self.access.arms.len();
        let mut items: Vec<(&'a str, Field<'a, V>)> = Vec::new();
        let mut i: usize = 0;
        while i < n
            invariant
                n == self.access.arms.len(),
                n == self.values.len(),
                i <= n,
                items.len() == i,
                forall|j: int|
                    0 <= j < i ==> {
                        &&& (#[trigger] items@[j]).0@ == self@.arms()[j].field_name
                        &&& items@[j].1.shows(self@.arms()[j], self@.values[j])
                    },
            decreases n - i,
        {
            let arm = &self.access.arms[i];
            items.push(
                (
                    arm.field_name.as_str(),
                    Field {
                        union_name: arm.union_name.as_str(),
                        tag: arm.tag.as_str(),
                        value: &self.values[i],
                    },
                ),
            );
            i = i + 1;
        }
        items
    }
}

} // verus!

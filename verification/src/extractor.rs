//! The schema extractor: from a record declaration to its field descriptors,
//! or to the reason why the declaration is out of scope.

use vstd::prelude::*;
use crate::customization::{explicit_tag, retrieve_fieldname};
use crate::model::{views, FieldDescriptor, FieldDescriptorView};
use crate::schema::{Data, Declaration, FieldDecl, Fields};

verus! {

/// Why a declaration is out of scope.
#[derive(Clone, Copy, Debug, PartialEq, Eq, Structural)]
pub enum ShapeError {
    /// The declaration is a union.
    Union,
    /// The declaration is an enum: a type of several cases.
    Enum,
    /// The declaration is a struct without named fields: a tuple struct, a
    /// struct with no fields at all, with braces or without, or a struct one
    /// of whose fields has no name.
    NamelessFields,
}

impl ShapeError {
    /// The error in words.
    pub fn message(&self) -> (text: String)
        ensures
            text@ == match *self {
                ShapeError::Union => "FieldnameAccess cannot be used with unions"@,
                ShapeError::Enum => "FieldnameAccess cannot be used with enums"@,
                ShapeError::NamelessFields => "Nameless fields are not supported"@,
            },
    {
        match self {
            ShapeError::Union => "FieldnameAccess cannot be used with unions".to_owned(),
            ShapeError::Enum => "FieldnameAccess cannot be used with enums".to_owned(),
            ShapeError::NamelessFields => "Nameless fields are not supported".to_owned(),
        }
    }
}

/// Whether each of `fields` has a name.
pub open spec fn all_named(fields: Seq<FieldDecl>) -> bool {
    forall|i: int| 0 <= i < fields.len() ==> (#[trigger] fields[i]).ident is Some
}

/// The error that a declaration is refused with; `None` for a struct that
/// has at least one field and whose fields all have names.
pub open spec fn shape_error(decl: Declaration) -> Option<ShapeError> {
    match decl.data {
        Data::Union => Some(ShapeError::Union),
        Data::Enum => Some(ShapeError::Enum),
        Data::Struct(Fields::Named(fields)) => if fields@.len() > 0 && all_named(fields@) {
            None
        } else {
            Some(ShapeError::NamelessFields)
        },
        Data::Struct(_) => Some(ShapeError::NamelessFields),
    }
}

/// The fields that a declaration in scope declares.
pub open spec fn declared_fields(decl: Declaration) -> Seq<FieldDecl> {
    match decl.data {
        Data::Struct(Fields::Named(fields)) => fields@,
        _ => Seq::empty(),
    }
}

/// The descriptor of a declared field: its name, its type signature, and the
/// tag that its attributes give it.
pub open spec fn descriptor_of(field: FieldDecl) -> FieldDescriptorView {
    FieldDescriptorView {
        name: match field.ident {
            Some(name) => name@,
            None => Seq::empty(),
        },
        type_signature: field.ty@,
        explicit_tag: explicit_tag(field.attrs@),
    }
}

/// The descriptors of the fields that a declaration declares, in the order
/// of declaration.
pub open spec fn descriptors(decl: Declaration) -> Seq<FieldDescriptorView> {
    Seq::new(declared_fields(decl).len(), |i: int| descriptor_of(declared_fields(decl)[i]))
}

/// Reads the fields of `fields`, as far as they have names.
fn describe(fields: &Vec<FieldDecl>) -> (r: Option<Vec<FieldDescriptor>>)
    ensures
        match r {
            Some(described) => all_named(fields@) && views(described@) == Seq::new(
                fields@.len(),
                |i: int| descriptor_of(fields@[i]),
            ),
            None => !all_named(fields@),
        },
{
    let n: usize = fields.len();
    let mut described: Vec<FieldDescriptor> = Vec::new();
    let mut i: usize = 0;
    while i < n
        invariant
            n == fields.len(),
            i <= n,
            described.len() == i,
            forall|j: int| 0 <= j < i ==> (#[trigger] fields@[j]).ident is Some,
            forall|j: int| 0 <= j < i ==> (#[trigger] described@[j])@ == descriptor_of(fields@[j]),
        decreases n - i,
    {
        let field = &fields[i];
        match &field.ident {
            Some(name) => {
                described.push(
                    FieldDescriptor {
                        name: name.clone(),
                        type_signature: field.ty.clone(),
                        explicit_tag: retrieve_fieldname(&field.attrs),
                    },
                );
            },
            None => {
                return None;
            },
        }
        i = i + 1;
    }
    assert(views(described@) == Seq::new(fields@.len(), |i: int| descriptor_of(fields@[i])));
    Some(described)
}

/// Extracts the field descriptors of a declaration. A declaration other than
/// a struct with at least one field, whose fields all have names, is
/// refused.
pub fn extract_fields(decl: &Declaration) -> (r: Result<Vec<FieldDescriptor>, ShapeError>)
    ensures
        match r {
            Ok(fields) => shape_error(*decl) is None && views(fields@) == descriptors(*decl),
            Err(error) => shape_error(*decl) == Some(error),
        },
{
    match &decl.data {
        Data::Union => Err(ShapeError::Union),
        Data::Enum => Err(ShapeError::Enum),
        Data::Struct(Fields::Named(fields)) => {
            if fields.len() == 0 {
                return Err(ShapeError::NamelessFields);
            }
            match describe(fields) {
                Some(described) => Ok(described),
                None => Err(ShapeError::NamelessFields),
            }
        },
        Data::Struct(_) => Err(ShapeError::NamelessFields),
    }
}

} // verus!

//! The generator: from a record declaration to the two unions and the two
//! dispatches that give access to the record's fields by name.

use vstd::prelude::*;
use crate::accessor::{generate_match_arms, match_arms};
use crate::customization::{derives, enum_name, retrieve_derives, retrieve_enum_name};
use crate::extractor::{descriptors, extract_fields, shape_error, ShapeError};
use crate::model::{
    FieldnameAccess, FieldnameAccessView, GeneratedUnion, GeneratedUnionView, Ownership,
};
use crate::schema::{Attribute, Declaration};
use crate::variants::{generate_enum_variants, variant_cases};

verus! {

/// The capabilities attached to the union of the given ownership: those
/// listed under `derive_all` where that option is present; else those under
/// `derive` for the shared union, under `derive_mut` for the exclusive one.
pub open spec fn capabilities(attrs: Seq<Attribute>, ownership: Ownership) -> Option<Seq<char>> {
    match derives(attrs, "derive_all"@) {
        Some(all) => Some(all),
        None => match ownership {
            Ownership::Shared => derives(attrs, "derive"@),
            Ownership::Exclusive => derives(attrs, "derive_mut"@),
        },
    }
}

/// The name of the union of the given ownership. The shared union has the
/// name that the record's attributes give, else the record's name followed
/// by `Field`; the exclusive union has that name followed by `Mut`.
pub open spec fn union_name(decl: Declaration, ownership: Ownership) -> Seq<char> {
    let base = match enum_name(decl.attrs@) {
        Some(name) => name,
        None => decl.ident@ + "Field"@,
    };
    match ownership {
        Ownership::Shared => base,
        Ownership::Exclusive => base + "Mut"@,
    }
}

/// The union of the given ownership over the fields of `decl`.
pub open spec fn generated_union(decl: Declaration, ownership: Ownership) -> GeneratedUnionView {
    GeneratedUnionView {
        name: union_name(decl, ownership),
        cases: variant_cases(descriptors(decl), ownership),
        ownership,
        attached_capabilities: capabilities(decl.attrs@, ownership),
    }
}

/// What is generated for a declaration in scope.
pub open spec fn generated(decl: Declaration) -> FieldnameAccessView {
    FieldnameAccessView {
        record_name: decl.ident@,
        visibility: decl.vis@,
        shared: generated_union(decl, Ownership::Shared),
        exclusive: generated_union(decl, Ownership::Exclusive),
        arms: match_arms(
            descriptors(decl),
            union_name(decl, Ownership::Shared),
            Ownership::Shared,
        ),
        arms_mut: match_arms(
            descriptors(decl),
            union_name(decl, Ownership::Exclusive),
            Ownership::Exclusive,
        ),
    }
}

/// Generates the access by field name for the record that `inp` declares:
/// a union of shared views and one of exclusive views, each with one case
/// for each distinct tag among the fields, and for each of the two a dispatch
/// with one arm for each field. A declaration out of scope is refused, and
/// nothing is generated for it.
pub fn fieldname_accessor(inp: &Declaration) -> (r: Result<FieldnameAccess, ShapeError>)
    ensures
        match r {
            Ok(access) => shape_error(*inp) is None && access@ == generated(*inp),
            Err(error) => shape_error(*inp) == Some(error),
        },
{
    let field_map = match extract_fields(inp) {
        Ok(fields) => fields,
        Err(error) => {
            return Err(error);
        },
    };
    let (derive, derive_mut) = match retrieve_derives(&inp.attrs, "derive_all") {
        Some(derives) => (Some(derives.clone()), Some(derives)),
        None => (retrieve_derives(&inp.attrs, "derive"), retrieve_derives(&inp.attrs, "derive_mut")),
    };
    let value_enum_ident = match retrieve_enum_name(&inp.attrs) {
        Some(name) => name,
        None => {
            let mut name = inp.ident.clone();
            name.append("Field");
            name
        },
    };
    let mut value_enum_ident_mut = value_enum_ident.clone();
    value_enum_ident_mut.append("Mut");
    let match_arms = generate_match_arms(&field_map, value_enum_ident.as_str(), false);
    let match_arms_mut = generate_match_arms(&field_map, value_enum_ident_mut.as_str(), true);
    let shared = GeneratedUnion {
        name: value_enum_ident,
        cases: generate_enum_variants(&field_map, false),
        ownership: Ownership::Shared,
        attached_capabilities: derive,
    };
    let exclusive = GeneratedUnion {
        name: value_enum_ident_mut,
        cases: generate_enum_variants(&field_map, true),
        ownership: Ownership::Exclusive,
        attached_capabilities: derive_mut,
    };
    Ok(
        FieldnameAccess {
            record_name: inp.ident.clone(),
            visibility: inp.vis.clone(),
            shared,
            exclusive,
            arms: match_arms,
            arms_mut: match_arms_mut,
        },
    )
}

} // verus!

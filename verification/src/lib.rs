//! Field access by name: the generator behind a record's `field` and
//! `field_mut` accessors, and the accessors themselves.
//!
//! A record declaration is turned into field descriptors, each field's type
//! signature into a short tag, the tags into the cases of two generated
//! unions (one of shared views, one of exclusive views), and the fields into
//! the arms of a dispatch by field name. A [`record::Record`] runs that
//! dispatch over stored values.

pub mod first;
pub mod text;
pub mod canonical;
pub mod schema;
pub mod customization;
pub mod model;
pub mod extractor;
pub mod variants;
pub mod accessor;
pub mod generator;
pub mod record;
pub mod laws;

pub use accessor::generate_match_arms;
pub use canonical::{generate_variant_name, shorten_type};
pub use customization::{
    get_fieldname_enum_val, retrieve_derives, retrieve_enum_name, retrieve_fieldname,
};
pub use generator::fieldname_accessor;
pub use variants::generate_enum_variants;

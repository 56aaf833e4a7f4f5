//! The tag canonicalizer on its own, and the characters it works on.

use fieldname_access::canonical::{generate_variant_name, shorten_classified, shorten_type};
use fieldname_access::text::{
    chars_of, is_ascii_alphanumeric, is_uppercase_letter, str_eq, to_ascii_uppercase,
};

use quote::ToTokens;

fn shorten(signature: &str) -> String {
    shorten_type(String::from(signature))
}

/// The signature of a type as its tokens print.
fn printed(source: &str) -> String {
    syn::parse_str::<syn::Type>(source).unwrap().to_token_stream().to_string()
}

#[test]
fn nested_generics_are_concatenated() {
    assert_eq!(shorten("Option<Option<i64>>"), "OptionOptionI64");
}

#[test]
fn qualified_path_is_shortened_like_bare_name() {
    assert_eq!(shorten("std::option::Option<String>"), "OptionString");
    assert_eq!(shorten("std::option::Option<String>"), shorten("Option<String>"));
}

#[test]
fn primitive_is_capitalized() {
    assert_eq!(shorten("u8"), "U8");
    assert_eq!(shorten("i64"), "I64");
    assert_eq!(shorten("bool"), "Bool");
    assert_eq!(shorten("usize"), "Usize");
}

#[test]
fn generic_parameter_is_unchanged() {
    assert_eq!(shorten("T"), "T");
}

#[test]
fn lowercase_generic_parameter_is_capitalized() {
    assert_eq!(shorten("t"), "T");
}

#[test]
fn shortening_is_deterministic() {
    assert_eq!(shorten("Vec<Option<u8>>"), shorten("Vec<Option<u8>>"));
    assert_eq!(shorten("Vec<Option<u8>>"), "VecOptionU8");
}

#[test]
fn shortening_composes_over_generic_arguments() {
    for argument in ["i64", "Option<i64>", "std::string::String", "T", "(u8, u16)", ""] {
        let whole = format!("Outer<{}", argument);
        assert_eq!(shorten(&whole), format!("Outer{}", shorten(argument)));
    }
}

#[test]
fn printed_signatures_are_shortened_like_written_ones() {
    assert_eq!(printed("Option<Option<i64>>"), "Option < Option < i64 > >");
    assert_eq!(shorten(&printed("Option<Option<i64>>")), "OptionOptionI64");
    assert_eq!(shorten(&printed("std::option::Option<String>")), "OptionString");
    assert_eq!(shorten(&printed("u8")), "U8");
    assert_eq!(shorten(&printed("&'a T")), "T");
    assert_eq!(shorten(&printed("Option<ImportantInfo>")), "OptionImportantInfo");
}

#[test]
fn variant_name_of_printed_type() {
    assert_eq!(generate_variant_name(&printed("Option<ImportantInfo>")), "OptionImportantInfo");
    assert_eq!(generate_variant_name("F"), "F");
    assert_eq!(generate_variant_name("u64"), "U64");
}

#[test]
fn punctuation_between_arguments_is_dropped() {
    assert_eq!(shorten("HashMap<String, Vec<u8>>"), "HashMapStringVecU8");
    assert_eq!(shorten("Result<(), Error>"), "ResultError");
    assert_eq!(shorten("my_crate::Thing"), "Thing");
}

#[test]
fn what_precedes_the_first_uppercase_letter_is_dropped() {
    assert_eq!(shorten("(u8, String)"), "String");
    assert_eq!(shorten("&'static str"), "Staticstr");
    assert_eq!(shorten("[Item; 4]"), "Item4");
}

#[test]
fn lowercase_signature_keeps_letters_and_digits() {
    assert_eq!(shorten("[u8; 4]"), "U84");
    assert_eq!(shorten("(u8, u16)"), "U8u16");
    assert_eq!(shorten("&mut i32"), "Muti32");
    assert_eq!(shorten("3"), "3");
}

#[test]
fn signature_without_letters_or_digits_has_empty_tag() {
    assert_eq!(shorten(""), "");
    assert_eq!(shorten("()"), "");
    assert_eq!(shorten("Vec<()>"), "Vec");
    assert_eq!(shorten("<"), "");
}

#[test]
fn open_bracket_before_the_first_uppercase_letter_is_no_boundary() {
    assert_eq!(shorten("<T as Trait>::Out"), "TasTraitOut");
    assert_eq!(shorten("a<b<C<d"), "CD");
}

#[test]
fn uppercase_letter_beyond_ascii_starts_the_tag() {
    // `É` is upper case, and neither it nor `é` is an ASCII letter.
    assert_eq!(shorten("Éa"), "a");
    assert_eq!(shorten("xÉté<i8>"), "tI8");
    // `é` is lower case: the signature has no upper-case letter.
    assert_eq!(shorten("éa"), "A");
}

#[test]
fn classified_signature_is_shortened_by_its_flags() {
    let chars: Vec<char> = "ab<cd".chars().collect();
    // No character is marked: letters and digits, the first in upper case.
    assert_eq!(shorten_classified(&chars, &vec![false; 5]), "Abcd");
    // `b` is marked: the tag starts there and goes on behind the `<`.
    assert_eq!(shorten_classified(&chars, &vec![false, true, false, false, false]), "bCd");
    // `b` and `d` are marked.
    assert_eq!(shorten_classified(&chars, &vec![false, true, false, false, true]), "bd");
    // Only the `<` is marked: it ends the first segment at once.
    assert_eq!(shorten_classified(&chars, &vec![false, false, true, false, false]), "Cd");
}

#[test]
fn uppercase_letters_are_those_of_std() {
    for code in 0..=0x10FFFFu32 {
        if let Some(c) = char::from_u32(code) {
            assert_eq!(is_uppercase_letter(c), c.is_uppercase(), "{:?}", c);
        }
    }
}

#[test]
fn ascii_classes_are_those_of_std() {
    for code in 0..=0x10FFFFu32 {
        if let Some(c) = char::from_u32(code) {
            assert_eq!(is_ascii_alphanumeric(c), c.is_ascii_alphanumeric(), "{:?}", c);
            assert_eq!(to_ascii_uppercase(c), c.to_ascii_uppercase(), "{:?}", c);
        }
    }
}

#[test]
fn capitalizing_is_that_of_std() {
    for first in ["a", "z", "m", "0", "9", "A", "Z"] {
        let signature = format!("{}_rest", first);
        assert_eq!(shorten(&signature), format!("{}rest", first.to_uppercase()));
    }
}

#[test]
fn strings_are_compared_by_their_characters() {
    assert!(str_eq("name", "name"));
    assert!(str_eq("", ""));
    assert!(!str_eq("name", "Name"));
    assert!(!str_eq("name", "name "));
    assert!(!str_eq("name", "nam"));
}

#[test]
fn characters_of_a_string() {
    assert_eq!(chars_of("aé<"), vec!['a', 'é', '<']);
    assert_eq!(chars_of(""), Vec::<char>::new());
}

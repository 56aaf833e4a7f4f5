//! The attributes that the generator reads, the cases and the arms, on
//! values written out by hand.

use fieldname_access::accessor::{find_arm, generate_match_arms};
use fieldname_access::customization::{
    get_fieldname_enum_val, retrieve_derives, retrieve_enum_name, retrieve_fieldname,
};
use fieldname_access::model::{FieldDescriptor, MatchArm, Ownership, VariantCase};
use fieldname_access::schema::{AttrValue, Attribute, Group, TokenTree};
use fieldname_access::variants::generate_enum_variants;

use itertools::Itertools;

fn ident(text: &str) -> TokenTree {
    TokenTree::Ident(String::from(text))
}

fn punct(text: &str) -> TokenTree {
    TokenTree::Punct(String::from(text))
}

fn literal(text: &str) -> TokenTree {
    TokenTree::Literal(String::from(text))
}

fn group(stream: &str) -> TokenTree {
    TokenTree::Group(Group { text: format!("[{}]", stream), stream: String::from(stream) })
}

fn path(names: &[&str]) -> Vec<String> {
    names.iter().map(|name| String::from(*name)).collect()
}

fn list(name: &str, tokens: Vec<TokenTree>) -> Attribute {
    Attribute::List { path: path(&[name]), tokens }
}

fn name_value(name: &str, value: &str) -> Attribute {
    Attribute::NameValue { path: path(&[name]), value: AttrValue::Str(String::from(value)) }
}

/// `#[fieldname_enum(name = "Amazingly", derive = [Debug, Clone], derive_mut = [Debug])]`
fn amazingly() -> Vec<Attribute> {
    vec![list(
        "fieldname_enum",
        vec![
            ident("name"),
            punct("="),
            literal("\"Amazingly\""),
            punct(","),
            ident("derive"),
            punct("="),
            group("Debug , Clone"),
            punct(","),
            ident("derive_mut"),
            punct("="),
            group("Debug"),
        ],
    )]
}

#[test]
fn option_value_is_the_second_token_after_its_name() {
    let attrs = amazingly();
    assert_eq!(get_fieldname_enum_val(&attrs, "name"), Some(&literal("\"Amazingly\"")));
    assert_eq!(get_fieldname_enum_val(&attrs, "derive"), Some(&group("Debug , Clone")));
    assert_eq!(get_fieldname_enum_val(&attrs, "derive_mut"), Some(&group("Debug")));
    assert_eq!(get_fieldname_enum_val(&attrs, "derive_all"), None);
    // Any token is a name, and what stands between it and the value is not looked at.
    assert_eq!(get_fieldname_enum_val(&attrs, "="), Some(&punct(",")));
    assert_eq!(get_fieldname_enum_val(&attrs, "\"Amazingly\""), Some(&ident("derive")));
    assert_eq!(get_fieldname_enum_val(&attrs, "[Debug , Clone]"), Some(&ident("derive_mut")));
}

#[test]
fn option_without_value_is_absent() {
    let attrs = vec![list("fieldname_enum", vec![ident("name")])];
    assert_eq!(get_fieldname_enum_val(&attrs, "name"), None);
    let attrs = vec![list("fieldname_enum", vec![ident("name"), punct("=")])];
    assert_eq!(get_fieldname_enum_val(&attrs, "name"), None);
    let attrs = vec![list("fieldname_enum", vec![])];
    assert_eq!(get_fieldname_enum_val(&attrs, "name"), None);
    assert_eq!(get_fieldname_enum_val(&vec![], "name"), None);
}

#[test]
fn option_is_read_from_the_first_occurrence_of_its_name() {
    let attrs = vec![list(
        "fieldname_enum",
        vec![
            ident("name"),
            punct("="),
            literal("\"First\""),
            punct(","),
            ident("name"),
            punct("="),
            literal("\"Second\""),
        ],
    )];
    assert_eq!(retrieve_enum_name(&attrs), Some(String::from("First")));
    // A first occurrence without a value hides a later one in the same attribute.
    let attrs = vec![list("fieldname_enum", vec![ident("x"), ident("derive"), ident("derive")])];
    assert_eq!(get_fieldname_enum_val(&attrs, "derive"), None);
}

#[test]
fn option_is_read_from_the_first_attribute_that_holds_it() {
    let attrs = vec![
        Attribute::Path { path: path(&["fieldname_enum"]) },
        name_value("fieldname_enum", "name"),
        list("allow", vec![ident("name"), punct("="), literal("\"Allowed\"")]),
        list("fieldname_enum", vec![ident("derive"), punct("="), group("Debug")]),
        list("fieldname_enum", vec![ident("name")]),
        list("fieldname_enum", vec![ident("name"), punct("="), literal("\"Third\"")]),
        list("fieldname_enum", vec![ident("name"), punct("="), literal("\"Fourth\"")]),
    ];
    assert_eq!(retrieve_enum_name(&attrs), Some(String::from("Third")));
    assert_eq!(retrieve_derives(&attrs, "derive"), Some(String::from("Debug")));
}

#[test]
fn attribute_is_known_by_the_first_segment_of_its_path() {
    let tokens = vec![ident("name"), punct("="), literal("\"Named\"")];
    let attrs = vec![Attribute::List { path: path(&["fieldname_enum", "more"]), tokens: tokens.clone() }];
    assert_eq!(retrieve_enum_name(&attrs), Some(String::from("Named")));
    let attrs = vec![Attribute::List { path: path(&["more", "fieldname_enum"]), tokens: tokens.clone() }];
    assert_eq!(retrieve_enum_name(&attrs), None);
    let attrs = vec![Attribute::List { path: vec![], tokens }];
    assert_eq!(retrieve_enum_name(&attrs), None);
}

#[test]
fn enum_name_is_the_literal_without_its_quotes() {
    assert_eq!(retrieve_enum_name(&amazingly()), Some(String::from("Amazingly")));
    let named = |value: TokenTree| vec![list("fieldname_enum", vec![ident("name"), punct("="), value])];
    assert_eq!(retrieve_enum_name(&named(literal("\"\""))), Some(String::new()));
    assert_eq!(retrieve_enum_name(&named(literal("\"é\""))), Some(String::from("é")));
    assert_eq!(retrieve_enum_name(&named(literal("123"))), Some(String::from("2")));
    assert_eq!(retrieve_enum_name(&named(literal("1"))), None);
    assert_eq!(retrieve_enum_name(&named(ident("Amazingly"))), None);
    assert_eq!(retrieve_enum_name(&named(group("Amazingly"))), None);
    assert_eq!(retrieve_enum_name(&vec![]), None);
}

#[test]
fn derives_are_the_contents_of_the_group() {
    let attrs = amazingly();
    assert_eq!(retrieve_derives(&attrs, "derive"), Some(String::from("Debug , Clone")));
    assert_eq!(retrieve_derives(&attrs, "derive_mut"), Some(String::from("Debug")));
    assert_eq!(retrieve_derives(&attrs, "derive_all"), None);
    // The value of `name` is no group.
    assert_eq!(retrieve_derives(&attrs, "name"), None);
    let empty = vec![list("fieldname_enum", vec![ident("derive"), punct("="), group("")])];
    assert_eq!(retrieve_derives(&empty, "derive"), Some(String::new()));
}

#[test]
fn explicit_tag_is_read_from_the_first_attribute_that_gives_one() {
    assert_eq!(retrieve_fieldname(&vec![]), None);
    assert_eq!(
        retrieve_fieldname(&vec![name_value("fieldname", "AmazingAge")]),
        Some(String::from("AmazingAge"))
    );
    let attrs = vec![
        name_value("doc", " The age."),
        Attribute::Path { path: path(&["fieldname"]) },
        list("fieldname", vec![literal("\"Listed\"")]),
        Attribute::NameValue { path: path(&["fieldname"]), value: AttrValue::Other },
        Attribute::NameValue { path: vec![], value: AttrValue::Str(String::from("Pathless")) },
        name_value("fieldname", "First"),
        name_value("fieldname", "Second"),
    ];
    assert_eq!(retrieve_fieldname(&attrs), Some(String::from("First")));
    assert_eq!(retrieve_fieldname(&attrs[..5].to_vec()), None);
    assert_eq!(retrieve_fieldname(&vec![name_value("fieldname_enum", "Other")]), None);
    assert_eq!(retrieve_fieldname(&vec![name_value("Fieldname", "Other")]), None);
}

fn field(name: &str, type_signature: &str, explicit_tag: Option<&str>) -> FieldDescriptor {
    FieldDescriptor {
        name: String::from(name),
        type_signature: String::from(type_signature),
        explicit_tag: explicit_tag.map(String::from),
    }
}

fn field_map() -> Vec<FieldDescriptor> {
    vec![
        field("name", "String", None),
        field("age", "i64", Some("AmazingAge")),
        field("dog_age", "i64", None),
        field("nick", "std :: string :: String", None),
        field("cat_age", "i64", None),
        field("years", "u8", Some("AmazingAge")),
        field("title", "& 'a str", Some("String")),
    ]
}

#[test]
fn resolved_tag_is_explicit_or_canonical() {
    let tags: Vec<String> = field_map().iter().map(|field| field.tag()).collect();
    assert_eq!(tags, ["String", "AmazingAge", "I64", "String", "I64", "AmazingAge", "String"]);
}

#[test]
fn one_case_for_each_distinct_tag() {
    let shared = generate_enum_variants(&field_map(), false);
    let summary: Vec<(&str, &str, Ownership)> = shared
        .iter()
        .map(|case| (case.tag.as_str(), case.representative_type.as_str(), case.ownership))
        .collect();
    assert_eq!(
        summary,
        [
            ("String", "String", Ownership::Shared),
            ("AmazingAge", "i64", Ownership::Shared),
            ("I64", "i64", Ownership::Shared),
        ]
    );
    let exclusive = generate_enum_variants(&field_map(), true);
    let summary: Vec<(&str, &str, Ownership)> = exclusive
        .iter()
        .map(|case| (case.tag.as_str(), case.representative_type.as_str(), case.ownership))
        .collect();
    assert_eq!(
        summary,
        [
            ("String", "String", Ownership::Exclusive),
            ("AmazingAge", "i64", Ownership::Exclusive),
            ("I64", "i64", Ownership::Exclusive),
        ]
    );
    assert!(generate_enum_variants(&vec![], false).is_empty());
}

#[test]
fn cases_are_the_fields_unique_by_tag() {
    let signatures = ["u8", "U8", "Option<u8>", "Option < u8 >", "Vec<u8>", "T", "t", "String"];
    let overrides = [None, Some("U8"), Some("T"), None, Some("OptionU8"), None];
    let mut fields = Vec::new();
    for (i, signature) in signatures.iter().cycle().take(41).enumerate() {
        fields.push(field(&format!("field_{}", i), signature, overrides[i % overrides.len()]));
    }
    for len in 0..=fields.len() {
        let fields = fields[..len].to_vec();
        let expected: Vec<VariantCase> = fields
            .iter()
            .unique_by(|field| field.tag())
            .map(|field| VariantCase {
                tag: field.tag(),
                representative_type: field.type_signature.clone(),
                ownership: Ownership::Shared,
            })
            .collect();
        assert_eq!(generate_enum_variants(&fields, false), expected);
    }
}

#[test]
fn one_arm_for_each_field() {
    let arms = generate_match_arms(&field_map()[..3].to_vec(), "Amazingly", false);
    let arm = |field_name: &str, tag: &str, ownership: Ownership| MatchArm {
        field_name: String::from(field_name),
        union_name: String::from("Amazingly"),
        tag: String::from(tag),
        ownership,
    };
    assert_eq!(
        arms,
        vec![
            arm("name", "String", Ownership::Shared),
            arm("age", "AmazingAge", Ownership::Shared),
            arm("dog_age", "I64", Ownership::Shared),
        ]
    );
    let arms = generate_match_arms(&field_map()[..2].to_vec(), "Amazingly", true);
    assert_eq!(
        arms,
        vec![
            arm("name", "String", Ownership::Exclusive),
            arm("age", "AmazingAge", Ownership::Exclusive),
        ]
    );
    assert!(generate_match_arms(&vec![], "Amazingly", true).is_empty());
}

#[test]
fn dispatch_takes_the_first_arm_of_the_name() {
    let mut arms = generate_match_arms(&field_map(), "Amazingly", false);
    assert_eq!(find_arm(&arms, "name"), Some(0));
    assert_eq!(find_arm(&arms, "cat_age"), Some(4));
    assert_eq!(find_arm(&arms, "title"), Some(6));
    assert_eq!(find_arm(&arms, "Title"), None);
    assert_eq!(find_arm(&arms, ""), None);
    arms[0].field_name = String::from("title");
    assert_eq!(find_arm(&arms, "title"), Some(0));
    assert_eq!(find_arm(&arms, "name"), None);
    assert_eq!(find_arm(&vec![], "name"), None);
}

#[test]
fn ownership_of_a_union() {
    assert_eq!(Ownership::from_mut(false), Ownership::Shared);
    assert_eq!(Ownership::from_mut(true), Ownership::Exclusive);
}

#[test]
fn token_prints_as_its_text() {
    assert_eq!(ident("name").to_text(), "name");
    assert_eq!(punct("=").to_text(), "=");
    assert_eq!(literal("\"Amazingly\"").to_text(), "\"Amazingly\"");
    assert_eq!(group("Debug , Clone").to_text(), "[Debug , Clone]");
}

//! The customization layer: what a record's and a field's attributes say of
//! the generated names and capabilities.

use vstd::prelude::*;
use crate::schema::{AttrValue, Attribute, TokenTree};
use crate::first::{first_some, first_true, lemma_first_some_is, lemma_first_true_is};
use crate::text::{option_view, str_eq};

verus! {

/// Whether the first segment of `path` is `name`.
pub open spec fn path_starts_with(path: Seq<String>, name: Seq<char>) -> bool {
    path.len() > 0 && path[0]@ == name
}

/// The index of the first token that prints as `name`; `tokens.len()` if
/// there is none.
pub open spec fn first_named(tokens: Seq<TokenTree>, name: Seq<char>) -> int {
    first_true(Seq::new(tokens.len(), |i: int| tokens[i].text() == name))
}

/// The token two places after the first token that prints as `name`: in
/// `name = value`, the value.
pub open spec fn value_in_tokens(tokens: Seq<TokenTree>, name: Seq<char>) -> Option<TokenTree> {
    let at = first_named(tokens, name) + 2;
    if 0 <= at < tokens.len() {
        Some(tokens[at])
    } else {
        None
    }
}

/// The value of the option `name` in `attr`, where `attr` is a
/// `fieldname_enum(..)` that holds one.
pub open spec fn value_in_attribute(attr: Attribute, name: Seq<char>) -> Option<TokenTree> {
    match attr {
        Attribute::List { path, tokens } => if path_starts_with(path@, "fieldname_enum"@) {
            value_in_tokens(tokens@, name)
        } else {
            None
        },
        _ => None,
    }
}

/// The value of the record-level option `name`: that of the first attribute
/// that holds one.
pub open spec fn fieldname_enum_val(attrs: Seq<Attribute>, name: Seq<char>) -> Option<TokenTree> {
    first_some(Seq::new(attrs.len(), |i: int| value_in_attribute(attrs[i], name)))
}

/// The name that the record's attributes give to the generated union: the
/// value of `name`, where it is a literal, without its first and last
/// character (the quotes). A literal shorter than two characters names
/// nothing.
pub open spec fn enum_name(attrs: Seq<Attribute>) -> Option<Seq<char>> {
    match fieldname_enum_val(attrs, "name"@) {
        Some(TokenTree::Literal(lit)) => if lit@.len() >= 2 {
            Some(lit@.subrange(1, lit@.len() - 1))
        } else {
            None
        },
        _ => None,
    }
}

/// The capabilities listed under the record-level option `derive_group`: what
/// stands between the delimiters of its value, where that is a group.
pub open spec fn derives(attrs: Seq<Attribute>, derive_group: Seq<char>) -> Option<Seq<char>> {
    match fieldname_enum_val(attrs, derive_group) {
        Some(TokenTree::Group(group)) => Some(group.stream@),
        _ => None,
    }
}

/// The tag that `attr` gives to its field, where `attr` is
/// `fieldname = "Tag"`.
pub open spec fn tag_in_attribute(attr: Attribute) -> Option<Seq<char>> {
    match attr {
        Attribute::NameValue { path, value } => if path_starts_with(path@, "fieldname"@) {
            match value {
                AttrValue::Str(tag) => Some(tag@),
                AttrValue::Other => None,
            }
        } else {
            None
        },
        _ => None,
    }
}

/// The tag that a field's attributes give it: that of the first attribute
/// that gives one.
pub open spec fn explicit_tag(attrs: Seq<Attribute>) -> Option<Seq<char>> {
    first_some(Seq::new(attrs.len(), |i: int| tag_in_attribute(attrs[i])))
}

/// An index that holds the first token printed as `name` is the one that
/// `first_named` gives.
pub proof fn lemma_first_named_is(tokens: Seq<TokenTree>, name: Seq<char>, k: int)
    requires
        0 <= k <= tokens.len(),
        forall|j: int| 0 <= j < k ==> (#[trigger] tokens[j]).text() != name,
        k < tokens.len() ==> tokens[k].text() == name,
    ensures
        first_named(tokens, name) == k,
{
    lemma_first_true_is(Seq::new(tokens.len(), |i: int| tokens[i].text() == name), k);
}

/// Whether the first segment of `path` is `name`.
fn starts_with(path: &Vec<String>, name: &str) -> (r: bool)
    ensures
        r == path_starts_with(path@, name@),
{
    path.len() > 0 && str_eq(path[0].as_str(), name)
}

/// The value of the option `attr_name` among `tokens`.
fn find_in_tokens<'a>(tokens: &'a Vec<TokenTree>, attr_name: &str) -> (r: Option<&'a TokenTree>)
    ensures
        match r {
            Some(token) => value_in_tokens(tokens@, attr_name@) == Some(*token),
            None => value_in_tokens(tokens@, attr_name@) is None,
        },
{
    let n: usize = tokens.len();
    let mut i: usize = 0;
    while i < n && !str_eq(tokens[i].to_text(), attr_name)
        invariant
            n == tokens.len(),
            i <= n,
            forall|j: int| 0 <= j < i ==> (#[trigger] tokens@[j]).text() != attr_name@,
        decreases n - i,
    {
        i = i + 1;
    }
    proof {
        lemma_first_named_is(tokens@, attr_name@, i as int);
    }
    if i < n && n - i > 2 {
        Some(&tokens[i + 2])
    } else {
        None
    }
}

/// The value of the option `attr_name` in `attr`.
fn find_in_attribute<'a>(attr: &'a Attribute, attr_name: &str) -> (r: Option<&'a TokenTree>)
    ensures
        match r {
            Some(token) => value_in_attribute(*attr, attr_name@) == Some(*token),
            None => value_in_attribute(*attr, attr_name@) is None,
        },
{
    match attr {
        Attribute::List { path, tokens } => {
            if starts_with(path, "fieldname_enum") {
                find_in_tokens(tokens, attr_name)
            } else {
                None
            }
        },
        _ => None,
    }
}

/// Looks up the record-level option `attr_name` in the `fieldname_enum(..)`
/// attributes of `attrs`.
pub fn get_fieldname_enum_val<'a>(attrs: &'a Vec<Attribute>, attr_name: &str) -> (r: Option<
    &'a TokenTree,
>)
    ensures
        match r {
            Some(token) => fieldname_enum_val(attrs@, attr_name@) == Some(*token),
            None => fieldname_enum_val(attrs@, attr_name@) is None,
        },
{
    let ghost values = Seq::new(
        attrs@.len(),
        |i: int| value_in_attribute(attrs@[i], attr_name@),
    );
    let n: usize = attrs.len();
    let mut i: usize = 0;
    while i < n
        invariant
            n == attrs.len(),
            i <= n,
            values == Seq::new(attrs@.len(), |i: int| value_in_attribute(attrs@[i], attr_name@)),
            forall|j: int| 0 <= j < i ==> (#[trigger] values[j]) is None,
        decreases n - i,
    {
        let found = find_in_attribute(&attrs[i], attr_name);
        if found.is_some() {
            proof {
                lemma_first_some_is(values, i as int);
            }
            return found;
        }
        i = i + 1;
    }
    proof {
        lemma_first_some_is(values, n as int);
    }
    None
}

/// The name that the record's attributes give to the generated union.
pub fn retrieve_enum_name(attrs: &Vec<Attribute>) -> (name: Option<String>)
    ensures
        option_view(name) == enum_name(attrs@),
{
    match get_fieldname_enum_val(attrs, "name") {
        Some(TokenTree::Literal(lit)) => {
            let len: usize = lit.as_str().unicode_len();
            if len >= 2 {
                Some(lit.as_str().substring_char(1, len - 1).to_owned())
            } else {
                None
            }
        },
        _ => None,
    }
}

/// The capabilities that the record's attributes list under `derive_group`.
pub fn retrieve_derives(attrs: &Vec<Attribute>, derive_group: &str) -> (list: Option<String>)
    ensures
        option_view(list) == derives(attrs@, derive_group@),
{
    match get_fieldname_enum_val(attrs, derive_group) {
        Some(TokenTree::Group(group)) => Some(group.stream.clone()),
        _ => None,
    }
}

/// The tag that `attr` gives to its field.
fn tag_of_attribute(attr: &Attribute) -> (tag: Option<String>)
    ensures
        option_view(tag) == tag_in_attribute(*attr),
{
    match attr {
        Attribute::NameValue { path, value } => {
            if starts_with(path, "fieldname") {
                match value {
                    AttrValue::Str(tag) => Some(tag.clone()),
                    AttrValue::Other => None,
                }
            } else {
                None
            }
        },
        _ => None,
    }
}

/// The tag that a field's attributes give it.
pub fn retrieve_fieldname(attrs: &Vec<Attribute>) -> (tag: Option<String>)
    ensures
        option_view(tag) == explicit_tag(attrs@),
{
    let ghost tags = Seq::new(attrs@.len(), |i: int| tag_in_attribute(attrs@[i]));
    let n: usize = attrs.len();
    let mut i: usize = 0;
    while i < n
        invariant
            n == attrs.len(),
            i <= n,
            tags == Seq::new(attrs@.len(), |i: int| tag_in_attribute(attrs@[i])),
            forall|j: int| 0 <= j < i ==> (#[trigger] tags[j]) is None,
        decreases n - i,
    {
        let found = tag_of_attribute(&attrs[i]);
        if found.is_some() {
            proof {
                lemma_first_some_is(tags, i as int);
            }
            return found;
        }
        i = i + 1;
    }
    proof {
        lemma_first_some_is(tags, n as int);
    }
    None
}

} // verus!

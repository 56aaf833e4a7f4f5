//! The record declaration that the generator reads: a record's name, its
//! attributes, and its fields with theirs, as plain values.

use vstd::prelude::*;

verus! {

/// Tokens between delimiters, taken as one token.
#[derive(Clone, Debug, PartialEq, Eq)]
pub struct Group {
    /// The group as it prints, delimiters included.
    pub text: String,
    /// What stands between the delimiters, as it prints.
    pub stream: String,
}

/// One token of an attribute's argument list.
#[derive(Clone, Debug, PartialEq, Eq)]
pub enum TokenTree {
    Group(Group),
    /// A word, as it prints.
    Ident(String),
    /// A punctuation character, as it prints.
    Punct(String),
    /// A literal as it prints: a string literal with its quotes.
    Literal(String),
}

impl TokenTree {
    /// The token as it prints.
    pub open spec fn text(self) -> Seq<char> {
        match self {
            TokenTree::Group(group) => group.text@,
            TokenTree::Ident(text) => text@,
            TokenTree::Punct(text) => text@,
            TokenTree::Literal(text) => text@,
        }
    }

    /// The token as it prints.
    pub fn to_text(&self) -> (text: &str)
        ensures
            text@ == self.text(),
    {
        match self {
            TokenTree::Group(group) => group.text.as_str(),
            TokenTree::Ident(text) => text.as_str(),
            TokenTree::Punct(text) => text.as_str(),
            TokenTree::Literal(text) => text.as_str(),
        }
    }
}

/// The value of an attribute of the form `path = value`.
#[derive(Clone, Debug, PartialEq, Eq)]
pub enum AttrValue {
    /// A string literal; the string that it denotes, without quotes.
    Str(String),
    /// Any other expression.
    Other,
}

/// An attribute, by the three forms that one can take. A path is held as the
/// names of its segments.
#[derive(Clone, Debug, PartialEq, Eq)]
pub enum Attribute {
    /// `#[path]`
    Path { path: Vec<String> },
    /// `#[path(tokens)]`
    List { path: Vec<String>, tokens: Vec<TokenTree> },
    /// `#[path = value]`
    NameValue { path: Vec<String>, value: AttrValue },
}

/// A field of a record declaration.
#[derive(Clone, Debug, PartialEq, Eq)]
pub struct FieldDecl {
    pub attrs: Vec<Attribute>,
    /// The field's name, where it has one.
    pub ident: Option<String>,
    /// The field's type signature, as it prints.
    pub ty: String,
}

/// The fields of a record declaration, by their shape.
#[derive(Clone, Debug, PartialEq, Eq)]
pub enum Fields {
    /// `{ name: Type, .. }`
    Named(Vec<FieldDecl>),
    /// `(Type, ..)`
    Unnamed,
    /// No fields at all.
    Unit,
}

/// What a declaration declares.
#[derive(Clone, Debug, PartialEq, Eq)]
pub enum Data {
    Struct(Fields),
    Enum,
    Union,
}

/// A declaration as the generator receives it.
#[derive(Clone, Debug, PartialEq, Eq)]
pub struct Declaration {
    pub attrs: Vec<Attribute>,
    /// The declared visibility, as it prints; empty where none is written.
    pub vis: String,
    pub ident: String,
    pub data: Data,
}

} // verus!

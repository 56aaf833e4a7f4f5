//! Characters and strings: the classes of characters that a tag is made of,
//! and the few operations of `char`, `str` and `String` that are used on
//! them.

use vstd::prelude::*;

verus! {

/// Whether `c` has the Unicode property `Uppercase`.
pub uninterp spec fn unicode_uppercase(c: char) -> bool;

/// `char::is_uppercase` decides the Unicode property `Uppercase`; its result
/// depends on the character alone, and is named rather than spelled out.
pub assume_specification[ char::is_uppercase ](c: char) -> (r: bool)
    ensures
        r == unicode_uppercase(c),
;

/// `String::push` appends the one character to the end of the string.
pub assume_specification[ String::push ](s: &mut String, c: char)
    ensures
        final(s)@ == old(s)@.push(c),
;

/// `==` on `str` holds of two strings that are made of the same characters.
pub assume_specification[ <str as PartialEq>::eq ](a: &str, b: &str) -> (r: bool)
    ensures
        r == (a@ == b@),
;

/// An upper-case letter: among the ASCII characters, `A` to `Z`; beyond them,
/// a character with the Unicode property `Uppercase`.
pub open spec fn uppercase_letter(c: char) -> bool {
    if c <= '\x7f' {
        'A' <= c && c <= 'Z'
    } else {
        unicode_uppercase(c)
    }
}

/// An ASCII letter or digit.
pub open spec fn ascii_alphanumeric(c: char) -> bool {
    ('0' <= c && c <= '9') || ('a' <= c && c <= 'z') || ('A' <= c && c <= 'Z')
}

/// The upper-case form of an ASCII lower-case letter; any other character
/// unchanged.
pub open spec fn ascii_uppercase(c: char) -> char {
    if 'a' <= c && c <= 'z' {
        ((c as u8) - 32) as char
    } else {
        c
    }
}

/// What an optional string holds, as characters.
pub open spec fn option_view(text: Option<String>) -> Option<Seq<char>> {
    match text {
        Some(text) => Some(text@),
        None => None,
    }
}

/// The letters and digits of `s`, in their order.
pub open spec fn alphanumerics(s: Seq<char>) -> Seq<char>
    decreases s.len(),
{
    if s.len() == 0 {
        s
    } else if ascii_alphanumeric(s.last()) {
        alphanumerics(s.drop_last()).push(s.last())
    } else {
        alphanumerics(s.drop_last())
    }
}

/// Whether `s` is made of ASCII letters and digits alone.
pub open spec fn all_alphanumeric(s: Seq<char>) -> bool {
    forall|i: int| 0 <= i < s.len() ==> ascii_alphanumeric(#[trigger] s[i])
}

/// `s` with its first character in upper case.
pub open spec fn capitalized(s: Seq<char>) -> Seq<char> {
    if s.len() == 0 {
        s
    } else {
        seq![ascii_uppercase(s.first())] + s.drop_first()
    }
}

/// Whether `c` is an upper-case letter.
pub fn is_uppercase_letter(c: char) -> (r: bool)
    ensures
        r == uppercase_letter(c),
{
    if c <= '\x7f' {
        c >= 'A' && c <= 'Z'
    } else {
        c.is_uppercase()
    }
}

/// Whether `c` is an ASCII letter or digit.
pub fn is_ascii_alphanumeric(c: char) -> (r: bool)
    ensures
        r == ascii_alphanumeric(c),
{
    (c >= '0' && c <= '9') || (c >= 'a' && c <= 'z') || (c >= 'A' && c <= 'Z')
}

/// `c` in upper case, where it is an ASCII lower-case letter; else `c`.
pub fn to_ascii_uppercase(c: char) -> (r: char)
    ensures
        r == ascii_uppercase(c),
{
    if c >= 'a' && c <= 'z' {
        let b: u8 = c as u8;
        (b - 32) as char
    } else {
        c
    }
}

/// Whether two strings are made of the same characters.
pub fn str_eq(a: &str, b: &str) -> (r: bool)
    ensures
        r == (a@ == b@),
{
    *a == *b
}

/// The characters of `s`, in a vector.
pub fn chars_of(s: &str) -> (v: Vec<char>)
    ensures
        v@ == s@,
{
    let mut v: Vec<char> = Vec::new();
    for c in it: s.chars()
        invariant
            v@ == it.seq().take(it.index() as int),
    {
        v.push(c);
    }
    v
}

/// What `alphanumerics` keeps is letters and digits.
pub proof fn lemma_alphanumerics(s: Seq<char>)
    ensures
        all_alphanumeric(alphanumerics(s)),
    decreases s.len(),
{
    if s.len() != 0 {
        lemma_alphanumerics(s.drop_last());
    }
}

} // verus!

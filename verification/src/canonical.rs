//! The tag canonicalizer: from a field's type signature to the short tag that
//! names its case.

use vstd::prelude::*;
use crate::first::{first_true, lemma_first_true, lemma_first_true_is};
use crate::text::{
    all_alphanumeric, alphanumerics, ascii_alphanumeric, ascii_uppercase, capitalized, chars_of,
    is_ascii_alphanumeric, is_uppercase_letter, lemma_alphanumerics, to_ascii_uppercase,
    uppercase_letter,
};

verus! {

/// The index of the first `<` of `s`; `s.len()` if it has none.
pub open spec fn first_open(s: Seq<char>) -> int {
    first_true(Seq::new(s.len(), |i: int| s[i] == '<'))
}

/// The tag of the signature `sig`, where `upper` says of each of its
/// characters whether it is an upper-case letter.
///
/// From the first upper-case letter on, the letters and digits up to the
/// first `<` are kept, and what follows that `<` is shortened in turn and
/// appended. A signature without an upper-case letter gives its letters and
/// digits, the first of them in upper case.
pub open spec fn tag_of(sig: Seq<char>, upper: Seq<bool>) -> Seq<char>
    recommends
        upper.len() == sig.len(),
    decreases sig.len(),
{
    let from = first_true(upper);
    if 0 <= from < sig.len() {
        let named = sig.skip(from);
        let open = first_open(named);
        if 0 <= open < named.len() {
            alphanumerics(named.take(open)) + tag_of(
                named.skip(open + 1),
                upper.skip(from + open + 1),
            )
        } else {
            alphanumerics(named)
        }
    } else {
        capitalized(alphanumerics(sig))
    }
}

/// Of each character of `sig`, whether it is an upper-case letter.
pub open spec fn uppercase_flags(sig: Seq<char>) -> Seq<bool> {
    Seq::new(sig.len(), |i: int| uppercase_letter(sig[i]))
}

/// The index of the first upper-case letter of `sig`; `sig.len()` if it has
/// none.
pub open spec fn first_uppercase(sig: Seq<char>) -> int {
    first_true(uppercase_flags(sig))
}

/// The tag of a type signature.
pub open spec fn canonical_tag(sig: Seq<char>) -> Seq<char> {
    tag_of(sig, uppercase_flags(sig))
}

/// An index that holds the first `<` is the one that `first_open` gives.
pub proof fn lemma_first_open_is(s: Seq<char>, k: int)
    requires
        0 <= k <= s.len(),
        forall|j: int| 0 <= j < k ==> #[trigger] s[j] != '<',
        k < s.len() ==> s[k] == '<',
    ensures
        first_open(s) == k,
{
    lemma_first_true_is(Seq::new(s.len(), |i: int| s[i] == '<'), k);
}

/// The place of the first `true` at or after `from`.
fn find_uppercase(upper: &Vec<bool>, from: usize) -> (k: usize)
    requires
        from <= upper.len(),
    ensures
        from <= k <= upper.len(),
        k - from == first_true(upper@.skip(from as int)),
{
    let n: usize = upper.len();
    let mut i: usize = from;
    while i < n && !upper[i]
        invariant
            n == upper.len(),
            from <= i <= n,
            forall|j: int| from <= j < i ==> !#[trigger] upper@[j],
        decreases n - i,
    {
        i = i + 1;
    }
    proof {
        lemma_first_true_is(upper@.skip(from as int), i - from);
    }
    i
}

/// The place of the first `<` at or after `from`.
fn find_open(chars: &Vec<char>, from: usize) -> (k: usize)
    requires
        from <= chars.len(),
    ensures
        from <= k <= chars.len(),
        k - from == first_open(chars@.skip(from as int)),
{
    let n: usize = chars.len();
    let mut i: usize = from;
    while i < n && chars[i] != '<'
        invariant
            n == chars.len(),
            from <= i <= n,
            forall|j: int| from <= j < i ==> #[trigger] chars@[j] != '<',
        decreases n - i,
    {
        i = i + 1;
    }
    proof {
        lemma_first_open_is(chars@.skip(from as int), i - from);
    }
    i
}

/// Appends the letters and digits of `chars[lo..hi]` to `tag`.
fn push_alphanumerics(tag: &mut String, chars: &Vec<char>, lo: usize, hi: usize)
    requires
        lo <= hi <= chars.len(),
    ensures
        final(tag)@ == old(tag)@ + alphanumerics(chars@.subrange(lo as int, hi as int)),
{
    let mut i: usize = lo;
    assert(tag@ + alphanumerics(chars@.subrange(lo as int, lo as int)) == tag@);
    while i < hi
        invariant
            lo <= i <= hi <= chars.len(),
            tag@ == old(tag)@ + alphanumerics(chars@.subrange(lo as int, i as int)),
        decreases hi - i,
    {
        let c: char = chars[i];
        proof {
            let next = chars@.subrange(lo as int, i + 1);
            assert(next.drop_last() == chars@.subrange(lo as int, i as int));
            assert(next.last() == c);
        }
        if is_ascii_alphanumeric(c) {
            tag.push(c);
        }
        i = i + 1;
    }
}

/// Appends the letters and digits of `chars[lo..]` to `tag`, the first of
/// them in upper case.
fn push_capitalized(tag: &mut String, chars: &Vec<char>, lo: usize)
    requires
        lo <= chars.len(),
    ensures
        final(tag)@ == old(tag)@ + capitalized(
            alphanumerics(chars@.subrange(lo as int, chars.len() as int)),
        ),
{
    let n: usize = chars.len();
    let mut i: usize = lo;
    let mut seen: bool = false;
    assert(tag@ + capitalized(alphanumerics(chars@.subrange(lo as int, lo as int))) == tag@);
    while i < n
        invariant
            n == chars.len(),
            lo <= i <= n,
            seen == (alphanumerics(chars@.subrange(lo as int, i as int)).len() > 0),
            tag@ == old(tag)@ + capitalized(alphanumerics(chars@.subrange(lo as int, i as int))),
        decreases n - i,
    {
        let c: char = chars[i];
        proof {
            let kept = alphanumerics(chars@.subrange(lo as int, i as int));
            let next = chars@.subrange(lo as int, i + 1);
            assert(next.drop_last() == chars@.subrange(lo as int, i as int));
            assert(next.last() == c);
            if ascii_alphanumeric(c) {
                if kept.len() > 0 {
                    assert(capitalized(kept.push(c)) == capitalized(kept).push(c));
                } else {
                    assert(capitalized(kept.push(c)) == seq![ascii_uppercase(c)]);
                }
            }
        }
        if is_ascii_alphanumeric(c) {
            if seen {
                tag.push(c);
            } else {
                tag.push(to_ascii_uppercase(c));
                seen = true;
            }
        }
        i = i + 1;
    }
}

/// Shortens the signature `chars` to its tag, where `upper` says of each of
/// its characters whether it is an upper-case letter.
pub fn shorten_classified(chars: &Vec<char>, upper: &Vec<bool>) -> (tag: String)
    requires
        upper.len() == chars.len(),
    ensures
        tag@ == tag_of(chars@, upper@),
{
    let n: usize = chars.len();
    let mut tag = String::new();
    let mut start: usize = 0;
    assert(chars@.skip(0) == chars@);
    assert(upper@.skip(0) == upper@);
    assert(tag@ + tag_of(chars@, upper@) == tag_of(chars@, upper@));
    loop
        invariant
            n == chars.len(),
            n == upper.len(),
            start <= n,
            tag_of(chars@, upper@) == tag@ + tag_of(
                chars@.skip(start as int),
                upper@.skip(start as int),
            ),
        decreases n - start,
    {
        let ghost rest = chars@.skip(start as int);
        let ghost rest_upper = upper@.skip(start as int);
        let from = find_uppercase(upper, start);
        if from == n {
            assert(rest == chars@.subrange(start as int, n as int));
            push_capitalized(&mut tag, chars, start);
            return tag;
        }
        let ghost named = rest.skip(from - start);
        assert(named == chars@.skip(from as int));
        let open = find_open(chars, from);
        assert(named.take(open - from) == chars@.subrange(from as int, open as int));
        push_alphanumerics(&mut tag, chars, from, open);
        if open == n {
            assert(named == chars@.subrange(from as int, n as int));
            return tag;
        }
        assert(named.skip(open - from + 1) == chars@.skip(open + 1));
        assert(rest_upper.skip(from - start + (open - from) + 1) == upper@.skip(open + 1));
        assert(tag_of(rest, rest_upper) == alphanumerics(named.take(open - from)) + tag_of(
            named.skip(open - from + 1),
            rest_upper.skip(from - start + (open - from) + 1),
        ));
        start = open + 1;
    }
}

/// Of each character of `chars`, whether it is an upper-case letter.
fn classify(chars: &Vec<char>) -> (upper: Vec<bool>)
    ensures
        upper@ == uppercase_flags(chars@),
{
    let n: usize = chars.len();
    let mut upper: Vec<bool> = Vec::new();
    let mut i: usize = 0;
    while i < n
        invariant
            n == chars.len(),
            i <= n,
            upper.len() == i,
            forall|j: int| 0 <= j < i ==> #[trigger] upper@[j] == uppercase_letter(chars@[j]),
        decreases n - i,
    {
        upper.push(is_uppercase_letter(chars[i]));
        i = i + 1;
    }
    assert(upper@ == uppercase_flags(chars@));
    upper
}

/// Shortens a type signature to its tag.
pub fn shorten_type(type_str: String) -> (tag: String)
    ensures
        tag@ == canonical_tag(type_str@),
{
    let chars = chars_of(type_str.as_str());
    let upper = classify(&chars);
    shorten_classified(&chars, &upper)
}

/// The name of the case for a field of type `ty`.
pub fn generate_variant_name(ty: &str) -> (tag: String)
    ensures
        tag@ == canonical_tag(ty@),
{
    shorten_type(ty.to_owned())
}

/// Canonicalization composes over generic arguments: where `head` holds an
/// upper-case letter and no `<` from that letter on, the tag of `head<rest`
/// is the letters and digits of `head` from that letter on, followed by the
/// tag of `rest`.
pub proof fn lemma_canonical_tag_of_generic(head: Seq<char>, rest: Seq<char>)
    requires
        first_uppercase(head) < head.len(),
        forall|j: int| first_uppercase(head) <= j < head.len() ==> #[trigger] head[j] != '<',
    ensures
        canonical_tag(head + seq!['<'] + rest) == alphanumerics(
            head.skip(first_uppercase(head)),
        ) + canonical_tag(rest),
{
    let sig = head + seq!['<'] + rest;
    let upper = uppercase_flags(sig);
    let from = first_uppercase(head);
    lemma_first_true(uppercase_flags(head));
    assert forall|j: int| 0 <= j < from implies !#[trigger] upper[j] by {
        assert(sig[j] == head[j]);
        assert(!uppercase_flags(head)[j]);
    }
    assert(sig[from] == head[from]);
    assert(uppercase_flags(head)[from]);
    lemma_first_true_is(upper, from);
    let named = sig.skip(from);
    let open = head.len() - from;
    assert forall|j: int| 0 <= j < open implies #[trigger] named[j] != '<' by {
        assert(named[j] == head[from + j]);
    }
    assert(named[open] == '<');
    lemma_first_open_is(named, open);
    assert(named.take(open) == head.skip(from));
    assert(named.skip(open + 1) == rest);
    assert(upper.skip(from + open + 1) == uppercase_flags(rest));
}

/// What stands before the first upper-case letter does not count: a
/// qualified path has the tag of the path without its qualification.
pub proof fn lemma_canonical_tag_drops_prefix(prefix: Seq<char>, sig: Seq<char>)
    requires
        first_uppercase(prefix) == prefix.len(),
        first_uppercase(sig) < sig.len(),
    ensures
        canonical_tag(prefix + sig) == canonical_tag(sig),
{
    let whole = prefix + sig;
    let from = first_uppercase(sig);
    lemma_first_true(uppercase_flags(prefix));
    lemma_first_true(uppercase_flags(sig));
    assert forall|j: int| 0 <= j < prefix.len() + from implies !#[trigger] uppercase_flags(
        whole,
    )[j] by {
        if j < prefix.len() {
            assert(whole[j] == prefix[j]);
            assert(!uppercase_flags(prefix)[j]);
        } else {
            assert(whole[j] == sig[j - prefix.len()]);
            assert(!uppercase_flags(sig)[j - prefix.len()]);
        }
    }
    assert(whole[prefix.len() + from] == sig[from]);
    assert(uppercase_flags(sig)[from]);
    lemma_first_true_is(uppercase_flags(whole), prefix.len() + from);
    assert(whole.skip(prefix.len() + from) == sig.skip(from));
    let named = sig.skip(from);
    let open = first_open(named);
    if 0 <= open < named.len() {
        assert(uppercase_flags(whole).skip(prefix.len() + from + open + 1) == uppercase_flags(
            sig,
        ).skip(from + open + 1));
    }
}

/// A signature without an upper-case letter has for its tag its letters and
/// digits, the first of them in upper case.
pub proof fn lemma_canonical_tag_of_lowercase(sig: Seq<char>)
    requires
        forall|j: int| 0 <= j < sig.len() ==> !uppercase_letter(#[trigger] sig[j]),
    ensures
        canonical_tag(sig) == capitalized(alphanumerics(sig)),
{
    lemma_first_true_is(uppercase_flags(sig), sig.len() as int);
}

/// A tag is made of ASCII letters and digits alone: punctuation, white space
/// and path separators are dropped from it.
pub proof fn lemma_tag_is_alphanumeric(sig: Seq<char>, upper: Seq<bool>)
    ensures
        all_alphanumeric(tag_of(sig, upper)),
    decreases sig.len(),
{
    let from = first_true(upper);
    if 0 <= from < sig.len() {
        let named = sig.skip(from);
        let open = first_open(named);
        if 0 <= open < named.len() {
            lemma_alphanumerics(named.take(open));
            lemma_tag_is_alphanumeric(named.skip(open + 1), upper.skip(from + open + 1));
        } else {
            lemma_alphanumerics(named);
        }
    } else {
        lemma_alphanumerics(sig);
        let kept = alphanumerics(sig);
        assert forall|i: int| 0 <= i < capitalized(kept).len() implies ascii_alphanumeric(
            #[trigger] capitalized(kept)[i],
        ) by {
            if i > 0 {
                assert(capitalized(kept)[i] == kept[i]);
            } else {
                assert(ascii_alphanumeric(kept[0]));
            }
        }
    }
}

/// The canonical tag of a signature is made of ASCII letters and digits
/// alone.
pub proof fn lemma_canonical_tag_is_alphanumeric(sig: Seq<char>)
    ensures
        all_alphanumeric(canonical_tag(sig)),
{
    lemma_tag_is_alphanumeric(sig, uppercase_flags(sig));
}

} // verus!

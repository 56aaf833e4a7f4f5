//! The first place in a sequence at which something holds.

use vstd::prelude::*;

verus! {

/// The index of the first `true` of `flags`; `flags.len()` if it has none.
pub open spec fn first_true(flags: Seq<bool>) -> int
    decreases flags.len(),
{
    if flags.len() == 0 {
        0
    } else if flags.first() {
        0
    } else {
        1 + first_true(flags.drop_first())
    }
}

/// The first of `items` that is `Some`; `None` if none is.
pub open spec fn first_some<A>(items: Seq<Option<A>>) -> Option<A> {
    let at = first_true(Seq::new(items.len(), |i: int| items[i] is Some));
    if 0 <= at < items.len() {
        items[at]
    } else {
        None
    }
}

/// `first_true` gives an index at which `flags` holds `true`, before which
/// it holds none; or the length of `flags`, which then holds none at all.
pub proof fn lemma_first_true(flags: Seq<bool>)
    ensures
        0 <= first_true(flags) <= flags.len(),
        first_true(flags) < flags.len() ==> flags[first_true(flags)],
        forall|j: int| 0 <= j < first_true(flags) ==> !#[trigger] flags[j],
    decreases flags.len(),
{
    if flags.len() != 0 && !flags.first() {
        let rest = flags.drop_first();
        lemma_first_true(rest);
        assert forall|j: int| 0 <= j < first_true(flags) implies !#[trigger] flags[j] by {
            if j > 0 {
                assert(flags[j] == rest[j - 1]);
            }
        }
    }
}

/// An index that holds the first `true` is the one that `first_true` gives.
pub proof fn lemma_first_true_is(flags: Seq<bool>, k: int)
    requires
        0 <= k <= flags.len(),
        forall|j: int| 0 <= j < k ==> !#[trigger] flags[j],
        k < flags.len() ==> flags[k],
    ensures
        first_true(flags) == k,
{
    lemma_first_true(flags);
    let found = first_true(flags);
    if found < k {
        assert(!flags[found]);
    }
}

/// Where the items before the index `k` are all `None`, `first_some` gives
/// the item at `k` if that is `Some`, and `None` if `k` is the length.
pub proof fn lemma_first_some_is<A>(items: Seq<Option<A>>, k: int)
    requires
        0 <= k <= items.len(),
        forall|j: int| 0 <= j < k ==> (#[trigger] items[j]) is None,
        k < items.len() ==> items[k] is Some,
    ensures
        first_some(items) == if k < items.len() {
            items[k]
        } else {
            None
        },
{
    lemma_first_true_is(Seq::new(items.len(), |i: int| items[i] is Some), k);
}

} // verus!

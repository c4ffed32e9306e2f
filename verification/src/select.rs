//! Keeping the items of a sequence that satisfy a condition.
use vstd::prelude::*;

verus! {

/// The items of `items` that `keep` holds of, in order.
pub open spec fn retained<A>(items: Seq<A>, keep: spec_fn(A) -> bool) -> Seq<A>
    decreases items.len(),
{
    if items.len() == 0 {
        Seq::empty()
    } else {
        let rest = retained(items.drop_last(), keep);
        if keep(items.last()) {
            rest.push(items.last())
        } else {
            rest
        }
    }
}

/// The position of the first item with `key(item) == want`, if any.
pub open spec fn first_where<A>(items: Seq<A>, key: spec_fn(A) -> Seq<char>, want: Seq<char>) -> Option<int> {
    if exists|i: int| 0 <= i < items.len() && key(#[trigger] items[i]) == want {
        Some(
            choose|i: int|
                0 <= i < items.len() && key(#[trigger] items[i]) == want && forall|j: int|
                    0 <= j < i ==> key(#[trigger] items[j]) != want,
        )
    } else {
        None
    }
}

/// A position holding `want` with none before it is the first one.
pub proof fn lemma_first_where<A>(items: Seq<A>, key: spec_fn(A) -> Seq<char>, want: Seq<char>, k: int)
    requires
        0 <= k < items.len(),
        key(items[k]) == want,
        forall|j: int| 0 <= j < k ==> key(#[trigger] items[j]) != want,
    ensures
        first_where(items, key, want) == Some(k),
{
    let c = choose|c: int|
        0 <= c < items.len() && key(#[trigger] items[c]) == want && forall|j: int|
            0 <= j < c ==> key(#[trigger] items[j]) != want;
    if c < k {
        assert(key(items[c]) != want);
    }
    if k < c {
        assert(key(items[k]) != want);
    }
}

} // verus!

//! First-match search over sequences, and the comparison of names that the
//! lookups of the source document rest on.

use vstd::prelude::*;

verus! {

/// Whether two string slices hold the same characters.
///
/// Calls `str::eq` of the standard library: the result is `true` exactly when
/// both slices have the same sequence of characters.
#[verifier::external_body]
pub(crate) fn same_text(a: &str, b: &str) -> (same: bool)
    ensures
        same == (a@ == b@),
{
    a == b
}

/// The first element of `items` that satisfies `wanted`, if there is one.
pub open spec fn first_where<T>(items: Seq<T>, wanted: spec_fn(T) -> bool) -> Option<T>
    decreases items.len(),
{
    if items.len() == 0 {
        None
    } else if wanted(items.first()) {
        Some(items.first())
    } else {
        first_where(items.drop_first(), wanted)
    }
}

/// Skipping elements that do not satisfy `wanted` leaves the first match
/// unchanged.
pub proof fn lemma_first_where_skip<T>(items: Seq<T>, wanted: spec_fn(T) -> bool, n: int)
    requires
        0 <= n <= items.len(),
        forall|i: int| 0 <= i < n ==> !wanted(#[trigger] items[i]),
    ensures
        first_where(items, wanted) == first_where(items.skip(n), wanted),
    decreases n,
{
    if n == 0 {
        assert(items.skip(0) =~= items);
    } else {
        let rest = items.drop_first();
        assert forall|i: int| 0 <= i < n - 1 implies !wanted(#[trigger] rest[i]) by {
            assert(rest[i] == items[i + 1]);
        }
        lemma_first_where_skip(rest, wanted, n - 1);
        assert(rest.skip(n - 1) =~= items.skip(n));
    }
}

/// A first match satisfies `wanted`, stands in `items`, and nothing before
/// it satisfies `wanted`; without a match nothing in `items` does.
pub proof fn lemma_first_where<T>(items: Seq<T>, wanted: spec_fn(T) -> bool)
    ensures
        match first_where(items, wanted) {
            Some(found) => exists|i: int|
                0 <= i < items.len() && #[trigger] items[i] == found && wanted(found)
                    && forall|j: int| 0 <= j < i ==> !wanted(#[trigger] items[j]),
            None => forall|i: int| 0 <= i < items.len() ==> !wanted(#[trigger] items[i]),
        },
    decreases items.len(),
{
    if items.len() == 0 {
    } else if wanted(items.first()) {
    } else {
        let rest = items.drop_first();
        lemma_first_where(rest, wanted);
        match first_where(rest, wanted) {
            Some(found) => {
                let i = choose|i: int|
                    0 <= i < rest.len() && #[trigger] rest[i] == found && wanted(found)
                        && forall|j: int| 0 <= j < i ==> !wanted(#[trigger] rest[j]);
                assert(items[i + 1] == found);
                assert forall|j: int| 0 <= j < i + 1 implies !wanted(#[trigger] items[j]) by {
                    if j > 0 {
                        assert(items[j] == rest[j - 1]);
                    }
                }
            },
            None => {
                assert forall|i: int| 0 <= i < items.len() implies !wanted(#[trigger] items[i]) by {
                    if i > 0 {
                        assert(items[i] == rest[i - 1]);
                    }
                }
            },
        }
    }
}

} // verus!

//! Finding the first element of a sequence that passes a test.

use vstd::prelude::*;

verus! {

/// Whether `index` is where the first element of `items` that passes `test`
/// stands.
pub open spec fn is_first<T>(items: Seq<T>, test: spec_fn(T) -> bool, index: int) -> bool {
    &&& 0 <= index < items.len()
    &&& test(items[index])
    &&& forall|j: int| 0 <= j < index ==> !test(#[trigger] items[j])
}

/// Whether some element of `items` passes `test`.
pub open spec fn any<T>(items: Seq<T>, test: spec_fn(T) -> bool) -> bool {
    exists|i: int| 0 <= i < items.len() && test(#[trigger] items[i])
}

/// Where the first element of `items` that passes `test` stands, if one does.
pub open spec fn first_index<T>(items: Seq<T>, test: spec_fn(T) -> bool) -> Option<int> {
    if any(items, test) {
        Some(choose|index: int| is_first(items, test, index))
    } else {
        None
    }
}

/// The first passing element is where one finds it.
pub proof fn lemma_first_index_found<T>(items: Seq<T>, test: spec_fn(T) -> bool, index: int)
    requires
        is_first(items, test, index),
    ensures
        first_index(items, test) == Some(index),
{
    let chosen = choose|k: int| is_first(items, test, k);
    assert(test(items[index]));
    if chosen < index {
        assert(!test(items[chosen]));
    }
    if index < chosen {
        assert(!test(items[index]));
    }
}

/// Where no element passes, there is no first.
pub proof fn lemma_first_index_none<T>(items: Seq<T>, test: spec_fn(T) -> bool)
    requires
        forall|j: int| 0 <= j < items.len() ==> !test(#[trigger] items[j]),
    ensures
        first_index(items, test) is None,
{
}

/// Where some element passes, the first is a place in the sequence, passes
/// itself, and nothing before it does.
pub proof fn lemma_first_index_is_first<T>(items: Seq<T>, test: spec_fn(T) -> bool)
    requires
        any(items, test),
    ensures
        first_index(items, test) is Some,
        is_first(items, test, first_index(items, test)->0),
    decreases items.len(),
{
    let witness = choose|i: int| 0 <= i < items.len() && test(#[trigger] items[i]);
    lemma_least_exists(items, test, witness);
}

proof fn lemma_least_exists<T>(items: Seq<T>, test: spec_fn(T) -> bool, bound: int)
    requires
        0 <= bound < items.len(),
        test(items[bound]),
    ensures
        exists|index: int| is_first(items, test, index),
    decreases bound,
{
    if forall|j: int| 0 <= j < bound ==> !test(#[trigger] items[j]) {
        assert(is_first(items, test, bound));
    } else {
        let j = choose|j: int| 0 <= j < bound && test(#[trigger] items[j]);
        lemma_least_exists(items, test, j);
    }
}

} // verus!

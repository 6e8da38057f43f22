//! Facts about filtered sequences that the rest of the library leans on.

use vstd::prelude::*;

verus! {

/// Filtering keeps the members that pass the test, and those only.
pub proof fn lemma_filter_members<A>(list: Seq<A>, test: spec_fn(A) -> bool)
    ensures
        forall|a: A| #[trigger] list.filter(test).contains(a) <==> list.contains(a) && test(a),
{
    assert forall|a: A| #[trigger]
        list.filter(test).contains(a) <==> list.contains(a) && test(a) by {
        if list.filter(test).contains(a) {
            list.lemma_filter_contains_rev(test, a);
        }
    }
}

/// A list of which every member fails the test filters to nothing.
pub proof fn lemma_filter_to_nothing<A>(list: Seq<A>, test: spec_fn(A) -> bool)
    requires
        forall|a: A| list.contains(a) ==> !test(a),
    ensures
        list.filter(test) == Seq::<A>::empty(),
{
    lemma_filter_members(list, test);
    let kept = list.filter(test);
    if kept.len() > 0 {
        assert(kept.contains(kept[0]));
    }
}

/// A list of which every member passes the test filters to itself.
pub proof fn lemma_filter_to_all<A>(list: Seq<A>, test: spec_fn(A) -> bool)
    requires
        forall|a: A| list.contains(a) ==> test(a),
    ensures
        list.filter(test) == list,
    decreases list.len(),
{
    reveal(Seq::filter);
    if list.len() > 0 {
        let front = list.drop_last();
        assert forall|a: A| front.contains(a) implies test(a) by {
            assert(list.contains(a));
        }
        lemma_filter_to_all(front, test);
        assert(list.contains(list.last()));
    }
}

/// Two tests that agree on every member of a list filter it alike.
pub proof fn lemma_filter_agree<A>(
    list: Seq<A>,
    first: spec_fn(A) -> bool,
    second: spec_fn(A) -> bool,
)
    requires
        forall|a: A| list.contains(a) ==> first(a) == second(a),
    ensures
        list.filter(first) == list.filter(second),
    decreases list.len(),
{
    reveal(Seq::filter);
    if list.len() > 0 {
        let front = list.drop_last();
        assert forall|a: A| front.contains(a) implies first(a) == second(a) by {
            assert(list.contains(a));
        }
        lemma_filter_agree(front, first, second);
        assert(list.contains(list.last()));
    }
}

/// Where no two members of a list share a key, no two members of the
/// filtered list do.
pub proof fn lemma_filter_keeps_keys_distinct<A, B>(
    list: Seq<A>,
    key: spec_fn(A) -> B,
    test: spec_fn(A) -> bool,
)
    requires
        list.map_values(key).no_duplicates(),
    ensures
        list.filter(test).map_values(key).no_duplicates(),
    decreases list.len(),
{
    reveal(Seq::filter);
    if list.len() > 0 {
        let front = list.drop_last();
        let last = list.last();
        assert forall|i: int, j: int| 0 <= i < front.len() && 0 <= j < front.len() && i
            != j implies front.map_values(key)[i] != front.map_values(key)[j] by {
            assert(list.map_values(key)[i] != list.map_values(key)[j]);
        }
        lemma_filter_keeps_keys_distinct(front, key, test);
        if test(last) {
            let kept = front.filter(test);
            lemma_filter_members(front, test);
            assert forall|i: int| 0 <= i < kept.len() implies key(kept[i]) != key(last) by {
                assert(kept.contains(kept[i]));
                let k = choose|k: int| 0 <= k < front.len() && front[k] == kept[i];
                assert(list.map_values(key)[k] != list.map_values(key)[list.len() - 1]);
            }
            let all = kept.push(last).map_values(key);
            assert forall|i: int, j: int| 0 <= i < all.len() && 0 <= j < all.len() && i
                != j implies all[i] != all[j] by {
                if i < kept.len() && j < kept.len() {
                    assert(kept.map_values(key)[i] != kept.map_values(key)[j]);
                }
            }
        }
    }
}

/// Filtering a list in which nothing occurs twice gives such a list again.
pub proof fn lemma_filter_keeps_distinct<A>(list: Seq<A>, test: spec_fn(A) -> bool)
    requires
        list.no_duplicates(),
    ensures
        list.filter(test).no_duplicates(),
{
    let same = |a: A| a;
    lemma_filter_keeps_keys_distinct(list, same, test);
    assert(list.filter(test).map_values(same) =~= list.filter(test));
}

} // verus!

//! The search itself: which strings hold a query, without regard to case.

use crate::text::{lowered, matches_query, occurs_in, texts};
use vstd::prelude::*;

verus! {

/// The strings of `store`, in order, whose lower-case form holds `query`.
/// The query is taken as it is: the caller lowers it.
pub open spec fn matching(store: Seq<Seq<char>>, query: Seq<char>) -> Seq<Seq<char>> {
    store.filter(|text: Seq<char>| occurs_in(query, lowered(text)))
}

/// What a search for `query` finds in `store`: the query is lowered first.
pub open spec fn search_results(store: Seq<Seq<char>>, query: Seq<char>) -> Seq<Seq<char>> {
    matching(store, lowered(query))
}

/// Picks the strings whose lower-case form holds `query`, in order.
pub fn search(strings: &Vec<String>, query: &str) -> (found: Vec<String>)
    ensures
        texts(found@) == matching(texts(strings@), query@),
{
    let ghost all = texts(strings@);
    let ghost holds = |text: Seq<char>| occurs_in(query@, lowered(text));
    let mut found: Vec<String> = Vec::new();
    let mut i: usize = 0;
    proof {
        reveal(Seq::filter);
        assert(all.take(0) =~= Seq::<Seq<char>>::empty());
        assert(texts(found@) =~= all.take(0).filter(holds));
    }
    while i < strings.len()
        invariant
            i <= strings@.len(),
            all == texts(strings@),
            holds == |text: Seq<char>| occurs_in(query@, lowered(text)),
            texts(found@) == all.take(i as int).filter(holds),
        decreases strings@.len() - i,
    {
        let ghost before = texts(found@);
        proof {
            reveal(Seq::filter);
            assert(all.take(i + 1).drop_last() =~= all.take(i as int));
            assert(all.take(i + 1).last() == strings@[i as int]@);
        }
        if matches_query(strings[i].as_str(), query) {
            found.push(strings[i].clone());
            proof {
                assert(texts(found@) =~= before.push(strings@[i as int]@));
            }
        }
        i += 1;
    }
    proof {
        assert(all.take(i as int) =~= all);
    }
    found
}

/// A text is among the results of a search exactly when the store holds it
/// and its lower-case form holds the lower-case form of the query.
pub proof fn law_results_are_the_matches(store: Seq<Seq<char>>, query: Seq<char>, text: Seq<char>)
    ensures
        search_results(store, query).contains(text) <==> store.contains(text) && occurs_in(
            lowered(query),
            lowered(text),
        ),
{
    let holds = |t: Seq<char>| occurs_in(lowered(query), lowered(t));
    let found = store.filter(holds);
    if found.contains(text) {
        let i = choose|i: int| 0 <= i < found.len() && found[i] == text;
        store.lemma_filter_pred(holds, i);
        store.lemma_filter_contains_rev(holds, text);
    }
    if store.contains(text) && holds(text) {
        let i = choose|i: int| 0 <= i < store.len() && store[i] == text;
        store.lemma_filter_contains(holds, i);
    }
}

/// A search changes neither the order nor the number of times a string
/// occurs: the results are the store with the other strings left out.
pub proof fn law_results_keep_order(store: Seq<Seq<char>>, query: Seq<char>, more: Seq<Seq<char>>)
    ensures
        search_results(store + more, query) == search_results(store, query) + search_results(
            more,
            query,
        ),
{
    let holds = |t: Seq<char>| occurs_in(lowered(query), lowered(t));
    Seq::filter_distributes_over_add(store, more, holds);
}

} // verus!

//! Finding the items of a list that contain a query.
use vstd::prelude::*;
use crate::text::{contains, has_substring};

verus! {

/// The positions of the items of `items` that contain `q`, in increasing order.
pub open spec fn matching(items: Seq<Seq<char>>, q: Seq<char>) -> Seq<usize>
    decreases items.len(),
{
    if items.len() == 0 {
        Seq::empty()
    } else {
        let rest = matching(items.drop_last(), q);
        if has_substring(items.last(), q) {
            rest.push((items.len() - 1) as usize)
        } else {
            rest
        }
    }
}

/// Every position that `matching` gives is one of an item that contains `q`.
pub proof fn lemma_matching_sound(items: Seq<Seq<char>>, q: Seq<char>, k: int)
    requires
        items.len() <= usize::MAX,
        0 <= k < matching(items, q).len(),
    ensures
        matching(items, q)[k] < items.len(),
        has_substring(items[matching(items, q)[k] as int], q),
    decreases items.len(),
{
    let rest = matching(items.drop_last(), q);
    if k < rest.len() {
        lemma_matching_sound(items.drop_last(), q, k);
        assert(matching(items, q)[k] == rest[k]);
        assert(items.drop_last()[rest[k] as int] == items[rest[k] as int]);
    } else {
        assert(matching(items, q)[k] == items.len() - 1);
        assert(items[items.len() - 1] == items.last());
    }
}

/// Adds to `search_matches` the positions of the items that contain `q`,
/// then takes out the first position of all it holds and returns it; the
/// rest stays behind, the next position to visit last, so that popping
/// visits them in order.
pub fn set_matches(items: &Vec<String>, q: &String, search_matches: &mut Vec<usize>) -> (r: Option<usize>)
    ensures
        ({
            let all = old(search_matches)@ + matching(items@.map_values(|s: String| s@), q@);
            &&& all.len() == 0 ==> r is None && final(search_matches)@.len() == 0
            &&& all.len() > 0 ==> r == Some(all[0]) && final(search_matches)@ == all.subrange(1, all.len() as int).reverse()
        }),
{
    let ghost texts = items@.map_values(|s: String| s@);
    let ghost start = search_matches@;
    let mut i: usize = 0;
    while i < items.len()
        invariant
            texts == items@.map_values(|s: String| s@),
            0 <= i <= items@.len(),
            search_matches@ == start + matching(texts.take(i as int), q@),
        decreases items.len() - i,
    {
        assert(texts.take(i + 1).drop_last() =~= texts.take(i as int));
        if contains(items[i].as_str(), q.as_str()) {
            search_matches.push(i);
            assert(search_matches@ =~= start + matching(texts.take(i + 1), q@));
        }
        i = i + 1;
    }
    assert(texts.take(i as int) =~= texts);
    let ghost all = search_matches@;
    // Reverse, so that the first match sits at the end.
    let n = search_matches.len();
    let mut rev: Vec<usize> = Vec::new();
    let mut j: usize = n;
    while j > 0
        invariant
            search_matches@ == all,
            n == all.len(),
            0 <= j <= n,
            rev@ == all.subrange(j as int, n as int).reverse(),
        decreases j,
    {
        j = j - 1;
        rev.push(search_matches[j]);
        assert(rev@ =~= all.subrange(j as int, n as int).reverse());
    }
    assert(all.subrange(0, n as int) =~= all);
    *search_matches = rev;
    let r = search_matches.pop();
    proof {
        if n > 0 {
            assert(final(search_matches)@ =~= all.subrange(1, n as int).reverse()) by {
                assert(all.subrange(1, n as int).reverse() =~= all.reverse().drop_last());
            }
        }
    }
    r
}

} // verus!

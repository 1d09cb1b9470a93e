//! What it means that of the parts of a list some are kept.

use vstd::prelude::*;

verus! {

/// Whether `out` holds those and only those elements of `all` that are to be kept,
/// unchanged and in their order: `places` are the places of `all` from which they
/// come.
pub open spec fn is_selection<A>(
    all: Seq<A>,
    keep: spec_fn(A) -> bool,
    out: Seq<A>,
    places: Seq<int>,
) -> bool {
    &&& places.len() == out.len()
    &&& forall|k: int|
        #![trigger places[k]]
        0 <= k < out.len() ==> 0 <= places[k] < all.len() && out[k] == all[places[k]] && keep(
            all[places[k]],
        )
    &&& forall|k: int, l: int| 0 <= k < l < places.len() ==> places[k] < places[l]
    &&& forall|i: int| 0 <= i < all.len() && keep(#[trigger] all[i]) ==> places.contains(i)
}

/// The places of the elements of a list that are to be kept.
pub open spec fn places_of<A>(all: Seq<A>, keep: spec_fn(A) -> bool) -> Seq<int>
    decreases all.len(),
{
    if all.len() == 0 {
        Seq::empty()
    } else {
        let before = places_of(all.drop_last(), keep);
        if keep(all.last()) {
            before.push(all.len() - 1)
        } else {
            before
        }
    }
}

/// A filtered list is a selection of the list.
pub proof fn lemma_filter_selects<A>(all: Seq<A>, keep: spec_fn(A) -> bool)
    ensures
        is_selection(all, keep, all.filter(keep), places_of(all, keep)),
    decreases all.len(),
{
    reveal(Seq::filter);
    if all.len() > 0 {
        let t = all.drop_last();
        let before = places_of(t, keep);
        let places = places_of(all, keep);
        let out = all.filter(keep);
        lemma_filter_selects(t, keep);
        assert forall|k: int|
            #![trigger places[k]]
            0 <= k < out.len() implies 0 <= places[k] < all.len() && out[k] == all[places[k]]
            && keep(all[places[k]]) by {
            if k < before.len() {
                assert(places[k] == before[k]);
                assert(t[before[k]] == all[before[k]]);
                assert(out[k] == t.filter(keep)[k]);
            }
        }
        assert forall|k: int, l: int| 0 <= k < l < places.len() implies places[k] < places[l] by {
            assert(places[k] == before[k]);
            assert(0 <= before[k] < t.len());
            if l < before.len() {
                assert(places[l] == before[l]);
            }
        }
        assert forall|i: int| 0 <= i < all.len() && keep(#[trigger] all[i]) implies places.contains(
            i,
        ) by {
            if i < t.len() {
                assert(t[i] == all[i]);
                let k = choose|k: int| 0 <= k < before.len() && before[k] == i;
                assert(places[k] == i);
            } else {
                assert(places[before.len() as int] == i);
            }
        }
    }
}

} // verus!

//! What picking items out of a sequence keeps: their order and their number.

use vstd::prelude::*;

verus! {

/// The places are some of the first `count`, each once, in their order.
pub open spec fn in_order(places: Seq<int>, count: nat) -> bool {
    &&& forall|k: int| 0 <= k < places.len() ==> 0 <= #[trigger] places[k] < count
    &&& forall|k: int, l: int|
        0 <= k < l < places.len() ==> #[trigger] places[k] < #[trigger] places[l]
}

/// The picked items are those that `f` finds at `places`, and `f` finds none at
/// any other place.
pub open spec fn picked_at<A, B>(
    items: Seq<A>,
    f: spec_fn(A) -> Option<B>,
    places: Seq<int>,
    picked: Seq<B>,
) -> bool {
    &&& in_order(places, items.len())
    &&& places.len() == picked.len()
    &&& forall|k: int|
        0 <= k < places.len() ==> f(items[#[trigger] places[k]]) == Some(picked[k])
    &&& forall|i: int|
        0 <= i < items.len() && f(#[trigger] items[i]) is Some ==> places.contains(i)
}

/// One item more is picked where it is wanted, behind the others.
pub proof fn lemma_filter_push<A>(items: Seq<A>, item: A, wanted: spec_fn(A) -> bool)
    ensures
        items.push(item).filter(wanted) == items.filter(wanted) + (if wanted(item) {
            seq![item]
        } else {
            Seq::empty()
        }),
{
    reveal(Seq::filter);
    assert(items.push(item).drop_last() == items);
    assert(items.push(item).filter(wanted) == items.filter(wanted) + (if wanted(item) {
        seq![item]
    } else {
        Seq::empty()
    }));
}

/// One item more gives what `f` finds in it, behind what the others give.
pub proof fn lemma_filter_map_push<A, B>(items: Seq<A>, item: A, f: spec_fn(A) -> Option<B>)
    ensures
        items.push(item).filter_map(f) == items.filter_map(f) + (match f(item) {
            Some(value) => seq![value],
            None => Seq::empty(),
        }),
{
    let all = items.push(item);
    all.lemma_filter_map_take_succ(f, items.len() as int);
    assert(all.take(items.len() as int) == items);
    assert(all.take(items.len() as int + 1) == all);
}

/// Two sequences give what each of them gives.
pub proof fn lemma_filter_map_add<A, B>(left: Seq<A>, right: Seq<A>, f: spec_fn(A) -> Option<B>)
    ensures
        (left + right).filter_map(f) == left.filter_map(f) + right.filter_map(f),
    decreases right.len(),
{
    if right.len() == 0 {
        assert(left + right == left);
        assert(left.filter_map(f) + right.filter_map(f) == left.filter_map(f));
    } else {
        let start = right.drop_last();
        let last = right.last();
        lemma_filter_map_add(left, start, f);
        lemma_filter_map_push(left + start, last, f);
        lemma_filter_map_push(start, last, f);
        assert((left + start).push(last) == left + right);
        assert(start.push(last) == right);
        assert((left + right).filter_map(f) == left.filter_map(f) + right.filter_map(f));
    }
}

/// What `f` finds stands at places of its own, in their order, and nothing that
/// it finds is left out.
pub proof fn lemma_places<A, B>(items: Seq<A>, f: spec_fn(A) -> Option<B>) -> (places: Seq<int>)
    ensures
        picked_at(items, f, places, items.filter_map(f)),
    decreases items.len(),
{
    if items.len() == 0 {
        Seq::empty()
    } else {
        let start = items.drop_last();
        let last = items.last();
        let n = start.len() as int;
        let before = lemma_places(start, f);
        lemma_filter_map_push(start, last, f);
        assert(start.push(last) == items);
        let places = if f(last) is Some {
            before.push(n)
        } else {
            before
        };
        let picked = items.filter_map(f);
        assert forall|k: int| 0 <= k < places.len() implies f(items[#[trigger] places[k]]) == Some(
            picked[k],
        ) by {
            if k < before.len() {
                assert(places[k] == before[k]);
                assert(items[before[k]] == start[before[k]]);
            }
        }
        assert forall|i: int|
            0 <= i < items.len() && f(#[trigger] items[i]) is Some implies places.contains(i) by {
            if i < n {
                assert(start[i] == items[i]);
                assert(before.contains(i));
                let k = choose|k: int| 0 <= k < before.len() && before[k] == i;
                assert(places[k] == i);
            } else {
                assert(places[before.len() as int] == n);
            }
        }
        places
    }
}

} // verus!

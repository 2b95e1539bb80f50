//! Stable sorting.
use vstd::prelude::*;

use crate::text::{lemma_text_le_total, lemma_text_le_trans, text_le};

verus! {

/// Values with a total order, which may take different values for equal.
pub trait Ranked: Sized {
    /// This value comes before the other or ranks with it.
    spec fn ranks_at_most(&self, other: &Self) -> bool;

    fn at_most(&self, other: &Self) -> (yes: bool)
        ensures
            yes == self.ranks_at_most(other),
    ;

    proof fn ranks_total(a: &Self, b: &Self)
        ensures
            a.ranks_at_most(b) || b.ranks_at_most(a),
    ;

    proof fn ranks_transitive(a: &Self, b: &Self, c: &Self)
        requires
            a.ranks_at_most(b),
            b.ranks_at_most(c),
        ensures
            a.ranks_at_most(c),
    ;
}

/// `item` behind every value of `sorted` that comes before it or ranks with it.
pub open spec fn placed<T: Ranked>(sorted: Seq<T>, item: T) -> Seq<T>
    decreases sorted.len(),
{
    if sorted.len() == 0 {
        seq![item]
    } else if sorted.last().ranks_at_most(&item) {
        sorted.push(item)
    } else {
        placed(sorted.drop_last(), item).push(sorted.last())
    }
}

/// The values in order; values that rank with each other keep their order.
pub open spec fn stably_sorted<T: Ranked>(list: Seq<T>) -> Seq<T>
    decreases list.len(),
{
    if list.len() == 0 {
        list
    } else {
        placed(stably_sorted(list.drop_last()), list.last())
    }
}

/// Each value comes before those behind it or ranks with them.
pub open spec fn ranked<T: Ranked>(list: Seq<T>) -> bool {
    forall|i: int, j: int|
        0 <= i < j < list.len() ==> #[trigger] list[i].ranks_at_most(&#[trigger] list[j])
}

/// `item` behind every value of `sorted` that is at most it, by a given order.
pub open spec fn placed_by<A>(sorted: Seq<A>, item: A, le: spec_fn(A, A) -> bool) -> Seq<A>
    decreases sorted.len(),
{
    if sorted.len() == 0 {
        seq![item]
    } else if le(sorted.last(), item) {
        sorted.push(item)
    } else {
        placed_by(sorted.drop_last(), item, le).push(sorted.last())
    }
}

/// The values in a given order; equal ones keep their order.
pub open spec fn sorted_by<A>(list: Seq<A>, le: spec_fn(A, A) -> bool) -> Seq<A>
    decreases list.len(),
{
    if list.len() == 0 {
        list
    } else {
        placed_by(sorted_by(list.drop_last(), le), list.last(), le)
    }
}

/// Each value is at most those behind it.
pub open spec fn ascending<A>(list: Seq<A>, le: spec_fn(A, A) -> bool) -> bool {
    forall|i: int, j: int|
        0 <= i < j < list.len() ==> le(#[trigger] list[i], #[trigger] list[j])
}

/// The order takes every two values one way or the other, and is transitive.
pub open spec fn total_order<A>(le: spec_fn(A, A) -> bool) -> bool {
    &&& forall|a: A, b: A| #[trigger] le(a, b) || le(b, a)
    &&& forall|a: A, b: A, c: A| #[trigger] le(a, b) && #[trigger] le(b, c) ==> le(a, c)
}

proof fn lemma_placed_by<A>(sorted: Seq<A>, item: A, le: spec_fn(A, A) -> bool)
    requires
        ascending(sorted, le),
        total_order(le),
    ensures
        ascending(placed_by(sorted, item, le), le),
        forall|i: int|
            0 <= i < placed_by(sorted, item, le).len() ==> #[trigger] placed_by(
                sorted,
                item,
                le,
            )[i] == item || sorted.contains(placed_by(sorted, item, le)[i]),
    decreases sorted.len(),
{
    let all = placed_by(sorted, item, le);
    if sorted.len() == 0 {
    } else if le(sorted.last(), item) {
        assert forall|i: int, j: int| 0 <= i < j < all.len() implies le(
            #[trigger] all[i],
            #[trigger] all[j],
        ) by {
            if j == all.len() - 1 && i < sorted.len() - 1 {
                assert(le(sorted[i], sorted[sorted.len() - 1]));
            }
        }
        assert forall|i: int| 0 <= i < all.len() implies #[trigger] all[i] == item
            || sorted.contains(all[i]) by {
            if i < sorted.len() {
                assert(all[i] == sorted[i]);
            }
        }
    } else {
        let front = sorted.drop_last();
        let last = sorted.last();
        assert(ascending(front, le)) by {
            assert forall|i: int, j: int| 0 <= i < j < front.len() implies le(
                #[trigger] front[i],
                #[trigger] front[j],
            ) by {
                assert(le(sorted[i], sorted[j]));
            }
        }
        lemma_placed_by(front, item, le);
        let inner = placed_by(front, item, le);
        assert(le(item, last));
        assert forall|i: int| 0 <= i < all.len() implies #[trigger] all[i] == item
            || sorted.contains(all[i]) by {
            if i < inner.len() {
                assert(all[i] == inner[i]);
                if inner[i] != item {
                    let k = choose|k: int| 0 <= k < front.len() && front[k] == inner[i];
                    assert(sorted[k] == inner[i]);
                }
            } else {
                assert(all[i] == sorted[sorted.len() - 1]);
            }
        }
        assert forall|i: int, j: int| 0 <= i < j < all.len() implies le(
            #[trigger] all[i],
            #[trigger] all[j],
        ) by {
            if j < inner.len() {
                assert(le(inner[i], inner[j]));
            } else {
                assert(all[i] == inner[i]);
                if inner[i] != item {
                    let k = choose|k: int| 0 <= k < front.len() && front[k] == inner[i];
                    assert(le(sorted[k], sorted[sorted.len() - 1]));
                }
            }
        }
    }
}

/// Sorting by a total order gives that order.
pub proof fn sorting_by_orders<A>(list: Seq<A>, le: spec_fn(A, A) -> bool)
    requires
        total_order(le),
    ensures
        ascending(sorted_by(list, le), le),
    decreases list.len(),
{
    if list.len() > 0 {
        sorting_by_orders(list.drop_last(), le);
        lemma_placed_by(sorted_by(list.drop_last(), le), list.last(), le);
    }
}

proof fn lemma_placed_models<T: Ranked, B>(
    sorted: Seq<T>,
    item: T,
    f: spec_fn(T) -> B,
    le: spec_fn(B, B) -> bool,
)
    requires
        forall|a: T, b: T| #[trigger] a.ranks_at_most(&b) == le(f(a), f(b)),
    ensures
        placed(sorted, item).map_values(f) == placed_by(sorted.map_values(f), f(item), le),
    decreases sorted.len(),
{
    if sorted.len() == 0 {
        assert(placed(sorted, item).map_values(f) =~= seq![f(item)]);
    } else {
        assert(sorted.map_values(f).last() == f(sorted.last()));
        if sorted.last().ranks_at_most(&item) {
            assert(sorted.push(item).map_values(f) =~= sorted.map_values(f).push(f(item)));
        } else {
            let front = sorted.drop_last();
            lemma_placed_models(front, item, f, le);
            assert(sorted.map_values(f).drop_last() =~= front.map_values(f));
            assert(placed(sorted, item).map_values(f) =~= placed(front, item).map_values(f).push(
                f(sorted.last()),
            ));
        }
    }
}

/// Sorting values sorts their models.
pub proof fn lemma_sorted_models<T: Ranked, B>(
    list: Seq<T>,
    f: spec_fn(T) -> B,
    le: spec_fn(B, B) -> bool,
)
    requires
        forall|a: T, b: T| #[trigger] a.ranks_at_most(&b) == le(f(a), f(b)),
    ensures
        stably_sorted(list).map_values(f) == sorted_by(list.map_values(f), le),
    decreases list.len(),
{
    if list.len() == 0 {
        assert(stably_sorted(list).map_values(f) =~= list.map_values(f));
    } else {
        lemma_sorted_models(list.drop_last(), f, le);
        lemma_placed_models(stably_sorted(list.drop_last()), list.last(), f, le);
        assert(list.map_values(f).drop_last() =~= list.drop_last().map_values(f));
        assert(list.map_values(f).last() == f(list.last()));
    }
}

proof fn lemma_placed_by_models<A, B>(
    sorted: Seq<A>,
    item: A,
    first: spec_fn(A, A) -> bool,
    f: spec_fn(A) -> B,
    le: spec_fn(B, B) -> bool,
)
    requires
        forall|a: A, b: A| #[trigger] first(a, b) == le(f(a), f(b)),
    ensures
        placed_by(sorted, item, first).map_values(f) == placed_by(
            sorted.map_values(f),
            f(item),
            le,
        ),
    decreases sorted.len(),
{
    if sorted.len() == 0 {
        assert(placed_by(sorted, item, first).map_values(f) =~= seq![f(item)]);
    } else {
        assert(sorted.map_values(f).last() == f(sorted.last()));
        if first(sorted.last(), item) {
            assert(sorted.push(item).map_values(f) =~= sorted.map_values(f).push(f(item)));
        } else {
            let front = sorted.drop_last();
            lemma_placed_by_models(front, item, first, f, le);
            assert(sorted.map_values(f).drop_last() =~= front.map_values(f));
            assert(placed_by(sorted, item, first).map_values(f) =~= placed_by(
                front,
                item,
                first,
            ).map_values(f).push(f(sorted.last())));
        }
    }
}

/// Sorting by what is seen of values sorts the values.
pub proof fn lemma_sorted_by_models<A, B>(
    list: Seq<A>,
    first: spec_fn(A, A) -> bool,
    f: spec_fn(A) -> B,
    le: spec_fn(B, B) -> bool,
)
    requires
        forall|a: A, b: A| #[trigger] first(a, b) == le(f(a), f(b)),
    ensures
        sorted_by(list, first).map_values(f) == sorted_by(list.map_values(f), le),
    decreases list.len(),
{
    if list.len() == 0 {
        assert(sorted_by(list, first).map_values(f) =~= list.map_values(f));
    } else {
        lemma_sorted_by_models(list.drop_last(), first, f, le);
        lemma_placed_by_models(sorted_by(list.drop_last(), first), list.last(), first, f, le);
        assert(list.map_values(f).drop_last() =~= list.drop_last().map_values(f));
        assert(list.map_values(f).last() == f(list.last()));
    }
}

proof fn lemma_placed_by_members<A>(sorted: Seq<A>, item: A, le: spec_fn(A, A) -> bool)
    ensures
        placed_by(sorted, item, le).len() == sorted.len() + 1,
        placed_by(sorted, item, le).to_multiset() == sorted.to_multiset().insert(item),
    decreases sorted.len(),
{
    sorted.to_multiset_ensures();
    if sorted.len() == 0 {
        assert(placed_by(sorted, item, le) =~= sorted.push(item));
    } else if !le(sorted.last(), item) {
        let front = sorted.drop_last();
        let last = sorted.last();
        lemma_placed_by_members(front, item, le);
        placed_by(front, item, le).to_multiset_ensures();
        front.to_multiset_ensures();
        assert(sorted =~= front.push(last));
        assert(front.to_multiset().insert(item).insert(last) =~= front.to_multiset().insert(
            last,
        ).insert(item));
    }
}

/// Sorting by an order keeps what was there, no more and no less.
pub proof fn sorting_by_keeps<A>(list: Seq<A>, le: spec_fn(A, A) -> bool)
    ensures
        sorted_by(list, le).len() == list.len(),
        sorted_by(list, le).to_multiset() == list.to_multiset(),
    decreases list.len(),
{
    if list.len() > 0 {
        sorting_by_keeps(list.drop_last(), le);
        lemma_placed_by_members(sorted_by(list.drop_last(), le), list.last(), le);
        list.drop_last().to_multiset_ensures();
        assert(list =~= list.drop_last().push(list.last()));
    }
}

/// What comes out of sorting by an order was in the list.
pub proof fn sorted_by_value_was_there<A>(list: Seq<A>, le: spec_fn(A, A) -> bool, n: int)
    requires
        0 <= n < list.len(),
    ensures
        sorted_by(list, le).len() == list.len(),
        exists|k: int| 0 <= k < list.len() && list[k] == sorted_by(list, le)[n],
{
    sorting_by_keeps(list, le);
    let value = sorted_by(list, le)[n];
    sorted_by(list, le).to_multiset_ensures();
    list.to_multiset_ensures();
    assert(sorted_by(list, le).contains(value));
    assert(sorted_by(list, le).to_multiset().count(value) > 0);
    assert(list.to_multiset().count(value) > 0);
    assert(list.contains(value));
}

proof fn lemma_placed_members<T: Ranked>(sorted: Seq<T>, item: T)
    ensures
        placed(sorted, item).len() == sorted.len() + 1,
        forall|i: int|
            0 <= i < placed(sorted, item).len() ==> #[trigger] placed(sorted, item)[i] == item
                || sorted.contains(placed(sorted, item)[i]),
    decreases sorted.len(),
{
    let all = placed(sorted, item);
    if sorted.len() > 0 {
        if sorted.last().ranks_at_most(&item) {
            assert forall|i: int| 0 <= i < all.len() implies #[trigger] all[i] == item
                || sorted.contains(all[i]) by {
                if i < sorted.len() {
                    assert(all[i] == sorted[i]);
                }
            }
        } else {
            let front = sorted.drop_last();
            lemma_placed_members(front, item);
            let inner = placed(front, item);
            assert forall|i: int| 0 <= i < all.len() implies #[trigger] all[i] == item
                || sorted.contains(all[i]) by {
                if i < inner.len() {
                    assert(all[i] == inner[i]);
                    if inner[i] != item {
                        let k = choose|k: int| 0 <= k < front.len() && front[k] == inner[i];
                        assert(sorted[k] == inner[i]);
                    }
                } else {
                    assert(all[i] == sorted[sorted.len() - 1]);
                }
            }
        }
    }
}

proof fn lemma_placed<T: Ranked>(sorted: Seq<T>, item: T)
    requires
        ranked(sorted),
    ensures
        ranked(placed(sorted, item)),
        placed(sorted, item).to_multiset() == sorted.to_multiset().insert(item),
    decreases sorted.len(),
{
    let all = placed(sorted, item);
    sorted.to_multiset_ensures();
    if sorted.len() == 0 {
        assert(all =~= sorted.push(item));
    } else if sorted.last().ranks_at_most(&item) {
        assert forall|i: int, j: int| 0 <= i < j < all.len() implies #[trigger] all[i].ranks_at_most(
            &#[trigger] all[j],
        ) by {
            if j == all.len() - 1 {
                if i < sorted.len() - 1 {
                    T::ranks_transitive(&sorted[i], &sorted[sorted.len() - 1], &item);
                }
            } else {
                assert(sorted[i].ranks_at_most(&sorted[j]));
            }
        }
    } else {
        let front = sorted.drop_last();
        let last = sorted.last();
        assert(ranked(front)) by {
            assert forall|i: int, j: int| 0 <= i < j < front.len() implies #[trigger] front[i].ranks_at_most(
                &#[trigger] front[j],
            ) by {
                assert(sorted[i].ranks_at_most(&sorted[j]));
            }
        }
        lemma_placed(front, item);
        lemma_placed_members(front, item);
        T::ranks_total(&last, &item);
        let inner = placed(front, item);
        assert forall|i: int, j: int| 0 <= i < j < all.len() implies #[trigger] all[i].ranks_at_most(
            &#[trigger] all[j],
        ) by {
            if j < inner.len() {
                assert(inner[i].ranks_at_most(&inner[j]));
            } else {
                assert(all[i] == inner[i]);
                if inner[i] != item {
                    let k = choose|k: int| 0 <= k < front.len() && front[k] == inner[i];
                    assert(sorted[k].ranks_at_most(&sorted[sorted.len() - 1]));
                }
            }
        }
        inner.to_multiset_ensures();
        front.to_multiset_ensures();
        assert(sorted =~= front.push(last));
        assert(front.to_multiset().insert(item).insert(last) =~= front.to_multiset().insert(
            last,
        ).insert(item));
    }
}

/// Sorting gives an order, and keeps what was there, no more and no less.
pub proof fn sorting_orders<T: Ranked>(list: Seq<T>)
    ensures
        ranked(stably_sorted(list)),
        stably_sorted(list).len() == list.len(),
        stably_sorted(list).to_multiset() == list.to_multiset(),
    decreases list.len(),
{
    if list.len() > 0 {
        sorting_orders(list.drop_last());
        lemma_placed(stably_sorted(list.drop_last()), list.last());
        lemma_placed_members(stably_sorted(list.drop_last()), list.last());
        list.drop_last().to_multiset_ensures();
        assert(list =~= list.drop_last().push(list.last()));
    }
}

/// Everything behind position `p` comes after `item`, and what stands in front of it does
/// not.
pub open spec fn is_place<T: Ranked>(sorted: Seq<T>, item: T, p: int) -> bool {
    &&& 0 <= p <= sorted.len()
    &&& p > 0 ==> sorted[p - 1].ranks_at_most(&item)
    &&& forall|j: int| p <= j < sorted.len() ==> !(#[trigger] sorted[j].ranks_at_most(&item))
}

proof fn lemma_placed_at<T: Ranked>(sorted: Seq<T>, item: T, p: int)
    requires
        is_place(sorted, item, p),
    ensures
        placed(sorted, item) == sorted.insert(p, item),
    decreases sorted.len(),
{
    if sorted.len() == 0 {
        assert(sorted.insert(p, item) =~= seq![item]);
    } else if p == sorted.len() {
        assert(sorted.insert(p, item) =~= sorted.push(item));
    } else {
        let front = sorted.drop_last();
        assert(!sorted[sorted.len() - 1].ranks_at_most(&item));
        assert(is_place(front, item, p)) by {
            assert forall|j: int| p <= j < front.len() implies !(
            #[trigger] front[j].ranks_at_most(&item)) by {
                assert(front[j] == sorted[j]);
            }
        }
        lemma_placed_at(front, item, p);
        assert(sorted.insert(p, item) =~= front.insert(p, item).push(sorted.last()));
    }
}

/// What comes out of sorting was in the list.
pub proof fn sorted_value_was_there<T: Ranked>(list: Seq<T>, n: int)
    requires
        0 <= n < list.len(),
    ensures
        stably_sorted(list).len() == list.len(),
        exists|k: int| 0 <= k < list.len() && list[k] == stably_sorted(list)[n],
{
    sorting_orders(list);
    let value = stably_sorted(list)[n];
    stably_sorted(list).to_multiset_ensures();
    list.to_multiset_ensures();
    assert(stably_sorted(list).contains(value));
    assert(stably_sorted(list).to_multiset().count(value) > 0);
    assert(list.to_multiset().count(value) > 0);
    assert(list.contains(value));
}

/// Sorts a list; values that rank with each other keep their order.
pub fn stable_sort<T: Ranked>(list: Vec<T>) -> (sorted: Vec<T>)
    ensures
        sorted@ == stably_sorted(list@),
{
    let ghost all = list@;
    let mut rest = list;
    let mut turned: Vec<T> = Vec::new();
    while rest.len() > 0
        invariant
            rest@.len() <= all.len(),
            rest@ == all.subrange(0, rest@.len() as int),
            turned@ == all.subrange(rest@.len() as int, all.len() as int).reverse(),
        decreases rest@.len(),
    {
        let ghost n = rest@.len() as int;
        match rest.pop() {
            Some(item) => {
                turned.push(item);
                assert(rest@ =~= all.subrange(0, n - 1));
                assert(turned@ =~= all.subrange(n - 1, all.len() as int).reverse());
            },
            None => {},
        }
    }
    let mut sorted: Vec<T> = Vec::new();
    assert(sorted@ =~= stably_sorted(all.subrange(0, 0)));
    assert(all.subrange(0, all.len() as int) =~= all);
    while turned.len() > 0
        invariant
            turned@.len() <= all.len(),
            turned@ == all.subrange(all.len() - turned@.len(), all.len() as int).reverse(),
            sorted@ == stably_sorted(all.subrange(0, all.len() - turned@.len())),
        decreases turned@.len(),
    {
        let ghost i = all.len() - turned@.len();
        match turned.pop() {
            Some(item) => {
                assert(item == all[i]);
                assert(turned@ =~= all.subrange(i + 1, all.len() as int).reverse());
                let ghost before = sorted@;
                let p = place_of(&sorted, &item);
                sorted.insert(p, item);
                proof {
                    lemma_placed_at(before, item, p as int);
                    let next = all.subrange(0, i + 1);
                    assert(next.drop_last() =~= all.subrange(0, i));
                    assert(next.last() == item);
                }
            },
            None => {},
        }
    }
    sorted
}

fn place_of<T: Ranked>(sorted: &Vec<T>, item: &T) -> (p: usize)
    ensures
        is_place(sorted@, *item, p as int),
{
    let mut p: usize = sorted.len();
    while p > 0 && !sorted[p - 1].at_most(item)
        invariant
            p <= sorted@.len(),
            forall|j: int|
                p <= j < sorted@.len() ==> !(#[trigger] sorted@[j].ranks_at_most(item)),
        decreases p,
    {
        p = p - 1;
    }
    p
}

/// Where the values of a list stand that come out of sorting, in their order.
pub fn sorted_places<T: Ranked>(list: &Vec<T>) -> (places: Vec<usize>)
    ensures
        places@.len() == list@.len(),
        stably_sorted(list@).len() == list@.len(),
        forall|n: int|
            0 <= n < places@.len() ==> #[trigger] places@[n] < list@.len() && list@[places@[n] as int]
                == stably_sorted(list@)[n],
{
    let mut places: Vec<usize> = Vec::new();
    let mut i: usize = 0;
    assert(list@.subrange(0, 0) =~= Seq::<T>::empty());
    while i < list.len()
        invariant
            i <= list@.len(),
            places@.len() == i,
            stably_sorted(list@.subrange(0, i as int)).len() == i,
            forall|n: int|
                0 <= n < i ==> #[trigger] places@[n] < i && list@[places@[n] as int]
                    == stably_sorted(list@.subrange(0, i as int))[n],
        decreases list@.len() - i,
    {
        let ghost sorted = stably_sorted(list@.subrange(0, i as int));
        let ghost item = list@[i as int];
        let mut p: usize = i;
        while p > 0 && !list[places[p - 1]].at_most(&list[i])
            invariant
                p <= i,
                i < list@.len(),
                places@.len() == i,
                sorted.len() == i,
                item == list@[i as int],
                forall|n: int|
                    0 <= n < i ==> #[trigger] places@[n] < i && list@[places@[n] as int]
                        == sorted[n],
                forall|j: int| p <= j < i ==> !(#[trigger] sorted[j].ranks_at_most(&item)),
            decreases p,
        {
            p = p - 1;
        }
        proof {
            assert(is_place(sorted, item, p as int)) by {
                if p > 0 {
                    assert(places@[p - 1] < i);
                }
            }
            lemma_placed_at(sorted, item, p as int);
            let next = list@.subrange(0, i + 1);
            assert(next.drop_last() =~= list@.subrange(0, i as int));
            assert(next.last() == item);
        }
        let ghost before = places@;
        places.insert(p, i);
        proof {
            assert forall|n: int| 0 <= n < i + 1 implies #[trigger] places@[n] < i + 1
                && list@[places@[n] as int] == sorted.insert(p as int, item)[n] by {
                if n < p {
                    assert(places@[n] == before[n]);
                } else if n > p {
                    assert(places@[n] == before[n - 1]);
                }
            }
        }
        i = i + 1;
    }
    assert(list@.subrange(0, i as int) =~= list@);
    places
}

impl Ranked for String {
    open spec fn ranks_at_most(&self, other: &String) -> bool {
        text_le(self@, other@)
    }

    fn at_most(&self, other: &String) -> (yes: bool) {
        crate::text::at_most(self.as_str(), other.as_str())
    }

    proof fn ranks_total(a: &String, b: &String) {
        lemma_text_le_total(a@, b@);
    }

    proof fn ranks_transitive(a: &String, b: &String, c: &String) {
        lemma_text_le_trans(a@, b@, c@);
    }
}

} // verus!

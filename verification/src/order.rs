//! Putting lists in order.
//!
//! Sorting keeps what came first before its equals, so a sorted list is one
//! value and not one of several.

use crate::text::{chars_of, views};
use vstd::prelude::*;
use vstd::slice::*;

verus! {

/// A type whose values stand in an order.
pub trait Ranked: View + Sized {
    /// Whether `a` may stand before `b`.
    spec fn ranks(a: Self::V, b: Self::V) -> bool;

    /// Any two values can be ordered, and the order carries over.
    proof fn ranks_totally(a: Self::V, b: Self::V, c: Self::V)
        ensures
            Self::ranks(a, b) || Self::ranks(b, a),
            Self::ranks(a, b) && Self::ranks(b, c) ==> Self::ranks(a, c),
    ;

    /// Whether `self` may stand before `other`.
    fn not_after(&self, other: &Self) -> (not_after: bool)
        ensures
            not_after == Self::ranks(self@, other@),
    ;
}

/// The list with `item` put behind everything that may stand before it.
pub open spec fn with_inserted<T: Ranked>(list: Seq<T::V>, item: T::V) -> Seq<T::V>
    decreases list.len(),
{
    if list.len() == 0 || T::ranks(list.last(), item) {
        list.push(item)
    } else {
        with_inserted::<T>(list.drop_last(), item).push(list.last())
    }
}

/// The list in order, equals in the order they came.
pub open spec fn in_order<T: Ranked>(list: Seq<T::V>) -> Seq<T::V>
    decreases list.len(),
{
    if list.len() == 0 {
        list
    } else {
        with_inserted::<T>(in_order::<T>(list.drop_last()), list.last())
    }
}

/// Whether everything may stand before what follows it.
pub open spec fn is_ordered<T: Ranked>(list: Seq<T::V>) -> bool {
    forall|i: int, j: int| 0 <= i < j < list.len() ==> T::ranks(#[trigger] list[i], #[trigger] list[j])
}

proof fn lemma_inserted_at<T: Ranked>(list: Seq<T::V>, item: T::V, at: int)
    requires
        0 <= at <= list.len(),
        at > 0 ==> T::ranks(list[at - 1], item),
        forall|i: int| at <= i < list.len() ==> !T::ranks(#[trigger] list[i], item),
    ensures
        with_inserted::<T>(list, item) == list.insert(at, item),
    decreases list.len(),
{
    if at == list.len() {
        assert(list.insert(at, item) =~= list.push(item));
    } else {
        assert(!T::ranks(list[list.len() - 1], item));
        lemma_inserted_at::<T>(list.drop_last(), item, at);
        assert(list.insert(at, item) =~= list.drop_last().insert(at, item).push(list.last()));
    }
}

/// Sorts a list; equals keep their order.
pub fn sort<T: Ranked>(items: Vec<T>) -> (sorted: Vec<T>)
    ensures
        views(sorted@) == in_order::<T>(views(items@)),
{
    let mut sorted: Vec<T> = Vec::new();
    let ghost all = views(items@);
    assert(views(sorted@) =~= in_order::<T>(all.take(0)));
    for item in it: items
        invariant
            it.seq() == items@,
            all == views(items@),
            views(sorted@) == in_order::<T>(all.take(it.index())),
    {
        let mut at: usize = sorted.len();
        while at > 0 && !sorted[at - 1].not_after(&item)
            invariant
                at <= sorted@.len(),
                forall|i: int|
                    at <= i < sorted@.len() ==> !T::ranks(#[trigger] views(sorted@)[i], item@),
            decreases at,
        {
            at = at - 1;
            assert(views(sorted@)[at as int] == sorted@[at as int]@);
        }
        proof {
            if at > 0 {
                assert(views(sorted@)[at - 1] == sorted@[at - 1]@);
            }
            lemma_inserted_at::<T>(views(sorted@), item@, at as int);
            assert(views(sorted@.insert(at as int, item)) =~= views(sorted@).insert(
                at as int,
                item@,
            ));
            assert(all.take(it.index() + 1).drop_last() =~= all.take(it.index()));
            assert(all.take(it.index() + 1).last() == item@);
        }
        sorted.insert(at, item);
    }
    assert(all.take(all.len() as int) =~= all);
    sorted
}

proof fn lemma_insert_keeps<T: Ranked>(list: Seq<T::V>, item: T::V)
    ensures
        with_inserted::<T>(list, item).to_multiset() == list.to_multiset().insert(item),
        is_ordered::<T>(list) ==> is_ordered::<T>(with_inserted::<T>(list, item)),
    decreases list.len(),
{
    broadcast use vstd::seq_lib::group_to_multiset_ensures;

    let result = with_inserted::<T>(list, item);
    if list.len() == 0 || T::ranks(list.last(), item) {
        assert forall|i: int, j: int|
            is_ordered::<T>(list) && 0 <= i < j < result.len() implies T::ranks(
            #[trigger] result[i],
            #[trigger] result[j],
        ) by {
            if j == list.len() {
                if i < list.len() - 1 {
                    assert(T::ranks(list[i], list[list.len() - 1]));
                    T::ranks_totally(list[i], list.last(), item);
                }
            } else {
                assert(T::ranks(list[i], list[j]));
            }
        }
    } else {
        let front = list.drop_last();
        lemma_insert_keeps::<T>(front, item);
        assert(list =~= front.push(list.last()));
        assert(result.to_multiset() =~= list.to_multiset().insert(item));
        assert forall|i: int, j: int|
            is_ordered::<T>(list) && 0 <= i < j < result.len() implies T::ranks(
            #[trigger] result[i],
            #[trigger] result[j],
        ) by {
            let shorter = with_inserted::<T>(front, item);
            assert forall|a: int, b: int| 0 <= a < b < front.len() implies T::ranks(
                #[trigger] front[a],
                #[trigger] front[b],
            ) by {
                assert(T::ranks(list[a], list[b]));
            }
            if j == result.len() - 1 {
                let value = shorter[i];
                assert(shorter.to_multiset().count(value) > 0) by {
                    assert(shorter.contains(value));
                }
                if value != item {
                    assert(front.to_multiset().count(value) > 0);
                    assert(front.contains(value));
                    let at = front.index_of(value);
                    assert(T::ranks(list[at], list[list.len() - 1]));
                } else {
                    T::ranks_totally(list.last(), item, item);
                }
            } else {
                assert(T::ranks(shorter[i], shorter[j]));
            }
        }
    }
}

/// A sorted list holds what the list held, each as often, and every item may
/// stand before those behind it.
pub proof fn law_sorting_orders_and_keeps<T: Ranked>(list: Seq<T::V>)
    ensures
        in_order::<T>(list).to_multiset() == list.to_multiset(),
        in_order::<T>(list).len() == list.len(),
        is_ordered::<T>(in_order::<T>(list)),
    decreases list.len(),
{
    broadcast use vstd::seq_lib::group_to_multiset_ensures;

    if list.len() > 0 {
        law_sorting_orders_and_keeps::<T>(list.drop_last());
        lemma_insert_keeps::<T>(in_order::<T>(list.drop_last()), list.last());
        assert(list =~= list.drop_last().push(list.last()));
    }
    assert(in_order::<T>(list).len() == in_order::<T>(list).to_multiset().len());
    assert(list.len() == list.to_multiset().len());
}

/// What a sorted list holds, the list held, and the other way round.
pub proof fn lemma_in_order_contains<T: Ranked>(list: Seq<T::V>, item: T::V)
    ensures
        in_order::<T>(list).contains(item) == list.contains(item),
{
    broadcast use vstd::seq_lib::group_to_multiset_ensures;

    law_sorting_orders_and_keeps::<T>(list);
    assert(in_order::<T>(list).to_multiset().count(item) == list.to_multiset().count(item));
}

/// What passes a filter is in the list, and passes.
pub proof fn lemma_filter_contains<T>(list: Seq<T>, keep: spec_fn(T) -> bool, item: T)
    ensures
        list.filter(keep).contains(item) <==> list.contains(item) && keep(item),
    decreases list.len(),
{
    reveal(Seq::filter);
    if list.len() > 0 {
        let front = list.drop_last();
        lemma_filter_contains(front, keep, item);
        if list.contains(item) {
            let i = list.index_of(item);
            if i < front.len() {
                assert(front[i] == item);
                assert(front.contains(item));
            }
        }
        if front.contains(item) {
            let i = front.index_of(item);
            assert(list[i] == item);
        }
        if front.filter(keep).contains(item) {
            let i = front.filter(keep).index_of(item);
            assert(list.filter(keep)[i] == item);
        }
        if keep(list.last()) {
            assert(list.filter(keep) == front.filter(keep).push(list.last()));
            assert(list.filter(keep)[front.filter(keep).len() as int] == list.last());
            if list.filter(keep).contains(item) {
                let i = list.filter(keep).index_of(item);
                if i < front.filter(keep).len() {
                    assert(front.filter(keep)[i] == item);
                }
            }
        }
        assert(list[list.len() - 1] == list.last());
    }
}

/// Whether `left` comes strictly before `right`, character by character in the
/// order of code points.
pub open spec fn precedes(left: Seq<char>, right: Seq<char>) -> bool
    decreases right.len(),
{
    if right.len() == 0 {
        false
    } else if left.len() == 0 {
        true
    } else if left[0] != right[0] {
        left[0] < right[0]
    } else {
        precedes(left.skip(1), right.skip(1))
    }
}

/// Code point order is a strict order of texts.
pub proof fn lemma_precedes_orders(a: Seq<char>, b: Seq<char>, c: Seq<char>)
    ensures
        !(precedes(a, b) && precedes(b, a)),
        a != b ==> precedes(a, b) || precedes(b, a),
        precedes(a, b) && precedes(b, c) ==> precedes(a, c),
        !precedes(a, a),
    decreases a.len() + b.len() + c.len(),
{
    if a.len() > 0 && b.len() > 0 {
        assert(a =~= seq![a[0]] + a.skip(1));
        assert(b =~= seq![b[0]] + b.skip(1));
    }
    if a.len() > 0 && b.len() > 0 && c.len() > 0 {
        lemma_precedes_orders(a.skip(1), b.skip(1), c.skip(1));
    } else if a.len() > 0 && b.len() > 0 {
        lemma_precedes_orders(a.skip(1), b.skip(1), c);
    } else if a.len() > 0 {
        lemma_precedes_orders(a.skip(1), b, c);
    } else {
        assert(b.len() == 0 ==> a =~= b);
    }
}

/// Not coming after is a total order of texts.
pub proof fn lemma_not_after_orders(a: Seq<char>, b: Seq<char>, c: Seq<char>)
    ensures
        !precedes(b, a) || !precedes(a, b),
        !precedes(b, a) && !precedes(c, b) ==> !precedes(c, a),
{
    lemma_precedes_orders(a, b, c);
    lemma_precedes_orders(b, c, a);
    if !precedes(b, a) && !precedes(c, b) && precedes(c, a) {
        if b != c {
            assert(precedes(b, c));
        }
    }
}

/// Whether `left` comes strictly before `right`.
pub fn text_precedes(left: &str, right: &str) -> (before: bool)
    ensures
        before == precedes(left@, right@),
{
    let ours = chars_of(left);
    let theirs = chars_of(right);
    let mut i: usize = 0;
    assert(ours@.skip(0) == left@);
    assert(theirs@.skip(0) == right@);
    while i < ours.len() && i < theirs.len()
        invariant
            i <= ours@.len(),
            i <= theirs@.len(),
            precedes(left@, right@) == precedes(ours@.skip(i as int), theirs@.skip(i as int)),
        decreases ours@.len() - i,
    {
        if ours[i] != theirs[i] {
            return ours[i] < theirs[i];
        }
        assert(ours@.skip(i as int).skip(1) == ours@.skip(i + 1));
        assert(theirs@.skip(i as int).skip(1) == theirs@.skip(i + 1));
        i = i + 1;
    }
    i < theirs.len()
}

impl Ranked for String {
    open spec fn ranks(a: Seq<char>, b: Seq<char>) -> bool {
        !precedes(b, a)
    }

    proof fn ranks_totally(a: Seq<char>, b: Seq<char>, c: Seq<char>) {
        lemma_not_after_orders(a, b, c);
    }

    fn not_after(&self, other: &Self) -> bool {
        !text_precedes(other.as_str(), self.as_str())
    }
}

/// Texts are ordered by the first character in which they differ, and a text
/// stands before every longer one that begins with it.
pub proof fn law_texts_are_ordered_by_their_first_difference(
    front: Seq<char>,
    a: char,
    b: char,
    x: Seq<char>,
    y: Seq<char>,
)
    ensures
        a != b ==> precedes(front + (seq![a] + x), front + (seq![b] + y)) == (a < b),
        precedes(front, front + (seq![a] + x)),
        !precedes(front + x, front),
    decreases front.len(),
{
    let left = front + (seq![a] + x);
    let right = front + (seq![b] + y);
    if front.len() == 0 {
        assert(left[0] == a && right[0] == b);
    } else {
        assert(left[0] == front[0] && right[0] == front[0]);
        assert((front + x)[0] == front[0]);
        assert(left.skip(1) =~= front.skip(1) + (seq![a] + x));
        assert(right.skip(1) =~= front.skip(1) + (seq![b] + y));
        assert((front + x).skip(1) =~= front.skip(1) + x);
        law_texts_are_ordered_by_their_first_difference(front.skip(1), a, b, x, y);
    }
}

/// Sorting is stable: an item that may stand behind all before it stays behind
/// them, so that a list in order already is left as it is.
pub proof fn law_sorting_moves_no_more_than_it_must<T: Ranked>(list: Seq<T::V>)
    requires
        is_ordered::<T>(list),
    ensures
        in_order::<T>(list) == list,
    decreases list.len(),
{
    if list.len() > 0 {
        let front = list.drop_last();
        assert forall|i: int, j: int| 0 <= i < j < front.len() implies T::ranks(
            #[trigger] front[i],
            #[trigger] front[j],
        ) by {
            assert(front[i] == list[i] && front[j] == list[j]);
        }
        law_sorting_moves_no_more_than_it_must::<T>(front);
        if front.len() > 0 {
            assert(T::ranks(list[list.len() - 2], list[list.len() - 1]));
            assert(front.last() == list[list.len() - 2]);
        }
        assert(front.push(list.last()) =~= list);
    }
}

} // verus!

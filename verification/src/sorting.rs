//! A stable sort.

use vstd::prelude::*;

use crate::text::{text_less, text_less_irreflexive, text_less_total, text_less_transitive};

verus! {

/// Something that is sorted, by a strict order in which some items may rank
/// equal.
pub trait Sortable: Sized {
    /// Whether this item goes before another.
    spec fn goes_before(&self, other: &Self) -> bool;

    /// Whether this item goes before another.
    fn before(&self, other: &Self) -> (r: bool)
        ensures
            r == self.goes_before(other),
    ;

    /// The order is strict and transitive, and ranking equal is transitive.
    proof fn order_laws(a: Self, b: Self, c: Self)
        ensures
            !a.goes_before(&a),
            a.goes_before(&b) && b.goes_before(&c) ==> a.goes_before(&c),
            !a.goes_before(&b) && !b.goes_before(&c) ==> !a.goes_before(&c),
    ;
}

/// The order of texts is one by which items can be sorted.
pub proof fn text_order_laws(a: Seq<char>, b: Seq<char>, c: Seq<char>)
    ensures
        !text_less(a, a),
        text_less(a, b) && text_less(b, c) ==> text_less(a, c),
        !text_less(a, b) && !text_less(b, c) ==> !text_less(a, c),
{
    text_less_irreflexive(a);
    if text_less(a, b) && text_less(b, c) {
        text_less_transitive(a, b, c);
    }
    if !text_less(a, b) && !text_less(b, c) && text_less(a, c) {
        text_less_total(a, b);
        if text_less(b, a) {
            text_less_transitive(b, a, c);
        }
    }
}

/// A sorted list with one item more, behind every item that it does not go
/// before.
pub open spec fn with_item<T: Sortable>(list: Seq<T>, item: T) -> Seq<T>
    decreases list.len(),
{
    if list.len() == 0 || !item.goes_before(&list.last()) {
        list.push(item)
    } else {
        with_item(list.drop_last(), item).push(list.last())
    }
}

/// The items in their order; items that rank equal keep their places.
pub open spec fn sorted<T: Sortable>(list: Seq<T>) -> Seq<T>
    decreases list.len(),
{
    if list.len() == 0 {
        list
    } else {
        with_item(sorted(list.drop_last()), list.last())
    }
}

/// Whether no item goes before an earlier one.
pub open spec fn in_order<T: Sortable>(list: Seq<T>) -> bool {
    forall|i: int, j: int|
        0 <= i < j < list.len() ==> !#[trigger] list[j].goes_before(&list[i])
}

proof fn with_item_at<T: Sortable>(list: Seq<T>, item: T, at: int)
    requires
        0 <= at <= list.len(),
        at == 0 || !item.goes_before(&list[at - 1]),
        forall|i: int| at <= i < list.len() ==> #[trigger] item.goes_before(&list[i]),
    ensures
        with_item(list, item) == list.insert(at, item),
    decreases list.len(),
{
    if at == list.len() {
        assert(list.insert(at, item) =~= list.push(item));
    } else {
        with_item_at(list.drop_last(), item, at);
        assert(list.insert(at, item) =~= list.drop_last().insert(at, item).push(list.last()));
    }
}

/// Sort a list, keeping the order of items that rank equal.
pub fn sort_stably<T: Sortable>(list: Vec<T>) -> (r: Vec<T>)
    ensures
        r@ == sorted(list@),
{
    let ghost all = list@;
    let total: usize = list.len();
    let mut rest = list;
    let mut out: Vec<T> = Vec::new();
    let ghost mut taken: int = 0;
    proof {
        assert(all.skip(0) =~= all);
        assert(all.take(0) =~= Seq::<T>::empty());
    }
    while rest.len() > 0
        invariant
            0 <= taken <= all.len(),
            all.len() == total,
            taken + rest@.len() == all.len(),
            rest@ == all.skip(taken),
            out@ == sorted(all.take(taken)),
        decreases rest.len(),
    {
        let item = rest.remove(0);
        let ghost before = out@;
        let mut at: usize = out.len();
        while at > 0 && item.before(&out[at - 1])
            invariant
                at <= out.len(),
                before == out@,
                forall|i: int| at <= i < before.len() ==> #[trigger] item.goes_before(&before[i]),
            decreases at,
        {
            at = at - 1;
        }
        out.insert(at, item);
        proof {
            with_item_at(before, item, at as int);
            assert(all.take(taken + 1).drop_last() =~= all.take(taken));
            assert(all.take(taken + 1).last() == item);
            assert(rest@ =~= all.skip(taken + 1));
            taken = taken + 1;
        }
    }
    proof {
        assert(all.take(taken) =~= all);
    }
    out
}

proof fn with_item_keeps_order<T: Sortable>(list: Seq<T>, item: T)
    requires
        in_order(list),
    ensures
        in_order(with_item(list, item)),
        with_item(list, item).to_multiset() == list.to_multiset().insert(item),
        with_item(list, item).len() == list.len() + 1,
    decreases list.len(),
{
    broadcast use vstd::seq_lib::group_to_multiset_ensures;

    if list.len() == 0 || !item.goes_before(&list.last()) {
        let r = list.push(item);
        assert forall|i: int, j: int| 0 <= i < j < r.len() implies !#[trigger] r[j].goes_before(
            &r[i],
        ) by {
            if j == list.len() && i < list.len() - 1 {
                assert(!list[list.len() - 1].goes_before(&list[i]));
                T::order_laws(item, list.last(), list[i]);
            }
        }
    } else {
        let shorter = list.drop_last();
        with_item_keeps_order(shorter, item);
        let inner = with_item(shorter, item);
        let last = list.last();
        let r = inner.push(last);
        assert forall|i: int, j: int| 0 <= i < j < r.len() implies !#[trigger] r[j].goes_before(
            &r[i],
        ) by {
            if j == inner.len() {
                assert(inner.to_multiset().contains(inner[i]));
                if inner[i] == item {
                    T::order_laws(item, last, item);
                } else {
                    assert(shorter.to_multiset().contains(inner[i]));
                    let m = choose|m: int| 0 <= m < shorter.len() && shorter[m] == inner[i];
                    assert(list[m] == inner[i]);
                    assert(!list[list.len() - 1].goes_before(&list[m]));
                }
            }
        }
        assert(list =~= shorter.push(last));
        assert(r.to_multiset() =~= list.to_multiset().insert(item));
    }
}

/// Sorting orders the items and neither drops nor adds any.
pub proof fn sorting_orders_and_keeps<T: Sortable>(list: Seq<T>)
    ensures
        in_order(sorted(list)),
        sorted(list).to_multiset() == list.to_multiset(),
        sorted(list).len() == list.len(),
    decreases list.len(),
{
    broadcast use vstd::seq_lib::group_to_multiset_ensures;

    if list.len() > 0 {
        sorting_orders_and_keeps(list.drop_last());
        with_item_keeps_order(sorted(list.drop_last()), list.last());
        assert(list =~= list.drop_last().push(list.last()));
    }
}

} // verus!

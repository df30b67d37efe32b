//! Ordering: texts against each other, and lists by any comparison.

use vstd::prelude::*;

use crate::strs::chars_of;

verus! {

/// Whether one text comes before another, character by character.
pub open spec fn text_less(a: Seq<char>, b: Seq<char>) -> bool
    decreases a.len(),
{
    if b.len() == 0 {
        false
    } else if a.len() == 0 {
        true
    } else if a[0] != b[0] {
        a[0] < b[0]
    } else {
        text_less(a.drop_first(), b.drop_first())
    }
}

/// Whether one text comes before another.
pub fn precedes(a: &str, b: &str) -> (r: bool)
    ensures
        r == text_less(a@, b@),
{
    let x: Vec<char> = chars_of(a);
    let y: Vec<char> = chars_of(b);
    let mut i: usize = 0;
    assert(a@.skip(0) =~= a@);
    assert(b@.skip(0) =~= b@);
    while i < x.len() && i < y.len()
        invariant
            x@ == a@,
            y@ == b@,
            i <= x.len(),
            i <= y.len(),
            text_less(a@, b@) == text_less(a@.skip(i as int), b@.skip(i as int)),
        decreases x.len() - i,
    {
        assert(a@.skip(i as int)[0] == x@[i as int]);
        assert(b@.skip(i as int)[0] == y@[i as int]);
        if x[i] != y[i] {
            return x[i] < y[i];
        }
        assert(a@.skip(i as int).drop_first() =~= a@.skip(i + 1));
        assert(b@.skip(i as int).drop_first() =~= b@.skip(i + 1));
        i = i + 1;
    }
    i < y.len()
}

/// No text comes before itself, two texts never come before each other, and the
/// order carries over.
pub proof fn lemma_text_order(a: Seq<char>, b: Seq<char>, c: Seq<char>)
    ensures
        !text_less(a, a),
        text_less(a, b) ==> !text_less(b, a),
        !text_less(b, a) && !text_less(c, b) ==> !text_less(c, a),
        !text_less(a, b) && !text_less(b, a) ==> a == b,
    decreases a.len() + b.len() + c.len(),
{
    if a.len() > 0 {
        lemma_text_order(
            a.drop_first(),
            if b.len() > 0 {
                b.drop_first()
            } else {
                b
            },
            if c.len() > 0 {
                c.drop_first()
            } else {
                c
            },
        );
        if b.len() > 0 && a[0] == b[0] && a.drop_first() == b.drop_first() {
            assert(a =~= seq![a[0]] + a.drop_first());
            assert(b =~= seq![b[0]] + b.drop_first());
        }
    } else if b.len() == 0 {
        assert(a =~= b);
    }
}

/// A list with one more item in its place: behind everything that does not come
/// after it.
pub open spec fn insert_by<T>(list: Seq<T>, x: T, less: spec_fn(T, T) -> bool) -> Seq<T>
    decreases list.len(),
{
    if list.len() == 0 {
        seq![x]
    } else if less(x, list.last()) {
        insert_by(list.drop_last(), x, less).push(list.last())
    } else {
        list.push(x)
    }
}

/// The items in order. Items that compare equal keep their order.
pub open spec fn sorted_by<T>(items: Seq<T>, less: spec_fn(T, T) -> bool) -> Seq<T>
    decreases items.len(),
{
    if items.len() == 0 {
        Seq::empty()
    } else {
        insert_by(sorted_by(items.drop_last(), less), items.last(), less)
    }
}

/// An item goes where everything behind it comes after it.
pub proof fn lemma_insert_at<T>(list: Seq<T>, x: T, less: spec_fn(T, T) -> bool, k: int)
    requires
        0 <= k <= list.len(),
        k > 0 ==> !less(x, list[k - 1]),
        forall|j: int| k <= j < list.len() ==> less(x, #[trigger] list[j]),
    ensures
        insert_by(list, x, less) == list.insert(k, x),
    decreases list.len(),
{
    if list.len() == 0 {
        assert(list.insert(0, x) =~= seq![x]);
    } else if k == list.len() {
        assert(!less(x, list.last()));
        assert(list.insert(k, x) =~= list.push(x));
    } else {
        let init = list.drop_last();
        assert(less(x, list[list.len() - 1]));
        assert forall|j: int| k <= j < init.len() implies less(x, #[trigger] init[j]) by {
            assert(init[j] == list[j]);
        }
        lemma_insert_at(init, x, less, k);
        assert(init.insert(k, x).push(list.last()) =~= list.insert(k, x));
    }
}

/// Whether a comparison orders: nothing comes before what comes before it, and
/// not coming before carries over.
pub open spec fn orders<T>(less: spec_fn(T, T) -> bool) -> bool {
    &&& forall|a: T, b: T| #[trigger] less(a, b) ==> !less(b, a)
    &&& forall|a: T, b: T, c: T|
        !(#[trigger] less(b, a)) && !(#[trigger] less(c, b)) ==> !less(c, a)
}

/// Whether no item comes before an earlier one.
pub open spec fn in_order<T>(s: Seq<T>, less: spec_fn(T, T) -> bool) -> bool {
    forall|i: int, j: int| 0 <= i < j < s.len() ==> !less(#[trigger] s[j], #[trigger] s[i])
}

proof fn lemma_insert_keeps<T>(list: Seq<T>, x: T, less: spec_fn(T, T) -> bool)
    requires
        orders(less),
        in_order(list, less),
    ensures
        in_order(insert_by(list, x, less), less),
        insert_by(list, x, less).to_multiset() == list.to_multiset().insert(x),
        insert_by(list, x, less).len() == list.len() + 1,
        insert_by(list, x, less).last() == x || (list.len() > 0 && insert_by(list, x, less).last()
            == list.last() && less(x, list.last())),
    decreases list.len(),
{
    broadcast use vstd::seq_lib::group_to_multiset_ensures;

    if list.len() == 0 {
        assert(seq![x] =~= list.push(x));
    } else if less(x, list.last()) {
        let init = list.drop_last();
        let last = list.last();
        assert(in_order(init, less)) by {
            assert forall|i: int, j: int| 0 <= i < j < init.len() implies !less(
                #[trigger] init[j],
                #[trigger] init[i],
            ) by {
                assert(init[j] == list[j] && init[i] == list[i]);
            }
        }
        lemma_insert_keeps(init, x, less);
        let inner = insert_by(init, x, less);
        let r = inner.push(last);
        assert forall|i: int, j: int| 0 <= i < j < r.len() implies !less(
            #[trigger] r[j],
            #[trigger] r[i],
        ) by {
            if j == inner.len() {
                let m = inner.last();
                if init.len() > 0 {
                    assert(!less(list[list.len() - 1], list[init.len() - 1]));
                    assert(init.last() == list[init.len() - 1]);
                }
                assert(!less(last, m));
                if i < inner.len() - 1 {
                    assert(!less(inner[inner.len() - 1], inner[i]));
                    assert(!less(last, inner[i]));
                }
            }
        }
        assert(init.push(last) =~= list);
    } else {
        let r = list.push(x);
        assert forall|i: int, j: int| 0 <= i < j < r.len() implies !less(
            #[trigger] r[j],
            #[trigger] r[i],
        ) by {
            if j == list.len() {
                if i < list.len() - 1 {
                    assert(!less(list[list.len() - 1], list[i]));
                }
            }
        }
    }
}

/// Sorting by a comparison that orders puts the items in order and neither drops
/// nor adds one.
pub proof fn law_sorting_orders<T>(items: Seq<T>, less: spec_fn(T, T) -> bool)
    requires
        orders(less),
    ensures
        in_order(sorted_by(items, less), less),
        sorted_by(items, less).to_multiset() == items.to_multiset(),
        sorted_by(items, less).len() == items.len(),
    decreases items.len(),
{
    broadcast use vstd::seq_lib::group_to_multiset_ensures;

    if items.len() > 0 {
        let init = items.drop_last();
        law_sorting_orders(init, less);
        lemma_insert_keeps(sorted_by(init, less), items.last(), less);
        assert(init.push(items.last()) =~= items);
    } else {
        assert(items =~= Seq::<T>::empty());
    }
}

} // verus!

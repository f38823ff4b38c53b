//! Facts about sequences.

use vstd::prelude::*;

verus! {

/// What a filter keeps: exactly the items that satisfy `pred`.
pub proof fn lemma_filter_keeps<T>(items: Seq<T>, pred: spec_fn(T) -> bool)
    ensures
        forall|k: int|
            0 <= k < items.filter(pred).len() ==> pred(#[trigger] items.filter(pred)[k])
                && items.contains(items.filter(pred)[k]),
        forall|i: int|
            0 <= i < items.len() && pred(#[trigger] items[i]) ==> items.filter(pred).contains(
                items[i],
            ),
{
    assert forall|k: int| 0 <= k < items.filter(pred).len() implies pred(
        #[trigger] items.filter(pred)[k],
    ) && items.contains(items.filter(pred)[k]) by {
        items.lemma_filter_pred(pred, k);
        items.lemma_filter_contains_rev(pred, items.filter(pred)[k]);
    }
    assert forall|i: int| 0 <= i < items.len() && pred(#[trigger] items[i]) implies items.filter(
        pred,
    ).contains(items[i]) by {
        items.lemma_filter_contains(pred, i);
    }
}

/// Filtering one more item.
pub proof fn lemma_filter_step<T>(items: Seq<T>, pred: spec_fn(T) -> bool, i: int)
    requires
        0 <= i < items.len(),
    ensures
        items.take(i + 1).filter(pred) == if pred(items[i]) {
            items.take(i).filter(pred).push(items[i])
        } else {
            items.take(i).filter(pred)
        },
        items.take(i).filter(pred).len() <= i,
{
    reveal(Seq::filter);
    assert(items.take(i + 1).drop_last() =~= items.take(i));
    items.take(i).lemma_filter_len(pred);
}

/// A filter keeps as many items of one sequence as another filter of another sequence, where the
/// filters agree item by item.
pub proof fn lemma_filters_keep_as_many<A, B>(
    a: Seq<A>,
    p: spec_fn(A) -> bool,
    b: Seq<B>,
    q: spec_fn(B) -> bool,
)
    requires
        a.len() == b.len(),
        forall|i: int| 0 <= i < a.len() ==> p(#[trigger] a[i]) == q(b[i]),
    ensures
        a.filter(p).len() == b.filter(q).len(),
    decreases a.len(),
{
    reveal(Seq::filter);
    if a.len() > 0 {
        let last = a.len() - 1;
        assert(p(a[last]) == q(b[last]));
        assert forall|i: int| 0 <= i < last implies p(#[trigger] a.drop_last()[i]) == q(
            b.drop_last()[i],
        ) by {
            assert(p(a[i]) == q(b[i]));
        }
        lemma_filters_keep_as_many(a.drop_last(), p, b.drop_last(), q);
    }
}

/// Taking one row out of the rows takes its items out of the items of all rows.
proof fn lemma_flatten_without<T>(rows: Seq<Seq<T>>, i: int)
    requires
        0 <= i < rows.len(),
    ensures
        rows.flatten().to_multiset() == rows.remove(i).flatten().to_multiset().add(
            rows[i].to_multiset(),
        ),
{
    let front = rows.take(i);
    let back = rows.skip(i + 1);
    assert(rows =~= front.push(rows[i]) + back);
    assert(rows.remove(i) =~= front + back);
    vstd::seq_lib::lemma_flatten_concat(front.push(rows[i]), back);
    vstd::seq_lib::lemma_flatten_concat(front, back);
    front.lemma_flatten_push(rows[i]);
    let f = front.flatten();
    let b = back.flatten();
    vstd::seq_lib::lemma_multiset_commutative(f + rows[i], b);
    vstd::seq_lib::lemma_multiset_commutative(f, rows[i]);
    vstd::seq_lib::lemma_multiset_commutative(f, b);
    assert(rows.flatten().to_multiset() =~= rows.remove(i).flatten().to_multiset().add(
        rows[i].to_multiset(),
    ));
}

/// The same rows in any order hold the same items.
pub proof fn lemma_flatten_in_any_order<T>(a: Seq<Seq<T>>, b: Seq<Seq<T>>)
    requires
        a.to_multiset() == b.to_multiset(),
    ensures
        a.flatten().to_multiset() == b.flatten().to_multiset(),
    decreases a.len(),
{
    a.to_multiset_ensures();
    b.to_multiset_ensures();
    assert(a.len() == b.len());
    if a.len() == 0 {
        assert(a =~= b);
    } else {
        let last = a.len() - 1;
        assert(a.contains(a[last]));
        assert(b.to_multiset().count(a[last]) > 0);
        assert(b.contains(a[last]));
        let i = choose|i: int| 0 <= i < b.len() && b[i] == a[last];
        assert(a.remove(last).to_multiset() == b.remove(i).to_multiset());
        lemma_flatten_in_any_order(a.remove(last), b.remove(i));
        lemma_flatten_without(a, last);
        lemma_flatten_without(b, i);
    }
}

} // verus!

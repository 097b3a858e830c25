//! A stable sort, and the order of texts.

use crate::text::chars_of;
use vstd::prelude::*;

verus! {

/// Values with an order among their views.
pub trait Ranked: View + Sized {
    /// Whether a value must stand before another.
    spec fn precedes(left: Self::V, right: Self::V) -> bool;

    /// The order is that of a sort key: what precedes cannot also follow, and values that do not
    /// precede each other rank alike.
    proof fn lemma_order(a: Self::V, b: Self::V, c: Self::V)
        ensures
            Self::precedes(a, b) ==> !Self::precedes(b, a),
            !Self::precedes(b, a) && !Self::precedes(c, b) ==> !Self::precedes(c, a),
    ;

    fn stands_before(&self, other: &Self) -> (result: bool)
        ensures
            result == Self::precedes(self@, other@),
    ;
}

/// The views of the items of a sequence.
pub open spec fn views<T: View>(items: Seq<T>) -> Seq<T::V> {
    Seq::new(items.len(), |i: int| items[i]@)
}

/// `sorted` with `item` put behind everything that it does not precede.
pub open spec fn placed<T: Ranked>(sorted: Seq<T::V>, item: T::V) -> Seq<T::V>
    decreases sorted.len(),
{
    if sorted.len() == 0 || !T::precedes(item, sorted.last()) {
        sorted.push(item)
    } else {
        placed::<T>(sorted.drop_last(), item).push(sorted.last())
    }
}

/// The items in order, items that rank alike in the order in which they came.
pub open spec fn in_order<T: Ranked>(items: Seq<T::V>) -> Seq<T::V>
    decreases items.len(),
{
    if items.len() == 0 {
        items
    } else {
        placed::<T>(in_order::<T>(items.drop_last()), items.last())
    }
}

/// Whether no item stands behind one that it precedes.
pub open spec fn is_ordered<T: Ranked>(items: Seq<T::V>) -> bool {
    forall|i: int, j: int| 0 <= i < j < items.len() ==> !T::precedes(#[trigger] items[j], #[trigger] items[i])
}

/// Placing an item keeps the order, and adds the item and nothing else.
pub proof fn lemma_placed<T: Ranked>(sorted: Seq<T::V>, item: T::V)
    requires
        is_ordered::<T>(sorted),
    ensures
        is_ordered::<T>(placed::<T>(sorted, item)),
        placed::<T>(sorted, item).to_multiset() == sorted.to_multiset().insert(item),
        placed::<T>(sorted, item).len() == sorted.len() + 1,
        forall|x: T::V| #[trigger]
            placed::<T>(sorted, item).contains(x) <==> (x == item || sorted.contains(x)),
    decreases sorted.len(),
{
    broadcast use vstd::seq_lib::group_to_multiset_ensures;

    if sorted.len() == 0 || !T::precedes(item, sorted.last()) {
        let result = sorted.push(item);
        assert forall|i: int, j: int| 0 <= i < j < result.len() implies !T::precedes(
            #[trigger] result[j],
            #[trigger] result[i],
        ) by {
            if j == sorted.len() {
                T::lemma_order(sorted[i], sorted.last(), item);
                T::lemma_order(sorted[i], sorted[i], sorted[i]);
            }
        }
        assert forall|x: T::V| #[trigger] result.contains(x) <==> (x == item || sorted.contains(x)) by {
            if sorted.contains(x) {
                let k = choose|k: int| 0 <= k < sorted.len() && sorted[k] == x;
                assert(result[k] == x);
            }
            assert(result[sorted.len() as int] == item);
        }
    } else {
        let head = sorted.drop_last();
        let last = sorted.last();
        lemma_placed::<T>(head, item);
        let inner = placed::<T>(head, item);
        let result = inner.push(last);
        assert forall|i: int, j: int| 0 <= i < j < result.len() implies !T::precedes(
            #[trigger] result[j],
            #[trigger] result[i],
        ) by {
            if j == inner.len() {
                assert(result[i] == inner[i]);
                assert(inner.contains(inner[i]));
                assert(inner[i] == item || head.contains(inner[i]));
                if inner[i] == item {
                    T::lemma_order(item, last, last);
                } else {
                    assert(head.contains(inner[i]));
                    let k = choose|k: int| 0 <= k < head.len() && head[k] == inner[i];
                    assert(sorted[k] == inner[i]);
                    assert(sorted[sorted.len() - 1] == last);
                }
            }
        }
        assert(sorted =~= head.push(last));
        assert(result.to_multiset() =~= sorted.to_multiset().insert(item));
        assert forall|x: T::V| #[trigger] result.contains(x) <==> (x == item || sorted.contains(x)) by {
            if result.contains(x) {
                let k = choose|k: int| 0 <= k < result.len() && result[k] == x;
                if k < inner.len() {
                    assert(inner[k] == x);
                    assert(inner.contains(x));
                    assert(x == item || head.contains(x));
                    if x != item {
                        let m = choose|m: int| 0 <= m < head.len() && head[m] == x;
                        assert(sorted[m] == x);
                    }
                } else {
                    assert(sorted[sorted.len() - 1] == x);
                }
            }
            if x == item || sorted.contains(x) {
                if x == last {
                    assert(result[inner.len() as int] == x);
                } else {
                    if x != item {
                        let k = choose|k: int| 0 <= k < sorted.len() && sorted[k] == x;
                        assert(head[k] == x);
                        assert(head.contains(x));
                    }
                    assert(x == item || head.contains(x));
                    assert(inner.contains(x));
                    let m = choose|m: int| 0 <= m < inner.len() && inner[m] == x;
                    assert(result[m] == x);
                }
            }
        }
    }
}

/// Sorting keeps the items and puts them in order.
pub proof fn lemma_in_order<T: Ranked>(items: Seq<T::V>)
    ensures
        is_ordered::<T>(in_order::<T>(items)),
        in_order::<T>(items).to_multiset() == items.to_multiset(),
        in_order::<T>(items).len() == items.len(),
        forall|x: T::V| #[trigger] in_order::<T>(items).contains(x) <==> items.contains(x),
    decreases items.len(),
{
    broadcast use vstd::seq_lib::group_to_multiset_ensures;

    if items.len() > 0 {
        let head = items.drop_last();
        lemma_in_order::<T>(head);
        lemma_placed::<T>(in_order::<T>(head), items.last());
        assert(items =~= head.push(items.last()));
        assert forall|x: T::V| #[trigger] in_order::<T>(items).contains(x) <==> items.contains(x) by {
            if items.contains(x) {
                let k = choose|k: int| 0 <= k < items.len() && items[k] == x;
                if k < head.len() {
                    assert(head[k] == x);
                    assert(head.contains(x));
                }
            }
            if head.contains(x) {
                let k = choose|k: int| 0 <= k < head.len() && head[k] == x;
                assert(items[k] == x);
            }
            if x == items.last() {
                assert(items[items.len() - 1] == x);
            }
        }
    }
}

/// Where an item is placed: behind everything up to the last item that it does not precede.
pub proof fn lemma_placed_at<T: Ranked>(sorted: Seq<T::V>, item: T::V, at: int)
    requires
        0 <= at <= sorted.len(),
        at > 0 ==> !T::precedes(item, sorted[at - 1]),
        forall|i: int| at <= i < sorted.len() ==> T::precedes(item, #[trigger] sorted[i]),
    ensures
        placed::<T>(sorted, item) == sorted.insert(at, item),
    decreases sorted.len(),
{
    if at == sorted.len() {
        assert(sorted.insert(at, item) =~= sorted.push(item));
    } else {
        assert(T::precedes(item, sorted[sorted.len() - 1]));
        lemma_placed_at::<T>(sorted.drop_last(), item, at);
        assert(sorted.drop_last().insert(at, item).push(sorted.last()) =~= sorted.insert(at, item));
    }
}

/// Sorts a vector. Items that rank alike keep their order.
pub fn sort<T: Ranked>(items: &mut Vec<T>)
    ensures
        views(final(items)@) == in_order::<T>(views(old(items)@)),
{
    let ghost start = views(items@);
    let mut done: usize = 0;
    assert(start.take(0) =~= Seq::empty());
    assert(views(items@).take(0) =~= in_order::<T>(start.take(0)));
    while done < items.len()
        invariant
            done <= items.len(),
            items@.len() == start.len(),
            views(items@).take(done as int) == in_order::<T>(start.take(done as int)),
            views(items@).skip(done as int) == start.skip(done as int),
        decreases items.len() - done,
    {
        let ghost before = items@;
        let ghost prefix = views(before).take(done as int);
        let item: T = items.remove(done);
        let ghost removed = items@;
        let mut at: usize = done;
        assert(forall|i: int| 0 <= i < done ==> removed[i] == before[i]);
        while at > 0 && item.stands_before(&items[at - 1])
            invariant
                at <= done <= items.len(),
                items@ == removed,
                removed == before.remove(done as int),
                done < before.len(),
                item == before[done as int],
                prefix == views(before).take(done as int),
                forall|i: int| at <= i < done ==> T::precedes(item@, #[trigger] prefix[i]),
            decreases at,
        {
            assert(removed[at - 1] == before[at - 1]);
            assert(prefix[at - 1] == before[at - 1]@);
            at -= 1;
        }
        proof {
            if at > 0 {
                assert(removed[at - 1] == before[at - 1]);
                assert(prefix[at - 1] == before[at - 1]@);
            }
            lemma_placed_at::<T>(prefix, item@, at as int);
        }
        items.insert(at, item);
        done += 1;
        proof {
            let now = views(items@);
            assert(now.take(done as int) =~= prefix.insert(at as int, item@));
            assert(views(before)[done - 1] == start[done - 1]) by {
                assert(views(before).skip(done - 1)[0] == start.skip(done - 1)[0]);
            }
            assert(start.take(done as int).drop_last() =~= start.take(done - 1));
            assert(now.skip(done as int) =~= start.skip(done as int)) by {
                assert forall|i: int| 0 <= i < start.len() - done implies now.skip(
                    done as int,
                )[i] == start.skip(done as int)[i] by {
                    assert(now[done + i] == views(before)[done + i]);
                    assert(views(before).skip(done - 1)[i + 1] == start.skip(done - 1)[i + 1]);
                }
            }
        }
    }
    assert(start.take(start.len() as int) =~= start);
    assert(views(items@).take(start.len() as int) =~= views(items@));
}

/// Whether a text stands before another in the order of their characters' code points, which is
/// also the order of their bytes.
pub open spec fn text_before(left: Seq<char>, right: Seq<char>) -> bool
    decreases left.len(),
{
    if right.len() == 0 {
        false
    } else if left.len() == 0 {
        true
    } else if left[0] != right[0] {
        left[0] < right[0]
    } else {
        text_before(left.drop_first(), right.drop_first())
    }
}

/// The order of texts is total.
pub proof fn lemma_text_order(a: Seq<char>, b: Seq<char>, c: Seq<char>)
    ensures
        text_before(a, b) ==> !text_before(b, a),
        !text_before(a, b) && !text_before(b, a) ==> a == b,
        !text_before(b, a) && !text_before(c, b) ==> !text_before(c, a),
    decreases a.len() + b.len() + c.len(),
{
    if a.len() > 0 && b.len() > 0 && c.len() > 0 {
        lemma_text_order(a.drop_first(), b.drop_first(), c.drop_first());
    }
    if a.len() > 0 && b.len() > 0 {
        lemma_text_order(a.drop_first(), b.drop_first(), b.drop_first().take(0));
        if a[0] == b[0] && !text_before(a, b) && !text_before(b, a) {
            assert(a =~= seq![a[0]] + a.drop_first());
            assert(b =~= seq![b[0]] + b.drop_first());
        }
    } else if a.len() == 0 && b.len() == 0 {
        assert(a =~= b);
    }
}

/// Whether `left` stands before `right`.
pub fn is_text_before(left: &str, right: &str) -> (result: bool)
    ensures
        result == text_before(left@, right@),
{
    let a = chars_of(left);
    let b = chars_of(right);
    let mut index: usize = 0;
    assert(a@.skip(0) =~= left@);
    assert(b@.skip(0) =~= right@);
    while index < a.len() && index < b.len()
        invariant
            index <= a.len(),
            index <= b.len(),
            text_before(left@, right@) == text_before(a@.skip(index as int), b@.skip(index as int)),
        decreases a.len() - index,
    {
        let x: char = a[index];
        let y: char = b[index];
        if x != y {
            return x < y;
        }
        assert(a@.skip(index as int).drop_first() =~= a@.skip(index + 1));
        assert(b@.skip(index as int).drop_first() =~= b@.skip(index + 1));
        index += 1;
    }
    index < b.len()
}

/// Whether any two items of a sequence rank differently.
pub open spec fn ranks_differ<T: Ranked>(items: Seq<T::V>) -> bool {
    forall|i: int, j: int|
        0 <= i < j < items.len() ==> T::precedes(#[trigger] items[i], #[trigger] items[j])
            || T::precedes(items[j], items[i])
}

proof fn lemma_one_order<T: Ranked>(left: Seq<T::V>, right: Seq<T::V>)
    requires
        is_ordered::<T>(left),
        is_ordered::<T>(right),
        ranks_differ::<T>(left),
        left.to_multiset() == right.to_multiset(),
    ensures
        left == right,
    decreases left.len(),
{
    broadcast use vstd::seq_lib::group_to_multiset_ensures;

    assert(left.len() == left.to_multiset().len());
    assert(right.len() == right.to_multiset().len());
    if left.len() == 0 {
        assert(left =~= right);
    } else {
        let a = left.last();
        let b = right.last();
        assert(left.contains(a));
        assert(right.contains(b));
        assert(left.to_multiset().count(a) > 0);
        assert(right.to_multiset().count(b) > 0);
        assert(right.contains(a));
        assert(left.contains(b));
        let k = choose|k: int| 0 <= k < left.len() && left[k] == b;
        let m = choose|m: int| 0 <= m < right.len() && right[m] == a;
        if a != b {
            assert(k < left.len() - 1);
            assert(m < right.len() - 1);
            assert(!T::precedes(left[left.len() - 1], left[k]));
            assert(T::precedes(left[k], left[left.len() - 1]));
            assert(!T::precedes(right[right.len() - 1], right[m]));
        }
        assert(left =~= left.drop_last().push(a));
        assert(right =~= right.drop_last().push(b));
        assert(left.drop_last().to_multiset() =~= left.to_multiset().remove(a));
        assert(right.drop_last().to_multiset() =~= right.to_multiset().remove(b));
        lemma_one_order::<T>(left.drop_last(), right.drop_last());
    }
}

/// Where all items rank differently, their order after a sort does not depend on the order in
/// which they came.
pub proof fn lemma_order_is_forgotten<T: Ranked>(left: Seq<T::V>, right: Seq<T::V>)
    requires
        ranks_differ::<T>(left),
        left.to_multiset() == right.to_multiset(),
    ensures
        in_order::<T>(left) == in_order::<T>(right),
{
    lemma_in_order::<T>(left);
    lemma_in_order::<T>(right);
    lemma_ranks_differ::<T>(left);
    lemma_one_order::<T>(in_order::<T>(left), in_order::<T>(right));
}

proof fn lemma_ranks_differ<T: Ranked>(items: Seq<T::V>)
    requires
        ranks_differ::<T>(items),
    ensures
        ranks_differ::<T>(in_order::<T>(items)),
    decreases items.len(),
{
    if items.len() > 0 {
        let head = items.drop_last();
        assert(ranks_differ::<T>(head)) by {
            assert forall|i: int, j: int| 0 <= i < j < head.len() implies T::precedes(
                #[trigger] head[i],
                #[trigger] head[j],
            ) || T::precedes(head[j], head[i]) by {
                assert(head[i] == items[i] && head[j] == items[j]);
            }
        }
        lemma_ranks_differ::<T>(head);
        let sorted = in_order::<T>(head);
        lemma_in_order::<T>(head);
        assert forall|i: int| 0 <= i < sorted.len() implies T::precedes(
            #[trigger] sorted[i],
            items.last(),
        ) || T::precedes(items.last(), sorted[i]) by {
            assert(sorted.contains(sorted[i]));
            assert(head.contains(sorted[i]));
            let k = choose|k: int| 0 <= k < head.len() && head[k] == sorted[i];
            assert(items[k] == sorted[i]);
            assert(items[items.len() - 1] == items.last());
        }
        lemma_placed_ranks::<T>(sorted, items.last());
    }
}

proof fn lemma_placed_ranks<T: Ranked>(sorted: Seq<T::V>, item: T::V)
    requires
        is_ordered::<T>(sorted),
        ranks_differ::<T>(sorted),
        forall|i: int|
            0 <= i < sorted.len() ==> T::precedes(#[trigger] sorted[i], item) || T::precedes(
                item,
                sorted[i],
            ),
    ensures
        ranks_differ::<T>(placed::<T>(sorted, item)),
    decreases sorted.len(),
{
    if sorted.len() == 0 || !T::precedes(item, sorted.last()) {
    } else {
        let head = sorted.drop_last();
        let last = sorted.last();
        assert forall|i: int| 0 <= i < head.len() implies T::precedes(#[trigger] head[i], item)
            || T::precedes(item, head[i]) by {
            assert(head[i] == sorted[i]);
        }
        lemma_placed_ranks::<T>(head, item);
        lemma_placed::<T>(head, item);
        let inner = placed::<T>(head, item);
        let result = inner.push(last);
        assert forall|i: int, j: int| 0 <= i < j < result.len() implies T::precedes(
            #[trigger] result[i],
            #[trigger] result[j],
        ) || T::precedes(result[j], result[i]) by {
            if j == inner.len() {
                assert(inner.contains(inner[i]));
                if inner[i] != item {
                    assert(head.contains(inner[i]));
                    let k = choose|k: int| 0 <= k < head.len() && head[k] == inner[i];
                    assert(sorted[k] == inner[i]);
                    assert(sorted[sorted.len() - 1] == last);
                }
            } else {
                assert(result[i] == inner[i] && result[j] == inner[j]);
            }
        }
    }
}

} // verus!

//! Putting a sequence in order without changing the order of what is equal.

use vstd::prelude::*;

verus! {

/// Whether `le` compares any two values, and orders three as it orders each two.
pub open spec fn total_preorder<T>(le: spec_fn(T, T) -> bool) -> bool {
    &&& forall|a: T, b: T| #[trigger] le(a, b) || le(b, a)
    &&& forall|a: T, b: T, c: T| #[trigger] le(a, b) && #[trigger] le(b, c) ==> le(a, c)
}

/// Whether each value may stand in front of those behind it.
pub open spec fn is_sorted<T>(values: Seq<T>, le: spec_fn(T, T) -> bool) -> bool {
    forall|i: int, j: int| 0 <= i < j < values.len() ==> le(#[trigger] values[i], #[trigger] values[j])
}

/// `sorted` with `value` put behind the last value that may stand in front of it.
pub open spec fn insert_sorted<T>(sorted: Seq<T>, value: T, le: spec_fn(T, T) -> bool) -> Seq<T>
    decreases sorted.len(),
{
    if sorted.len() == 0 {
        seq![value]
    } else if le(sorted.last(), value) {
        sorted.push(value)
    } else {
        insert_sorted(sorted.drop_last(), value, le).push(sorted.last())
    }
}

/// The values in order; values of which each may stand in front of the
/// other keep the order they had.
pub open spec fn stable_sort<T>(values: Seq<T>, le: spec_fn(T, T) -> bool) -> Seq<T>
    decreases values.len(),
{
    if values.len() == 0 {
        Seq::empty()
    } else {
        insert_sorted(stable_sort(values.drop_last(), le), values.last(), le)
    }
}

/// Where `insert_sorted` puts the value: behind `at` values, when the
/// values from there on may not stand in front of it and the one before may.
pub proof fn lemma_insert_sorted_at<T>(sorted: Seq<T>, value: T, le: spec_fn(T, T) -> bool, at: int)
    requires
        0 <= at <= sorted.len(),
        forall|i: int| at <= i < sorted.len() ==> !le(#[trigger] sorted[i], value),
        at > 0 ==> le(sorted[at - 1], value),
    ensures
        insert_sorted(sorted, value, le) == sorted.insert(at, value),
    decreases sorted.len(),
{
    if sorted.len() == 0 {
        assert(sorted.insert(at, value) =~= seq![value]);
    } else if at == sorted.len() {
        assert(sorted.insert(at, value) =~= sorted.push(value));
    } else {
        let front = sorted.drop_last();
        assert forall|i: int| at <= i < front.len() implies !le(#[trigger] front[i], value) by {
            assert(front[i] == sorted[i]);
        }
        if at > 0 {
            assert(front[at - 1] == sorted[at - 1]);
        }
        assert(!le(sorted[sorted.len() - 1], value));
        lemma_insert_sorted_at(front, value, le, at);
        assert(front.insert(at, value).push(sorted.last()) =~= sorted.insert(at, value));
    }
}

/// Putting a value into ordered values leaves them ordered, and adds that value to them.
pub proof fn lemma_insert_sorted_properties<T>(sorted: Seq<T>, value: T, le: spec_fn(T, T) -> bool)
    requires
        total_preorder(le),
        is_sorted(sorted, le),
    ensures
        is_sorted(insert_sorted(sorted, value, le), le),
        insert_sorted(sorted, value, le).to_multiset() == sorted.to_multiset().insert(value),
        insert_sorted(sorted, value, le).len() == sorted.len() + 1,
    decreases sorted.len(),
{
    broadcast use vstd::seq_lib::group_to_multiset_ensures;

    let out = insert_sorted(sorted, value, le);
    if sorted.len() == 0 {
        assert(sorted =~= Seq::<T>::empty());
        assert(out =~= Seq::<T>::empty().push(value));
    } else if le(sorted.last(), value) {
        assert forall|i: int, j: int| 0 <= i < j < out.len() implies le(
            #[trigger] out[i],
            #[trigger] out[j],
        ) by {
            if j == sorted.len() {
                if i < sorted.len() - 1 {
                    assert(le(sorted[i], sorted[sorted.len() - 1]));
                }
            } else {
                assert(le(sorted[i], sorted[j]));
            }
        }
    } else {
        let front = sorted.drop_last();
        assert forall|i: int, j: int| 0 <= i < j < front.len() implies le(
            #[trigger] front[i],
            #[trigger] front[j],
        ) by {
            assert(le(sorted[i], sorted[j]));
        }
        lemma_insert_sorted_properties(front, value, le);
        let inner = insert_sorted(front, value, le);
        assert(sorted =~= front.push(sorted.last()));
        assert forall|i: int, j: int| 0 <= i < j < out.len() implies le(
            #[trigger] out[i],
            #[trigger] out[j],
        ) by {
            if j == inner.len() {
                assert(inner.to_multiset().contains(inner[i]));
                if inner[i] != value {
                    assert(front.to_multiset().contains(inner[i]));
                    let k = choose|k: int| 0 <= k < front.len() && front[k] == inner[i];
                    assert(le(sorted[k], sorted[sorted.len() - 1]));
                } else {
                    assert(le(sorted.last(), value) || le(value, sorted.last()));
                }
            } else {
                assert(le(inner[i], inner[j]));
            }
        }
        assert(out.to_multiset() =~= sorted.to_multiset().insert(value));
    }
}

/// The values in order are ordered, and they are the same values.
pub proof fn lemma_stable_sort_properties<T>(values: Seq<T>, le: spec_fn(T, T) -> bool)
    requires
        total_preorder(le),
    ensures
        is_sorted(stable_sort(values, le), le),
        stable_sort(values, le).to_multiset() == values.to_multiset(),
        stable_sort(values, le).len() == values.len(),
    decreases values.len(),
{
    broadcast use vstd::seq_lib::group_to_multiset_ensures;

    if values.len() == 0 {
        assert(values =~= Seq::<T>::empty());
    } else {
        lemma_stable_sort_properties(values.drop_last(), le);
        lemma_insert_sorted_properties(stable_sort(values.drop_last(), le), values.last(), le);
        assert(values =~= values.drop_last().push(values.last()));
    }
}

/// Values that are in order stay as they are.
pub proof fn lemma_stable_sort_of_sorted<T>(values: Seq<T>, le: spec_fn(T, T) -> bool)
    requires
        is_sorted(values, le),
    ensures
        stable_sort(values, le) == values,
    decreases values.len(),
{
    if values.len() == 0 {
        assert(values =~= Seq::<T>::empty());
    } else {
        let front = values.drop_last();
        assert forall|i: int, j: int| 0 <= i < j < front.len() implies le(
            #[trigger] front[i],
            #[trigger] front[j],
        ) by {
            assert(le(values[i], values[j]));
        }
        lemma_stable_sort_of_sorted(front, le);
        if front.len() > 0 {
            assert(le(values[front.len() - 1], values[values.len() - 1]));
        }
        lemma_insert_sorted_at(front, values.last(), le, front.len() as int);
        assert(front.insert(front.len() as int, values.last()) =~= values);
    }
}

/// Sorting a second time changes nothing.
pub proof fn lemma_stable_sort_idempotent<T>(values: Seq<T>, le: spec_fn(T, T) -> bool)
    requires
        total_preorder(le),
    ensures
        stable_sort(stable_sort(values, le), le) == stable_sort(values, le),
{
    lemma_stable_sort_properties(values, le);
    lemma_stable_sort_of_sorted(stable_sort(values, le), le);
}


/// Moving the value at `i` to the place `at` in front of it changes the
/// values up to `i` as putting it there does, and none behind `i`.
pub proof fn lemma_move_into_place<T>(before: Seq<T>, i: int, at: int)
    requires
        0 <= at <= i < before.len(),
    ensures
        before.remove(i).insert(at, before[i]).len() == before.len(),
        before.remove(i).insert(at, before[i]).take(i + 1) == before.take(i).insert(
            at,
            before[i],
        ),
        before.remove(i).insert(at, before[i]).skip(i + 1) == before.skip(i + 1),
{
    let after = before.remove(i).insert(at, before[i]);
    assert(after.take(i + 1) =~= before.take(i).insert(at, before[i]));
    assert(after.skip(i + 1) =~= before.skip(i + 1));
}

/// One step of sorting by insertion: with the first `i` values in order,
/// putting the next where it belongs brings the first `i + 1` in order.
pub proof fn lemma_sort_step<T>(
    unsorted: Seq<T>,
    before: Seq<T>,
    le: spec_fn(T, T) -> bool,
    i: int,
    at: int,
)
    requires
        0 <= at <= i < before.len(),
        before.len() == unsorted.len(),
        before.take(i) == stable_sort(unsorted.take(i), le),
        before.skip(i) == unsorted.skip(i),
        forall|k: int| at <= k < i ==> !le(#[trigger] before[k], before[i]),
        at > 0 ==> le(before[at - 1], before[i]),
    ensures
        before.remove(i).insert(at, before[i]).take(i + 1) == stable_sort(
            unsorted.take(i + 1),
            le,
        ),
        before.remove(i).insert(at, before[i]).skip(i + 1) == unsorted.skip(i + 1),
{
    let sorted = before.take(i);
    let value = before[i];
    lemma_move_into_place(before, i, at);
    assert forall|k: int| at <= k < sorted.len() implies !le(#[trigger] sorted[k], value) by {
        assert(sorted[k] == before[k]);
    }
    if at > 0 {
        assert(sorted[at - 1] == before[at - 1]);
    }
    lemma_insert_sorted_at(sorted, value, le, at);
    assert(unsorted.take(i + 1).drop_last() =~= unsorted.take(i));
    assert(before.skip(i)[0] == value);
    assert(unsorted.take(i + 1).last() == value);
    assert(before.skip(i + 1) =~= unsorted.skip(i + 1)) by {
        assert(before.skip(i).skip(1) =~= before.skip(i + 1));
        assert(unsorted.skip(i).skip(1) =~= unsorted.skip(i + 1));
    }
}

} // verus!

//! Sorting and grouping of keyed items, done by `itertools`.

use vstd::prelude::*;

verus! {

/// What entries are ordered by: year, month, day, and the time of creation.
pub type Key = (i32, u8, u8, i64);

/// Whether `a` comes before `b` or equals it, comparing component by component.
pub open spec fn key_le(a: Key, b: Key) -> bool {
    a.0 < b.0 || (a.0 == b.0 && (a.1 < b.1 || (a.1 == b.1 && (a.2 < b.2 || (a.2 == b.2 && a.3
        <= b.3)))))
}

/// Whether the keys never decrease along `items`.
pub open spec fn ascending<T>(items: Seq<(Key, T)>) -> bool {
    forall|i: int, j: int| 0 <= i < j < items.len() ==> key_le(items[i].0, items[j].0)
}

/// The test for items that have the key `k`.
pub open spec fn has_key<T>(k: Key) -> spec_fn((Key, T)) -> bool {
    |item: (Key, T)| item.0 == k
}

/// The items of `items` that have the key `k`, in their order.
pub open spec fn with_key<T>(items: Seq<(Key, T)>, k: Key) -> Seq<(Key, T)> {
    items.filter(has_key(k))
}

/// Whether `sorted` holds the items of `items` in ascending order of their
/// keys, items of one key in the order they had.
pub open spec fn stably_sorted<T>(sorted: Seq<(Key, T)>, items: Seq<(Key, T)>) -> bool {
    &&& sorted.len() == items.len()
    &&& ascending(sorted)
    &&& forall|k: Key| #[trigger] with_key(sorted, k) == with_key(items, k)
}

/// Whether `listed` holds the items of `items` newest first: in descending
/// order of their keys, items of one key in the reverse of the order they had.
pub open spec fn newest_first<T>(listed: Seq<(Key, T)>, items: Seq<(Key, T)>) -> bool {
    stably_sorted(listed.reverse(), items)
}

/// The items of all groups in one sequence, each with the number of its group.
pub open spec fn flattened<T>(groups: Seq<(i32, Vec<T>)>) -> Seq<(i32, T)>
    decreases groups.len(),
{
    if groups.len() == 0 {
        Seq::empty()
    } else {
        flattened(groups.drop_last()) + groups.last().1@.map_values(
            |item: T| (groups.last().0, item),
        )
    }
}

/// Whether `groups` cuts `items` into its runs of equal numbers: the groups
/// put together give `items`, none is empty, and neighbours differ in number.
pub open spec fn runs_of<T>(groups: Seq<(i32, Vec<T>)>, items: Seq<(i32, T)>) -> bool {
    &&& flattened(groups) == items
    &&& forall|g: int| 0 <= g < groups.len() ==> (#[trigger] groups[g]).1@.len() > 0
    &&& forall|g: int| 0 < g < groups.len() ==> (#[trigger] groups[g]).0 != groups[g - 1].0
}

/// Calls `Itertools::sorted_by_key` with the first component as the key.
/// Trusted: the sort is stable and ascending, as that method documents, and
/// tuples of integers are ordered component by component.
#[verifier::external_body]
pub(crate) fn sorted_by_key<T>(items: Vec<(Key, T)>) -> (sorted: Vec<(Key, T)>)
    ensures
        stably_sorted(sorted@, items@),
{
    itertools::Itertools::sorted_by_key(items.into_iter(), |item| item.0).collect()
}

/// Calls `Itertools::group_by` with the first component as the key and
/// collects each group. Trusted: consecutive items of one number form one
/// group, as that method documents.
#[verifier::external_body]
pub(crate) fn group_by<T>(items: Vec<(i32, T)>) -> (groups: Vec<(i32, Vec<T>)>)
    ensures
        runs_of(groups@, items@),
{
    let grouped = itertools::Itertools::group_by(items.into_iter(), |item| item.0);
    let groups = (&grouped).into_iter();
    groups.map(|(n, group)| (n, group.map(|item| item.1).collect())).collect()
}

/// The items in reverse order.
pub fn reversed<T>(items: Vec<T>) -> (r: Vec<T>)
    ensures
        r@ == items@.reverse(),
{
    let mut items = items;
    let ghost all = items@;
    let mut r: Vec<T> = Vec::new();
    while items.len() > 0
        invariant
            items@.len() <= all.len(),
            items@ == all.subrange(0, items@.len() as int),
            r@ == all.reverse().subrange(0, all.len() - items@.len()),
        decreases items.len(),
    {
        let last = items.pop().unwrap();
        r.push(last);
        assert(items@ =~= all.subrange(0, items@.len() as int));
        assert(r@ =~= all.reverse().subrange(0, all.len() - items@.len()));
    }
    assert(r@ =~= all.reverse());
    r
}

/// Taking the last item away changes only the items under its key.
proof fn lemma_without_last<T>(s: Seq<(Key, T)>, k: Key)
    requires
        s.len() > 0,
    ensures
        with_key(s, s.last().0).len() > 0,
        with_key(s, s.last().0).last() == s.last(),
        with_key(s.drop_last(), k) == if k == s.last().0 {
            with_key(s, k).drop_last()
        } else {
            with_key(s, k)
        },
{
    let front = s.drop_last();
    let last = s.last();
    assert(s =~= front.push(last));
    front.lemma_filter_push(last, has_key::<T>(last.0));
    front.lemma_filter_push(last, has_key::<T>(k));
    if k == last.0 {
        assert(with_key(s, k).drop_last() =~= with_key(front, k));
    }
}

/// The last of an ascending sequence has the largest key among the items of
/// any sequence with the same items under each key.
proof fn lemma_last_is_largest<T>(a: Seq<(Key, T)>, b: Seq<(Key, T)>)
    requires
        a.len() > 0,
        a.len() == b.len(),
        ascending(b),
        forall|k: Key| #[trigger] with_key(a, k) == with_key(b, k),
    ensures
        key_le(a.last().0, b.last().0),
{
    let last = a.last();
    let test = has_key::<T>(last.0);
    assert(test(last));
    a.lemma_filter_contains(test, a.len() - 1);
    assert(with_key(a, last.0) == with_key(b, last.0));
    b.lemma_filter_contains_rev(test, last);
    let j = choose|j: int| 0 <= j < b.len() && b[j] == last;
    if j < b.len() - 1 {
        assert(key_le(b[j].0, b[b.len() - 1].0));
    }
}

/// Two ascending sequences with the same items under each key, in the same
/// order, are one sequence.
pub proof fn lemma_order_is_determined<T>(a: Seq<(Key, T)>, b: Seq<(Key, T)>)
    requires
        a.len() == b.len(),
        ascending(a),
        ascending(b),
        forall|k: Key| #[trigger] with_key(a, k) == with_key(b, k),
    ensures
        a == b,
    decreases a.len(),
{
    if a.len() == 0 {
        assert(a =~= b);
    } else {
        lemma_last_is_largest(a, b);
        lemma_last_is_largest(b, a);
        let k = a.last().0;
        assert(k == b.last().0);
        lemma_without_last(a, k);
        lemma_without_last(b, k);
        assert(with_key(a, k) == with_key(b, k));
        assert(a.last() == b.last());
        let front_a = a.drop_last();
        let front_b = b.drop_last();
        assert forall|other: Key| #[trigger]
            with_key(front_a, other) == with_key(front_b, other) by {
            lemma_without_last(a, other);
            lemma_without_last(b, other);
            assert(with_key(a, other) == with_key(b, other));
        }
        lemma_order_is_determined(front_a, front_b);
        assert(a =~= front_a.push(a.last()));
        assert(b =~= front_b.push(b.last()));
    }
}

/// There is one way to list given items newest first.
pub proof fn law_listing_is_determined<T>(
    a: Seq<(Key, T)>,
    b: Seq<(Key, T)>,
    items: Seq<(Key, T)>,
)
    requires
        newest_first(a, items),
        newest_first(b, items),
    ensures
        a == b,
{
    lemma_order_is_determined(a.reverse(), b.reverse());
    assert(a =~= a.reverse().reverse());
    assert(b =~= b.reverse().reverse());
}

/// Whether two sequences of groups have the same numbers and the same items.
pub open spec fn same_groups<T>(a: Seq<(i32, Vec<T>)>, b: Seq<(i32, Vec<T>)>) -> bool {
    &&& a.len() == b.len()
    &&& forall|g: int|
        0 <= g < a.len() ==> (#[trigger] a[g]).0 == b[g].0 && a[g].1@ == b[g].1@
}

/// The items of the last group, each with the number of the group.
spec fn last_run<T>(groups: Seq<(i32, Vec<T>)>) -> Seq<(i32, T)> {
    groups.last().1@.map_values(|item: T| (groups.last().0, item))
}

/// Of two cuts of the same items into runs, the last group of the one is no
/// longer than the last group of the other.
proof fn lemma_last_run_is_longest<T>(
    a: Seq<(i32, Vec<T>)>,
    b: Seq<(i32, Vec<T>)>,
    items: Seq<(i32, T)>,
)
    requires
        runs_of(a, items),
        runs_of(b, items),
        a.len() > 0,
        b.len() > 0,
    ensures
        last_run(a).len() <= last_run(b).len(),
{
    let front_a = flattened(a.drop_last());
    let front_b = flattened(b.drop_last());
    let run_a = last_run(a);
    let run_b = last_run(b);
    assert(items == front_a + run_a);
    assert(items == front_b + run_b);
    assert(items.last() == run_a.last());
    assert(items.last() == run_b.last());
    assert(a.last().0 == b.last().0);
    if run_a.len() > run_b.len() {
        let before = b.drop_last();
        assert(front_b.len() > 0);
        assert(before.len() > 0);
        assert(before.last() == b[b.len() - 2]);
        assert(front_b == flattened(before.drop_last()) + last_run(before));
        assert(front_b.last() == last_run(before).last());
        let p = front_b.len() - 1;
        assert(items[p] == front_b[p]);
        assert(items[p] == run_a[p - front_a.len()]);
        assert(b[b.len() - 1].0 != b[b.len() - 2].0);
    }
}

/// There is one way to cut given items into runs.
pub proof fn law_grouping_is_determined<T>(
    a: Seq<(i32, Vec<T>)>,
    b: Seq<(i32, Vec<T>)>,
    items: Seq<(i32, T)>,
)
    requires
        runs_of(a, items),
        runs_of(b, items),
    ensures
        same_groups(a, b),
    decreases a.len(),
{
    if a.len() == 0 || b.len() == 0 {
        if a.len() > 0 {
            assert(items == flattened(a.drop_last()) + last_run(a));
        }
        if b.len() > 0 {
            assert(items == flattened(b.drop_last()) + last_run(b));
        }
    } else {
        lemma_last_run_is_longest(a, b, items);
        lemma_last_run_is_longest(b, a, items);
        let front_a = flattened(a.drop_last());
        let front_b = flattened(b.drop_last());
        let run_a = last_run(a);
        let run_b = last_run(b);
        assert(items == front_a + run_a);
        assert(items == front_b + run_b);
        assert(front_a =~= items.subrange(0, front_a.len() as int));
        assert(front_b =~= items.subrange(0, front_b.len() as int));
        assert(run_a =~= items.subrange(front_a.len() as int, items.len() as int));
        assert(run_b =~= items.subrange(front_b.len() as int, items.len() as int));
        assert(items.last() == run_a.last());
        assert(items.last() == run_b.last());
        assert(a.last().1@ =~= b.last().1@) by {
            assert forall|j: int| 0 <= j < a.last().1@.len() implies a.last().1@[j]
                == b.last().1@[j] by {
                assert(run_a[j].1 == a.last().1@[j]);
                assert(run_b[j].1 == b.last().1@[j]);
            }
        }
        assert(runs_of(a.drop_last(), front_a)) by {
            assert forall|g: int| 0 <= g < a.drop_last().len() implies (
            #[trigger] a.drop_last()[g]).1@.len() > 0 by {
                assert(a.drop_last()[g] == a[g]);
            }
            assert forall|g: int| 0 < g < a.drop_last().len() implies (
            #[trigger] a.drop_last()[g]).0 != a.drop_last()[g - 1].0 by {
                assert(a.drop_last()[g] == a[g]);
                assert(a.drop_last()[g - 1] == a[g - 1]);
            }
        }
        assert(runs_of(b.drop_last(), front_a)) by {
            assert forall|g: int| 0 <= g < b.drop_last().len() implies (
            #[trigger] b.drop_last()[g]).1@.len() > 0 by {
                assert(b.drop_last()[g] == b[g]);
            }
            assert forall|g: int| 0 < g < b.drop_last().len() implies (
            #[trigger] b.drop_last()[g]).0 != b.drop_last()[g - 1].0 by {
                assert(b.drop_last()[g] == b[g]);
                assert(b.drop_last()[g - 1] == b[g - 1]);
            }
        }
        law_grouping_is_determined(a.drop_last(), b.drop_last(), front_a);
        assert forall|g: int| 0 <= g < a.len() implies (#[trigger] a[g]).0 == b[g].0 && a[g].1@
            == b[g].1@ by {
            if g < a.len() - 1 {
                assert(a.drop_last()[g] == a[g]);
                assert(b.drop_last()[g] == b[g]);
            }
        }
    }
}

/// What a sort hands out was handed in.
pub proof fn lemma_sorted_items<T>(sorted: Seq<(Key, T)>, items: Seq<(Key, T)>)
    requires
        stably_sorted(sorted, items),
    ensures
        forall|i: int| 0 <= i < sorted.len() ==> items.contains(#[trigger] sorted[i]),
{
    assert forall|i: int| 0 <= i < sorted.len() implies items.contains(#[trigger] sorted[i]) by {
        let item = sorted[i];
        let test = has_key::<T>(item.0);
        assert(test(item));
        sorted.lemma_filter_contains(test, i);
        assert(with_key(sorted, item.0) == with_key(items, item.0));
        items.lemma_filter_contains_rev(test, item);
    }
}

/// What a listing holds was handed in.
pub proof fn lemma_listed_items<T>(listed: Seq<(Key, T)>, items: Seq<(Key, T)>)
    requires
        newest_first(listed, items),
    ensures
        listed.len() == items.len(),
        forall|i: int| 0 <= i < listed.len() ==> items.contains(#[trigger] listed[i]),
{
    lemma_sorted_items(listed.reverse(), items);
    assert forall|i: int| 0 <= i < listed.len() implies items.contains(#[trigger] listed[i]) by {
        assert(listed.reverse()[listed.len() - 1 - i] == listed[i]);
    }
}

/// Sorts keyed items newest first.
pub fn newest_first_sorted<T>(items: Vec<(Key, T)>) -> (listed: Vec<(Key, T)>)
    ensures
        newest_first(listed@, items@),
{
    let sorted = sorted_by_key(items);
    let listed = reversed(sorted);
    assert(listed@.reverse() =~= sorted@);
    listed
}

} // verus!

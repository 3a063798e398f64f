//! A stable sort, stated as repeated insertion and proved to be one.

use vstd::prelude::*;

verus! {

/// Items that are put in order by an integer.
pub trait Ranked: Sized {
    /// The integer that orders the item.
    spec fn rank(&self) -> int;

    /// Whether this item may stand before `other`.
    fn not_after(&self, other: &Self) -> (r: bool)
        ensures
            r == (self.rank() <= other.rank()),
    ;
}

/// `s` with `x` inserted behind every item whose key is not greater, when `s` is in order.
pub open spec fn insert_sorted<T>(s: Seq<T>, x: T, key: spec_fn(T) -> int) -> Seq<T>
    decreases s.len(),
{
    if s.len() > 0 && key(s.last()) > key(x) {
        insert_sorted(s.drop_last(), x, key).push(s.last())
    } else {
        s.push(x)
    }
}

/// The items of `s` by ascending key, items with equal keys in the order they had.
pub open spec fn sorted<T>(s: Seq<T>, key: spec_fn(T) -> int) -> Seq<T>
    decreases s.len(),
{
    if s.len() == 0 {
        s
    } else {
        insert_sorted(sorted(s.drop_last(), key), s.last(), key)
    }
}

/// Whether the keys of `s` ascend.
pub open spec fn is_sorted<T>(s: Seq<T>, key: spec_fn(T) -> int) -> bool {
    forall|i: int, j: int| 0 <= i <= j < s.len() ==> key(#[trigger] s[i]) <= key(#[trigger] s[j])
}

/// The items of `s` whose key is `k`, in their order.
pub open spec fn with_key<T>(s: Seq<T>, key: spec_fn(T) -> int, k: int) -> Seq<T> {
    s.filter(|t: T| key(t) == k)
}

proof fn lemma_with_key_push<T>(s: Seq<T>, x: T, key: spec_fn(T) -> int, k: int)
    ensures
        with_key(s.push(x), key, k) == if key(x) == k {
            with_key(s, key, k).push(x)
        } else {
            with_key(s, key, k)
        },
{
    reveal(Seq::filter);
    assert(s.push(x).drop_last() =~= s);
}

proof fn lemma_insert_len<T>(s: Seq<T>, x: T, key: spec_fn(T) -> int)
    ensures
        insert_sorted(s, x, key).len() == s.len() + 1,
    decreases s.len(),
{
    if s.len() > 0 && key(s.last()) > key(x) {
        lemma_insert_len(s.drop_last(), x, key);
    }
}

/// Sorting keeps the number of items.
pub proof fn lemma_sorted_len<T>(s: Seq<T>, key: spec_fn(T) -> int)
    ensures
        sorted(s, key).len() == s.len(),
    decreases s.len(),
{
    if s.len() > 0 {
        lemma_sorted_len(s.drop_last(), key);
        lemma_insert_len(sorted(s.drop_last(), key), s.last(), key);
    }
}

proof fn lemma_insert_at<T>(s: Seq<T>, x: T, key: spec_fn(T) -> int, j: int)
    requires
        0 <= j <= s.len(),
        forall|i: int| j <= i < s.len() ==> key(#[trigger] s[i]) > key(x),
        j > 0 ==> key(s[j - 1]) <= key(x),
    ensures
        insert_sorted(s, x, key) == s.insert(j, x),
    decreases s.len(),
{
    if j < s.len() {
        assert(key(s[s.len() - 1]) > key(x));
        lemma_insert_at(s.drop_last(), x, key, j);
        assert(s.drop_last().insert(j, x).push(s.last()) =~= s.insert(j, x));
    } else {
        assert(s.push(x) =~= s.insert(j, x));
    }
}

/// Inserting in order inserts somewhere.
pub proof fn lemma_insert_somewhere<T>(s: Seq<T>, x: T, key: spec_fn(T) -> int) -> (j: int)
    ensures
        0 <= j <= s.len(),
        insert_sorted(s, x, key) == s.insert(j, x),
    decreases s.len(),
{
    if s.len() > 0 && key(s.last()) > key(x) {
        let j = lemma_insert_somewhere(s.drop_last(), x, key);
        assert(s.drop_last().insert(j, x).push(s.last()) =~= s.insert(j, x));
        j
    } else {
        assert(s.push(x) =~= s.insert(s.len() as int, x));
        s.len() as int
    }
}

/// Sorts by rank; items of equal rank keep their order.
pub fn sort_by_rank<T: Ranked>(items: &mut Vec<T>)
    ensures
        final(items)@ == sorted(old(items)@, |t: T| t.rank()),
{
    let ghost key = |t: T| t.rank();
    let ghost all = items@;
    let n = items.len();
    let mut i: usize = 0;
    assert(all.skip(0) =~= all);
    assert(sorted(all.take(0), key) + all.skip(0) =~= all);
    while i < n
        invariant
            i <= n,
            n == all.len(),
            key == (|t: T| t.rank()),
            items@ == sorted(all.take(i as int), key) + all.skip(i as int),
            sorted(all.take(i as int), key).len() == i,
        decreases n - i,
    {
        let ghost done = sorted(all.take(i as int), key);
        let x = items.remove(i);
        assert(x == all[i as int]);
        assert(items@ =~= done + all.skip(i + 1));
        let mut j: usize = i;
        while j > 0 && !items[j - 1].not_after(&x)
            invariant
                j <= i < n,
                n == all.len(),
                done.len() == i,
                key == (|t: T| t.rank()),
                items@ == done + all.skip(i + 1),
                forall|k: int| j <= k < done.len() ==> key(#[trigger] done[k]) > key(x),
            decreases j,
        {
            assert(items@[j - 1] == done[j - 1]);
            j = j - 1;
        }
        assert(j > 0 ==> items@[j - 1] == done[j - 1]);
        proof {
            lemma_insert_at(done, x, key, j as int);
            lemma_insert_len(done, x, key);
            assert(all.take(i + 1).drop_last() =~= all.take(i as int));
            assert(all.take(i + 1).last() == x);
        }
        items.insert(j, x);
        assert(items@ =~= done.insert(j as int, x) + all.skip(i + 1));
        i = i + 1;
    }
    assert(all.take(n as int) =~= all);
    assert(items@ =~= sorted(all, key));
}

proof fn lemma_insert_keeps_order<T>(s: Seq<T>, x: T, key: spec_fn(T) -> int)
    requires
        is_sorted(s, key),
    ensures
        is_sorted(insert_sorted(s, x, key), key),
        insert_sorted(s, x, key).len() == s.len() + 1,
        key(insert_sorted(s, x, key).last()) == key(x) || (s.len() > 0 && key(
            insert_sorted(s, x, key).last(),
        ) == key(s.last())),
        insert_sorted(s, x, key).to_multiset() == s.to_multiset().insert(x),
    decreases s.len(),
{
    broadcast use vstd::seq_lib::group_to_multiset_ensures;

    if s.len() > 0 && key(s.last()) > key(x) {
        let t = insert_sorted(s.drop_last(), x, key);
        assert(is_sorted(s.drop_last(), key));
        lemma_insert_keeps_order(s.drop_last(), x, key);
        assert(s.drop_last().len() > 0 ==> key(s.drop_last().last()) <= key(s.last()));
        assert forall|i: int, j: int| 0 <= i <= j < t.push(s.last()).len() implies key(
            #[trigger] t.push(s.last())[i],
        ) <= key(#[trigger] t.push(s.last())[j]) by {
            if j == t.len() && i < j {
                assert(key(t[i]) <= key(t[t.len() - 1]));
            }
        }
        assert(s.drop_last().push(s.last()) =~= s);
        assert(t.push(s.last()).to_multiset() =~= s.to_multiset().insert(x));
    } else {
        assert forall|i: int, j: int| 0 <= i <= j < s.push(x).len() implies key(
            #[trigger] s.push(x)[i],
        ) <= key(#[trigger] s.push(x)[j]) by {
            if j == s.len() && i < j {
                assert(key(s[i]) <= key(s[s.len() - 1]));
            }
        }
    }
}

proof fn lemma_insert_with_key<T>(s: Seq<T>, x: T, key: spec_fn(T) -> int, k: int)
    requires
        is_sorted(s, key),
    ensures
        with_key(insert_sorted(s, x, key), key, k) == with_key(s.push(x), key, k),
    decreases s.len(),
{
    if s.len() > 0 && key(s.last()) > key(x) {
        assert(is_sorted(s.drop_last(), key));
        lemma_insert_with_key(s.drop_last(), x, key, k);
        lemma_with_key_push(insert_sorted(s.drop_last(), x, key), s.last(), key, k);
        lemma_with_key_push(s.drop_last(), x, key, k);
        lemma_with_key_push(s.drop_last(), s.last(), key, k);
        lemma_with_key_push(s, x, key, k);
        assert(s.drop_last().push(s.last()) =~= s);
    }
}

/// `sorted` puts the items in order, loses none, adds none, and keeps the order of the
/// items that share a key.
pub proof fn sorted_is_stable<T>(s: Seq<T>, key: spec_fn(T) -> int)
    ensures
        is_sorted(sorted(s, key), key),
        sorted(s, key).to_multiset() == s.to_multiset(),
        forall|k: int| #[trigger] with_key(sorted(s, key), key, k) == with_key(s, key, k),
    decreases s.len(),
{
    broadcast use vstd::seq_lib::group_to_multiset_ensures;

    if s.len() > 0 {
        let before = sorted(s.drop_last(), key);
        sorted_is_stable(s.drop_last(), key);
        lemma_insert_keeps_order(before, s.last(), key);
        assert(s.drop_last().push(s.last()) =~= s);
        assert forall|k: int| #[trigger]
            with_key(sorted(s, key), key, k) == with_key(s, key, k) by {
            lemma_insert_with_key(before, s.last(), key, k);
            lemma_with_key_push(before, s.last(), key, k);
            lemma_with_key_push(s.drop_last(), s.last(), key, k);
        }
    }
}

/// What is in order already stays as it is.
pub proof fn sorted_of_sorted<T>(s: Seq<T>, key: spec_fn(T) -> int)
    requires
        is_sorted(s, key),
    ensures
        sorted(s, key) == s,
    decreases s.len(),
{
    if s.len() > 0 {
        assert(is_sorted(s.drop_last(), key));
        sorted_of_sorted(s.drop_last(), key);
        assert(s.drop_last().len() > 0 ==> key(s[s.len() - 2]) <= key(s[s.len() - 1]));
        assert(s.drop_last().push(s.last()) =~= s);
    }
}

proof fn lemma_insert_map<T, U>(
    s: Seq<T>,
    x: T,
    f: spec_fn(T) -> U,
    key: spec_fn(T) -> int,
    image_key: spec_fn(U) -> int,
)
    requires
        forall|t: T| image_key(#[trigger] f(t)) == key(t),
    ensures
        insert_sorted(s, x, key).map_values(f) == insert_sorted(s.map_values(f), f(x), image_key),
    decreases s.len(),
{
    if s.len() > 0 && key(s.last()) > key(x) {
        lemma_insert_map(s.drop_last(), x, f, key, image_key);
        assert(s.map_values(f).drop_last() =~= s.drop_last().map_values(f));
        let t = insert_sorted(s.drop_last(), x, key);
        assert(t.push(s.last()).map_values(f) =~= t.map_values(f).push(f(s.last())));
    } else {
        assert(s.push(x).map_values(f) =~= s.map_values(f).push(f(x)));
    }
}

/// Sorting commutes with a map that keeps the keys.
pub proof fn lemma_sorted_map<T, U>(
    s: Seq<T>,
    f: spec_fn(T) -> U,
    key: spec_fn(T) -> int,
    image_key: spec_fn(U) -> int,
)
    requires
        forall|t: T| image_key(#[trigger] f(t)) == key(t),
    ensures
        sorted(s, key).map_values(f) == sorted(s.map_values(f), image_key),
    decreases s.len(),
{
    if s.len() > 0 {
        lemma_sorted_map(s.drop_last(), f, key, image_key);
        assert(s.map_values(f).drop_last() =~= s.drop_last().map_values(f));
        lemma_insert_map(sorted(s.drop_last(), key), s.last(), f, key, image_key);
    } else {
        assert(s.map_values(f) =~= Seq::<U>::empty());
        assert(sorted(s.map_values(f), image_key) =~= Seq::<U>::empty());
    }
}

} // verus!

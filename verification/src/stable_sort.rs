//! Sorting by an integer key, keeping the order of entries whose keys are
//! equal.

use vstd::prelude::*;

verus! {

/// Where an entry with key `key` goes in a list with keys `keys`: behind the
/// last entry whose key is not greater.
pub open spec fn insertion_point(keys: Seq<int>, key: int) -> int
    decreases keys.len(),
{
    if keys.len() == 0 {
        0
    } else if keys.last() <= key {
        keys.len() as int
    } else {
        insertion_point(keys.drop_last(), key)
    }
}

/// The entries of `s` in ascending order of `key`; entries with the same key
/// stay in the order in which they stand in `s`.
pub open spec fn stable_sorted<A>(s: Seq<A>, key: spec_fn(A) -> int) -> Seq<A>
    decreases s.len(),
{
    if s.len() == 0 {
        Seq::empty()
    } else {
        let rest = stable_sorted(s.drop_last(), key);
        rest.insert(insertion_point(rest.map_values(key), key(s.last())), s.last())
    }
}

/// Whether the keys of `s` never decrease.
pub open spec fn ascending<A>(s: Seq<A>, key: spec_fn(A) -> int) -> bool {
    forall|i: int, j: int| 0 <= i <= j < s.len() ==> key(s[i]) <= key(s[j])
}

/// The entries of `s` whose key is `k`, in their order.
pub open spec fn with_key<A>(s: Seq<A>, key: spec_fn(A) -> int, k: int) -> Seq<A>
    decreases s.len(),
{
    if s.len() == 0 {
        Seq::empty()
    } else if key(s.last()) == k {
        with_key(s.drop_last(), key, k).push(s.last())
    } else {
        with_key(s.drop_last(), key, k)
    }
}

/// The insertion point lies in the list; every key before it is not greater
/// than `key`, and in an ascending list every key from it on is greater.
pub proof fn lemma_insertion_point(keys: Seq<int>, key: int)
    ensures
        0 <= insertion_point(keys, key) <= keys.len(),
        forall|i: int|
            insertion_point(keys, key) <= i < keys.len() ==> #[trigger] keys[i] > key,
        (forall|i: int, j: int| 0 <= i <= j < keys.len() ==> keys[i] <= keys[j]) ==> forall|
            i: int,
        | 0 <= i < insertion_point(keys, key) ==> #[trigger] keys[i] <= key,
    decreases keys.len(),
{
    if keys.len() > 0 && keys.last() > key {
        lemma_insertion_point(keys.drop_last(), key);
        let p = insertion_point(keys, key);
        assert forall|i: int| p <= i < keys.len() implies #[trigger] keys[i] > key by {
            if i < keys.len() - 1 {
                assert(keys.drop_last()[i] > key);
            }
        }
        if forall|i: int, j: int| 0 <= i <= j < keys.len() ==> keys[i] <= keys[j] {
            assert forall|i: int, j: int| 0 <= i <= j < keys.drop_last().len() implies keys.drop_last()[i]
                <= keys.drop_last()[j] by {
                assert(keys[i] <= keys[j]);
            }
            assert forall|i: int| 0 <= i < p implies #[trigger] keys[i] <= key by {
                assert(keys.drop_last()[i] <= key);
            }
        }
    } else if keys.len() > 0 {
        if forall|i: int, j: int| 0 <= i <= j < keys.len() ==> keys[i] <= keys[j] {
            assert forall|i: int| 0 <= i < keys.len() implies #[trigger] keys[i] <= key by {
                assert(keys[i] <= keys[keys.len() - 1]);
            }
        }
    }
}

/// Sorting keeps every entry, and adds none.
pub proof fn lemma_stable_sorted_permutes<A>(s: Seq<A>, key: spec_fn(A) -> int)
    ensures
        stable_sorted(s, key).to_multiset() == s.to_multiset(),
        stable_sorted(s, key).len() == s.len(),
    decreases s.len(),
{
    broadcast use vstd::seq_lib::group_to_multiset_ensures;

    if s.len() > 0 {
        let rest = stable_sorted(s.drop_last(), key);
        let p = insertion_point(rest.map_values(key), key(s.last()));
        lemma_stable_sorted_permutes(s.drop_last(), key);
        lemma_insertion_point(rest.map_values(key), key(s.last()));
        vstd::seq_lib::to_multiset_insert(rest, p, s.last());
        assert(s.drop_last().push(s.last()) =~= s);
    } else {
        assert(s =~= Seq::<A>::empty());
    }
}

/// The sorted list is in ascending order of key.
pub proof fn lemma_stable_sorted_ascends<A>(s: Seq<A>, key: spec_fn(A) -> int)
    ensures
        ascending(stable_sorted(s, key), key),
    decreases s.len(),
{
    if s.len() > 0 {
        let rest = stable_sorted(s.drop_last(), key);
        let keys = rest.map_values(key);
        let x = s.last();
        let p = insertion_point(keys, key(x));
        lemma_stable_sorted_ascends(s.drop_last(), key);
        assert forall|i: int, j: int| 0 <= i <= j < keys.len() implies keys[i] <= keys[j] by {
            assert(key(rest[i]) <= key(rest[j]));
        }
        lemma_insertion_point(keys, key(x));
        let out = rest.insert(p, x);
        assert forall|i: int, j: int| 0 <= i <= j < out.len() implies key(out[i]) <= key(
            out[j],
        ) by {
            if i < p {
                assert(keys[i] <= key(x));
                assert(out[i] == rest[i]);
            } else if i > p {
                assert(out[i] == rest[i - 1]);
            }
            if j < p {
                assert(out[j] == rest[j]);
            } else if j > p {
                assert(keys[j - 1] > key(x));
                assert(out[j] == rest[j - 1]);
            }
        }
    }
}

/// Entries with the same key come out in the order in which they went in.
pub proof fn lemma_stable_sorted_keeps_order<A>(s: Seq<A>, key: spec_fn(A) -> int, k: int)
    ensures
        with_key(stable_sorted(s, key), key, k) == with_key(s, key, k),
    decreases s.len(),
{
    if s.len() > 0 {
        let rest = stable_sorted(s.drop_last(), key);
        lemma_stable_sorted_keeps_order(s.drop_last(), key, k);
        lemma_with_key_insert(rest, key, k, s.last());
    }
}

/// Inserting an entry at its insertion point puts it behind the entries that
/// have its key, and leaves the entries of every other key as they were.
proof fn lemma_with_key_insert<A>(s: Seq<A>, key: spec_fn(A) -> int, k: int, x: A)
    ensures
        with_key(s.insert(insertion_point(s.map_values(key), key(x)), x), key, k) == if key(x)
            == k {
            with_key(s, key, k).push(x)
        } else {
            with_key(s, key, k)
        },
    decreases s.len(),
{
    let keys = s.map_values(key);
    let p = insertion_point(keys, key(x));
    let out = s.insert(p, x);
    if s.len() == 0 {
        assert(out =~= seq![x]);
        assert(out.drop_last() =~= s);
    } else if keys.last() <= key(x) {
        assert(out =~= s.push(x));
        assert(out.drop_last() =~= s);
    } else {
        assert(keys.drop_last() =~= s.drop_last().map_values(key));
        lemma_insertion_point(keys.drop_last(), key(x));
        lemma_with_key_insert(s.drop_last(), key, k, x);
        assert(out.drop_last() =~= s.drop_last().insert(p, x));
        assert(out.last() == s.last());
    }
}

/// The keys of a list of entries, as integers.
pub open spec fn key_values(keys: Seq<i128>) -> Seq<int> {
    keys.map_values(|k: i128| k as int)
}

/// Puts `item` with key `key` into a list at its insertion point. `keys`
/// holds the key of each entry of `items`.
pub fn insert_by_key<T>(keys: &mut Vec<i128>, items: &mut Vec<T>, key: i128, item: T)
    requires
        old(keys)@.len() == old(items)@.len(),
    ensures
        final(keys)@ == old(keys)@.insert(
            insertion_point(key_values(old(keys)@), key as int),
            key,
        ),
        final(items)@ == old(items)@.insert(
            insertion_point(key_values(old(keys)@), key as int),
            item,
        ),
{
    let mut p: usize = keys.len();
    assert(keys@.take(p as int) =~= keys@);
    while p > 0 && keys[p - 1] > key
        invariant
            p <= keys@.len(),
            keys@ == old(keys)@,
            insertion_point(key_values(keys@), key as int) == insertion_point(
                key_values(keys@.take(p as int)),
                key as int,
            ),
        decreases p,
    {
        proof {
            let prefix = key_values(keys@.take(p as int));
            assert(prefix.last() == keys@[p - 1] as int);
            assert(prefix.drop_last() =~= key_values(keys@.take(p - 1)));
        }
        p -= 1;
    }
    proof {
        let prefix = key_values(keys@.take(p as int));
        if p > 0 {
            assert(prefix.last() == keys@[p - 1] as int);
        }
        assert(insertion_point(prefix, key as int) == p);
    }
    keys.insert(p, key);
    items.insert(p, item);
}

} // verus!

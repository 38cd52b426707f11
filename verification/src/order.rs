//! Stable ordering by an integer key.
//!
//! Pyramid levels arrive in any order and are kept sorted by their level
//! number; entries with the same number keep the order they came in.

use vstd::prelude::*;

verus! {

/// A value that is ordered by an integer key.
pub trait Keyed {
    /// The key.
    spec fn key(&self) -> u32;

    /// Reads the key.
    fn sort_key(&self) -> (k: u32)
        ensures
            k == self.key(),
    ;
}

/// How many leading elements of `keys` are at most `k`: in an ascending
/// sequence, the place behind the last element that is not greater than `k`.
pub open spec fn rank(keys: Seq<u32>, k: u32) -> nat
    decreases keys.len(),
{
    if keys.len() == 0 || keys[0] > k {
        0
    } else {
        1 + rank(keys.drop_first(), k)
    }
}

/// The keys of `s`, in its order.
pub open spec fn keys_of<T: Keyed>(s: Seq<T>) -> Seq<u32> {
    Seq::new(s.len(), |i: int| s[i].key())
}

/// `s` with `x` put behind the leading elements whose key is at most its own.
pub open spec fn stable_insert<T>(s: Seq<T>, x: T, key: spec_fn(T) -> u32) -> Seq<T> {
    s.insert(rank(s.map_values(key), key(x)) as int, x)
}

/// `s` sorted by `key`, elements with equal keys in the order they came in.
pub open spec fn stable_sort<T>(s: Seq<T>, key: spec_fn(T) -> u32) -> Seq<T>
    decreases s.len(),
{
    if s.len() == 0 {
        s
    } else {
        stable_insert(stable_sort(s.drop_last(), key), s.last(), key)
    }
}

/// Each key is at most the next.
pub open spec fn ascending(keys: Seq<u32>) -> bool {
    forall|i: int, j: int| 0 <= i < j < keys.len() ==> keys[i] <= keys[j]
}

/// Each key is less than the next.
pub open spec fn strictly_ascending(keys: Seq<u32>) -> bool {
    forall|i: int, j: int| 0 <= i < j < keys.len() ==> keys[i] < keys[j]
}

/// The first place where a key equals the one before it, or the length of
/// `keys` where there is none.
pub open spec fn first_repeat(keys: Seq<u32>) -> int
    decreases keys.len(),
{
    if keys.len() < 2 {
        keys.len() as int
    } else if keys[0] == keys[1] {
        1
    } else {
        1 + first_repeat(keys.drop_first())
    }
}

/// The rank is a place in the sequence; what stands before it is at most
/// `k`, and in an ascending sequence what stands from it on is greater.
pub proof fn lemma_rank(keys: Seq<u32>, k: u32)
    ensures
        rank(keys, k) <= keys.len(),
        forall|i: int| 0 <= i < rank(keys, k) ==> keys[i] <= k,
        ascending(keys) ==> forall|i: int| rank(keys, k) <= i < keys.len() ==> keys[i] > k,
    decreases keys.len(),
{
    if keys.len() == 0 || keys[0] > k {
    } else {
        let rest = keys.drop_first();
        lemma_rank(rest, k);
        assert forall|i: int| 0 <= i < rank(keys, k) implies keys[i] <= k by {
            if i > 0 {
                assert(keys[i] == rest[i - 1]);
            }
        }
        if ascending(keys) {
            assert(ascending(rest)) by {
                assert forall|i: int, j: int| 0 <= i < j < rest.len() implies rest[i] <= rest[j] by {
                    assert(rest[i] == keys[i + 1] && rest[j] == keys[j + 1]);
                }
            }
            assert forall|i: int| rank(keys, k) <= i < keys.len() implies keys[i] > k by {
                assert(keys[i] == rest[i - 1]);
            }
        }
    }
}

/// Sorting keeps every element, as often as it occurred, and orders the keys.
pub proof fn lemma_stable_sort<T>(s: Seq<T>, key: spec_fn(T) -> u32)
    ensures
        stable_sort(s, key).len() == s.len(),
        stable_sort(s, key).to_multiset() == s.to_multiset(),
        ascending(stable_sort(s, key).map_values(key)),
    decreases s.len(),
{
    broadcast use vstd::seq_lib::to_multiset_insert, vstd::seq_lib::to_multiset_build;

    if s.len() == 0 {
    } else {
        let init = stable_sort(s.drop_last(), key);
        let x = s.last();
        lemma_stable_sort(s.drop_last(), key);
        let keys = init.map_values(key);
        let pos = rank(keys, key(x)) as int;
        lemma_rank(keys, key(x));
        let out = init.insert(pos, x);
        assert(out.to_multiset() == init.to_multiset().insert(x));
        assert(s =~= s.drop_last().push(x));
        assert(s.to_multiset() == s.drop_last().to_multiset().insert(x));
        let okeys = out.map_values(key);
        assert forall|i: int, j: int| 0 <= i < j < okeys.len() implies okeys[i] <= okeys[j] by {
            let a = if i < pos {
                keys[i]
            } else if i == pos {
                key(x)
            } else {
                keys[i - 1]
            };
            let b = if j < pos {
                keys[j]
            } else if j == pos {
                key(x)
            } else {
                keys[j - 1]
            };
            assert(okeys[i] == a);
            assert(okeys[j] == b);
        }
    }
}

/// Puts `item` into the ascending `v`, behind the elements whose key is at
/// most its own.
pub fn insert_sorted<T: Keyed>(v: &mut Vec<T>, item: T)
    ensures
        final(v)@ == old(v)@.insert(rank(keys_of(old(v)@), item.key()) as int, item),
{
    let ghost keys = keys_of(v@);
    let k = item.sort_key();
    let mut i: usize = 0;
    assert(keys.skip(0) =~= keys);
    while i < v.len() && v[i].sort_key() <= k
        invariant
            i <= v.len(),
            v@ == old(v)@,
            keys == keys_of(v@),
            k == item.key(),
            rank(keys, k) == i + rank(keys.skip(i as int), k),
        decreases v.len() - i,
    {
        proof {
            let tail = keys.skip(i as int);
            assert(tail[0] == keys[i as int]);
            assert(tail.drop_first() =~= keys.skip(i + 1));
        }
        i += 1;
    }
    proof {
        let tail = keys.skip(i as int);
        if i < v.len() {
            assert(tail[0] == keys[i as int]);
        }
        assert(rank(tail, k) == 0);
    }
    v.insert(i, item);
}

/// The key of a value, as a function.
pub open spec fn key_fn<T: Keyed>() -> spec_fn(T) -> u32 {
    |t: T| t.key()
}

/// The keys of a sequence are its image under the key function.
pub proof fn lemma_keys_of<T: Keyed>(s: Seq<T>)
    ensures
        keys_of(s) == s.map_values(key_fn::<T>()),
{
    assert(keys_of(s) =~= s.map_values(key_fn::<T>()));
}

/// A copy of `v` sorted by key, elements with equal keys in the order they
/// came in.
pub fn sort_by_key<T: Keyed + Copy>(v: &Vec<T>) -> (sorted: Vec<T>)
    ensures
        sorted@ == stable_sort(v@, key_fn::<T>()),
{
    let mut sorted: Vec<T> = Vec::new();
    let mut k: usize = 0;
    assert(v@.take(0) =~= Seq::<T>::empty());
    while k < v.len()
        invariant
            k <= v.len(),
            sorted@ == stable_sort(v@.take(k as int), key_fn::<T>()),
        decreases v.len() - k,
    {
        proof {
            lemma_keys_of(sorted@);
            let prefix = v@.take(k + 1);
            assert(prefix.drop_last() =~= v@.take(k as int));
            assert(prefix.last() == v@[k as int]);
        }
        insert_sorted(&mut sorted, v[k]);
        k += 1;
    }
    assert(v@.take(k as int) =~= v@);
    sorted
}

/// In an ascending sequence without a repeat, each key is less than the
/// next.
pub proof fn lemma_no_repeat(keys: Seq<u32>)
    requires
        ascending(keys),
        forall|i: int| 0 < i < keys.len() ==> keys[i - 1] != #[trigger] keys[i],
    ensures
        strictly_ascending(keys),
{
    assert forall|i: int, j: int| 0 <= i < j < keys.len() implies keys[i] < keys[j] by {
        assert(keys[i] <= keys[j - 1]);
        assert(keys[j - 1] != keys[j]);
        assert(keys[j - 1] <= keys[j]);
    }
}

/// Sorting loses no element: what stands in `s` stands in the sorted
/// sequence too.
pub proof fn lemma_stable_sort_keeps<T>(s: Seq<T>, key: spec_fn(T) -> u32, i: int)
    requires
        0 <= i < s.len(),
    ensures
        stable_sort(s, key).contains(s[i]),
{
    broadcast use vstd::seq_lib::group_to_multiset_ensures;

    lemma_stable_sort(s, key);
    assert(s.contains(s[i]));
    assert(s.to_multiset().count(s[i]) > 0);
    assert(stable_sort(s, key).to_multiset().count(s[i]) > 0);
}

/// The first repeat lies within the sequence or at its end; where it lies
/// at the end, no key equals the one before it.
pub proof fn lemma_first_repeat(keys: Seq<u32>)
    ensures
        first_repeat(keys) <= keys.len(),
        first_repeat(keys) == keys.len() ==> forall|i: int|
            0 < i < keys.len() ==> keys[i - 1] != #[trigger] keys[i],
    decreases keys.len(),
{
    if keys.len() >= 2 {
        let rest = keys.drop_first();
        lemma_first_repeat(rest);
        if first_repeat(keys) == keys.len() {
            assert forall|i: int| 0 < i < keys.len() implies keys[i - 1] != #[trigger] keys[i] by {
                if i > 1 {
                    assert(rest[i - 1] == keys[i] && rest[i - 2] == keys[i - 1]);
                }
            }
        }
    }
}

} // verus!

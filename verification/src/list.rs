//! Looking for keys in lists.

use vstd::prelude::*;

verus! {

/// Where `key` stands first among `keys`.
pub open spec fn first_index<K>(keys: Seq<K>, key: K) -> Option<int>
    decreases keys.len(),
{
    if keys.len() == 0 {
        None
    } else {
        match first_index(keys.drop_last(), key) {
            Some(i) => Some(i),
            None => if keys.last() == key {
                Some(keys.len() - 1)
            } else {
                None
            },
        }
    }
}

/// No two of `keys` are equal.
pub open spec fn all_distinct<K>(keys: Seq<K>) -> bool {
    forall|i: int, j: int| 0 <= i < j < keys.len() ==> keys[i] != keys[j]
}

/// `id` is the lowest of the ids from `min` up to `max` that is not among `ids`, if
/// there is one.
pub open spec fn is_lowest_free(
    ids: Seq<usize>,
    min: usize,
    max: usize,
    id: Option<usize>,
) -> bool {
    match id {
        Some(id) => {
            &&& min <= id < max
            &&& !ids.contains(id)
            &&& forall|k: usize| min <= k < id ==> ids.contains(k)
        },
        None => forall|k: usize| min <= k < max ==> ids.contains(k),
    }
}

/// The first index is that of the key, with no other index of it in front; there is
/// one if and only if the key is among the keys.
pub proof fn lemma_first_index<K>(keys: Seq<K>, key: K)
    ensures
        match first_index(keys, key) {
            Some(i) => {
                &&& 0 <= i < keys.len()
                &&& keys[i] == key
                &&& forall|j: int| 0 <= j < i ==> keys[j] != key
            },
            None => !keys.contains(key),
        },
    decreases keys.len(),
{
    if keys.len() > 0 {
        let front = keys.drop_last();
        lemma_first_index(front, key);
        assert(forall|j: int| 0 <= j < front.len() ==> keys[j] == #[trigger] front[j]);
        match first_index(front, key) {
            Some(i) => {
                assert forall|j: int| 0 <= j < i implies keys[j] != key by {
                    assert(front[j] != key);
                }
            },
            None => {
                assert forall|j: int| 0 <= j < front.len() implies keys[j] != key by {
                    assert(front.contains(front[j]));
                }
            },
        }
    }
}

/// An index of the key with no other in front is the first.
pub proof fn lemma_is_first_index<K>(keys: Seq<K>, key: K, i: int)
    requires
        0 <= i < keys.len(),
        keys[i] == key,
        forall|j: int| 0 <= j < i ==> keys[j] != key,
    ensures
        first_index(keys, key) == Some(i),
{
    lemma_first_index(keys, key);
    assert(keys.contains(key));
}

/// A key that is not among the keys has no index.
pub proof fn lemma_no_index<K>(keys: Seq<K>, key: K)
    requires
        forall|j: int| 0 <= j < keys.len() ==> keys[j] != key,
    ensures
        first_index(keys, key) == None::<int>,
{
    lemma_first_index(keys, key);
}

/// A key that was not among the keys is found where it is appended.
pub proof fn lemma_pushed_index<K>(keys: Seq<K>, key: K)
    requires
        !keys.contains(key),
    ensures
        first_index(keys.push(key), key) == Some(keys.len() as int),
{
    assert forall|j: int| 0 <= j < keys.len() implies keys.push(key)[j] != key by {
        assert(keys.contains(keys[j]));
    }
    lemma_is_first_index(keys.push(key), key, keys.len() as int);
}

/// Appending a key that was not among distinct keys keeps them distinct.
pub proof fn lemma_pushed_distinct<K>(keys: Seq<K>, key: K)
    requires
        all_distinct(keys),
        !keys.contains(key),
    ensures
        all_distinct(keys.push(key)),
{
    assert forall|j: int| 0 <= j < keys.len() implies keys[j] != key by {
        assert(keys.contains(keys[j]));
    }
}

/// Each of distinct keys is found where it stands.
pub proof fn lemma_distinct_index<K>(keys: Seq<K>, i: int)
    requires
        all_distinct(keys),
        0 <= i < keys.len(),
    ensures
        first_index(keys, keys[i]) == Some(i),
{
    lemma_is_first_index(keys, keys[i], i);
}

/// Distinct keys stay distinct when one is removed.
pub proof fn lemma_removed_distinct<K>(keys: Seq<K>, i: int)
    requires
        all_distinct(keys),
        0 <= i < keys.len(),
    ensures
        all_distinct(keys.remove(i)),
{
    let rest = keys.remove(i);
    assert(forall|j: int|
        0 <= j < rest.len() ==> rest[j] == keys[if j < i {
            j
        } else {
            j + 1
        }]);
}

/// Removing the first occurrence of a key from distinct keys leaves none of it.
pub proof fn lemma_removed_index<K>(keys: Seq<K>, key: K, i: int)
    requires
        all_distinct(keys),
        first_index(keys, key) == Some(i),
    ensures
        first_index(keys.remove(i), key) is None,
{
    lemma_first_index(keys, key);
    let rest = keys.remove(i);
    assert forall|j: int| 0 <= j < rest.len() implies rest[j] != key by {
        if j < i {
            assert(rest[j] == keys[j]);
        } else {
            assert(rest[j] == keys[j + 1]);
        }
    }
    lemma_no_index(rest, key);
}

} // verus!

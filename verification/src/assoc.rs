//! Ordered string-keyed maps held as lists of pairs.
//!
//! A key is found at its first occurrence; writing a key that is present
//! replaces its value in place, writing a new key appends it. Every list that
//! these functions build from an empty one therefore holds each key once.
use vstd::prelude::*;

use crate::text::str_eq;

verus! {

/// The keys of a list of pairs.
pub open spec fn keys_of<V>(d: Seq<(Seq<char>, V)>) -> Seq<Seq<char>> {
    d.map_values(|p: (Seq<char>, V)| p.0)
}

/// The index of the first occurrence of `k` in `keys`.
pub open spec fn find_key(keys: Seq<Seq<char>>, k: Seq<char>) -> Option<int>
    decreases keys.len(),
{
    if keys.len() == 0 {
        None
    } else if keys[0] == k {
        Some(0)
    } else {
        match find_key(keys.drop_first(), k) {
            Some(i) => Some(i + 1),
            None => None,
        }
    }
}

/// The value stored under `k`.
pub open spec fn lookup<V>(d: Seq<(Seq<char>, V)>, k: Seq<char>) -> Option<V> {
    match find_key(keys_of(d), k) {
        Some(i) => Some(d[i].1),
        None => None,
    }
}

/// `d` with `v` stored under `k`: in place where `k` is present, at the end where not.
pub open spec fn put<V>(d: Seq<(Seq<char>, V)>, k: Seq<char>, v: V) -> Seq<(Seq<char>, V)> {
    match find_key(keys_of(d), k) {
        Some(i) => d.update(i, (k, v)),
        None => d.push((k, v)),
    }
}

/// Whether no key occurs twice.
pub open spec fn distinct_keys<V>(d: Seq<(Seq<char>, V)>) -> bool {
    forall|i: int, j: int| 0 <= i < j < d.len() ==> d[i].0 != d[j].0
}

/// `find_key` is the first occurrence.
pub proof fn lemma_find_key(keys: Seq<Seq<char>>, k: Seq<char>)
    ensures
        match find_key(keys, k) {
            Some(i) => 0 <= i < keys.len() && keys[i] == k && forall|j: int|
                0 <= j < i ==> keys[j] != k,
            None => forall|j: int| 0 <= j < keys.len() ==> keys[j] != k,
        },
    decreases keys.len(),
{
    if keys.len() > 0 {
        lemma_find_key(keys.drop_first(), k);
        if keys[0] != k {
            match find_key(keys.drop_first(), k) {
                Some(i) => {
                    assert forall|j: int| 0 <= j < i + 1 implies keys[j] != k by {
                        if j > 0 {
                            assert(keys[j] == keys.drop_first()[j - 1]);
                        }
                    }
                },
                None => {
                    assert forall|j: int| 0 <= j < keys.len() implies keys[j] != k by {
                        if j > 0 {
                            assert(keys[j] == keys.drop_first()[j - 1]);
                        }
                    }
                },
            }
        }
    }
}

/// The first occurrence determines `find_key`.
pub proof fn lemma_find_key_at(keys: Seq<Seq<char>>, k: Seq<char>, i: int)
    requires
        0 <= i <= keys.len(),
        forall|j: int| 0 <= j < i ==> keys[j] != k,
        i < keys.len() ==> keys[i] == k,
    ensures
        find_key(keys, k) == (if i < keys.len() {
            Some(i)
        } else {
            None::<int>
        }),
{
    lemma_find_key(keys, k);
    match find_key(keys, k) {
        Some(m) => {
            if m < i {
                assert(keys[m] != k);
            }
            if i < keys.len() && i < m {
                assert(keys[i] != k);
            }
        },
        None => {
            if i < keys.len() {
                assert(keys[i] != k);
            }
        },
    }
}

/// Storing under `k` makes `k` read back its new value and leaves every other key as it was.
pub proof fn lemma_put_lookup<V>(d: Seq<(Seq<char>, V)>, k: Seq<char>, v: V, k2: Seq<char>)
    ensures
        lookup(put(d, k, v), k2) == (if k2 == k {
            Some(v)
        } else {
            lookup(d, k2)
        }),
        distinct_keys(d) ==> distinct_keys(put(d, k, v)),
{
    let p = put(d, k, v);
    lemma_find_key(keys_of(d), k);
    lemma_find_key(keys_of(d), k2);
    lemma_find_key(keys_of(p), k2);
    match find_key(keys_of(d), k) {
        Some(i) => {
            assert forall|j: int| 0 <= j < p.len() implies #[trigger] p[j].0 == d[j].0 by {
                if j == i {
                    assert(keys_of(d)[i] == d[i].0);
                }
            }
            assert(keys_of(p) =~= keys_of(d));
        },
        None => {
            assert forall|j: int| 0 <= j < d.len() implies #[trigger] p[j].0 == d[j].0 by {}
            assert forall|j: int| 0 <= j < d.len() implies d[j].0 != k by {
                assert(keys_of(d)[j] == d[j].0);
            }
        },
    }
    match find_key(keys_of(p), k2) {
        Some(m) => {
            assert(keys_of(p)[m] == p[m].0);
        },
        None => {},
    }
    match find_key(keys_of(d), k2) {
        Some(m) => {
            assert(keys_of(d)[m] == d[m].0);
        },
        None => {},
    }
    if k2 == k {
        match find_key(keys_of(d), k) {
            Some(i) => {
                assert forall|j: int| 0 <= j < i implies keys_of(p)[j] != k by {
                    assert(keys_of(p)[j] == p[j].0);
                    assert(keys_of(d)[j] == d[j].0);
                }
                lemma_find_key_at(keys_of(p), k, i);
            },
            None => {
                assert forall|j: int| 0 <= j < d.len() implies keys_of(p)[j] != k by {
                    assert(keys_of(p)[j] == p[j].0);
                    assert(keys_of(d)[j] == d[j].0);
                }
                lemma_find_key_at(keys_of(p), k, d.len() as int);
            },
        }
    } else {
        match find_key(keys_of(d), k2) {
            Some(m) => {
                assert forall|j: int| 0 <= j < m implies keys_of(p)[j] != k2 by {
                    assert(keys_of(p)[j] == p[j].0);
                    assert(keys_of(d)[j] == d[j].0);
                    if j < d.len() {
                        assert(p[j].0 == d[j].0 || p[j].0 == k);
                    }
                }
                assert(keys_of(p)[m] == p[m].0);
                assert(keys_of(d)[m] == d[m].0);
                lemma_find_key_at(keys_of(p), k2, m);
                assert(p[m] == d[m]);
            },
            None => {
                assert forall|j: int| 0 <= j < p.len() implies keys_of(p)[j] != k2 by {
                    assert(keys_of(p)[j] == p[j].0);
                    if j < d.len() {
                        assert(keys_of(d)[j] == d[j].0);
                    }
                }
                lemma_find_key_at(keys_of(p), k2, p.len() as int);
            },
        }
    }
}

/// Storing never shortens a list, and leaves it non-empty.
pub proof fn lemma_put_len<V>(d: Seq<(Seq<char>, V)>, k: Seq<char>, v: V)
    ensures
        put(d, k, v).len() >= d.len(),
        put(d, k, v).len() > 0,
{
    lemma_find_key(keys_of(d), k);
}

/// Storing under a key other than `x` leaves `x` absent from the keys.
pub proof fn lemma_put_avoids<V>(d: Seq<(Seq<char>, V)>, k: Seq<char>, v: V, x: Seq<char>)
    requires
        k != x,
        forall|i: int| 0 <= i < d.len() ==> #[trigger] d[i].0 != x,
    ensures
        forall|j: int| 0 <= j < put(d, k, v).len() ==> #[trigger] put(d, k, v)[j].0 != x,
{
    lemma_find_key(keys_of(d), k);
}

/// The keys, as character sequences, of a list of pairs keyed by strings.
pub open spec fn string_keys<V>(entries: Seq<(String, V)>) -> Seq<Seq<char>> {
    entries.map_values(|p: (String, V)| p.0@)
}

/// The index of the first pair whose key is `key`.
pub fn find_index<V>(entries: &Vec<(String, V)>, key: &str) -> (r: Option<usize>)
    ensures
        match r {
            Some(i) => i < entries.len() && find_key(string_keys(entries@), key@) == Some(i as int),
            None => find_key(string_keys(entries@), key@) is None,
        },
{
    let ghost ks = string_keys(entries@);
    let mut i: usize = 0;
    while i < entries.len()
        invariant
            ks == string_keys(entries@),
            i <= entries.len(),
            forall|j: int| 0 <= j < i ==> ks[j] != key@,
        decreases entries.len() - i,
    {
        if str_eq(entries[i].0.as_str(), key) {
            proof {
                lemma_find_key_at(ks, key@, i as int);
            }
            return Some(i);
        }
        i = i + 1;
    }
    proof {
        lemma_find_key_at(ks, key@, i as int);
    }
    None
}

} // verus!

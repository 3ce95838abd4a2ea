//! Small keyed tables: a `Vec` of `(key, value)` pairs in insertion order,
//! where a key is looked up at its first occurrence. Used for the directory
//! totals of a walk, the directory-size cache and the scan snapshots.
use vstd::prelude::*;
use crate::text::str_eq;

verus! {

/// The keys of a table taken as character sequences.
pub open spec fn keyed<V>(v: Seq<(String, V)>) -> Seq<(Seq<char>, V)> {
    v.map_values(|e: (String, V)| (e.0@, e.1))
}

/// Position of the first entry with key `k`, or -1.
pub open spec fn key_index<K, V>(l: Seq<(K, V)>, k: K) -> int
    decreases l.len(),
{
    if l.len() == 0 {
        -1
    } else if key_index(l.drop_last(), k) >= 0 {
        key_index(l.drop_last(), k)
    } else if l.last().0 == k {
        l.len() - 1
    } else {
        -1
    }
}

/// The value stored under `k`.
pub open spec fn key_get<K, V>(l: Seq<(K, V)>, k: K) -> Option<V> {
    let i = key_index(l, k);
    if i >= 0 {
        Some(l[i].1)
    } else {
        None
    }
}

/// The table with `k` set to `val`: overwritten in place, or appended.
pub open spec fn key_put<K, V>(l: Seq<(K, V)>, k: K, val: V) -> Seq<(K, V)> {
    let i = key_index(l, k);
    if i >= 0 {
        l.update(i, (k, val))
    } else {
        l.push((k, val))
    }
}

/// `key_index` is the first position holding the key.
pub proof fn lemma_key_index<K, V>(l: Seq<(K, V)>, k: K)
    ensures
        -1 <= key_index(l, k) < l.len(),
        key_index(l, k) >= 0 ==> l[key_index(l, k)].0 == k,
        forall|j: int| 0 <= j < l.len() && (key_index(l, k) < 0 || j < key_index(l, k)) ==> #[trigger] l[j].0
            != k,
    decreases l.len(),
{
    if l.len() > 0 {
        lemma_key_index(l.drop_last(), k);
        assert forall|j: int| 0 <= j < l.len() - 1 implies #[trigger] l[j] == l.drop_last()[j] by {}
    }
}

/// A position with the key, before which no entry has it, is `key_index`.
pub proof fn lemma_key_index_is<K, V>(l: Seq<(K, V)>, k: K, p: int)
    requires
        0 <= p <= l.len(),
        forall|j: int| 0 <= j < p ==> #[trigger] l[j].0 != k,
        p < l.len() ==> l[p].0 == k,
    ensures
        key_index(l, k) == if p < l.len() {
            p
        } else {
            -1
        },
    decreases l.len(),
{
    lemma_key_index(l, k);
    if l.len() > 0 {
        let d = l.drop_last();
        if p < l.len() - 1 {
            lemma_key_index_is(d, k, p);
        } else {
            assert forall|j: int| 0 <= j < d.len() implies #[trigger] d[j].0 != k by {
                assert(d[j] == l[j]);
            }
            lemma_key_index_is(d, k, d.len() as int);
        }
    }
}

/// Reading a key just written gives the written value; other keys keep theirs.
pub proof fn lemma_get_after_put<K, V>(l: Seq<(K, V)>, k: K, val: V, k2: K)
    ensures
        key_get(key_put(l, k, val), k) == Some(val),
        k2 != k ==> key_get(key_put(l, k, val), k2) == key_get(l, k2),
{
    let i = key_index(l, k);
    let m = key_put(l, k, val);
    lemma_key_index(l, k);
    lemma_key_index(l, k2);
    if i >= 0 {
        assert forall|j: int| 0 <= j < i implies #[trigger] m[j].0 != k by {
            assert(m[j] == l[j]);
        }
        lemma_key_index_is(m, k, i);
        if k2 != k {
            let i2 = key_index(l, k2);
            if i2 >= 0 {
                assert forall|j: int| 0 <= j < i2 implies #[trigger] m[j].0 != k2 by {
                    if j != i {
                        assert(m[j] == l[j]);
                    }
                }
                assert(m[i2] == l[i2]);
                lemma_key_index_is(m, k2, i2);
            } else {
                assert forall|j: int| 0 <= j < m.len() implies #[trigger] m[j].0 != k2 by {
                    if j != i {
                        assert(m[j] == l[j]);
                    }
                }
                lemma_key_index_is(m, k2, m.len() as int);
            }
        }
    } else {
        assert forall|j: int| 0 <= j < l.len() implies #[trigger] m[j].0 != k by {
            assert(m[j] == l[j]);
        }
        lemma_key_index_is(m, k, l.len() as int);
        if k2 != k {
            let i2 = key_index(l, k2);
            if i2 >= 0 {
                assert forall|j: int| 0 <= j < i2 implies #[trigger] m[j].0 != k2 by {
                    assert(m[j] == l[j]);
                }
                assert(m[i2] == l[i2]);
                lemma_key_index_is(m, k2, i2);
            } else {
                assert forall|j: int| 0 <= j < m.len() implies #[trigger] m[j].0 != k2 by {
                    if j < l.len() {
                        assert(m[j] == l[j]);
                    }
                }
                lemma_key_index_is(m, k2, m.len() as int);
            }
        }
    }
}

/// Position of the first entry of `v` whose key is `k`.
pub fn find_key<V>(v: &Vec<(String, V)>, k: &str) -> (r: Option<usize>)
    ensures
        match r {
            Some(i) => i as int == key_index(keyed(v@), k@) && i < v@.len(),
            None => key_index(keyed(v@), k@) == -1,
        },
{
    let ghost l = keyed(v@);
    let mut p: usize = 0;
    while p < v.len()
        invariant
            p <= v@.len(),
            l == keyed(v@),
            forall|j: int| 0 <= j < p ==> #[trigger] l[j].0 != k@,
        decreases v.len() - p,
    {
        if str_eq(v[p].0.as_str(), k) {
            proof {
                lemma_key_index_is(l, k@, p as int);
            }
            return Some(p);
        }
        p = p + 1;
    }
    proof {
        lemma_key_index_is(l, k@, v@.len() as int);
    }
    None
}

} // verus!

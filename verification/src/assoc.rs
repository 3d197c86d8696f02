//! Association lists: the map model of header and form collections, where
//! a key's first entry is the one that counts.

use vstd::prelude::*;

verus! {

/// Inserts into an association list: the first entry with the same key gets
/// the new value, otherwise the pair is appended.
pub open spec fn assoc_insert<K, V>(m: Seq<(K, V)>, k: K, v: V) -> Seq<(K, V)>
    decreases m.len(),
{
    if m.len() == 0 {
        seq![(k, v)]
    } else if m[0].0 == k {
        m.update(0, (k, v))
    } else {
        seq![m[0]] + assoc_insert(m.drop_first(), k, v)
    }
}

/// The value of the first entry with the key.
pub open spec fn assoc_get<K, V>(m: Seq<(K, V)>, k: K) -> Option<V>
    decreases m.len(),
{
    if m.len() == 0 {
        None
    } else if m[0].0 == k {
        Some(m[0].1)
    } else {
        assoc_get(m.drop_first(), k)
    }
}

/// No key occurs twice.
pub open spec fn keys_unique<K, V>(m: Seq<(K, V)>) -> bool {
    forall|i: int, j: int| 0 <= i < j < m.len() ==> m[i].0 != m[j].0
}

/// `assoc_insert` writes to the first entry with the key, or appends.
pub proof fn lemma_assoc_insert<K, V>(m: Seq<(K, V)>, k: K, v: V, j: int)
    requires
        0 <= j <= m.len(),
        forall|x: int| 0 <= x < j ==> m[x].0 != k,
        j < m.len() ==> m[j].0 == k,
    ensures
        assoc_insert(m, k, v) == if j < m.len() { m.update(j, (k, v)) } else { m.push((k, v)) },
    decreases m.len(),
{
    if m.len() == 0 {
        assert(seq![(k, v)] =~= m.push((k, v)));
    } else if m[0].0 == k {
    } else {
        lemma_assoc_insert(m.drop_first(), k, v, j - 1);
        if j < m.len() {
            assert(seq![m[0]] + m.drop_first().update(j - 1, (k, v)) =~= m.update(j, (k, v)));
        } else {
            assert(seq![m[0]] + m.drop_first().push((k, v)) =~= m.push((k, v)));
        }
    }
}

/// Reading a key back after inserting it gives the inserted value, and
/// every other key reads as before.
pub proof fn law_assoc_read_after_insert<K, V>(m: Seq<(K, V)>, k: K, v: V, other: K)
    ensures
        assoc_get(assoc_insert(m, k, v), k) == Some(v),
        other != k ==> assoc_get(assoc_insert(m, k, v), other) == assoc_get(m, other),
    decreases m.len(),
{
    let r = assoc_insert(m, k, v);
    if m.len() == 0 {
        assert(r =~= seq![(k, v)]);
        assert(r.drop_first().len() == 0);
        assert(assoc_get(r.drop_first(), other) is None);
    } else if m[0].0 == k {
        assert(r.drop_first() =~= m.drop_first());
    } else {
        law_assoc_read_after_insert(m.drop_first(), k, v, other);
        assert(r.drop_first() =~= assoc_insert(m.drop_first(), k, v));
        assert(r[0] == m[0]);
    }
}

/// Inserting keeps the keys of a list with unique keys unique.
pub proof fn law_assoc_insert_keeps_keys_unique<K, V>(m: Seq<(K, V)>, k: K, v: V)
    requires
        keys_unique(m),
    ensures
        keys_unique(assoc_insert(m, k, v)),
    decreases m.len(),
{
    if m.len() == 0 {
    } else if m[0].0 == k {
    } else {
        law_assoc_insert_keeps_keys_unique(m.drop_first(), k, v);
        lemma_assoc_insert_keys(m.drop_first(), k, v);
        let r = assoc_insert(m, k, v);
        let t = assoc_insert(m.drop_first(), k, v);
        assert forall|i: int, j: int| 0 <= i < j < r.len() implies r[i].0 != r[j].0 by {
            if i == 0 {
                assert(r[j] == t[j - 1]);
                if j - 1 < m.drop_first().len() {
                    assert(t[j - 1].0 == m.drop_first()[j - 1].0);
                    assert(m.drop_first()[j - 1] == m[j]);
                } else {
                    assert(t[j - 1].0 == k);
                }
            } else {
                assert(r[i] == t[i - 1]);
                assert(r[j] == t[j - 1]);
            }
        }
    }
}

/// An insert keeps every key in place and adds the key at the end when it was missing.
proof fn lemma_assoc_insert_keys<K, V>(m: Seq<(K, V)>, k: K, v: V)
    ensures
        ({
            let r = assoc_insert(m, k, v);
            &&& r.len() == m.len() || r.len() == m.len() + 1
            &&& forall|i: int| 0 <= i < m.len() ==> #[trigger] r[i].0 == m[i].0
            &&& r.len() == m.len() + 1 ==> r[m.len() as int].0 == k
        }),
    decreases m.len(),
{
    if m.len() == 0 {
    } else if m[0].0 == k {
    } else {
        lemma_assoc_insert_keys(m.drop_first(), k, v);
        let r = assoc_insert(m, k, v);
        let t = assoc_insert(m.drop_first(), k, v);
        assert forall|i: int| 0 <= i < m.len() implies #[trigger] r[i].0 == m[i].0 by {
            if i > 0 {
                assert(r[i] == t[i - 1]);
                assert(m.drop_first()[i - 1] == m[i]);
            }
        }
        if r.len() == m.len() + 1 {
            assert(r[m.len() as int] == t[m.len() - 1]);
        }
    }
}

/// Inserting a key twice is inserting it once with the second value.
pub proof fn law_assoc_insert_twice<K, V>(m: Seq<(K, V)>, k: K, v1: V, v2: V)
    ensures
        assoc_insert(assoc_insert(m, k, v1), k, v2) == assoc_insert(m, k, v2),
    decreases m.len(),
{
    if m.len() == 0 {
        assert(assoc_insert(m, k, v1) =~= seq![(k, v1)]);
        assert(seq![(k, v1)].update(0, (k, v2)) =~= seq![(k, v2)]);
    } else if m[0].0 == k {
        assert(m.update(0, (k, v1)).update(0, (k, v2)) =~= m.update(0, (k, v2)));
    } else {
        law_assoc_insert_twice(m.drop_first(), k, v1, v2);
        let t = seq![m[0]] + assoc_insert(m.drop_first(), k, v1);
        assert(t[0] == m[0]);
        assert(t.drop_first() =~= assoc_insert(m.drop_first(), k, v1));
    }
}

/// The list with each key taken as its characters.
pub open spec fn keyed<V>(m: Seq<(String, V)>) -> Seq<(Seq<char>, V)> {
    m.map_values(|p: (String, V)| (p.0@, p.1))
}

/// Inserts `v` under `k`: the first entry with an equal key gets the value,
/// otherwise the pair is appended.
pub fn insert_by_key<V>(m: &mut Vec<(String, V)>, k: String, v: V)
    ensures
        keyed(final(m)@) == assoc_insert(keyed(old(m)@), k@, v),
{
    let ghost km = keyed(m@);
    let mut j: usize = 0;
    while j < m.len()
        invariant
            j <= m@.len(),
            m@ == old(m)@,
            km == keyed(m@),
            km.len() == m@.len(),
            forall|x: int| 0 <= x < j ==> km[x].0 != k@,
        decreases m@.len() - j,
    {
        if crate::text::str_eq(m[j].0.as_str(), k.as_str()) {
            proof { lemma_assoc_insert(km, k@, v, j as int); }
            m.set(j, (k, v));
            assert(keyed(m@) =~= km.update(j as int, (k@, v)));
            return ;
        }
        j = j + 1;
    }
    proof { lemma_assoc_insert(km, k@, v, j as int); }
    m.push((k, v));
    assert(keyed(m@) =~= km.push((k@, v)));
}

/// Mapping the values commutes with an insert.
pub proof fn lemma_assoc_insert_map_values<K, V, W>(m: Seq<(K, V)>, k: K, v: V, g: spec_fn(V) -> W)
    ensures
        assoc_insert(m, k, v).map_values(|p: (K, V)| (p.0, g(p.1))) == assoc_insert(
            m.map_values(|p: (K, V)| (p.0, g(p.1))),
            k,
            g(v),
        ),
    decreases m.len(),
{
    let f = |p: (K, V)| (p.0, g(p.1));
    let mm = m.map_values(f);
    if m.len() == 0 {
        assert(assoc_insert(m, k, v).map_values(f) =~= seq![(k, g(v))]);
    } else if m[0].0 == k {
        assert(mm[0].0 == k);
        assert(m.update(0, (k, v)).map_values(f) =~= mm.update(0, (k, g(v))));
    } else {
        lemma_assoc_insert_map_values(m.drop_first(), k, v, g);
        assert(m.drop_first().map_values(f) =~= mm.drop_first());
        assert((seq![m[0]] + assoc_insert(m.drop_first(), k, v)).map_values(f) =~= seq![mm[0]]
            + assoc_insert(m.drop_first(), k, v).map_values(f));
    }
}

} // verus!

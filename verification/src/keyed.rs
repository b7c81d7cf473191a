//! Ordered key-value sequences, the mathematical shape of every manifest
//! table: first-match lookup, value replacement that keeps the key's
//! position, and per-key appending, together with the verified vector
//! operations that realise them.

use vstd::prelude::*;

verus! {

/// The view of a key-value vector: every key as its character sequence,
/// every value as its view.
pub open spec fn keyed_view<V: View>(s: Seq<(String, V)>) -> Seq<(Seq<char>, V::V)> {
    s.map_values(|p: (String, V)| (p.0@, p.1@))
}

/// The view of a vector that keeps a list of values under each key.
pub open spec fn listmap_view<V: View>(s: Seq<(String, Vec<V>)>) -> Seq<
    (Seq<char>, Seq<V::V>),
> {
    s.map_values(|p: (String, Vec<V>)| (p.0@, p.1@.map_values(|x: V| x@)))
}

/// The first index whose key is `k`, or `-1`.
pub open spec fn find_key<V>(m: Seq<(Seq<char>, V)>, k: Seq<char>) -> int
    decreases m.len(),
{
    if m.len() == 0 {
        -1
    } else if m[0].0 == k {
        0
    } else {
        let r = find_key(m.drop_first(), k);
        if r < 0 {
            -1
        } else {
            r + 1
        }
    }
}

/// The value stored under `k`, when the key is present.
pub open spec fn lookup<V>(m: Seq<(Seq<char>, V)>, k: Seq<char>) -> Option<V> {
    let i = find_key(m, k);
    if i < 0 {
        None
    } else {
        Some(m[i].1)
    }
}

/// Replaces the value under `k`, keeping the entry's position; a new key is
/// appended at the end.
pub open spec fn upsert<V>(m: Seq<(Seq<char>, V)>, k: Seq<char>, v: V) -> Seq<(Seq<char>, V)> {
    let i = find_key(m, k);
    if i < 0 {
        m.push((k, v))
    } else {
        m.update(i, (k, v))
    }
}

/// Applies [`upsert`] for every entry of `entries`, first entry first.
pub open spec fn upsert_all<V>(m: Seq<(Seq<char>, V)>, entries: Seq<(Seq<char>, V)>) -> Seq<
    (Seq<char>, V),
>
    decreases entries.len(),
{
    if entries.len() == 0 {
        m
    } else {
        upsert_all(upsert(m, entries[0].0, entries[0].1), entries.drop_first())
    }
}

/// Appends `v` to the list under `k`, keeping the entry's position; a new
/// key is appended at the end with the one-element list.
pub open spec fn append_entry<V>(m: Seq<(Seq<char>, Seq<V>)>, k: Seq<char>, v: V) -> Seq<
    (Seq<char>, Seq<V>),
> {
    let i = find_key(m, k);
    if i < 0 {
        m.push((k, seq![v]))
    } else {
        m.update(i, (k, m[i].1.push(v)))
    }
}

/// Applies [`append_entry`] for every entry of `entries`, first entry
/// first.
pub open spec fn append_all<V>(m: Seq<(Seq<char>, Seq<V>)>, entries: Seq<(Seq<char>, V)>) -> Seq<
    (Seq<char>, Seq<V>),
>
    decreases entries.len(),
{
    if entries.len() == 0 {
        m
    } else {
        append_all(append_entry(m, entries[0].0, entries[0].1), entries.drop_first())
    }
}

/// `find_key` returns either `-1` or the position of the first entry whose
/// key is `k`.
pub proof fn lemma_find_key<V>(m: Seq<(Seq<char>, V)>, k: Seq<char>)
    ensures
        find_key(m, k) < m.len(),
        find_key(m, k) >= 0 ==> m[find_key(m, k)].0 == k,
        forall|j: int| 0 <= j < find_key(m, k) ==> m[j].0 != k,
        find_key(m, k) < 0 ==> (forall|j: int| 0 <= j < m.len() ==> m[j].0 != k),
    decreases m.len(),
{
    if m.len() > 0 && !(m[0].0 == k) {
        lemma_find_key(m.drop_first(), k);
        assert forall|j: int| 0 <= j < find_key(m, k) implies m[j].0 != k by {
            if j >= 1 {
                assert(m[j] == m.drop_first()[j - 1]);
            }
        }
        if find_key(m, k) < 0 {
            assert forall|j: int| 0 <= j < m.len() implies m[j].0 != k by {
                if j >= 1 {
                    assert(m[j] == m.drop_first()[j - 1]);
                }
            }
        }
    }
}

/// Finds the position of `k` in `m` by a linear scan.
pub fn find_entry<V: View>(m: &Vec<(String, V)>, k: &String) -> (r: Option<usize>)
    ensures
        match r {
            Some(i) => i < m@.len() && find_key(keyed_view(m@), k@) == i as int,
            None => find_key(keyed_view(m@), k@) < 0,
        },
{
    proof {
        lemma_find_key(keyed_view(m@), k@);
    }
    let mut i: usize = 0;
    while i < m.len()
        invariant
            i <= m@.len(),
            forall|j: int| 0 <= j < i ==> keyed_view(m@)[j].0 != k@,
            find_key(keyed_view(m@), k@) < m@.len(),
            find_key(keyed_view(m@), k@) >= 0 ==> keyed_view(m@)[find_key(keyed_view(m@), k@)].0
                == k@,
            forall|j: int| 0 <= j < find_key(keyed_view(m@), k@) ==> keyed_view(m@)[j].0 != k@,
            find_key(keyed_view(m@), k@) < 0 ==> (forall|j: int|
                0 <= j < m@.len() ==> keyed_view(m@)[j].0 != k@),
        decreases m@.len() - i,
    {
        if m[i].0 == *k {
            proof {
                assert(keyed_view(m@)[i as int].0 == k@);
            }
            return Some(i);
        }
        proof {
            assert(keyed_view(m@)[i as int].0 != k@);
        }
        i += 1;
    }
    None
}

/// Replaces the value under `k` in place, or appends the new entry.
pub fn upsert_entry<V: View>(m: &mut Vec<(String, V)>, k: String, v: V)
    ensures
        keyed_view(final(m)@) == upsert(keyed_view(old(m)@), k@, v@),
{
    match find_entry(m, &k) {
        Some(i) => {
            m.set(i, (k, v));
            proof {
                assert(keyed_view(m@) =~= keyed_view(old(m)@).update(
                    find_key(keyed_view(old(m)@), k@),
                    (k@, v@),
                ));
            }
        },
        None => {
            m.push((k, v));
            proof {
                assert(keyed_view(m@) =~= keyed_view(old(m)@).push((k@, v@)));
            }
        },
    }
}

/// Applies [`upsert_entry`] for every entry of `src`, first entry first.
pub fn upsert_entries<V: View>(m: &mut Vec<(String, V)>, src: Vec<(String, V)>)
    ensures
        keyed_view(final(m)@) == upsert_all(keyed_view(old(m)@), keyed_view(src@)),
{
    let ghost src0 = keyed_view(src@);
    let mut src = src;
    while src.len() > 0
        invariant
            upsert_all(keyed_view(old(m)@), src0) == upsert_all(
                keyed_view(m@),
                keyed_view(src@),
            ),
        decreases src.len(),
    {
        let ghost before = keyed_view(src@);
        let (k, v) = src.remove(0);
        proof {
            assert(keyed_view(src@) =~= before.drop_first());
        }
        upsert_entry(m, k, v);
    }
    proof {
        assert(keyed_view(src@) =~= Seq::<(Seq<char>, V::V)>::empty());
    }
}

/// Appends `v` to the list under `k`, or appends a new entry holding the
/// one-element list.
pub fn append_list_entry<V: View>(m: &mut Vec<(String, Vec<V>)>, k: String, v: V)
    ensures
        listmap_view(final(m)@) == append_entry(listmap_view(old(m)@), k@, v@),
{
    proof {
        lemma_find_key(listmap_view(m@), k@);
    }
    let mut i: usize = 0;
    let n = m.len();
    while i < n
        invariant
            n == m@.len(),
            i <= m@.len(),
            m@ == old(m)@,
            forall|j: int| 0 <= j < i ==> listmap_view(m@)[j].0 != k@,
            find_key(listmap_view(m@), k@) < m@.len(),
            find_key(listmap_view(m@), k@) >= 0 ==> listmap_view(m@)[find_key(
                listmap_view(m@),
                k@,
            )].0 == k@,
            forall|j: int| 0 <= j < find_key(listmap_view(m@), k@) ==> listmap_view(m@)[j].0
                != k@,
            find_key(listmap_view(m@), k@) < 0 ==> (forall|j: int|
                0 <= j < m@.len() ==> listmap_view(m@)[j].0 != k@),
        decreases m@.len() - i,
    {
        if m[i].0 == k {
            proof {
                assert(listmap_view(m@)[i as int].0 == k@);
            }
            let mut entry = m.remove(i);
            entry.1.push(v);
            m.insert(i, entry);
            proof {
                assert(listmap_view(m@) =~~= append_entry(listmap_view(old(m)@), k@, v@));
            }
            return ;
        }
        proof {
            assert(listmap_view(m@)[i as int].0 != k@);
        }
        i += 1;
    }
    let mut list: Vec<V> = Vec::new();
    list.push(v);
    m.push((k, list));
    proof {
        assert(list@.map_values(|x: V| x@) =~= seq![v@]);
        assert(listmap_view(m@) =~~= listmap_view(old(m)@).push((k@, seq![v@])));
    }
}

/// Applies [`append_list_entry`] for every entry of `src`, first entry
/// first.
pub fn append_list_entries<V: View>(m: &mut Vec<(String, Vec<V>)>, src: Vec<(String, V)>)
    ensures
        listmap_view(final(m)@) == append_all(listmap_view(old(m)@), keyed_view(src@)),
{
    let ghost src0 = keyed_view(src@);
    let mut src = src;
    while src.len() > 0
        invariant
            append_all(listmap_view(old(m)@), src0) == append_all(
                listmap_view(m@),
                keyed_view(src@),
            ),
        decreases src.len(),
    {
        let ghost before = keyed_view(src@);
        let (k, v) = src.remove(0);
        proof {
            assert(keyed_view(src@) =~= before.drop_first());
        }
        append_list_entry(m, k, v);
    }
    proof {
        assert(keyed_view(src@) =~= Seq::<(Seq<char>, V::V)>::empty());
    }
}

} // verus!

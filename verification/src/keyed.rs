//! Small maps from string keys to values, held as vectors of entries with distinct keys
//! and viewed as `Map`s.

use vstd::prelude::*;

verus! {

/// A value stored under a string key.
#[derive(Debug)]
pub struct Entry<V> {
    pub key: String,
    pub value: V,
}

/// The keys of `s`, in order.
pub open spec fn keys_of<V>(s: Seq<Entry<V>>) -> Seq<Seq<char>> {
    s.map_values(|e: Entry<V>| e.key@)
}

/// The map that a sequence of entries with distinct keys stands for.
pub open spec fn entries_map<V>(s: Seq<Entry<V>>) -> Map<Seq<char>, V> {
    Map::new(
        |p: Seq<char>| keys_of(s).contains(p),
        |p: Seq<char>| s[choose|i: int| 0 <= i < s.len() && s[i].key@ == p].value,
    )
}

/// With distinct keys, each entry's key maps to that entry's value.
pub proof fn lemma_entries_map_at<V>(s: Seq<Entry<V>>, i: int)
    requires
        keys_of(s).no_duplicates(),
        0 <= i < s.len(),
    ensures
        entries_map(s).dom().contains(s[i].key@),
        entries_map(s)[s[i].key@] == s[i].value,
{
    assert(keys_of(s)[i] == s[i].key@);
    let j = choose|j: int| 0 <= j < s.len() && s[j].key@ == s[i].key@;
    assert(keys_of(s)[j] == s[j].key@);
}

/// A key is in the map exactly when some entry carries it.
pub proof fn lemma_entries_map_dom<V>(s: Seq<Entry<V>>, p: Seq<char>)
    ensures
        entries_map(s).dom().contains(p) <==> exists|i: int| 0 <= i < s.len() && s[i].key@ == p,
{
    if entries_map(s).dom().contains(p) {
        let k = choose|k: int| 0 <= k < keys_of(s).len() && keys_of(s)[k] == p;
        assert(s[k].key@ == p);
    }
    if exists|i: int| 0 <= i < s.len() && s[i].key@ == p {
        let i = choose|i: int| 0 <= i < s.len() && s[i].key@ == p;
        assert(keys_of(s)[i] == p);
    }
}

/// With distinct keys, the map is finite and has one key per entry.
pub proof fn lemma_entries_map_len<V>(s: Seq<Entry<V>>)
    requires
        keys_of(s).no_duplicates(),
    ensures
        entries_map(s).dom().len() == s.len(),
        entries_map(s).dom().finite(),
{
    keys_of(s).unique_seq_to_set();
    assert(entries_map(s).dom() =~= keys_of(s).to_set());
    vstd::seq_lib::seq_to_set_is_finite(keys_of(s));
}

/// Position of the entry with key `key` in `v`, if present.
pub fn find_key<V>(v: &Vec<Entry<V>>, key: &String) -> (r: Option<usize>)
    ensures
        match r {
            Some(i) => i < v@.len() && v@[i as int].key@ == key@,
            None => forall|i: int| 0 <= i < v@.len() ==> v@[i].key@ != key@,
        },
{
    let mut i: usize = 0;
    while i < v.len()
        invariant
            i <= v@.len(),
            forall|j: int| 0 <= j < i ==> v@[j].key@ != key@,
        decreases v@.len() - i,
    {
        if v[i].key == *key {
            return Some(i);
        }
        i += 1;
    }
    None
}

/// Replaces or adds the entry for `key`; the result has distinct keys and stands for
/// the old map with `key` set to `value`.
pub fn upsert<V>(v: &mut Vec<Entry<V>>, key: String, value: V)
    requires
        keys_of(old(v)@).no_duplicates(),
    ensures
        keys_of(final(v)@).no_duplicates(),
        entries_map(final(v)@) == entries_map(old(v)@).insert(key@, value),
        final(v)@.len() == old(v)@.len() + if entries_map(old(v)@).dom().contains(key@) {
            0int
        } else {
            1int
        },
{
    let ghost old_v = v@;
    let ghost p = key@;
    proof {
        lemma_entries_map_dom(old_v, p);
    }
    match find_key(v, &key) {
        Some(i) => {
            v.set(i, Entry { key, value });
            proof {
                assert forall|a: int, b: int|
                    0 <= a < v@.len() && 0 <= b < v@.len() && a != b implies keys_of(v@)[a]
                    != keys_of(v@)[b] by {
                    assert(keys_of(old_v)[a] == old_v[a].key@);
                    assert(keys_of(old_v)[b] == old_v[b].key@);
                    assert(keys_of(old_v)[i as int] == old_v[i as int].key@);
                }
                assert forall|q: Seq<char>| #[trigger] entries_map(v@).dom().contains(q) == entries_map(
                    old_v,
                ).insert(p, value).dom().contains(q) by {
                    lemma_entries_map_dom(v@, q);
                    lemma_entries_map_dom(old_v, q);
                    if exists|k: int| 0 <= k < old_v.len() && old_v[k].key@ == q {
                        let k = choose|k: int| 0 <= k < old_v.len() && old_v[k].key@ == q;
                        if k != i {
                            assert(v@[k].key@ == q);
                        } else {
                            assert(v@[i as int].key@ == q);
                        }
                    }
                    if q == p {
                        assert(v@[i as int].key@ == q);
                    }
                }
                assert forall|q: Seq<char>| #[trigger] entries_map(v@).dom().contains(q) implies entries_map(
                    v@,
                )[q] == entries_map(old_v).insert(p, value)[q] by {
                    lemma_entries_map_dom(v@, q);
                    let k = choose|k: int| 0 <= k < v@.len() && v@[k].key@ == q;
                    lemma_entries_map_at(v@, k);
                    if k != i {
                        assert(keys_of(v@)[k] == v@[k].key@);
                        assert(keys_of(v@)[i as int] == v@[i as int].key@);
                        assert(old_v[k] == v@[k]);
                        lemma_entries_map_at(old_v, k);
                    }
                }
                assert(entries_map(v@) =~= entries_map(old_v).insert(p, value));
            }
        },
        None => {
            v.push(Entry { key, value });
            proof {
                let n = old_v.len() as int;
                assert forall|a: int, b: int|
                    0 <= a < v@.len() && 0 <= b < v@.len() && a != b implies keys_of(v@)[a]
                    != keys_of(v@)[b] by {
                    assert(keys_of(v@)[a] == v@[a].key@);
                    assert(keys_of(v@)[b] == v@[b].key@);
                    if a < n && b < n {
                        assert(keys_of(old_v)[a] == old_v[a].key@);
                        assert(keys_of(old_v)[b] == old_v[b].key@);
                    }
                }
                assert forall|q: Seq<char>| #[trigger] entries_map(v@).dom().contains(q) == entries_map(
                    old_v,
                ).insert(p, value).dom().contains(q) by {
                    lemma_entries_map_dom(v@, q);
                    lemma_entries_map_dom(old_v, q);
                    if exists|k: int| 0 <= k < old_v.len() && old_v[k].key@ == q {
                        let k = choose|k: int| 0 <= k < old_v.len() && old_v[k].key@ == q;
                        assert(v@[k].key@ == q);
                    }
                    if q == p {
                        assert(v@[n].key@ == q);
                    }
                    if exists|k: int| 0 <= k < v@.len() && v@[k].key@ == q {
                        let k = choose|k: int| 0 <= k < v@.len() && v@[k].key@ == q;
                        if k < n {
                            assert(old_v[k].key@ == q);
                        }
                    }
                }
                assert forall|q: Seq<char>| #[trigger] entries_map(v@).dom().contains(q) implies entries_map(
                    v@,
                )[q] == entries_map(old_v).insert(p, value)[q] by {
                    lemma_entries_map_dom(v@, q);
                    let k = choose|k: int| 0 <= k < v@.len() && v@[k].key@ == q;
                    lemma_entries_map_at(v@, k);
                    if k < n {
                        assert(old_v[k] == v@[k]);
                        lemma_entries_map_at(old_v, k);
                    }
                }
                assert(entries_map(v@) =~= entries_map(old_v).insert(p, value));
            }
        },
    }
}

/// Removing the entry at `i` keeps the keys distinct and removes that key from the map.
pub proof fn lemma_remove_at<V>(old_v: Seq<Entry<V>>, v: Seq<Entry<V>>, i: int)
    requires
        keys_of(old_v).no_duplicates(),
        0 <= i < old_v.len(),
        v == old_v.remove(i),
    ensures
        keys_of(v).no_duplicates(),
        entries_map(v) == entries_map(old_v).remove(old_v[i].key@),
{
    let path = old_v[i].key@;
    assert forall|a: int, b: int|
        0 <= a < v.len() && 0 <= b < v.len() && a != b implies keys_of(v)[a] != keys_of(v)[b] by {
        let oa = if a < i { a } else { a + 1 };
        let ob = if b < i { b } else { b + 1 };
        assert(v[a] == old_v[oa]);
        assert(v[b] == old_v[ob]);
        assert(keys_of(old_v)[oa] == old_v[oa].key@);
        assert(keys_of(old_v)[ob] == old_v[ob].key@);
    }
    assert forall|q: Seq<char>| #[trigger] entries_map(v).dom().contains(q) == entries_map(
        old_v,
    ).remove(path).dom().contains(q) by {
        lemma_entries_map_dom(v, q);
        lemma_entries_map_dom(old_v, q);
        if exists|k: int| 0 <= k < v.len() && v[k].key@ == q {
            let k = choose|k: int| 0 <= k < v.len() && v[k].key@ == q;
            let ok = if k < i { k } else { k + 1 };
            assert(v[k] == old_v[ok]);
            assert(keys_of(old_v)[ok] == old_v[ok].key@);
            assert(keys_of(old_v)[i] == old_v[i].key@);
        }
        if q != path && exists|k: int| 0 <= k < old_v.len() && old_v[k].key@ == q {
            let k = choose|k: int| 0 <= k < old_v.len() && old_v[k].key@ == q;
            assert(k != i);
            let nk = if k < i { k } else { k - 1 };
            assert(v[nk] == old_v[k]);
        }
    }
    assert forall|q: Seq<char>| #[trigger] entries_map(v).dom().contains(q) implies entries_map(
        v,
    )[q] == entries_map(old_v).remove(path)[q] by {
        lemma_entries_map_dom(v, q);
        let k = choose|k: int| 0 <= k < v.len() && v[k].key@ == q;
        lemma_entries_map_at(v, k);
        let ok = if k < i { k } else { k + 1 };
        assert(v[k] == old_v[ok]);
        lemma_entries_map_at(old_v, ok);
    }
    assert(entries_map(v) =~= entries_map(old_v).remove(path));
}

/// Removes the entry with key `path`, if any.
pub fn remove_key<V>(v: &mut Vec<Entry<V>>, path: &String)
    requires
        keys_of(old(v)@).no_duplicates(),
    ensures
        keys_of(final(v)@).no_duplicates(),
        entries_map(final(v)@) == entries_map(old(v)@).remove(path@),
        final(v)@.len() == old(v)@.len() - if entries_map(old(v)@).dom().contains(path@) {
            1int
        } else {
            0int
        },
{
    let ghost old_v = v@;
    proof {
        lemma_entries_map_dom(old_v, path@);
    }
    match find_key(v, path) {
        Some(i) => {
            v.remove(i);
            proof {
                lemma_remove_at(old_v, v@, i as int);
            }
        },
        None => {
            proof {
                lemma_entries_map_dom(old_v, path@);
                assert(entries_map(old_v).remove(path@) =~= entries_map(old_v));
            }
        },
    }
}

} // verus!

//! The pairs of one environment, held as a vector without repeated keys.
use vstd::prelude::*;
use crate::KVPair;
use crate::assoc::{assoc_map, names_unique, has_name, lemma_assoc_domain, lemma_assoc_value,
    lemma_assoc_push, lemma_assoc_update, lemma_assoc_remove};

verus! {

/// The pairs as sequences of characters.
pub open spec fn pairs_view(s: Seq<KVPair>) -> Seq<(Seq<char>, Seq<char>)> {
    s.map_values(|p: KVPair| (p.0@, p.1@))
}

/// The key/value mapping that the pairs hold; a later pair wins.
pub open spec fn pairs_map(s: Seq<KVPair>) -> Map<Seq<char>, Seq<char>> {
    assoc_map(pairs_view(s))
}

/// No key occurs twice.
pub open spec fn pairs_wf(s: Seq<KVPair>) -> bool {
    names_unique(pairs_view(s))
}

/// Where `key` stands in `entries`, if anywhere.
pub fn find_key(entries: &Vec<KVPair>, key: &String) -> (r: Option<usize>)
    ensures
        match r {
            Some(i) => i < entries.len() && entries[i as int].0@ == key@,
            None => !has_name(pairs_view(entries@), key@),
        },
        r is None <==> !pairs_map(entries@).contains_key(key@),
{
    proof {
        lemma_assoc_domain(pairs_view(entries@), key@);
    }
    let mut i: usize = 0;
    while i < entries.len()
        invariant
            i <= entries.len(),
            forall|j: int| 0 <= j < i ==> entries[j].0@ != key@,
        decreases entries.len() - i,
    {
        if entries[i].0 == *key {
            assert(pairs_view(entries@)[i as int].0 == key@);
            proof {
                assert(has_name(pairs_view(entries@), key@));
                lemma_assoc_domain(pairs_view(entries@), key@);
                assert(pairs_map(entries@).contains_key(key@));
            }
            return Some(i);
        }
        i = i + 1;
    }
    assert(!has_name(pairs_view(entries@), key@)) by {
        if has_name(pairs_view(entries@), key@) {
            let j = choose|j: int|
                0 <= j < entries.len() && #[trigger] pairs_view(entries@)[j].0 == key@;
            assert(entries[j].0@ == key@);
        }
    }
    None
}

/// The value stored under `key`, if any.
pub fn lookup(entries: &Vec<KVPair>, key: &String) -> (r: Option<String>)
    requires
        pairs_wf(entries@),
    ensures
        r is Some <==> pairs_map(entries@).contains_key(key@),
        r is Some ==> r->0@ == pairs_map(entries@)[key@],
{
    match find_key(entries, key) {
        Some(i) => {
            proof {
                lemma_assoc_value(pairs_view(entries@), i as int);
            }
            Some(entries[i].1.clone())
        },
        None => None,
    }
}

/// Binds `key` to `value`, replacing what it was bound to.
pub fn put_pair(entries: &mut Vec<KVPair>, key: String, value: String)
    requires
        pairs_wf(old(entries)@),
    ensures
        pairs_wf(final(entries)@),
        pairs_map(final(entries)@) == pairs_map(old(entries)@).insert(key@, value@),
{
    let ghost before = entries@;
    match find_key(entries, &key) {
        Some(i) => {
            let ghost k = key@;
            let ghost v = value@;
            entries.remove(i);
            entries.insert(i, (key, value));
            proof {
                assert(entries@ =~= before.update(i as int, (entries@[i as int])));
                assert(pairs_view(entries@) =~= pairs_view(before).update(
                    i as int,
                    (pairs_view(before)[i as int].0, v),
                ));
                lemma_assoc_update(pairs_view(before), i as int, v);
            }
        },
        None => {
            let ghost k = key@;
            let ghost v = value@;
            entries.push((key, value));
            proof {
                assert(pairs_view(entries@) =~= pairs_view(before).push((k, v)));
                lemma_assoc_push(pairs_view(before), k, v);
                assert forall|a: int, b: int|
                    0 <= a < b < pairs_view(entries@).len() implies #[trigger] pairs_view(
                    entries@,
                )[a].0 != #[trigger] pairs_view(entries@)[b].0 by {
                    if b == before.len() {
                        assert(pairs_view(before)[a].0 == pairs_view(entries@)[a].0);
                    } else {
                        assert(pairs_view(before)[a] == pairs_view(entries@)[a]);
                        assert(pairs_view(before)[b] == pairs_view(entries@)[b]);
                    }
                }
            }
        },
    }
}

/// Unbinds `key`; nothing changes where it is not bound.
pub fn delete_key(entries: &mut Vec<KVPair>, key: &String)
    requires
        pairs_wf(old(entries)@),
    ensures
        pairs_wf(final(entries)@),
        pairs_map(final(entries)@) == pairs_map(old(entries)@).remove(key@),
{
    let ghost before = entries@;
    match find_key(entries, key) {
        Some(i) => {
            entries.remove(i);
            proof {
                assert(pairs_view(entries@) =~= pairs_view(before).remove(i as int));
                lemma_assoc_remove(pairs_view(before), i as int);
            }
        },
        None => {
            proof {
                lemma_assoc_domain(pairs_view(before), key@);
                assert(pairs_map(before).remove(key@) =~= pairs_map(before));
            }
        },
    }
}

} // verus!

verus! {

/// The strings as sequences of characters.
pub open spec fn strings_view(s: Seq<String>) -> Seq<Seq<char>> {
    s.map_values(|x: String| x@)
}

/// The pairs of `m` for `keys`, in the order of `keys`; keys that `m` does
/// not bind are left out.
pub open spec fn select(m: Map<Seq<char>, Seq<char>>, keys: Seq<Seq<char>>) -> Seq<
    (Seq<char>, Seq<char>),
>
    decreases keys.len(),
{
    if keys.len() == 0 {
        seq![]
    } else {
        let rest = select(m, keys.drop_last());
        let k = keys.last();
        if m.contains_key(k) {
            rest.push((k, m[k]))
        } else {
            rest
        }
    }
}

/// `m` with each of `keys` unbound.
pub open spec fn without_keys(m: Map<Seq<char>, Seq<char>>, keys: Seq<Seq<char>>) -> Map<
    Seq<char>,
    Seq<char>,
>
    decreases keys.len(),
{
    if keys.len() == 0 {
        m
    } else {
        without_keys(m, keys.drop_last()).remove(keys.last())
    }
}

/// A copy of the pairs.
pub fn clone_pairs(entries: &Vec<KVPair>) -> (r: Vec<KVPair>)
    ensures
        pairs_view(r@) == pairs_view(entries@),
{
    let mut out: Vec<KVPair> = Vec::new();
    let mut i: usize = 0;
    while i < entries.len()
        invariant
            i <= entries.len(),
            pairs_view(out@) == pairs_view(entries@).take(i as int),
        decreases entries.len() - i,
    {
        let ghost before = out@;
        let key = entries[i].0.clone();
        let value = entries[i].1.clone();
        out.push((key, value));
        proof {
            assert(pairs_view(out@) =~= pairs_view(before).push(pairs_view(entries@)[i as int]));
            assert(pairs_view(out@) =~= pairs_view(entries@).take(i + 1));
        }
        i = i + 1;
    }
    proof {
        assert(pairs_view(entries@).take(i as int) =~= pairs_view(entries@));
    }
    out
}

/// The pairs stored under `keys`, in the order of `keys`; absent keys are
/// skipped.
pub fn select_pairs(entries: &Vec<KVPair>, keys: &Vec<String>) -> (r: Vec<KVPair>)
    requires
        pairs_wf(entries@),
    ensures
        pairs_view(r@) == select(pairs_map(entries@), strings_view(keys@)),
{
    let mut out: Vec<KVPair> = Vec::new();
    let mut i: usize = 0;
    while i < keys.len()
        invariant
            i <= keys.len(),
            pairs_wf(entries@),
            pairs_view(out@) == select(pairs_map(entries@), strings_view(keys@).take(i as int)),
        decreases keys.len() - i,
    {
        let ghost before = out@;
        proof {
            assert(strings_view(keys@).take(i + 1).drop_last() =~= strings_view(keys@).take(
                i as int,
            ));
        }
        match lookup(entries, &keys[i]) {
            Some(v) => {
                out.push((keys[i].clone(), v));
                proof {
                    assert(pairs_view(out@) =~= pairs_view(before).push(
                        (keys[i as int]@, pairs_map(entries@)[keys[i as int]@]),
                    ));
                }
            },
            None => {},
        }
        i = i + 1;
    }
    proof {
        assert(strings_view(keys@).take(i as int) =~= strings_view(keys@));
    }
    out
}

/// Unbinds each of `keys`.
pub fn delete_keys(entries: &mut Vec<KVPair>, keys: &Vec<String>)
    requires
        pairs_wf(old(entries)@),
    ensures
        pairs_wf(final(entries)@),
        pairs_map(final(entries)@) == without_keys(pairs_map(old(entries)@), strings_view(keys@)),
{
    let ghost start = pairs_map(entries@);
    let mut i: usize = 0;
    while i < keys.len()
        invariant
            i <= keys.len(),
            pairs_wf(entries@),
            pairs_map(entries@) == without_keys(start, strings_view(keys@).take(i as int)),
        decreases keys.len() - i,
    {
        proof {
            assert(strings_view(keys@).take(i + 1).drop_last() =~= strings_view(keys@).take(
                i as int,
            ));
        }
        delete_key(entries, &keys[i]);
        i = i + 1;
    }
    proof {
        assert(strings_view(keys@).take(i as int) =~= strings_view(keys@));
    }
}

} // verus!

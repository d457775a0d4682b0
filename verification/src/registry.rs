//! Ordered walks over the integer-keyed registries.
use std::collections::BTreeMap;
use vstd::prelude::*;

verus! {

/// `entries` lists exactly the bindings of `m`, by ascending key.
pub open spec fn lists_u32<V>(entries: Seq<(u32, V)>, m: Map<u32, V>) -> bool {
    &&& entries.len() == m.dom().len()
    &&& forall|i: int, j: int| 0 <= i < j < entries.len() ==> entries[i].0 < entries[j].0
    &&& forall|i: int|
        0 <= i < entries.len() ==> m.contains_key((#[trigger] entries[i]).0) && m[entries[i].0]
            == entries[i].1
    &&& forall|k: u32| #[trigger]
        m.contains_key(k) ==> exists|i: int| 0 <= i < entries.len() && #[trigger] entries[i] == (k, m[k])
}

/// `entries` lists exactly the bindings of `m`, by ascending key.
pub open spec fn lists_u64<V>(entries: Seq<(u64, V)>, m: Map<u64, V>) -> bool {
    &&& entries.len() == m.dom().len()
    &&& forall|i: int, j: int| 0 <= i < j < entries.len() ==> entries[i].0 < entries[j].0
    &&& forall|i: int|
        0 <= i < entries.len() ==> m.contains_key((#[trigger] entries[i]).0) && m[entries[i].0]
            == entries[i].1
    &&& forall|k: u64| #[trigger]
        m.contains_key(k) ==> exists|i: int| 0 <= i < entries.len() && #[trigger] entries[i] == (k, m[k])
}

/// The bindings of a `u32`-keyed registry, by ascending key.
pub fn entries_u32<V: Copy>(m: &BTreeMap<u32, V>) -> (entries: Vec<(u32, V)>)
    ensures
        lists_u32(entries@, m@),
{
    broadcast use vstd::std_specs::btree::group_btree_axioms;

    let walk = m.iter();
    let ghost order = vstd::std_specs::iter::IteratorSpec::remaining(&walk);
    let mut entries: Vec<(u32, V)> = Vec::new();
    for kv in it: walk
        invariant
            it.seq() == order,
            entries.len() == it.index(),
            forall|i: int| 0 <= i < entries.len() ==> entries@[i] == (*order[i].0, *order[i].1),
    {
        entries.push((*kv.0, *kv.1));
    }
    proof {
        let first = choose|first: spec_fn((&u32, &V)) -> u32|
            #[trigger] vstd::std_specs::btree::increasing_seq(order.map_values(first)) && (
            forall|kv: (&u32, &V)| #[trigger] first(kv) == *kv.0);
        let keys = order.map_values(first);
        assert(vstd::laws_cmp::obeys_cmp::<u32>());
        vstd::std_specs::btree::axiom_increasing_seq_meaning::<u32>(keys);
        assert forall|i: int, j: int| 0 <= i < j < entries.len() implies entries@[i].0
            < entries@[j].0 by {
            assert(keys[i] == *order[i].0);
            assert(keys[j] == *order[j].0);
            assert(vstd::std_specs::cmp::OrdSpec::cmp_spec(&keys[i], &keys[j]) is Less);
        }
        assert forall|i: int| 0 <= i < entries.len() implies m@.contains_key(
            (#[trigger] entries@[i]).0,
        ) && m@[entries@[i].0] == entries@[i].1 by {
            assert(m@.contains_key(*order[i].0));
        }
        assert forall|k: u32| #[trigger] m@.contains_key(k) implies exists|i: int|
            0 <= i < entries.len() && #[trigger] entries@[i] == (k, m@[k]) by {
            assert(order.contains((&k, &m@[k])));
            let i = choose|i: int| 0 <= i < order.len() && order[i] == (&k, &m@[k]);
            assert(entries@[i] == (k, m@[k]));
        }
    }
    entries
}

/// The bindings of a `u64`-keyed registry, by ascending key.
pub fn entries_u64<V: Copy>(m: &BTreeMap<u64, V>) -> (entries: Vec<(u64, V)>)
    ensures
        lists_u64(entries@, m@),
{
    broadcast use vstd::std_specs::btree::group_btree_axioms;

    let walk = m.iter();
    let ghost order = vstd::std_specs::iter::IteratorSpec::remaining(&walk);
    let mut entries: Vec<(u64, V)> = Vec::new();
    for kv in it: walk
        invariant
            it.seq() == order,
            entries.len() == it.index(),
            forall|i: int| 0 <= i < entries.len() ==> entries@[i] == (*order[i].0, *order[i].1),
    {
        entries.push((*kv.0, *kv.1));
    }
    proof {
        let first = choose|first: spec_fn((&u64, &V)) -> u64|
            #[trigger] vstd::std_specs::btree::increasing_seq(order.map_values(first)) && (
            forall|kv: (&u64, &V)| #[trigger] first(kv) == *kv.0);
        let keys = order.map_values(first);
        assert(vstd::laws_cmp::obeys_cmp::<u64>());
        vstd::std_specs::btree::axiom_increasing_seq_meaning::<u64>(keys);
        assert forall|i: int, j: int| 0 <= i < j < entries.len() implies entries@[i].0
            < entries@[j].0 by {
            assert(keys[i] == *order[i].0);
            assert(keys[j] == *order[j].0);
            assert(vstd::std_specs::cmp::OrdSpec::cmp_spec(&keys[i], &keys[j]) is Less);
        }
        assert forall|i: int| 0 <= i < entries.len() implies m@.contains_key(
            (#[trigger] entries@[i]).0,
        ) && m@[entries@[i].0] == entries@[i].1 by {
            assert(m@.contains_key(*order[i].0));
        }
        assert forall|k: u64| #[trigger] m@.contains_key(k) implies exists|i: int|
            0 <= i < entries.len() && #[trigger] entries@[i] == (k, m@[k]) by {
            assert(order.contains((&k, &m@[k])));
            let i = choose|i: int| 0 <= i < order.len() && order[i] == (&k, &m@[k]);
            assert(entries@[i] == (k, m@[k]));
        }
    }
    entries
}

/// What `m` binds `key` to.
pub open spec fn bound<K, V>(m: Map<K, V>, key: K) -> Option<V> {
    if m.contains_key(key) {
        Some(m[key])
    } else {
        None
    }
}

/// A copy of what `m` binds `key` to.
pub fn lookup<V: Copy>(m: &BTreeMap<u32, V>, key: u32) -> (found: Option<V>)
    ensures
        found == bound(m@, key),
{
    broadcast use vstd::std_specs::btree::group_btree_axioms;

    match m.get(&key) {
        Some(v) => Some(*v),
        None => None,
    }
}

/// Binds `key` to `value`.
pub fn store<V>(m: &mut BTreeMap<u32, V>, key: u32, value: V)
    ensures
        final(m)@ == old(m)@.insert(key, value),
{
    broadcast use vstd::std_specs::btree::group_btree_axioms;

    let _ = m.insert(key, value);
}

/// Takes the binding of `key` out of `m`.
pub fn take<V>(m: &mut BTreeMap<u32, V>, key: u32) -> (found: Option<V>)
    ensures
        final(m)@ == old(m)@.remove(key),
        found == bound(old(m)@, key),
{
    broadcast use vstd::std_specs::btree::group_btree_axioms;

    m.remove(&key)
}

/// How many bindings `m` holds.
pub fn count<V>(m: &BTreeMap<u32, V>) -> (n: usize)
    ensures
        n == m@.dom().len(),
        m@.dom().finite(),
{
    broadcast use vstd::std_specs::btree::group_btree_axioms;

    m.len()
}

} // verus!

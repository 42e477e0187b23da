//! The timer table: registered wakers keyed by deadline and timer id, in key order.

use std::collections::BTreeMap;
use std::task::Waker;
use vstd::prelude::*;
use vstd::std_specs::cmp::OrdSpec;
use vstd::std_specs::iter::IteratorSpec;

verus! {

/// Key order of the timer table: by deadline, then by timer id.
pub open spec fn key_before(a: (u64, usize), b: (u64, usize)) -> bool {
    a.0 < b.0 || (a.0 == b.0 && a.1 < b.1)
}

/// A sequence of keys in strictly increasing key order.
pub open spec fn keys_ascending(keys: Seq<(u64, usize)>) -> bool {
    forall|i: int, j: int| 0 <= i < j < keys.len() ==> key_before(#[trigger] keys[i], #[trigger] keys[j])
}

proof fn lemma_table_keys_ascending(table: &BTreeMap<(u64, usize), Waker>)
    ensures
        vstd::std_specs::btree::spec_keys_iter(table).remaining().map_values(|k: &(u64, usize)| *k).to_set()
            == table@.dom(),
        forall|i: int, j: int|
            0 <= i < j < vstd::std_specs::btree::spec_keys_iter(table).remaining().len() ==> key_before(
                *#[trigger] vstd::std_specs::btree::spec_keys_iter(table).remaining()[i],
                *#[trigger] vstd::std_specs::btree::spec_keys_iter(table).remaining()[j],
            ),
{
    broadcast use vstd::laws_cmp::group_laws_cmp;

    vstd::std_specs::btree::axiom_spec_keys_iter(table);
    let s = vstd::std_specs::btree::spec_keys_iter(table).remaining();
    assert(vstd::laws_cmp::obeys_cmp::<&(u64, usize)>());
    vstd::std_specs::btree::axiom_increasing_seq_meaning::<&(u64, usize)>(s);
    assert(s.map_values(|k: &(u64, usize)| *k) =~= s.unref());
    assert forall|i: int, j: int| 0 <= i < j < s.len() implies key_before(*#[trigger] s[i], *#[trigger] s[j]) by {
        assert(OrdSpec::cmp_spec(&s[i], &s[j]) is Less);
    }
}

/// The keys of the table, in increasing key order.
pub(crate) fn sorted_keys(table: &BTreeMap<(u64, usize), Waker>) -> (keys: Vec<(u64, usize)>)
    ensures
        keys@.to_set() == table@.dom(),
        keys_ascending(keys@),
{
    let mut keys: Vec<(u64, usize)> = Vec::new();
    proof {
        lemma_table_keys_ascending(table);
    }
    for k in it: table.keys()
        invariant
            keys@ == it.seq().take(it.index()).map_values(|k: &(u64, usize)| *k),
    {
        keys.push(*k);
    }
    assert(keys@ =~= vstd::std_specs::btree::spec_keys_iter(table).remaining().map_values(
        |k: &(u64, usize)| *k,
    ));
    keys
}

/// Registers `waker` under `key`, replacing what was there.
pub(crate) fn table_insert(table: &mut BTreeMap<(u64, usize), Waker>, key: (u64, usize), waker: Waker)
    ensures
        final(table)@ == old(table)@.insert(key, waker),
{
    broadcast use vstd::laws_cmp::group_laws_cmp;

    table.insert(key, waker);
}

/// Drops `key` from the table and hands back the waker it held.
pub(crate) fn table_remove(table: &mut BTreeMap<(u64, usize), Waker>, key: (u64, usize)) -> (removed: Option<Waker>)
    ensures
        final(table)@ == old(table)@.remove(key),
        removed == (if old(table)@.contains_key(key) { Some(old(table)@[key]) } else { None }),
{
    broadcast use vstd::laws_cmp::group_laws_cmp;
    broadcast use vstd::std_specs::btree::group_btree_axioms;

    table.remove(&key)
}

} // verus!

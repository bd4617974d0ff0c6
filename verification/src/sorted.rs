//! Association lists kept in ascending order of their keys, read as maps.
//!
//! The registry and the tier ledgers each hold their entries in such a list;
//! the lemmas here say what the map of a list is, and what inserting or
//! replacing an entry does to it.

use crate::order::{
    ascending_entries, enumerates, lemma_ascending_keys_enumerate, lemma_ascending_keys_is, listed,
    strict_total_order,
};
use vstd::prelude::*;

verus! {

/// The keys of `list` ascend strictly under `lt`.
pub open spec fn keys_ascend<K, V>(list: Seq<(K, V)>, lt: spec_fn(K, K) -> bool) -> bool {
    forall|i: int, j: int|
        0 <= i < j < list.len() ==> lt((#[trigger] list[i]).0, (#[trigger] list[j]).0)
}

/// A position at which `list` holds `key`.
pub open spec fn slot_of<K, V>(list: Seq<(K, V)>, key: K) -> int {
    choose|i: int| 0 <= i < list.len() && (#[trigger] list[i]).0 == key
}

/// The map that `list` stands for: every key it holds, with the value listed
/// beside it.
pub open spec fn as_map<K, V>(list: Seq<(K, V)>) -> Map<K, V> {
    Map::new(
        |key: K| exists|i: int| 0 <= i < list.len() && (#[trigger] list[i]).0 == key,
        |key: K| list[slot_of(list, key)].1,
    )
}

/// Position `at` is where `key` belongs in `list`: every key before it sorts
/// before `key`, and the key at it, if there is one, sorts after.
pub open spec fn is_gap<K, V>(
    list: Seq<(K, V)>,
    lt: spec_fn(K, K) -> bool,
    at: int,
    key: K,
) -> bool {
    &&& 0 <= at <= list.len()
    &&& forall|i: int| 0 <= i < at ==> lt((#[trigger] list[i]).0, key)
    &&& at < list.len() ==> lt(key, list[at].0)
}

/// The empty list stands for the empty map.
pub proof fn lemma_empty<K, V>()
    ensures
        as_map(Seq::<(K, V)>::empty()) == Map::<K, V>::empty(),
{
    assert(as_map(Seq::<(K, V)>::empty()) =~= Map::<K, V>::empty());
}

/// The map of a list has finitely many keys.
pub proof fn lemma_finite<K, V>(list: Seq<(K, V)>)
    ensures
        as_map(list).dom().finite(),
{
    let keys = list.map_values(|entry: (K, V)| entry.0);
    assert forall|key: K| as_map(list).dom().contains(key) <==> keys.to_set().contains(key) by {
        if as_map(list).dom().contains(key) {
            let i = slot_of(list, key);
            assert(0 <= i < list.len() && list[i].0 == key);
            assert(keys[i] == key);
        }
        if keys.contains(key) {
            let i = choose|i: int| 0 <= i < keys.len() && keys[i] == key;
            assert(list[i].0 == key);
        }
    }
    assert(as_map(list).dom() =~= keys.to_set());
    vstd::seq_lib::seq_to_set_is_finite(keys);
}

/// The map of a list has its ascending listing under any strict total order.
pub proof fn lemma_listed<K, V>(list: Seq<(K, V)>, lt: spec_fn(K, K) -> bool)
    requires
        strict_total_order(lt),
    ensures
        listed(as_map(list), lt),
{
    lemma_finite(list);
    lemma_ascending_keys_enumerate(as_map(list).dom(), lt);
}

/// An ascending list maps each of its keys to the value beside it.
pub proof fn lemma_entry<K, V>(list: Seq<(K, V)>, lt: spec_fn(K, K) -> bool, i: int)
    requires
        strict_total_order(lt),
        keys_ascend(list, lt),
        0 <= i < list.len(),
    ensures
        as_map(list).contains_key(list[i].0),
        as_map(list)[list[i].0] == list[i].1,
{
    let key = list[i].0;
    let k = slot_of(list, key);
    assert(0 <= k < list.len() && list[k].0 == key);
    if k < i {
        assert(lt(list[k].0, list[i].0));
    }
    if i < k {
        assert(lt(list[i].0, list[k].0));
    }
}

/// A key that has a gap in an ascending list sorts before every key from the
/// gap on, and the list does not hold it.
pub proof fn lemma_gap<K, V>(list: Seq<(K, V)>, lt: spec_fn(K, K) -> bool, at: int, key: K)
    requires
        strict_total_order(lt),
        keys_ascend(list, lt),
        is_gap(list, lt, at, key),
    ensures
        forall|i: int| at <= i < list.len() ==> lt(key, (#[trigger] list[i]).0),
        !as_map(list).contains_key(key),
{
    assert forall|i: int| at <= i < list.len() implies lt(key, (#[trigger] list[i]).0) by {
        if at < i {
            assert(lt(list[at].0, list[i].0));
        }
    }
    if as_map(list).contains_key(key) {
        let i = slot_of(list, key);
        assert(0 <= i < list.len() && list[i].0 == key);
        if i < at {
            assert(lt(list[i].0, key));
        } else {
            assert(lt(key, list[i].0));
        }
    }
}

/// Inserting an entry at the gap where its key belongs keeps the list
/// ascending and adds the entry to the map.
pub proof fn lemma_insert<K, V>(
    list: Seq<(K, V)>,
    lt: spec_fn(K, K) -> bool,
    at: int,
    entry: (K, V),
)
    requires
        strict_total_order(lt),
        keys_ascend(list, lt),
        is_gap(list, lt, at, entry.0),
    ensures
        keys_ascend(list.insert(at, entry), lt),
        as_map(list.insert(at, entry)) == as_map(list).insert(entry.0, entry.1),
{
    let grown = list.insert(at, entry);
    let target = as_map(list).insert(entry.0, entry.1);
    lemma_gap(list, lt, at, entry.0);
    assert forall|i: int, j: int| 0 <= i < j < grown.len() implies lt(
        (#[trigger] grown[i]).0,
        (#[trigger] grown[j]).0,
    ) by {
        if j < at {
            assert(lt(list[i].0, list[j].0));
        } else if j == at {
            assert(lt(list[i].0, entry.0));
        } else if i < at {
            assert(lt(list[i].0, list[j - 1].0));
        } else if i == at {
            assert(lt(entry.0, list[j - 1].0));
        } else {
            assert(lt(list[i - 1].0, list[j - 1].0));
        }
    }
    assert forall|key: K| #[trigger] as_map(grown).contains_key(key) <==> target.contains_key(
        key,
    ) by {
        if as_map(grown).contains_key(key) {
            let i = slot_of(grown, key);
            assert(0 <= i < grown.len() && grown[i].0 == key);
            if i < at {
                assert(list[i].0 == key);
            } else if i > at {
                assert(list[i - 1].0 == key);
            }
        }
        if as_map(list).contains_key(key) {
            let i = slot_of(list, key);
            assert(0 <= i < list.len() && list[i].0 == key);
            if i < at {
                assert(grown[i].0 == key);
            } else {
                assert(grown[i + 1].0 == key);
            }
        }
        if key == entry.0 {
            assert(grown[at].0 == key);
        }
    }
    assert forall|key: K| #[trigger] as_map(grown).contains_key(key) implies as_map(grown)[key]
        == target[key] by {
        let i = slot_of(grown, key);
        assert(0 <= i < grown.len() && grown[i].0 == key);
        lemma_entry(grown, lt, i);
        if i < at {
            lemma_entry(list, lt, i);
        } else if i > at {
            lemma_entry(list, lt, i - 1);
        }
    }
    assert(as_map(grown) =~= target);
}

/// Replacing the value beside a key keeps the list ascending and sets the
/// key's value in the map.
pub proof fn lemma_update<K, V>(
    list: Seq<(K, V)>,
    lt: spec_fn(K, K) -> bool,
    at: int,
    entry: (K, V),
)
    requires
        strict_total_order(lt),
        keys_ascend(list, lt),
        0 <= at < list.len(),
        list[at].0 == entry.0,
    ensures
        keys_ascend(list.update(at, entry), lt),
        as_map(list.update(at, entry)) == as_map(list).insert(entry.0, entry.1),
{
    let changed = list.update(at, entry);
    let target = as_map(list).insert(entry.0, entry.1);
    assert forall|i: int, j: int| 0 <= i < j < changed.len() implies lt(
        (#[trigger] changed[i]).0,
        (#[trigger] changed[j]).0,
    ) by {
        assert(lt(list[i].0, list[j].0));
    }
    assert forall|key: K| #[trigger] as_map(changed).contains_key(key) <==> target.contains_key(
        key,
    ) by {
        if as_map(changed).contains_key(key) {
            let i = slot_of(changed, key);
            assert(0 <= i < changed.len() && changed[i].0 == key);
            assert(list[i].0 == key);
        }
        if as_map(list).contains_key(key) {
            let i = slot_of(list, key);
            assert(0 <= i < list.len() && list[i].0 == key);
            assert(changed[i].0 == key);
        }
        if key == entry.0 {
            assert(changed[at].0 == key);
        }
    }
    assert forall|key: K| #[trigger] as_map(changed).contains_key(key) implies as_map(
        changed,
    )[key] == target[key] by {
        let i = slot_of(changed, key);
        assert(0 <= i < changed.len() && changed[i].0 == key);
        lemma_entry(changed, lt, i);
        lemma_entry(list, lt, i);
    }
    assert(as_map(changed) =~= target);
}

/// An ascending list is the ascending listing of its own map.
pub proof fn lemma_listing<K, V>(list: Seq<(K, V)>, lt: spec_fn(K, K) -> bool)
    requires
        strict_total_order(lt),
        keys_ascend(list, lt),
    ensures
        ascending_entries(as_map(list), lt) == list,
{
    let keys = list.map_values(|entry: (K, V)| entry.0);
    let dom = as_map(list).dom();
    assert forall|i: int, j: int| 0 <= i < j < keys.len() implies lt(
        #[trigger] keys[i],
        #[trigger] keys[j],
    ) by {
        assert(lt(list[i].0, list[j].0));
    }
    assert forall|key: K| dom.contains(key) <==> keys.contains(key) by {
        if dom.contains(key) {
            let i = slot_of(list, key);
            assert(0 <= i < list.len() && list[i].0 == key);
            assert(keys[i] == key);
        }
        if keys.contains(key) {
            let i = choose|i: int| 0 <= i < keys.len() && keys[i] == key;
            assert(list[i].0 == key);
        }
    }
    assert(enumerates(keys, dom, lt));
    lemma_ascending_keys_is(keys, dom, lt);
    assert forall|i: int| 0 <= i < list.len() implies as_map(list)[keys[i]] == list[i].1 by {
        lemma_entry(list, lt, i);
    }
    assert(ascending_entries(as_map(list), lt) =~= list);
}

} // verus!

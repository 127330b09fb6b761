//! Small string-keyed tables of amounts, each key at most once.
use vstd::prelude::*;

verus! {

/// Index of the first entry at or after `start` with key `key`, or -1.
pub open spec fn key_index_from<V>(entries: Seq<(String, V)>, key: Seq<char>, start: int) -> int
    decreases entries.len() - start,
{
    if start < 0 || start >= entries.len() {
        -1
    } else if entries[start].0@ == key {
        start
    } else {
        key_index_from(entries, key, start + 1)
    }
}

/// Index of the first entry with key `key`, or -1.
pub open spec fn key_index<V>(entries: Seq<(String, V)>, key: Seq<char>) -> int {
    key_index_from(entries, key, 0)
}

/// The amount recorded for `key`, zero when there is none.
pub open spec fn value_of(entries: Seq<(String, u128)>, key: Seq<char>) -> u128 {
    let i = key_index(entries, key);
    if i >= 0 {
        entries[i].1
    } else {
        0
    }
}

/// Whether `key` has an entry.
pub open spec fn has_key<V>(entries: Seq<(String, V)>, key: Seq<char>) -> bool {
    key_index(entries, key) >= 0
}

/// No key occurs twice.
pub open spec fn keys_unique<V>(entries: Seq<(String, V)>) -> bool {
    forall|i: int, j: int| 0 <= i < j < entries.len() ==> entries[i].0@ != entries[j].0@
}

/// The sum of all recorded amounts.
pub open spec fn total_of(entries: Seq<(String, u128)>) -> int
    decreases entries.len(),
{
    if entries.len() == 0 {
        0
    } else {
        total_of(entries.drop_last()) + entries.last().1
    }
}

proof fn lemma_key_index_from<V>(entries: Seq<(String, V)>, key: Seq<char>, start: int)
    requires
        0 <= start <= entries.len(),
    ensures
        key_index_from(entries, key, start) == -1 || start <= key_index_from(entries, key, start) < entries.len(),
        key_index_from(entries, key, start) >= 0 ==> entries[key_index_from(entries, key, start)].0@ == key,
        key_index_from(entries, key, start) < 0 ==> forall|k: int| start <= k < entries.len() ==> entries[k].0@ != key,
        key_index_from(entries, key, start) >= 0 ==> forall|k: int|
            start <= k < key_index_from(entries, key, start) ==> entries[k].0@ != key,
    decreases entries.len() - start,
{
    if start < entries.len() {
        lemma_key_index_from(entries, key, start + 1);
    }
}

pub proof fn lemma_key_index<V>(entries: Seq<(String, V)>, key: Seq<char>)
    ensures
        -1 <= key_index(entries, key) < entries.len(),
        key_index(entries, key) >= 0 ==> entries[key_index(entries, key)].0@ == key,
        key_index(entries, key) < 0 ==> forall|k: int| 0 <= k < entries.len() ==> entries[k].0@ != key,
        key_index(entries, key) >= 0 ==> forall|k: int| 0 <= k < key_index(entries, key) ==> entries[k].0@ != key,
{
    lemma_key_index_from(entries, key, 0);
}

/// With unique keys, the entry at any index is the one found for its key.
pub proof fn lemma_unique_index<V>(entries: Seq<(String, V)>, i: int)
    requires
        keys_unique(entries),
        0 <= i < entries.len(),
    ensures
        key_index(entries, entries[i].0@) == i,
{
    lemma_key_index(entries, entries[i].0@);
    let k = key_index(entries, entries[i].0@);
    if k < i {
        assert(entries[k].0@ != entries[i].0@);
    }
}

/// Finds the entry for `key`.
pub fn find<V>(entries: &Vec<(String, V)>, key: &String) -> (r: Option<usize>)
    ensures
        match r {
            Some(i) => i == key_index(entries@, key@) && i < entries@.len(),
            None => key_index(entries@, key@) < 0,
        },
{
    proof {
        lemma_key_index(entries@, key@);
    }
    let mut i: usize = 0;
    while i < entries.len()
        invariant
            i <= entries.len(),
            forall|k: int| 0 <= k < i ==> entries@[k].0@ != key@,
        decreases entries.len() - i,
    {
        if entries[i].0 == *key {
            proof {
                lemma_key_index(entries@, key@);
                let k = key_index(entries@, key@);
                if k > i as int || k < 0 {
                    assert(entries@[i as int].0@ == key@);
                }
                if 0 <= k < i as int {
                    assert(entries@[k].0@ != key@);
                }
            }
            return Some(i);
        }
        i += 1;
    }
    None
}

/// The amount recorded for `key`, zero when there is none.
pub fn get_value(entries: &Vec<(String, u128)>, key: &String) -> (r: u128)
    ensures
        r == value_of(entries@, key@),
{
    proof {
        lemma_key_index(entries@, key@);
    }
    match find(entries, key) {
        Some(i) => entries[i].1,
        None => 0,
    }
}

/// Setting the entry for a key leaves every other key's amount unchanged.
proof fn lemma_set_other(entries: Seq<(String, u128)>, i: int, key: Seq<char>, value: u128, other: Seq<char>)
    requires
        keys_unique(entries),
        0 <= i < entries.len(),
        entries[i].0@ == key,
        other != key,
    ensures
        value_of(entries.update(i, (entries[i].0, value)), other) == value_of(entries, other),
{
    let u = entries.update(i, (entries[i].0, value));
    lemma_key_index(entries, other);
    lemma_key_index(u, other);
    let a = key_index(entries, other);
    let b = key_index(u, other);
    if a >= 0 && b >= 0 {
        if a < b {
            assert(u[a].0@ == other);
        }
        if b < a {
            assert(entries[b].0@ == other);
        }
    }
    if a >= 0 && b < 0 {
        assert(u[a].0@ == other);
    }
    if a < 0 && b >= 0 {
        assert(entries[b].0@ == other);
    }
}

/// Records `value` for `key`, adding an entry when there is none.
pub fn set_value(entries: &mut Vec<(String, u128)>, key: &String, value: u128)
    requires
        keys_unique(old(entries)@),
    ensures
        keys_unique(final(entries)@),
        value_of(final(entries)@, key@) == value,
        has_key(final(entries)@, key@),
        forall|k: Seq<char>| k != key@ ==> value_of(#[trigger] final(entries)@, k) == value_of(old(entries)@, k),
        forall|k: Seq<char>| k != key@ ==> has_key(#[trigger] final(entries)@, k) == has_key(old(entries)@, k),
        has_key(old(entries)@, key@) ==> final(entries)@.len() == old(entries)@.len(),
        has_key(old(entries)@, key@) ==> forall|j: int| 0 <= j < final(entries)@.len() ==> #[trigger] final(entries)@[j].0@ == old(entries)@[j].0@,
        total_of(final(entries)@) == total_of(old(entries)@) - value_of(old(entries)@, key@) + value,
{
    proof {
        lemma_key_index(entries@, key@);
    }
    match find(entries, key) {
        Some(i) => {
            let name = entries[i].0.clone();
            let ghost before = entries@;
            entries.set(i, (name, value));
            proof {
                lemma_total_update(before, i as int, value);
                assert(entries@ =~= before.update(i as int, (before[i as int].0, value))) by {
                    assert(entries@[i as int].0@ == before[i as int].0@);
                }
                assert forall|k: Seq<char>| k != key@ implies value_of(#[trigger] entries@, k) == value_of(before, k) by {
                    lemma_set_other(before, i as int, key@, value, k);
                }
                assert forall|k: Seq<char>| k != key@ implies has_key(#[trigger] entries@, k) == has_key(before, k) by {
                    lemma_key_index(before, k);
                    lemma_key_index(entries@, k);
                    let a = key_index(before, k);
                    let b = key_index(entries@, k);
                    if a >= 0 {
                        assert(entries@[a].0@ == k);
                    }
                    if b >= 0 {
                        assert(before[b].0@ == k);
                    }
                }
                lemma_unique_index(entries@, i as int);
            }
        },
        None => {
            let ghost before = entries@;
            entries.push((key.clone(), value));
            proof {
                let n = before.len() as int;
                assert(entries@.drop_last() =~= before);
                assert(entries@ =~= before.push(entries@.last()));
                lemma_unique_index(entries@, n);
                assert forall|k: Seq<char>| k != key@ implies value_of(#[trigger] entries@, k) == value_of(before, k) by {
                    lemma_push_index(before, entries@.last(), k, 0);
                    lemma_key_index(before, k);
                }
                assert forall|k: Seq<char>| k != key@ implies has_key(#[trigger] entries@, k) == has_key(before, k) by {
                    lemma_push_index(before, entries@.last(), k, 0);
                }
            }
        },
    }
}

proof fn lemma_push_index(entries: Seq<(String, u128)>, x: (String, u128), key: Seq<char>, start: int)
    requires
        0 <= start <= entries.len(),
    ensures
        key_index_from(entries.push(x), key, start) == (if key_index_from(entries, key, start) >= 0 {
            key_index_from(entries, key, start)
        } else if x.0@ == key {
            entries.len() as int
        } else {
            -1
        }),
    decreases entries.len() - start,
{
    if start < entries.len() {
        lemma_push_index(entries, x, key, start + 1);
    } else {
        assert(key_index_from(entries.push(x), key, start + 1) == -1);
    }
}

/// Changing one amount changes the total by the difference.
pub proof fn lemma_total_update(entries: Seq<(String, u128)>, i: int, value: u128)
    requires
        0 <= i < entries.len(),
    ensures
        total_of(entries.update(i, (entries[i].0, value))) == total_of(entries) - entries[i].1 + value,
    decreases entries.len(),
{
    let u = entries.update(i, (entries[i].0, value));
    if i == entries.len() - 1 {
        assert(u.drop_last() =~= entries.drop_last());
    } else {
        lemma_total_update(entries.drop_last(), i, value);
        assert(u.drop_last() =~= entries.drop_last().update(i, (entries[i].0, value)));
    }
}

} // verus!

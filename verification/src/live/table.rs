//! Sequences of keyed rows, and the map that they stand for.

use vstd::prelude::*;

verus! {

/// No key has two rows.
pub open spec fn distinct_keys<K, V>(rows: Seq<(K, V)>) -> bool {
    forall|i: int, j: int|
        0 <= i < j < rows.len() ==> (#[trigger] rows[i]).0 != (#[trigger] rows[j]).0
}

/// Some row has the key `key`.
pub open spec fn has_key<K, V>(rows: Seq<(K, V)>, key: K) -> bool {
    exists|i: int| 0 <= i < rows.len() && (#[trigger] rows[i]).0 == key
}

/// The map from each key to the value of its row.
pub open spec fn row_map<K, V>(rows: Seq<(K, V)>) -> Map<K, V> {
    Map::new(
        |key: K| has_key(rows, key),
        |key: K| rows[choose|i: int| 0 <= i < rows.len() && (#[trigger] rows[i]).0 == key].1,
    )
}

/// A row's key leads to that row's value.
pub proof fn lemma_row_is_mapped<K, V>(rows: Seq<(K, V)>, i: int)
    requires
        distinct_keys(rows),
        0 <= i < rows.len(),
    ensures
        row_map(rows).contains_key(rows[i].0),
        row_map(rows)[rows[i].0] == rows[i].1,
{
    assert(rows[i].0 == rows[i].0);
    let j = choose|j: int| 0 <= j < rows.len() && (#[trigger] rows[j]).0 == rows[i].0;
    if j < i {
        assert(rows[j].0 != rows[i].0);
    } else if i < j {
        assert(rows[i].0 != rows[j].0);
    }
}

/// Every key of the map comes from a row.
pub proof fn lemma_key_has_row<K, V>(rows: Seq<(K, V)>, key: K) -> (i: int)
    requires
        distinct_keys(rows),
        row_map(rows).contains_key(key),
    ensures
        0 <= i < rows.len(),
        rows[i].0 == key,
        rows[i].1 == row_map(rows)[key],
{
    let i = choose|i: int| 0 <= i < rows.len() && (#[trigger] rows[i]).0 == key;
    lemma_row_is_mapped(rows, i);
    i
}

/// A row with a new key adds that key to the map.
pub proof fn lemma_push<K, V>(rows: Seq<(K, V)>, key: K, value: V)
    requires
        distinct_keys(rows),
        !row_map(rows).contains_key(key),
    ensures
        distinct_keys(rows.push((key, value))),
        row_map(rows.push((key, value))) == row_map(rows).insert(key, value),
{
    let more = rows.push((key, value));
    assert forall|i: int, j: int| 0 <= i < j < more.len() implies (#[trigger] more[i]).0 != (
    #[trigger] more[j]).0 by {
        if j == rows.len() {
            assert(more[i] == rows[i]);
            if rows[i].0 == key {
                assert(has_key(rows, key));
            }
        } else {
            assert(more[i] == rows[i] && more[j] == rows[j]);
        }
    }
    assert forall|k: K| #[trigger]
        row_map(more).contains_key(k) == row_map(rows).insert(key, value).contains_key(k) by {
        if row_map(rows).contains_key(k) {
            let i = lemma_key_has_row(rows, k);
            assert(more[i] == rows[i]);
        }
        if k == key {
            assert(more[rows.len() as int].0 == k);
        }
        if row_map(more).contains_key(k) {
            let i = lemma_key_has_row(more, k);
            if i < rows.len() {
                assert(rows[i].0 == k);
            }
        }
    }
    assert forall|k: K| #[trigger] row_map(more).contains_key(k) implies row_map(more)[k]
        == row_map(rows).insert(key, value)[k] by {
        let i = lemma_key_has_row(more, k);
        if i < rows.len() {
            lemma_row_is_mapped(rows, i);
            assert(more[i] == rows[i]);
        }
    }
    assert(row_map(more) =~= row_map(rows).insert(key, value));
}

/// A new value in a row is a new value for its key.
pub proof fn lemma_update<K, V>(rows: Seq<(K, V)>, i: int, value: V)
    requires
        distinct_keys(rows),
        0 <= i < rows.len(),
    ensures
        distinct_keys(rows.update(i, (rows[i].0, value))),
        row_map(rows.update(i, (rows[i].0, value))) == row_map(rows).insert(rows[i].0, value),
{
    let key = rows[i].0;
    let more = rows.update(i, (key, value));
    assert forall|a: int, b: int| 0 <= a < b < more.len() implies (#[trigger] more[a]).0 != (
    #[trigger] more[b]).0 by {
        assert(more[a].0 == rows[a].0 && more[b].0 == rows[b].0);
    }
    assert forall|k: K| #[trigger]
        row_map(more).contains_key(k) == row_map(rows).insert(key, value).contains_key(k) by {
        if row_map(rows).contains_key(k) {
            let j = lemma_key_has_row(rows, k);
            assert(more[j].0 == k);
        }
        if k == key {
            assert(more[i].0 == k);
        }
        if row_map(more).contains_key(k) {
            let j = lemma_key_has_row(more, k);
            assert(rows[j].0 == k);
        }
    }
    assert forall|k: K| #[trigger] row_map(more).contains_key(k) implies row_map(more)[k]
        == row_map(rows).insert(key, value)[k] by {
        let j = lemma_key_has_row(more, k);
        if j != i {
            lemma_row_is_mapped(rows, j);
            assert(more[j] == rows[j]);
            assert(rows[j].0 != key) by {
                if j < i {
                    assert(rows[j].0 != rows[i].0);
                } else {
                    assert(rows[i].0 != rows[j].0);
                }
            }
        }
    }
    assert(row_map(more) =~= row_map(rows).insert(key, value));
}

/// Without a row, its key is gone.
pub proof fn lemma_remove<K, V>(rows: Seq<(K, V)>, i: int)
    requires
        distinct_keys(rows),
        0 <= i < rows.len(),
    ensures
        distinct_keys(rows.remove(i)),
        row_map(rows.remove(i)) == row_map(rows).remove(rows[i].0),
{
    let fewer = rows.remove(i);
    let from = |a: int| if a < i { a } else { a + 1 };
    assert forall|a: int| 0 <= a < fewer.len() implies #[trigger] fewer[a] == rows[from(a)] by {}
    assert forall|a: int, b: int| 0 <= a < b < fewer.len() implies (#[trigger] fewer[a]).0 != (
    #[trigger] fewer[b]).0 by {
        assert(rows[from(a)].0 != rows[from(b)].0);
    }
    assert forall|k: K| #[trigger]
        row_map(fewer).contains_key(k) == row_map(rows).remove(rows[i].0).contains_key(k) by {
        if row_map(rows).contains_key(k) && k != rows[i].0 {
            let j = lemma_key_has_row(rows, k);
            let a = if j < i { j } else { j - 1 };
            assert(fewer[a] == rows[j]);
        }
        if row_map(fewer).contains_key(k) {
            let a = lemma_key_has_row(fewer, k);
            assert(rows[from(a)].0 == k);
            if from(a) < i {
                assert(rows[from(a)].0 != rows[i].0);
            } else {
                assert(rows[i].0 != rows[from(a)].0);
            }
        }
    }
    assert forall|k: K| #[trigger] row_map(fewer).contains_key(k) implies row_map(fewer)[k]
        == row_map(rows).remove(rows[i].0)[k] by {
        let a = lemma_key_has_row(fewer, k);
        lemma_row_is_mapped(rows, from(a));
    }
    assert(row_map(fewer) =~= row_map(rows).remove(rows[i].0));
}

} // verus!

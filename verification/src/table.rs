//! Keyed rows: the mathematical model of a mapping whose absent keys read as a
//! default, kept as a sequence of rows with one row per key.

use vstd::prelude::*;

verus! {

/// Some row holds `key`.
pub open spec fn has_key<K, V>(rows: Seq<(K, V)>, key: K) -> bool {
    exists|i: int| 0 <= i < rows.len() && (#[trigger] rows[i]).0 == key
}

/// The place of a row that holds `key`, where there is one.
pub open spec fn position<K, V>(rows: Seq<(K, V)>, key: K) -> int {
    choose|i: int| 0 <= i < rows.len() && (#[trigger] rows[i]).0 == key
}

/// No key has two rows.
pub open spec fn distinct_keys<K, V>(rows: Seq<(K, V)>) -> bool {
    forall|i: int, j: int|
        0 <= i < j < rows.len() ==> (#[trigger] rows[i]).0 != (#[trigger] rows[j]).0
}

/// The value stored under `key`, if a row for it exists.
pub open spec fn lookup<K, V>(rows: Seq<(K, V)>, key: K) -> Option<V> {
    if has_key(rows, key) {
        Some(rows[position(rows, key)].1)
    } else {
        None
    }
}

/// The rows after `value` is written under `key`: the key's row is replaced
/// where it stands, or a new row is appended.
pub open spec fn put<K, V>(rows: Seq<(K, V)>, key: K, value: V) -> Seq<(K, V)> {
    if has_key(rows, key) {
        rows.update(position(rows, key), (key, value))
    } else {
        rows.push((key, value))
    }
}

/// With one row per key, the row at `i` is the one that its key leads to.
pub proof fn lemma_position<K, V>(rows: Seq<(K, V)>, i: int)
    requires
        distinct_keys(rows),
        0 <= i < rows.len(),
    ensures
        has_key(rows, rows[i].0),
        position(rows, rows[i].0) == i,
        lookup(rows, rows[i].0) == Some(rows[i].1),
{
    let key = rows[i].0;
    let p = position(rows, key);
    assert(rows[p].0 == key);
    if p < i {
        assert(rows[p].0 != rows[i].0);
    } else if i < p {
        assert(rows[i].0 != rows[p].0);
    }
}

/// A write is read back under its key, leaves every other key as it was, and
/// keeps one row per key.
pub proof fn lemma_put<K, V>(rows: Seq<(K, V)>, key: K, value: V)
    requires
        distinct_keys(rows),
    ensures
        distinct_keys(put(rows, key, value)),
        lookup(put(rows, key, value), key) == Some(value),
        forall|other: K|
            other != key ==> #[trigger] lookup(put(rows, key, value), other) == lookup(rows, other),
{
    let after = put(rows, key, value);
    let at = if has_key(rows, key) {
        position(rows, key)
    } else {
        rows.len() as int
    };
    assert(after[at] == (key, value));
    assert forall|i: int, j: int| 0 <= i < j < after.len() implies (#[trigger] after[i]).0 != (
    #[trigger] after[j]).0 by {
        if i != at && j != at {
            assert(rows[i].0 != rows[j].0);
        } else if has_key(rows, key) {
            assert(rows[i].0 != rows[j].0);
        } else {
            assert(rows[i].0 != key);
        }
    }
    lemma_position(after, at);
    assert forall|other: K| other != key implies #[trigger] lookup(after, other) == lookup(
        rows,
        other,
    ) by {
        if has_key(rows, other) {
            let p = position(rows, other);
            assert(after[p] == rows[p]);
            lemma_position(after, p);
        } else if has_key(after, other) {
            let p = position(after, other);
            assert(after[p].0 == other);
            assert(rows[p].0 == other);
        }
    }
}

} // verus!

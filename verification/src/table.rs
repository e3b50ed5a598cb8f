//! Rows kept in a list and read as a mapping from key to value.
//!
//! Both the attributes of a payload and the users of the credential store
//! are held as lists whose keys are pairwise distinct. The functions here
//! say which mapping such a list stands for and how it changes when a row
//! is appended or replaced.

use vstd::prelude::*;

verus! {

/// The mapping that a list of rows stands for: a later row overrides an
/// earlier one with the same key.
pub open spec fn table<K, V>(rows: Seq<(K, V)>) -> Map<K, V>
    decreases rows.len(),
{
    if rows.len() == 0 {
        Map::empty()
    } else {
        table(rows.drop_last()).insert(rows.last().0, rows.last().1)
    }
}

/// No two rows share a key.
pub open spec fn distinct_keys<K, V>(rows: Seq<(K, V)>) -> bool {
    forall|i: int, j: int| 0 <= i < j < rows.len() ==> (#[trigger] rows[i]).0 != (#[trigger] rows[j]).0
}

/// A key is mapped exactly when some row carries it.
pub proof fn lemma_table_domain<K, V>(rows: Seq<(K, V)>, key: K)
    ensures
        table(rows).dom().contains(key) <==> exists|i: int|
            0 <= i < rows.len() && (#[trigger] rows[i]).0 == key,
    decreases rows.len(),
{
    if rows.len() > 0 {
        let front = rows.drop_last();
        lemma_table_domain(front, key);
        if table(rows).dom().contains(key) {
            if rows.last().0 == key {
                assert(rows[rows.len() - 1].0 == key);
            } else {
                let i = choose|i: int| 0 <= i < front.len() && (#[trigger] front[i]).0 == key;
                assert(rows[i].0 == key);
            }
        }
        if exists|i: int| 0 <= i < rows.len() && (#[trigger] rows[i]).0 == key {
            let i = choose|i: int| 0 <= i < rows.len() && (#[trigger] rows[i]).0 == key;
            if i < rows.len() - 1 {
                assert(front[i].0 == key);
            }
        }
    }
}

/// A key that no row carries is not mapped.
pub proof fn lemma_table_absent<K, V>(rows: Seq<(K, V)>, key: K)
    requires
        forall|i: int| 0 <= i < rows.len() ==> (#[trigger] rows[i]).0 != key,
    ensures
        !table(rows).dom().contains(key),
{
    lemma_table_domain(rows, key);
}

/// Where keys are distinct, the key of a row is mapped to the value of
/// that row.
pub proof fn lemma_table_value<K, V>(rows: Seq<(K, V)>, i: int)
    requires
        distinct_keys(rows),
        0 <= i < rows.len(),
    ensures
        table(rows).dom().contains(rows[i].0),
        table(rows)[rows[i].0] == rows[i].1,
    decreases rows.len(),
{
    let front = rows.drop_last();
    if i < rows.len() - 1 {
        assert(distinct_keys(front)) by {
            assert forall|a: int, b: int| 0 <= a < b < front.len() implies (#[trigger] front[a]).0
                != (#[trigger] front[b]).0 by {
                assert(rows[a].0 != rows[b].0);
            }
        }
        lemma_table_value(front, i);
        assert(front[i] == rows[i]);
        assert(rows[i].0 != rows[rows.len() - 1].0);
    }
}

/// Replacing the row at `i` by one with the same key keeps keys distinct
/// and changes the mapping at that key alone.
pub proof fn lemma_table_overwrite<K, V>(rows: Seq<(K, V)>, i: int, value: V)
    requires
        distinct_keys(rows),
        0 <= i < rows.len(),
    ensures
        distinct_keys(rows.update(i, (rows[i].0, value))),
        table(rows.update(i, (rows[i].0, value))) == table(rows).insert(rows[i].0, value),
{
    let key = rows[i].0;
    let after = rows.update(i, (key, value));
    assert(distinct_keys(after)) by {
        assert forall|a: int, b: int| 0 <= a < b < after.len() implies (#[trigger] after[a]).0 != (
        #[trigger] after[b]).0 by {
            assert(rows[a].0 != rows[b].0);
        }
    }
    let lhs = table(after);
    let rhs = table(rows).insert(key, value);
    assert forall|k: K|
        (#[trigger] lhs.dom().contains(k)) == rhs.dom().contains(k) && (lhs.dom().contains(k)
            ==> lhs[k] == rhs[k]) by {
        lemma_table_domain(after, k);
        lemma_table_domain(rows, k);
        lemma_table_value(after, i);
        if lhs.dom().contains(k) {
            let j = choose|j: int| 0 <= j < after.len() && (#[trigger] after[j]).0 == k;
            assert(rows[j].0 == k);
            lemma_table_value(after, j);
            lemma_table_value(rows, j);
        }
        if rhs.dom().contains(k) && k != key {
            let j = choose|j: int| 0 <= j < rows.len() && (#[trigger] rows[j]).0 == k;
            assert(after[j].0 == k);
        }
        if k == key {
            assert(after[i].0 == k);
        }
    }
    assert(lhs =~= rhs);
}

/// Appending a row whose key is new keeps keys distinct and adds that key
/// to the mapping.
pub proof fn lemma_table_append<K, V>(rows: Seq<(K, V)>, key: K, value: V)
    requires
        distinct_keys(rows),
        forall|i: int| 0 <= i < rows.len() ==> (#[trigger] rows[i]).0 != key,
    ensures
        distinct_keys(rows.push((key, value))),
        table(rows.push((key, value))) == table(rows).insert(key, value),
{
    let after = rows.push((key, value));
    assert(after.drop_last() == rows);
    assert forall|a: int, b: int| 0 <= a < b < after.len() implies (#[trigger] after[a]).0 != (
    #[trigger] after[b]).0 by {
        if b < rows.len() {
            assert(rows[a].0 != rows[b].0);
        } else {
            assert(rows[a].0 != key);
        }
    }
}

} // verus!

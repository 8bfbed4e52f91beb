//! Unique-keyed association lists.
//!
//! Both ledgers of this crate (share balances, user records) are stored as a
//! `Vec` of key/value pairs whose keys occur at most once.  This module gives
//! the spec-level reading of such a list — `lookup` — and the lemmas that say
//! how `lookup` and the value sum react to an update, an append, or a
//! removal.

use vstd::prelude::*;
use crate::account::Address;

verus! {

/// Every key occurs at most once in the list.
pub open spec fn keys_unique<V>(s: Seq<(Address, V)>) -> bool {
    forall|i: int, j: int|
        0 <= i < j < s.len() ==> (#[trigger] s[i]).0 != (#[trigger] s[j]).0
}

/// The value stored under `a`, if any.
pub open spec fn lookup<V>(s: Seq<(Address, V)>, a: Address) -> Option<V>
    decreases s.len(),
{
    if s.len() == 0 {
        None
    } else if s.last().0 == a {
        Some(s.last().1)
    } else {
        lookup(s.drop_last(), a)
    }
}

/// The sum of all stored values.
pub open spec fn sum_values(s: Seq<(Address, i128)>) -> int
    decreases s.len(),
{
    if s.len() == 0 {
        0
    } else {
        sum_values(s.drop_last()) + s.last().1
    }
}

/// A key that occurs at no index is absent from `lookup`.
pub proof fn lemma_lookup_absent<V>(s: Seq<(Address, V)>, a: Address)
    requires
        forall|i: int| 0 <= i < s.len() ==> (#[trigger] s[i]).0 != a,
    ensures
        lookup(s, a) is None,
    decreases s.len(),
{
    if s.len() > 0 {
        assert(forall|i: int|
            0 <= i < s.drop_last().len() ==> (#[trigger] s.drop_last()[i]).0 != a);
        lemma_lookup_absent(s.drop_last(), a);
    }
}

/// Dropping the last entry preserves key uniqueness.
pub proof fn lemma_unique_drop_last<V>(s: Seq<(Address, V)>)
    requires
        keys_unique(s),
        s.len() > 0,
    ensures
        keys_unique(s.drop_last()),
{
    assert forall|i: int, j: int|
        0 <= i < j < s.drop_last().len() implies (#[trigger] s.drop_last()[i]).0 != (
    #[trigger] s.drop_last()[j]).0 by {
        assert(s[i] == s.drop_last()[i]);
        assert(s[j] == s.drop_last()[j]);
    }
}

/// With unique keys, `lookup` returns exactly the entry at any index.
pub proof fn lemma_lookup_at_index<V>(s: Seq<(Address, V)>, i: int)
    requires
        keys_unique(s),
        0 <= i < s.len(),
    ensures
        lookup(s, s[i].0) == Some(s[i].1),
    decreases s.len(),
{
    if i < s.len() - 1 {
        lemma_unique_drop_last(s);
        assert(s.drop_last()[i] == s[i]);
        lemma_lookup_at_index(s.drop_last(), i);
    }
}

/// Overwriting the value at index `i` (same key) keeps the keys unique,
/// moves that key's `lookup` to the new value, and leaves every other key's
/// `lookup` unchanged.
pub proof fn lemma_lookup_update<V>(s: Seq<(Address, V)>, i: int, v: V, a: Address)
    requires
        keys_unique(s),
        0 <= i < s.len(),
    ensures
        keys_unique(s.update(i, (s[i].0, v))),
        lookup(s.update(i, (s[i].0, v)), a) == if a == s[i].0 {
            Some(v)
        } else {
            lookup(s, a)
        },
    decreases s.len(),
{
    let s2 = s.update(i, (s[i].0, v));
    assert forall|p: int, q: int|
        0 <= p < q < s2.len() implies (#[trigger] s2[p]).0 != (#[trigger] s2[q]).0 by {
        assert(s2[p].0 == s[p].0);
        assert(s2[q].0 == s[q].0);
    }
    if i == s.len() - 1 {
        assert(s2.drop_last() =~= s.drop_last());
    } else {
        lemma_unique_drop_last(s);
        assert(s.drop_last()[i] == s[i]);
        assert(s2.drop_last() =~= s.drop_last().update(i, (s[i].0, v)));
        lemma_lookup_update(s.drop_last(), i, v, a);
        assert(s2.last() == s.last());
    }
}

/// Appending an entry under a key not yet present keeps the keys unique,
/// makes that key's `lookup` the new value, and leaves every other key's
/// `lookup` unchanged.
pub proof fn lemma_lookup_push_fresh<V>(s: Seq<(Address, V)>, k: Address, v: V, a: Address)
    requires
        keys_unique(s),
        forall|i: int| 0 <= i < s.len() ==> (#[trigger] s[i]).0 != k,
    ensures
        keys_unique(s.push((k, v))),
        lookup(s.push((k, v)), a) == if a == k {
            Some(v)
        } else {
            lookup(s, a)
        },
{
    let s2 = s.push((k, v));
    assert forall|p: int, q: int|
        0 <= p < q < s2.len() implies (#[trigger] s2[p]).0 != (#[trigger] s2[q]).0 by {
        if q < s2.len() - 1 {
            assert(s2[p] == s[p]);
            assert(s2[q] == s[q]);
        } else {
            assert(s2[p] == s[p]);
            assert(s2[q] == (k, v));
        }
    }
    assert(s2.drop_last() =~= s);
}

/// Removing the entry at index `i` keeps the keys unique, makes that key's
/// `lookup` absent, and leaves every other key's `lookup` unchanged.
pub proof fn lemma_lookup_remove<V>(s: Seq<(Address, V)>, i: int, a: Address)
    requires
        keys_unique(s),
        0 <= i < s.len(),
    ensures
        keys_unique(s.remove(i)),
        lookup(s.remove(i), a) == if a == s[i].0 {
            None::<V>
        } else {
            lookup(s, a)
        },
    decreases s.len(),
{
    let s2 = s.remove(i);
    assert forall|p: int, q: int|
        0 <= p < q < s2.len() implies (#[trigger] s2[p]).0 != (#[trigger] s2[q]).0 by {
        let p0: int = if p < i { p } else { p + 1 };
        let q0: int = if q < i { q } else { q + 1 };
        assert(s2[p] == s[p0]);
        assert(s2[q] == s[q0]);
    }
    if i == s.len() - 1 {
        assert(s2 =~= s.drop_last());
        if a == s[i].0 {
            assert forall|j: int|
                0 <= j < s.drop_last().len() implies (#[trigger] s.drop_last()[j]).0 != a by {
                assert(s.drop_last()[j] == s[j]);
            }
            lemma_lookup_absent(s.drop_last(), a);
        }
    } else {
        lemma_unique_drop_last(s);
        assert(s.drop_last()[i] == s[i]);
        assert(s2.drop_last() =~= s.drop_last().remove(i));
        assert(s2.last() == s.last());
        lemma_lookup_remove(s.drop_last(), i, a);
    }
}

/// A list of nonnegative values has a nonnegative sum.
pub proof fn lemma_sum_nonneg(s: Seq<(Address, i128)>)
    requires
        forall|i: int| 0 <= i < s.len() ==> (#[trigger] s[i]).1 >= 0,
    ensures
        sum_values(s) >= 0,
    decreases s.len(),
{
    if s.len() > 0 {
        assert(forall|i: int|
            0 <= i < s.drop_last().len() ==> (#[trigger] s.drop_last()[i]).1 >= 0);
        lemma_sum_nonneg(s.drop_last());
    }
}

/// Overwriting the value at index `i` moves the sum by the difference.
pub proof fn lemma_sum_update(s: Seq<(Address, i128)>, i: int, v: i128)
    requires
        0 <= i < s.len(),
    ensures
        sum_values(s.update(i, (s[i].0, v))) == sum_values(s) - s[i].1 + v,
    decreases s.len(),
{
    let s2 = s.update(i, (s[i].0, v));
    if i == s.len() - 1 {
        assert(s2.drop_last() =~= s.drop_last());
    } else {
        assert(s2.drop_last() =~= s.drop_last().update(i, (s[i].0, v)));
        assert(s.drop_last()[i] == s[i]);
        lemma_sum_update(s.drop_last(), i, v);
        assert(s2.last() == s.last());
    }
}

/// Appending an entry adds its value to the sum.
pub proof fn lemma_sum_push(s: Seq<(Address, i128)>, k: Address, v: i128)
    ensures
        sum_values(s.push((k, v))) == sum_values(s) + v,
{
    assert(s.push((k, v)).drop_last() =~= s);
}

/// With nonnegative values, no single entry exceeds the sum.
pub proof fn lemma_lookup_le_sum(s: Seq<(Address, i128)>, a: Address, b: i128)
    requires
        forall|i: int| 0 <= i < s.len() ==> (#[trigger] s[i]).1 >= 0,
        lookup(s, a) == Some(b),
    ensures
        b <= sum_values(s),
    decreases s.len(),
{
    assert(forall|i: int|
        0 <= i < s.drop_last().len() ==> (#[trigger] s.drop_last()[i]).1 >= 0);
    if s.last().0 == a {
        lemma_sum_nonneg(s.drop_last());
    } else {
        lemma_lookup_le_sum(s.drop_last(), a, b);
    }
}

} // verus!

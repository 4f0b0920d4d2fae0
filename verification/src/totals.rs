//! The sum of the values of a finite map of balances, and how it changes when
//! one entry is written.

use vstd::prelude::*;

verus! {

/// The sum of all values held in `m`.
pub open spec fn total(m: Map<u64, u64>) -> int
    decreases m.dom().len(),
    when m.dom().finite()
{
    if m.dom().is_empty() {
        0
    } else {
        let k = m.dom().choose();
        m[k] + total(m.remove(k))
    }
}

/// The value held for `k`, zero where `m` has no entry for it.
pub open spec fn value_or_zero(m: Map<u64, u64>, k: u64) -> int {
    if m.contains_key(k) {
        m[k] as int
    } else {
        0
    }
}

/// The sum of an empty map is zero.
pub proof fn lemma_total_empty()
    ensures
        total(Map::<u64, u64>::empty()) == 0,
{
    assert(Map::<u64, u64>::empty().dom() =~= Set::<u64>::empty());
}

/// Taking one entry out lowers the sum by that entry's value.
pub proof fn lemma_total_remove(m: Map<u64, u64>, k: u64)
    requires
        m.dom().finite(),
        m.contains_key(k),
    ensures
        total(m) == m[k] + total(m.remove(k)),
    decreases m.dom().len(),
{
    let c = m.dom().choose();
    if c != k {
        lemma_total_remove(m.remove(c), k);
        assert(m.remove(c).remove(k) =~= m.remove(k).remove(c));
        lemma_total_remove(m.remove(k), c);
    }
}

/// Writing one entry changes the sum by the difference between the new value
/// and the value held before, an absent entry counting as zero.
pub proof fn lemma_total_insert(m: Map<u64, u64>, k: u64, v: u64)
    requires
        m.dom().finite(),
    ensures
        total(m.insert(k, v)) == total(m) - value_or_zero(m, k) + v,
{
    lemma_total_remove(m.insert(k, v), k);
    assert(m.insert(k, v).remove(k) =~= m.remove(k));
    if m.contains_key(k) {
        lemma_total_remove(m, k);
    } else {
        assert(m.remove(k) =~= m);
    }
}

} // verus!

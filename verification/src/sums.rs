//! Sums of the values of a finite map, for stating that a running total
//! agrees with the tallies it summarises.
use vstd::prelude::*;

verus! {

/// The step of a sum over the keys of `m`: adds the weight of `k`'s value.
pub open spec fn sum_step<K, V>(m: Map<K, V>, w: spec_fn(V) -> int) -> spec_fn(int, K) -> int {
    |acc: int, k: K| acc + w(m[k])
}

/// The sum of `w` over the values of `m`.
pub open spec fn map_sum<K, V>(m: Map<K, V>, w: spec_fn(V) -> int) -> int {
    m.dom().fold(0int, sum_step(m, w))
}

proof fn lemma_sum_step_commutative<K, V>(m: Map<K, V>, w: spec_fn(V) -> int)
    ensures
        vstd::set::fold::is_fun_commutative(sum_step(m, w)),
{
}

/// Folding two steps that agree on every key of `s` gives the same sum.
proof fn lemma_fold_agree<K, V>(s: Set<K>, m1: Map<K, V>, m2: Map<K, V>, w: spec_fn(V) -> int)
    requires
        s.finite(),
        forall|k: K| #[trigger] s.contains(k) ==> w(m1[k]) == w(m2[k]),
    ensures
        s.fold(0int, sum_step(m1, w)) == s.fold(0int, sum_step(m2, w)),
    decreases s.len(),
{
    lemma_sum_step_commutative(m1, w);
    lemma_sum_step_commutative(m2, w);
    if s.len() == 0 {
        assert(s =~= Set::<K>::empty());
        vstd::set::fold::lemma_fold_empty(0int, sum_step(m1, w));
        vstd::set::fold::lemma_fold_empty(0int, sum_step(m2, w));
    } else {
        let a = s.choose();
        let s0 = s.remove(a);
        assert(s0.insert(a) =~= s);
        lemma_fold_agree(s0, m1, m2, w);
        vstd::set::fold::lemma_fold_insert(s0, 0int, sum_step(m1, w), a);
        vstd::set::fold::lemma_fold_insert(s0, 0int, sum_step(m2, w), a);
    }
}

/// An empty map sums to zero.
pub proof fn lemma_map_sum_empty<K, V>(w: spec_fn(V) -> int)
    ensures
        map_sum(Map::<K, V>::empty(), w) == 0,
{
    assert(Map::<K, V>::empty().dom() =~= Set::<K>::empty());
    vstd::set::fold::lemma_fold_empty(0int, sum_step(Map::<K, V>::empty(), w));
}

/// Setting one key of a finite map changes its sum by the difference
/// between the new value's weight and the old one's (zero for a new key).
pub proof fn lemma_map_sum_insert<K, V>(m: Map<K, V>, k: K, v: V, w: spec_fn(V) -> int)
    requires
        m.dom().finite(),
    ensures
        map_sum(m.insert(k, v), w) == map_sum(m, w) - (if m.contains_key(k) {
            w(m[k])
        } else {
            0
        }) + w(v),
{
    let m2 = m.insert(k, v);
    lemma_sum_step_commutative(m, w);
    lemma_sum_step_commutative(m2, w);
    if m.contains_key(k) {
        let d0 = m.dom().remove(k);
        assert(d0.insert(k) =~= m.dom());
        assert(m2.dom() =~= m.dom());
        lemma_fold_agree(d0, m, m2, w);
        vstd::set::fold::lemma_fold_insert(d0, 0int, sum_step(m, w), k);
        vstd::set::fold::lemma_fold_insert(d0, 0int, sum_step(m2, w), k);
    } else {
        assert(m2.dom() =~= m.dom().insert(k));
        lemma_fold_agree(m.dom(), m, m2, w);
        vstd::set::fold::lemma_fold_insert(m.dom(), 0int, sum_step(m2, w), k);
    }
}

} // verus!

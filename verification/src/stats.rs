//! Order statistics and small tallies over integer samples.
//!
//! A sample's summary line is `min=.. p25=.. median=.. p75=.. max=.. mean=.. n=..`.
//! Every field but the mean is an integer read off the sorted sample; the mean
//! is a floating-point quotient, so its text is produced by the caller from the
//! sample's exact sum and size and spliced in unchanged.
use vstd::prelude::*;
use vstd::relations::{sorted_by, total_ordering};
use vstd::seq_lib::lemma_sorted_unique;
use crate::num::{decimal_text, push_decimal, push_int};

verus! {

/// `<=` on `u32`, as a relation.
pub open spec fn u32_le() -> spec_fn(u32, u32) -> bool {
    |a: u32, b: u32| a <= b
}

/// `<=` on `i32`, as a relation.
pub open spec fn i32_le() -> spec_fn(i32, i32) -> bool {
    |a: i32, b: i32| a <= b
}

/// The sample `s` in ascending order.
pub open spec fn sorted_u32(s: Seq<u32>) -> Seq<u32> {
    s.sort_by(u32_le())
}

/// The sample `s` in ascending order.
pub open spec fn sorted_i32(s: Seq<i32>) -> Seq<i32> {
    s.sort_by(i32_le())
}

/// Exchanging two positions keeps the multiset of elements.
proof fn lemma_swap_keeps_multiset<A>(s: Seq<A>, i: int, j: int)
    requires
        0 <= i < s.len(),
        0 <= j < s.len(),
    ensures
        s.update(i, s[j]).update(j, s[i]).to_multiset() == s.to_multiset(),
{
    broadcast use vstd::seq_lib::group_to_multiset_ensures;
    broadcast use vstd::multiset::group_multiset_axioms;

    if i == j {
        assert(s.update(i, s[j]).update(j, s[i]) =~= s);
    } else {
        let t = s.update(i, s[j]);
        assert(t[j] == s[j]);
        assert(t.to_multiset() == s.to_multiset().insert(s[j]).remove(s[i]));
        assert(t.update(j, s[i]).to_multiset() == t.to_multiset().insert(s[i]).remove(s[j]));
        assert(s.to_multiset().count(s[i]) > 0) by {
            assert(s.contains(s[i]));
        }
        assert(s.to_multiset().insert(s[j]).remove(s[i]).insert(s[i]).remove(s[j])
            =~= s.to_multiset());
    }
}

/// Sorts `v` ascending in place.
pub fn sort_u32(v: &mut Vec<u32>)
    ensures
        final(v)@ == sorted_u32(old(v)@),
        final(v)@.len() == old(v)@.len(),
{
    let ghost orig = v@;
    let n = v.len();
    let mut i: usize = 0;
    while i < n
        invariant
            n == v.len(),
            i <= n,
            v@.to_multiset() == orig.to_multiset(),
            forall|a: int, b: int| 0 <= a < b < i ==> v[a] <= v[b],
        decreases n - i,
    {
        let mut j: usize = i;
        while j > 0 && v[j - 1] > v[j]
            invariant
                n == v.len(),
                j <= i < n,
                v@.to_multiset() == orig.to_multiset(),
                forall|a: int, b: int| 0 <= a < b <= i && a != j && b != j ==> v[a] <= v[b],
                forall|b: int| j < b <= i ==> v[j as int] <= v[b],
            decreases j,
        {
            proof {
                lemma_swap_keeps_multiset(v@, j - 1, j as int);
            }
            let lo = v[j - 1];
            let hi = v[j];
            v.set(j - 1, hi);
            v.set(j, lo);
            j = j - 1;
        }
        assert forall|a: int, b: int| 0 <= a < b <= i implies v[a] <= v[b] by {
            if b == j && a < j - 1 {
                assert(v[a] <= v[j - 1]);
            }
        }
        i = i + 1;
    }
    proof {
        let leq = u32_le();
        assert(total_ordering(leq));
        assert(sorted_by(v@, leq));
        orig.lemma_sort_by_ensures(leq);
        lemma_sorted_unique(v@, orig.sort_by(leq), leq);
    }
}

/// Sorts `v` ascending in place.
pub fn sort_i32(v: &mut Vec<i32>)
    ensures
        final(v)@ == sorted_i32(old(v)@),
        final(v)@.len() == old(v)@.len(),
{
    let ghost orig = v@;
    let n = v.len();
    let mut i: usize = 0;
    while i < n
        invariant
            n == v.len(),
            i <= n,
            v@.to_multiset() == orig.to_multiset(),
            forall|a: int, b: int| 0 <= a < b < i ==> v[a] <= v[b],
        decreases n - i,
    {
        let mut j: usize = i;
        while j > 0 && v[j - 1] > v[j]
            invariant
                n == v.len(),
                j <= i < n,
                v@.to_multiset() == orig.to_multiset(),
                forall|a: int, b: int| 0 <= a < b <= i && a != j && b != j ==> v[a] <= v[b],
                forall|b: int| j < b <= i ==> v[j as int] <= v[b],
            decreases j,
        {
            proof {
                lemma_swap_keeps_multiset(v@, j - 1, j as int);
            }
            let lo = v[j - 1];
            let hi = v[j];
            v.set(j - 1, hi);
            v.set(j, lo);
            j = j - 1;
        }
        assert forall|a: int, b: int| 0 <= a < b <= i implies v[a] <= v[b] by {
            if b == j && a < j - 1 {
                assert(v[a] <= v[j - 1]);
            }
        }
        i = i + 1;
    }
    proof {
        let leq = i32_le();
        assert(total_ordering(leq));
        assert(sorted_by(v@, leq));
        orig.lemma_sort_by_ensures(leq);
        lemma_sorted_unique(v@, orig.sort_by(leq), leq);
    }
}


/// Sum of a sample.
pub open spec fn sum_u32(s: Seq<u32>) -> int
    decreases s.len(),
{
    if s.len() == 0 {
        0
    } else {
        sum_u32(s.drop_last()) + s.last()
    }
}

/// Sum of a sample.
pub open spec fn sum_i32(s: Seq<i32>) -> int
    decreases s.len(),
{
    if s.len() == 0 {
        0
    } else {
        sum_i32(s.drop_last()) + s.last()
    }
}

/// Position of the 25th percentile in a sorted sample whose last index is
/// `k`: `k * 0.25` rounded half away from zero.
pub open spec fn quarter_index(k: int) -> int {
    (k + 2) / 4
}

/// Position of the median in a sorted sample whose last index is `k`:
/// `k * 0.5` rounded half away from zero.
pub open spec fn half_index(k: int) -> int {
    (k + 1) / 2
}

/// Position of the 75th percentile in a sorted sample whose last index is
/// `k`: `k * 0.75` rounded half away from zero.
pub open spec fn three_quarter_index(k: int) -> int {
    (3 * k + 2) / 4
}

/// The integer fields of a sample's summary line, plus the exact sum and size
/// the mean is computed from.
pub struct Percentiles {
    pub min: i64,
    pub p25: i64,
    pub median: i64,
    pub p75: i64,
    pub max: i64,
    pub sum: i128,
    pub n: usize,
}

impl Percentiles {
    /// Whether these fields are read off the ascending sequence `s` with
    /// total `total`.
    pub open spec fn describes(self, s: Seq<int>, total: int) -> bool {
        let k = s.len() - 1;
        &&& s.len() > 0
        &&& self.n == s.len()
        &&& self.min == s[0]
        &&& self.p25 == s[quarter_index(k)]
        &&& self.median == s[half_index(k)]
        &&& self.p75 == s[three_quarter_index(k)]
        &&& self.max == s[k]
        &&& self.sum == total
    }
}

/// `s` read as integers.
pub open spec fn ints_u32(s: Seq<u32>) -> Seq<int> {
    s.map_values(|x: u32| x as int)
}

/// `s` read as integers.
pub open spec fn ints_i32(s: Seq<i32>) -> Seq<int> {
    s.map_values(|x: i32| x as int)
}

/// The percentile positions of a sample whose last index is `k` come in
/// order and stay inside it.
proof fn lemma_positions_ordered(k: int)
    requires
        k >= 0,
    ensures
        0 <= quarter_index(k) <= half_index(k) <= three_quarter_index(k) <= k,
{
}

/// The summary of any non-empty sample reads in ascending order:
/// min <= p25 <= median <= p75 <= max.
pub proof fn lemma_percentiles_are_ordered(v: Seq<u32>, p: Percentiles, total: int)
    requires
        p.describes(ints_u32(sorted_u32(v)), total),
    ensures
        p.min <= p.p25 <= p.median <= p.p75 <= p.max,
{
    let leq = u32_le();
    assert(total_ordering(leq));
    v.lemma_sort_by_ensures(leq);
    let s = sorted_u32(v);
    let k = s.len() - 1;
    lemma_positions_ordered(k);
    let (a, b, c) = (quarter_index(k), half_index(k), three_quarter_index(k));
    assert(ints_u32(s).len() == s.len());
    if 0 < a {
        assert(leq(s[0], s[a]));
    }
    if a < b {
        assert(leq(s[a], s[b]));
    }
    if b < c {
        assert(leq(s[b], s[c]));
    }
    if c < k {
        assert(leq(s[c], s[k]));
    }
}

/// Dropping position `j` takes that element out of the sum.
proof fn lemma_sum_u32_remove(s: Seq<u32>, j: int)
    requires
        0 <= j < s.len(),
    ensures
        sum_u32(s) == sum_u32(s.remove(j)) + s[j],
    decreases s.len(),
{
    if j == s.len() - 1 {
        assert(s.remove(j) =~= s.drop_last());
    } else {
        lemma_sum_u32_remove(s.drop_last(), j);
        assert(s.remove(j).drop_last() =~= s.drop_last().remove(j));
        assert(s.remove(j).last() == s.last());
    }
}

/// Two samples holding the same values the same number of times have the
/// same sum.
proof fn lemma_sum_u32_of_permutation(v: Seq<u32>, w: Seq<u32>)
    requires
        v.to_multiset() == w.to_multiset(),
    ensures
        sum_u32(v) == sum_u32(w),
    decreases v.len(),
{
    broadcast use vstd::seq_lib::group_to_multiset_ensures;
    broadcast use vstd::multiset::group_multiset_axioms;

    if v.len() == 0 {
        vstd::seq_lib::to_multiset_len(v);
        vstd::seq_lib::to_multiset_len(w);
    } else {
        let x = v.last();
        assert(v.contains(x)) by {
            assert(v[v.len() - 1] == x);
        }
        assert(w.to_multiset().count(x) > 0);
        assert(w.contains(x));
        let j = choose|j: int| 0 <= j < w.len() && w[j] == x;
        assert(v.remove(v.len() - 1) =~= v.drop_last());
        assert(v.drop_last().to_multiset() == v.to_multiset().remove(x));
        assert(w.remove(j).to_multiset() == w.to_multiset().remove(x));
        lemma_sum_u32_of_permutation(v.drop_last(), w.remove(j));
        lemma_sum_u32_remove(w, j);
    }
}

/// A sample's summary depends only on which values it holds and how often,
/// not on their order: two samples that are permutations of each other sort
/// to the same sequence and have the same sum, so any summary that describes
/// one describes the other.
pub proof fn lemma_percentiles_ignore_order(v: Seq<u32>, w: Seq<u32>, p: Percentiles, total: int)
    requires
        v.to_multiset() == w.to_multiset(),
    ensures
        sorted_u32(v) == sorted_u32(w),
        sum_u32(v) == sum_u32(w),
        p.describes(ints_u32(sorted_u32(v)), sum_u32(v)) == p.describes(
            ints_u32(sorted_u32(w)),
            sum_u32(w),
        ),
{
    let leq = u32_le();
    assert(total_ordering(leq));
    v.lemma_sort_by_ensures(leq);
    w.lemma_sort_by_ensures(leq);
    lemma_sorted_unique(sorted_u32(v), sorted_u32(w), leq);
    lemma_sum_u32_of_permutation(v, w);
}

/// The three percentile positions of a sample of `n >= 1` elements, computed
/// without overflow.
fn percentile_positions(n: usize) -> (r: (usize, usize, usize))
    requires
        n >= 1,
    ensures
        r.0 == quarter_index(n - 1),
        r.1 == half_index(n - 1),
        r.2 == three_quarter_index(n - 1),
        r.0 < n,
        r.1 < n,
        r.2 < n,
{
    let k = (n - 1) as u128;
    let q = ((k + 2) / 4) as usize;
    let h = ((k + 1) / 2) as usize;
    let t = ((3 * k + 2) / 4) as usize;
    (q, h, t)
}

/// Exact sum of a sample.
fn total_u32(v: &Vec<u32>) -> (t: i128)
    ensures
        t == sum_u32(v@),
{
    let mut t: i128 = 0;
    let mut i: usize = 0;
    while i < v.len()
        invariant
            i <= v.len(),
            t == sum_u32(v@.take(i as int)),
            0 <= t <= i * 4294967295,
        decreases v.len() - i,
    {
        assert(v@.take(i + 1).drop_last() == v@.take(i as int));
        t = t + v[i] as i128;
        i = i + 1;
    }
    assert(v@.take(v.len() as int) == v@);
    t
}

/// Exact sum of a sample.
fn total_i32(v: &[i32]) -> (t: i128)
    ensures
        t == sum_i32(v@),
{
    let mut t: i128 = 0;
    let mut i: usize = 0;
    while i < v.len()
        invariant
            i <= v.len(),
            t == sum_i32(v@.take(i as int)),
            -(i * 2147483648) <= t <= i * 2147483648,
        decreases v.len() - i,
    {
        assert(v@.take(i + 1).drop_last() == v@.take(i as int));
        t = t + v[i] as i128;
        i = i + 1;
    }
    assert(v@.take(v.len() as int) == v@);
    t
}

/// min/p25/median/p75/max of `v`, with its sum and size; `None` for an empty
/// sample. Percentile `p` is the element at position `round((n - 1) * p)`
/// of the sorted sample, rounding half away from zero.
pub fn percentiles_u32(v: Vec<u32>) -> (r: Option<Percentiles>)
    ensures
        r is None <==> v@.len() == 0,
        r matches Some(p) ==> p.describes(ints_u32(sorted_u32(v@)), sum_u32(v@)),
{
    if v.len() == 0 {
        return None;
    }
    let total = total_u32(&v);
    let mut s = v;
    sort_u32(&mut s);
    let n = s.len();
    let (q, h, t) = percentile_positions(n);
    Some(Percentiles {
        min: s[0] as i64,
        p25: s[q] as i64,
        median: s[h] as i64,
        p75: s[t] as i64,
        max: s[n - 1] as i64,
        sum: total,
        n,
    })
}

/// min/p25/median/p75/max, sum and size of a non-empty sample that the
/// caller has already sorted: each field is read at its position.
pub fn percentile_summary(sorted: &[i32]) -> (p: Percentiles)
    requires
        sorted@.len() > 0,
    ensures
        p.describes(ints_i32(sorted@), sum_i32(sorted@)),
{
    let n = sorted.len();
    let (q, h, t) = percentile_positions(n);
    Percentiles {
        min: sorted[0] as i64,
        p25: sorted[q] as i64,
        median: sorted[h] as i64,
        p75: sorted[t] as i64,
        max: sorted[n - 1] as i64,
        sum: total_i32(sorted),
        n,
    }
}

/// The summary line of `p`, with `mean` as the mean's text.
pub open spec fn summary_line(p: Percentiles, mean: Seq<char>) -> Seq<char> {
    "min="@ + decimal_text(p.min as int) + " p25="@ + decimal_text(p.p25 as int) + " median="@
        + decimal_text(p.median as int) + " p75="@ + decimal_text(p.p75 as int) + " max="@
        + decimal_text(p.max as int) + " mean="@ + mean + " n="@ + decimal_text(p.n as int)
}

/// What a summary says of an empty sample.
pub open spec fn no_samples_line() -> Seq<char> {
    "n/a (no samples)"@
}

/// Appends `label` and then `v` in decimal.
fn push_labelled(out: &mut String, label: &str, v: i64)
    ensures
        final(out)@ == old(out)@ + label@ + decimal_text(v as int),
{
    out.append(label);
    push_int(out, v);
}

impl Percentiles {
    /// The summary line, with `mean_text` as the mean's text.
    pub fn line(&self, mean_text: &str) -> (out: String)
        ensures
            out@ == summary_line(*self, mean_text@),
    {
        let mut out = String::new();
        push_labelled(&mut out, "min=", self.min);
        push_labelled(&mut out, " p25=", self.p25);
        push_labelled(&mut out, " median=", self.median);
        push_labelled(&mut out, " p75=", self.p75);
        push_labelled(&mut out, " max=", self.max);
        out.append(" mean=");
        out.append(mean_text);
        out.append(" n=");
        push_decimal(&mut out, self.n as u64);
        proof {
            assert(decimal_text(self.n as int) == crate::num::decimal_digits(self.n as nat));
            assert(out@ == summary_line(*self, mean_text@));
        }
        out
    }
}

/// The summary line of a possibly empty sample: `n/a (no samples)` when
/// there is nothing to summarise.
pub fn percentiles_line(p: &Option<Percentiles>, mean_text: &str) -> (out: String)
    ensures
        out@ == match *p {
            None => no_samples_line(),
            Some(q) => summary_line(q, mean_text@),
        },
{
    match p {
        None => String::from_str("n/a (no samples)"),
        Some(q) => q.line(mean_text),
    }
}

/// Median, sum and size of a sample.
pub struct MedianMean {
    pub median: i64,
    pub sum: i128,
    pub n: usize,
}

/// The median of `v` (the lower middle element of the sorted sample when
/// its size is even), with its sum and size; `None` for an empty sample.
pub fn median_mean(v: &[i32]) -> (r: Option<MedianMean>)
    ensures
        r is None <==> v@.len() == 0,
        r matches Some(m) ==> {
            &&& m.n == v@.len()
            &&& m.median == sorted_i32(v@)[(v@.len() - 1) / 2]
            &&& m.sum == sum_i32(v@)
        },
{
    if v.len() == 0 {
        return None;
    }
    let total = total_i32(v);
    let mut s = vstd::slice::slice_to_vec(v);
    sort_i32(&mut s);
    let n = s.len();
    Some(MedianMean { median: s[(n - 1) / 2] as i64, sum: total, n })
}

/// The line for a median/mean pair, with `mean` as the mean's text.
pub open spec fn median_mean_line(m: MedianMean, mean: Seq<char>) -> Seq<char> {
    "median="@ + decimal_text(m.median as int) + " mean="@ + mean + " n="@ + decimal_text(m.n as int)
}

/// What a median/mean line says of an empty sample.
pub open spec fn empty_median_mean_line() -> Seq<char> {
    "n/a (n=0)"@
}

/// The median/mean line of a possibly empty sample: `n/a (n=0)` when there is
/// nothing to summarise.
pub fn median_mean_text(m: &Option<MedianMean>, mean_text: &str) -> (out: String)
    ensures
        out@ == match *m {
            None => empty_median_mean_line(),
            Some(x) => median_mean_line(x, mean_text@),
        },
{
    match m {
        None => String::from_str("n/a (n=0)"),
        Some(x) => {
            let mut out = String::new();
            push_labelled(&mut out, "median=", x.median);
            out.append(" mean=");
            out.append(mean_text);
            out.append(" n=");
            push_decimal(&mut out, x.n as u64);
            proof {
                assert(decimal_text(x.n as int) == crate::num::decimal_digits(x.n as nat));
            }
            out
        },
    }
}

} // verus!

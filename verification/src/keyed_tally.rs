//! Counts kept under text keys, each with the first example seen for it.
use vstd::prelude::*;
use crate::text::str_eq;

verus! {

broadcast use vstd::string::group_string_axioms;

/// One key's count, the sum of the amounts recorded under it, and the
/// example recorded with its first occurrence.
pub struct EntryView {
    pub key: Seq<char>,
    pub count: int,
    pub sum: int,
    pub example: Seq<char>,
}

/// The first position at or after `i` whose key is `key`, or -1.
pub open spec fn first_pos(s: Seq<EntryView>, key: Seq<char>, i: int) -> int
    decreases s.len() - i,
{
    if i < 0 || i >= s.len() {
        -1
    } else if s[i].key == key {
        i
    } else {
        first_pos(s, key, i + 1)
    }
}

/// The entries after recording one occurrence of `key` carrying `amount`,
/// with `example` kept only if the key is new.
pub open spec fn recorded(s: Seq<EntryView>, key: Seq<char>, amount: int, example: Seq<char>) -> Seq<
    EntryView,
> {
    let p = first_pos(s, key, 0);
    if p < 0 {
        s.push(EntryView { key, count: 1, sum: amount, example })
    } else {
        s.update(p, EntryView { count: s[p].count + 1, sum: s[p].sum + amount, ..s[p] })
    }
}

/// The sum of the counts of `s`.
pub open spec fn total_count(s: Seq<EntryView>) -> int
    decreases s.len(),
{
    if s.len() == 0 {
        0
    } else {
        total_count(s.drop_last()) + s.last().count
    }
}

/// No key occurs twice.
pub open spec fn keys_distinct(s: Seq<EntryView>) -> bool {
    forall|i: int, j: int| 0 <= i < j < s.len() ==> s[i].key != s[j].key
}

/// Counts under text keys, in the order the keys were first seen.
pub struct KeyedTally {
    keys: Vec<String>,
    counts: Vec<u64>,
    sums: Vec<u64>,
    examples: Vec<String>,
}

impl KeyedTally {
    /// The entries, in the order their keys were first seen.
    pub closed spec fn view(&self) -> Seq<EntryView> {
        Seq::new(
            self.keys@.len(),
            |i: int|
                EntryView {
                    key: self.keys@[i]@,
                    count: self.counts@[i] as int,
                    sum: self.sums@[i] as int,
                    example: self.examples@[i]@,
                },
        )
    }

    /// The four columns have one row per key, and no key occurs twice.
    pub closed spec fn wf(&self) -> bool {
        &&& self.counts@.len() == self.keys@.len()
        &&& self.sums@.len() == self.keys@.len()
        &&& self.examples@.len() == self.keys@.len()
        &&& keys_distinct(self.view())
    }

    /// No counts yet.
    pub fn new() -> (t: KeyedTally)
        ensures
            t.wf(),
            t@ == Seq::<EntryView>::empty(),
    {
        let t = KeyedTally { keys: Vec::new(), counts: Vec::new(), sums: Vec::new(), examples: Vec::new() };
        assert(t@ =~= Seq::<EntryView>::empty());
        t
    }

    /// The number of keys.
    pub fn len(&self) -> (n: usize)
        requires
            self.wf(),
        ensures
            n == self@.len(),
    {
        self.keys.len()
    }

    /// The entry at position `i`: its key, count, sum and example.
    pub fn entry(&self, i: usize) -> (r: (&str, u64, u64, &str))
        requires
            self.wf(),
            i < self@.len(),
        ensures
            r.0@ == self@[i as int].key,
            r.1 == self@[i as int].count,
            r.2 == self@[i as int].sum,
            r.3@ == self@[i as int].example,
    {
        (self.keys[i].as_str(), self.counts[i], self.sums[i], self.examples[i].as_str())
    }

    /// Records one occurrence of `key` carrying `amount`. A new key starts at
    /// a count of one with `example`; a key already seen keeps the example
    /// it was first recorded with.
    pub fn record(&mut self, key: &str, amount: u64, example: &str)
        requires
            old(self).wf(),
            forall|i: int|
                0 <= i < old(self)@.len() && old(self)@[i].key == key@ ==> old(self)@[i].count
                    < u64::MAX && old(self)@[i].sum + amount <= u64::MAX,
        ensures
            final(self).wf(),
            final(self)@ == recorded(old(self)@, key@, amount as int, example@),
            total_count(final(self)@) == total_count(old(self)@) + 1,
    {
        let ghost before = self@;
        let n = self.keys.len();
        let mut i: usize = 0;
        while i < n
            invariant
                self.wf(),
                self@ == before,
                before == old(self)@,
                n == self@.len(),
                i <= n,
                first_pos(before, key@, i as int) == first_pos(before, key@, 0),
                forall|j: int|
                    0 <= j < before.len() && before[j].key == key@ ==> before[j].count < u64::MAX
                        && before[j].sum + amount <= u64::MAX,
            decreases n - i,
        {
            if str_eq(self.keys[i].as_str(), key) {
                assert(before[i as int].key == key@);
                assert(first_pos(before, key@, 0) == i);
                let c = self.counts[i];
                let s = self.sums[i];
                self.counts.set(i, c + 1);
                self.sums.set(i, s + amount);
                proof {
                    assert(self@ =~= recorded(before, key@, amount as int, example@));
                    lemma_total_count_update(
                        before,
                        i as int,
                        EntryView {
                            count: before[i as int].count + 1,
                            sum: before[i as int].sum + amount,
                            ..before[i as int]
                        },
                    );
                }
                return;
            }
            i = i + 1;
        }
        assert(first_pos(before, key@, 0) == -1);
        self.keys.push(String::from_str(key));
        self.counts.push(1);
        self.sums.push(amount);
        self.examples.push(String::from_str(example));
        proof {
            assert(self@ =~= recorded(before, key@, amount as int, example@));
            assert(self@.drop_last() =~= before);
            assert forall|a: int, b: int| 0 <= a < b < self@.len() implies self@[a].key
                != self@[b].key by {
                if b == self@.len() - 1 {
                    lemma_no_key_before(before, key@, 0, a);
                }
            }
        }
    }
}

/// `r` lists every position of `s` once, from the largest count down;
/// among equal counts the key seen first comes first.
pub open spec fn is_ranking(s: Seq<EntryView>, r: Seq<usize>) -> bool {
    &&& r.len() == s.len()
    &&& forall|q: int| 0 <= q < r.len() ==> (#[trigger] r[q]) < s.len()
    &&& forall|q1: int, q2: int| 0 <= q1 < q2 < r.len() ==> r[q1] != r[q2]
    &&& forall|q1: int, q2: int|
        0 <= q1 < q2 < r.len() ==> s[r[q1] as int].count > s[r[q2] as int].count || (s[r[q1] as int].count
            == s[r[q2] as int].count && r[q1] < r[q2])
}

impl KeyedTally {
    /// The positions of the entries, ranked by count, largest first; ties
    /// keep the order in which their keys were first seen.
    pub fn ranked(&self) -> (r: Vec<usize>)
        requires
            self.wf(),
        ensures
            is_ranking(self@, r@),
    {
        let n = self.keys.len();
        let ghost s = self@;
        let mut r: Vec<usize> = Vec::new();
        let mut k: usize = 0;
        while k < n
            invariant
                self.wf(),
                s == self@,
                n == s.len(),
                n == self.counts@.len(),
                k <= n,
                r@.len() == k,
                forall|q: int| 0 <= q < r@.len() ==> (#[trigger] r@[q]) < k,
                forall|q1: int, q2: int| 0 <= q1 < q2 < r@.len() ==> r@[q1] != r@[q2],
                forall|q1: int, q2: int|
                    0 <= q1 < q2 < r@.len() ==> s[r@[q1] as int].count > s[r@[q2] as int].count
                        || (s[r@[q1] as int].count == s[r@[q2] as int].count && r@[q1] < r@[q2]),
            decreases n - k,
        {
            let c = self.counts[k];
            assert(c == s[k as int].count);
            let mut p: usize = 0;
            while p < r.len() && self.counts[r[p]] >= c
                invariant
                    self.wf(),
                    s == self@,
                    n == self.counts@.len(),
                    k < n,
                    c == s[k as int].count,
                    p <= r@.len(),
                    forall|q: int| 0 <= q < r@.len() ==> (#[trigger] r@[q]) < k,
                    forall|q: int| 0 <= q < p ==> s[(#[trigger] r@[q]) as int].count >= c,
                decreases r@.len() - p,
            {
                p = p + 1;
            }
            let ghost old_r = r@;
            proof {
                if p < old_r.len() {
                    assert(s[old_r[p as int] as int].count < c);
                }
            }
            r.insert(p, k);
            proof {
                assert(r@ =~= old_r.insert(p as int, k));
                assert forall|q1: int, q2: int| 0 <= q1 < q2 < r@.len() implies s[r@[q1] as int].count
                    > s[r@[q2] as int].count || (s[r@[q1] as int].count == s[r@[q2] as int].count
                    && r@[q1] < r@[q2]) by {
                    if q1 < p && q2 == p {
                        assert(s[old_r[q1] as int].count >= c);
                    } else if q1 == p && q2 > p {
                        assert(s[old_r[p as int] as int].count < c);
                        assert(s[old_r[q2 - 1] as int].count <= s[old_r[p as int] as int].count
                            || q2 - 1 == p);
                    }
                }
                assert forall|q: int| 0 <= q < r@.len() implies (#[trigger] r@[q]) < k + 1 by {
                    if q < p {
                        assert(r@[q] == old_r[q]);
                    } else if q > p {
                        assert(r@[q] == old_r[q - 1]);
                    }
                }
                assert forall|q1: int, q2: int| 0 <= q1 < q2 < r@.len() implies r@[q1] != r@[q2] by {
                    if q1 != p && q2 != p {
                        let o1 = if q1 < p { q1 } else { q1 - 1 };
                        let o2 = if q2 < p { q2 } else { q2 - 1 };
                        assert(r@[q1] == old_r[o1] && r@[q2] == old_r[o2]);
                    } else if q1 == p {
                        assert(old_r[q2 - 1] < k);
                    } else {
                        let o1 = if q1 < p { q1 } else { q1 - 1 };
                        assert(old_r[o1] < k);
                    }
                }
            }
            k = k + 1;
        }
        r
    }
}

/// When no key at or after `i` is `key`, position `a >= i` holds another.
proof fn lemma_no_key_before(s: Seq<EntryView>, key: Seq<char>, i: int, a: int)
    requires
        0 <= i <= a < s.len(),
        first_pos(s, key, i) == -1,
    ensures
        s[a].key != key,
    decreases a - i,
{
    if i < a {
        lemma_no_key_before(s, key, i + 1, a);
    }
}

/// Replacing one entry changes the total count by the difference of the two
/// entries' counts.
proof fn lemma_total_count_update(s: Seq<EntryView>, p: int, e: EntryView)
    requires
        0 <= p < s.len(),
    ensures
        total_count(s.update(p, e)) == total_count(s) - s[p].count + e.count,
    decreases s.len(),
{
    let t = s.update(p, e);
    if p < s.len() - 1 {
        assert(t.drop_last() =~= s.drop_last().update(p, e));
        lemma_total_count_update(s.drop_last(), p, e);
    } else {
        assert(t.drop_last() =~= s.drop_last());
    }
}

/// Every count can take `n` more, and every sum `amount` more, within `u64`.
pub open spec fn room(s: Seq<EntryView>, n: int, amount: int) -> bool {
    forall|i: int| 0 <= i < s.len() ==> s[i].count + n <= u64::MAX && s[i].sum + amount <= u64::MAX
}

/// Recording one occurrence carrying nothing uses up one of the counts'
/// room.
pub proof fn lemma_recorded_room(s: Seq<EntryView>, key: Seq<char>, example: Seq<char>, n: int)
    requires
        n >= 0,
        n + 1 <= u64::MAX,
        room(s, n + 1, 0),
    ensures
        room(recorded(s, key, 0, example), n, 0),
{
    let p = first_pos(s, key, 0);
    lemma_first_pos_range(s, key, 0);
    let t = recorded(s, key, 0, example);
    assert forall|i: int| 0 <= i < t.len() implies t[i].count + n <= u64::MAX && t[i].sum + 0
        <= u64::MAX by {
        if p < 0 {
            if i < s.len() {
                assert(t[i] == s[i]);
            }
        } else if i != p {
            assert(t[i] == s[i]);
        }
    }
}

/// A found position lies inside the entries and holds the key.
pub proof fn lemma_first_pos_range(s: Seq<EntryView>, key: Seq<char>, i: int)
    ensures
        first_pos(s, key, i) == -1 || (i <= first_pos(s, key, i) < s.len() && s[first_pos(
            s,
            key,
            i,
        )].key == key),
    decreases s.len() - i,
{
    if 0 <= i < s.len() && s[i].key != key {
        lemma_first_pos_range(s, key, i + 1);
    }
}

} // verus!

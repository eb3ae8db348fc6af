//! Tallies of the Mine-take and Farm-build probe: sensitivity sweeps, key
//! adoption and deletion outcomes, and why a Farm build was not legal.
use std::collections::HashMap;
use vstd::prelude::*;
use crate::opener::trade_fill;
use crate::sums::{lemma_map_sum_empty, lemma_map_sum_insert, map_sum};

verus! {

broadcast use vstd::std_specs::hash::group_hash_axioms;

/// Number of weight keys the sensitivity sweep perturbs.
pub const SENS_KEYS: usize = 18;

/// Number of multipliers the sensitivity sweep tries per key.
pub const SWEEP_STEPS: usize = 24;

/// Outcome counts of one sweep cell: decision points measured, how many
/// reach rank 1, how many reach rank 1 or 2.
pub type Cell = (u64, u64, u64);

/// The cell-wise sum of two cells.
pub open spec fn cell_add(a: Cell, b: Cell) -> (int, int, int) {
    (a.0 + b.0, a.1 + b.1, a.2 + b.2)
}

/// Whether two cells can be added without overflow.
pub open spec fn cell_fits(a: Cell, b: Cell) -> bool {
    a.0 + b.0 <= u64::MAX && a.1 + b.1 <= u64::MAX && a.2 + b.2 <= u64::MAX
}

/// The rows of a grid, as sequences.
pub open spec fn grid(v: Seq<Vec<Cell>>) -> Seq<Seq<Cell>> {
    v.map_values(|r: Vec<Cell>| r@)
}

/// Per-key, per-multiplier outcome counts of the sensitivity sweep, and the
/// counts for the block of clamped keys zeroed all at once.
pub struct SensStats {
    pub per_key: Vec<Vec<Cell>>,
    pub joint_clamp: Cell,
}

/// A vector of `n` zero cells.
fn zero_cells(n: usize) -> (v: Vec<Cell>)
    ensures
        v@.len() == n,
        forall|i: int| 0 <= i < n ==> #[trigger] v@[i] == (0u64, 0u64, 0u64),
{
    let mut v: Vec<Cell> = Vec::new();
    let mut i: usize = 0;
    while i < n
        invariant
            i <= n,
            v@.len() == i,
            forall|j: int| 0 <= j < i ==> #[trigger] v@[j] == (0u64, 0u64, 0u64),
        decreases n - i,
    {
        v.push((0, 0, 0));
        i = i + 1;
    }
    v
}

/// The sum of two cells that fit.
fn add_cells(a: Cell, b: Cell) -> (c: Cell)
    requires
        cell_fits(a, b),
    ensures
        (c.0 as int, c.1 as int, c.2 as int) == cell_add(a, b),
{
    (a.0 + b.0, a.1 + b.1, a.2 + b.2)
}

impl SensStats {
    /// All counts zero, one row per swept key and one cell per multiplier.
    pub fn new() -> (s: SensStats)
        ensures
            s.per_key@.len() == SENS_KEYS,
            forall|k: int| 0 <= k < SENS_KEYS ==> (#[trigger] s.per_key@[k])@.len() == SWEEP_STEPS,
            forall|k: int, m: int|
                0 <= k < SENS_KEYS && 0 <= m < SWEEP_STEPS ==> #[trigger] s.per_key@[k]@[m] == (
                    0u64,
                    0u64,
                    0u64,
                ),
            s.joint_clamp == (0u64, 0u64, 0u64),
    {
        let mut rows: Vec<Vec<Cell>> = Vec::new();
        let mut k: usize = 0;
        while k < SENS_KEYS
            invariant
                k <= SENS_KEYS,
                rows@.len() == k,
                forall|j: int| 0 <= j < k ==> (#[trigger] rows@[j])@.len() == SWEEP_STEPS,
                forall|j: int, m: int|
                    0 <= j < k && 0 <= m < SWEEP_STEPS ==> #[trigger] rows@[j]@[m] == (
                        0u64,
                        0u64,
                        0u64,
                    ),
            decreases SENS_KEYS - k,
        {
            rows.push(zero_cells(SWEEP_STEPS));
            k = k + 1;
        }
        SensStats { per_key: rows, joint_clamp: (0, 0, 0) }
    }

    /// Whether `other` covers every cell of `self` and every sum fits.
    pub open spec fn can_merge(&self, other: &SensStats) -> bool {
        &&& other.per_key@.len() >= self.per_key@.len()
        &&& forall|k: int|
            0 <= k < self.per_key@.len() ==> (#[trigger] other.per_key@[k])@.len()
                >= self.per_key@[k]@.len()
        &&& forall|k: int, m: int|
            0 <= k < self.per_key@.len() && 0 <= m < self.per_key@[k]@.len() ==> cell_fits(
                #[trigger] self.per_key@[k]@[m],
                other.per_key@[k]@[m],
            )
        &&& cell_fits(self.joint_clamp, other.joint_clamp)
    }

    /// Adds `other`'s counts into `self`, cell by cell.
    pub fn merge(&mut self, other: &SensStats)
        requires
            old(self).can_merge(other),
        ensures
            final(self).per_key@.len() == old(self).per_key@.len(),
            forall|k: int|
                0 <= k < old(self).per_key@.len() ==> (#[trigger] final(self).per_key@[k])@.len()
                    == old(self).per_key@[k]@.len(),
            forall|k: int, m: int|
                0 <= k < old(self).per_key@.len() && 0 <= m < old(self).per_key@[k]@.len() ==> {
                    let c = #[trigger] final(self).per_key@[k]@[m];
                    (c.0 as int, c.1 as int, c.2 as int) == cell_add(
                        old(self).per_key@[k]@[m],
                        other.per_key@[k]@[m],
                    )
                },
            final(self).joint_clamp.0 == old(self).joint_clamp.0 + other.joint_clamp.0,
            final(self).joint_clamp.1 == old(self).joint_clamp.1 + other.joint_clamp.1,
            final(self).joint_clamp.2 == old(self).joint_clamp.2 + other.joint_clamp.2,
    {
        let n = self.per_key.len();
        let mut rows: Vec<Vec<Cell>> = Vec::new();
        let mut k: usize = 0;
        while k < n
            invariant
                n == self.per_key@.len(),
                self.can_merge(other),
                k <= n,
                rows@.len() == k,
                forall|j: int| 0 <= j < k ==> (#[trigger] rows@[j])@.len() == self.per_key@[j]@.len(),
                forall|j: int, m: int|
                    0 <= j < k && 0 <= m < self.per_key@[j]@.len() ==> {
                        let c = #[trigger] rows@[j]@[m];
                        (c.0 as int, c.1 as int, c.2 as int) == cell_add(
                            self.per_key@[j]@[m],
                            other.per_key@[j]@[m],
                        )
                    },
            decreases n - k,
        {
            let mine = &self.per_key[k];
            let theirs = &other.per_key[k];
            let w = mine.len();
            let mut row: Vec<Cell> = Vec::new();
            let mut m: usize = 0;
            while m < w
                invariant
                    w == mine@.len(),
                    mine@ == self.per_key@[k as int]@,
                    theirs@ == other.per_key@[k as int]@,
                    theirs@.len() >= w,
                    forall|x: int| 0 <= x < w ==> cell_fits(#[trigger] mine@[x], theirs@[x]),
                    m <= w,
                    row@.len() == m,
                    forall|x: int|
                        0 <= x < m ==> {
                            let c = #[trigger] row@[x];
                            (c.0 as int, c.1 as int, c.2 as int) == cell_add(mine@[x], theirs@[x])
                        },
                decreases w - m,
            {
                row.push(add_cells(mine[m], theirs[m]));
                m = m + 1;
            }
            rows.push(row);
            k = k + 1;
        }
        self.per_key = rows;
        self.joint_clamp = add_cells(self.joint_clamp, other.joint_clamp);
    }
}

/// Single-key adoption outcome counts, `(n, rank1)` per key.
#[derive(Clone)]
pub struct KeyAdoptStats {
    pub per_key: Vec<(u64, u64)>,
}

impl KeyAdoptStats {
    /// `n_keys` zero counts.
    pub fn new(n_keys: usize) -> (s: KeyAdoptStats)
        ensures
            s.per_key@.len() == n_keys,
            forall|i: int| 0 <= i < n_keys ==> #[trigger] s.per_key@[i] == (0u64, 0u64),
    {
        let mut v: Vec<(u64, u64)> = Vec::new();
        let mut i: usize = 0;
        while i < n_keys
            invariant
                i <= n_keys,
                v@.len() == i,
                forall|j: int| 0 <= j < i ==> #[trigger] v@[j] == (0u64, 0u64),
            decreases n_keys - i,
        {
            v.push((0, 0));
            i = i + 1;
        }
        KeyAdoptStats { per_key: v }
    }

    /// Whether every pair of counts that [`KeyAdoptStats::merge`] adds fits.
    pub open spec fn can_merge(&self, other: &KeyAdoptStats) -> bool {
        forall|i: int|
            0 <= i < self.per_key@.len() && i < other.per_key@.len() ==> {
                &&& #[trigger] self.per_key@[i].0 + other.per_key@[i].0 <= u64::MAX
                &&& self.per_key@[i].1 + other.per_key@[i].1 <= u64::MAX
            }
    }

    /// Adds `other`'s counts into `self`, key by key, over the keys both
    /// hold; keys beyond `other`'s length keep their counts.
    pub fn merge(&mut self, other: &KeyAdoptStats)
        requires
            old(self).can_merge(other),
        ensures
            final(self).per_key@.len() == old(self).per_key@.len(),
            forall|i: int|
                0 <= i < old(self).per_key@.len() ==> {
                    let c = #[trigger] final(self).per_key@[i];
                    let o = old(self).per_key@[i];
                    if i < other.per_key@.len() {
                        c.0 == o.0 + other.per_key@[i].0 && c.1 == o.1 + other.per_key@[i].1
                    } else {
                        c == o
                    }
                },
    {
        let n = self.per_key.len();
        let mut v: Vec<(u64, u64)> = Vec::new();
        let mut i: usize = 0;
        while i < n
            invariant
                n == self.per_key@.len(),
                self.can_merge(other),
                i <= n,
                v@.len() == i,
                forall|j: int|
                    0 <= j < i ==> {
                        let c = #[trigger] v@[j];
                        let o = self.per_key@[j];
                        if j < other.per_key@.len() {
                            c.0 == o.0 + other.per_key@[j].0 && c.1 == o.1 + other.per_key@[j].1
                        } else {
                            c == o
                        }
                    },
            decreases n - i,
        {
            let o = self.per_key[i];
            if i < other.per_key.len() {
                let t = other.per_key[i];
                v.push((o.0 + t.0, o.1 + t.1));
            } else {
                v.push(o);
            }
            i = i + 1;
        }
        self.per_key = v;
    }
}

/// Single-key adoption counts paired with deletion counts taken at the same
/// decision points.
#[derive(Clone)]
pub struct AdoptStats {
    pub adopt: KeyAdoptStats,
    pub delete: KeyAdoptStats,
}

impl AdoptStats {
    /// `n_keys` zero counts on both sides.
    pub fn new(n_keys: usize) -> (s: AdoptStats)
        ensures
            s.adopt.per_key@.len() == n_keys,
            s.delete.per_key@.len() == n_keys,
            forall|i: int| 0 <= i < n_keys ==> #[trigger] s.adopt.per_key@[i] == (0u64, 0u64),
            forall|i: int| 0 <= i < n_keys ==> #[trigger] s.delete.per_key@[i] == (0u64, 0u64),
    {
        AdoptStats { adopt: KeyAdoptStats::new(n_keys), delete: KeyAdoptStats::new(n_keys) }
    }

    /// Adds `other`'s adoption and deletion counts into `self`'s.
    pub fn merge(&mut self, other: &AdoptStats)
        requires
            old(self).adopt.can_merge(&other.adopt),
            old(self).delete.can_merge(&other.delete),
        ensures
            final(self).adopt.per_key@.len() == old(self).adopt.per_key@.len(),
            final(self).delete.per_key@.len() == old(self).delete.per_key@.len(),
            forall|i: int|
                0 <= i < old(self).adopt.per_key@.len() ==> {
                    let c = #[trigger] final(self).adopt.per_key@[i];
                    let o = old(self).adopt.per_key@[i];
                    if i < other.adopt.per_key@.len() {
                        c.0 == o.0 + other.adopt.per_key@[i].0 && c.1 == o.1
                            + other.adopt.per_key@[i].1
                    } else {
                        c == o
                    }
                },
            forall|i: int|
                0 <= i < old(self).delete.per_key@.len() ==> {
                    let c = #[trigger] final(self).delete.per_key@[i];
                    let o = old(self).delete.per_key@[i];
                    if i < other.delete.per_key@.len() {
                        c.0 == o.0 + other.delete.per_key@[i].0 && c.1 == o.1
                            + other.delete.per_key@[i].1
                    } else {
                        c == o
                    }
                },
    {
        self.adopt.merge(&other.adopt);
        self.delete.merge(&other.delete);
    }
}

/// Why a Farm card the player holds could not be built, check by check in the
/// order the move generator's build loop checks them.
#[derive(Clone, Copy, PartialEq, Eq, Debug, Structural)]
pub enum BuildIllegalReason {
    /// No free worker to build with.
    NoFreeWorker,
    /// The card has no printed resource cost.
    NoCostPrinted,
    /// Resources on hand, with any trade-agreement food conversion, fall
    /// short of the cost.
    CannotPayResources,
    /// No spare civil action and no civil-action-free grant.
    NoCivilAction,
    /// None of the above: the build loop and this classification disagree.
    Other,
}

/// The fixed position of each reason in a five-slot tally.
pub open spec fn reason_index(r: BuildIllegalReason) -> int {
    match r {
        BuildIllegalReason::NoFreeWorker => 0,
        BuildIllegalReason::NoCostPrinted => 1,
        BuildIllegalReason::CannotPayResources => 2,
        BuildIllegalReason::NoCivilAction => 3,
        BuildIllegalReason::Other => 4,
    }
}

/// The slot of `r` in a five-slot tally.
pub fn build_illegal_reason_idx(r: BuildIllegalReason) -> (i: usize)
    ensures
        i == reason_index(r),
{
    match r {
        BuildIllegalReason::NoFreeWorker => 0,
        BuildIllegalReason::NoCostPrinted => 1,
        BuildIllegalReason::CannotPayResources => 2,
        BuildIllegalReason::NoCivilAction => 3,
        BuildIllegalReason::Other => 4,
    }
}

/// The five reasons in slot order.
pub fn build_illegal_reasons() -> (rs: [BuildIllegalReason; 5])
    ensures
        forall|i: int| 0 <= i < 5 ==> reason_index(#[trigger] rs@[i]) == i,
{
    [
        BuildIllegalReason::NoFreeWorker,
        BuildIllegalReason::NoCostPrinted,
        BuildIllegalReason::CannotPayResources,
        BuildIllegalReason::NoCivilAction,
        BuildIllegalReason::Other,
    ]
}

/// Every reason has its own slot among the five: the slot numbering is a
/// one-to-one map onto `0..5`.
pub proof fn lemma_reason_slots_are_distinct(a: BuildIllegalReason, b: BuildIllegalReason)
    ensures
        0 <= reason_index(a) < 5,
        reason_index(a) == reason_index(b) ==> a == b,
{
}

/// What the build loop reads of a player when deciding whether a Farm card
/// it holds can be built.
#[derive(Clone, Copy, Debug)]
pub struct BuildFacts {
    pub workers_free: u8,
    pub build_cost: Option<i32>,
    pub resources: u8,
    pub trade_remaining: i32,
    pub food: u8,
    pub civil_actions: i32,
    pub build_ca_exempt: bool,
}

/// The reason the build loop would give, check by check.
pub open spec fn build_reason_spec(f: BuildFacts) -> BuildIllegalReason {
    if f.workers_free == 0 {
        BuildIllegalReason::NoFreeWorker
    } else {
        match f.build_cost {
            None => BuildIllegalReason::NoCostPrinted,
            Some(cost) => {
                let fill = if f.trade_remaining < f.food {
                    f.trade_remaining as int
                } else {
                    f.food as int
                };
                if !(f.resources >= cost || f.resources + fill >= cost) {
                    BuildIllegalReason::CannotPayResources
                } else if !(f.civil_actions >= 1 || f.build_ca_exempt) {
                    BuildIllegalReason::NoCivilAction
                } else {
                    BuildIllegalReason::Other
                }
            },
        }
    }
}

/// Why a Farm card the player holds is missing from the legal builds,
/// replaying the build loop's checks in its order: free worker, printed
/// cost, affordability (counting trade-agreement food), civil action.
pub fn classify_build_illegal(f: &BuildFacts) -> (r: BuildIllegalReason)
    ensures
        r == build_reason_spec(*f),
{
    if f.workers_free == 0 {
        return BuildIllegalReason::NoFreeWorker;
    }
    let cost = match f.build_cost {
        Some(c) => c,
        None => return BuildIllegalReason::NoCostPrinted,
    };
    let res = f.resources as i32;
    let fill = trade_fill(f.trade_remaining, f.food);
    let affordable = res >= cost || res + fill >= cost;
    if !affordable {
        return BuildIllegalReason::CannotPayResources;
    }
    let have_ca = f.civil_actions >= 1;
    if !(have_ca || f.build_ca_exempt) {
        return BuildIllegalReason::NoCivilAction;
    }
    BuildIllegalReason::Other
}

/// A five-slot tally of zeros.
pub open spec fn zero_row() -> Seq<u64> {
    seq![0u64, 0u64, 0u64, 0u64, 0u64]
}

/// The tally of round `round` in `m`, zeros for a round never recorded.
pub open spec fn round_row(m: Map<u16, [u64; 5]>, round: u16) -> Seq<u64> {
    if m.contains_key(round) {
        m[round]@
    } else {
        zero_row()
    }
}

/// The count in slot `i` of a five-slot tally.
pub open spec fn slot(i: int) -> spec_fn([u64; 5]) -> int {
    |r: [u64; 5]| r@[i] as int
}

/// Per-round and overall tallies of [`BuildIllegalReason`], each a five-slot
/// array indexed by [`build_illegal_reason_idx`].
pub struct BuildIllegalStats {
    pub by_round: HashMap<u16, [u64; 5]>,
    pub total: [u64; 5],
}

impl BuildIllegalStats {
    /// Each overall count is the sum of that reason's counts over the rounds.
    pub open spec fn totals_add_up(&self) -> bool {
        forall|i: int| 0 <= i < 5 ==> #[trigger] self.total@[i] == map_sum(self.by_round@, slot(i))
    }

    /// No round recorded, every count zero.
    pub fn new() -> (s: BuildIllegalStats)
        ensures
            s.by_round@ == Map::<u16, [u64; 5]>::empty(),
            s.total@ == zero_row(),
            s.totals_add_up(),
    {
        let total: [u64; 5] = [0, 0, 0, 0, 0];
        assert(total@ =~= zero_row());
        let s = BuildIllegalStats { by_round: HashMap::new(), total };
        proof {
            assert forall|i: int| 0 <= i < 5 implies #[trigger] s.total@[i] == map_sum(
                s.by_round@,
                slot(i),
            ) by {
                lemma_map_sum_empty::<u16, [u64; 5]>(slot(i));
            }
        }
        s
    }

    /// Records one occurrence of `reason` in round `round`.
    pub fn record(&mut self, round: u16, reason: BuildIllegalReason)
        requires
            old(self).total@[reason_index(reason)] < u64::MAX,
            round_row(old(self).by_round@, round)[reason_index(reason)] < u64::MAX,
        ensures
            final(self).total@ == old(self).total@.update(
                reason_index(reason),
                (old(self).total@[reason_index(reason)] + 1) as u64,
            ),
            final(self).by_round@.dom() == old(self).by_round@.dom().insert(round),
            final(self).by_round@[round]@ == round_row(old(self).by_round@, round).update(
                reason_index(reason),
                (round_row(old(self).by_round@, round)[reason_index(reason)] + 1) as u64,
            ),
            forall|k: u16|
                k != round && #[trigger] old(self).by_round@.contains_key(k)
                    ==> final(self).by_round@[k] == old(self).by_round@[k],
            old(self).totals_add_up() ==> final(self).totals_add_up(),
    {
        let ghost before = self.by_round@;
        let ghost total0 = self.total@;
        let idx = build_illegal_reason_idx(reason);
        let t = self.total[idx];
        self.total.set(idx, t + 1);
        let mut row: [u64; 5] = match self.by_round.get(&round) {
            Some(r) => *r,
            None => [0, 0, 0, 0, 0],
        };
        assert(row@ =~= round_row(old(self).by_round@, round));
        let c = row[idx];
        row.set(idx, c + 1);
        self.by_round.insert(round, row);
        proof {
            assert forall|i: int| 0 <= i < 5 implies map_sum(self.by_round@, slot(i)) == map_sum(
                before,
                slot(i),
            ) + if i == idx {
                1int
            } else {
                0
            } by {
                lemma_map_sum_insert(before, round, row, slot(i));
            }
            if old(self).totals_add_up() {
                assert forall|i: int| 0 <= i < 5 implies #[trigger] self.total@[i] == map_sum(
                    self.by_round@,
                    slot(i),
                ) by {
                    assert(total0[i] == map_sum(before, slot(i)));
                }
            }
        }
    }

    /// Whether every count [`BuildIllegalStats::merge`] adds fits.
    pub open spec fn can_merge(&self, other: &BuildIllegalStats) -> bool {
        &&& forall|i: int| 0 <= i < 5 ==> #[trigger] self.total@[i] + other.total@[i] <= u64::MAX
        &&& forall|k: u16, i: int|
            other.by_round@.contains_key(k) && 0 <= i < 5 ==> round_row(self.by_round@, k)[i]
                + #[trigger] other.by_round@[k]@[i] <= u64::MAX
    }

    /// Adds `other`'s tallies into `self`: the overall counts slot by slot,
    /// and each round's counts into that round's, a round new to `self`
    /// starting from zeros.
    pub fn merge(&mut self, other: &BuildIllegalStats)
        requires
            old(self).can_merge(other),
        ensures
            forall|i: int|
                0 <= i < 5 ==> #[trigger] final(self).total@[i] == old(self).total@[i]
                    + other.total@[i],
            final(self).by_round@.dom() == old(self).by_round@.dom() + other.by_round@.dom(),
            forall|k: u16, i: int|
                final(self).by_round@.contains_key(k) && 0 <= i < 5
                    ==> #[trigger] final(self).by_round@[k]@[i] == round_row(old(self).by_round@, k)[i]
                    + round_row(other.by_round@, k)[i],
            old(self).totals_add_up() && other.totals_add_up() ==> final(self).totals_add_up(),
    {
        let mut i: usize = 0;
        while i < 5
            invariant
                i <= 5,
                old(self).can_merge(other),
                self.by_round@ == old(self).by_round@,
                forall|j: int| 0 <= j < i ==> #[trigger] self.total@[j] == old(self).total@[j]
                    + other.total@[j],
                forall|j: int| i <= j < 5 ==> #[trigger] self.total@[j] == old(self).total@[j],
            decreases 5 - i,
        {
            let a = self.total[i];
            let b = other.total[i];
            self.total.set(i, a + b);
            i = i + 1;
        }
        let ghost m0 = self.by_round@;
        let ghost om = other.by_round@;
        let ghost mut seen: Set<u16> = Set::empty();
        proof {
            assert forall|j: int| 0 <= j < 5 implies #[trigger] map_sum(self.by_round@, slot(j))
                == map_sum(m0, slot(j)) + map_sum(om.restrict(seen), slot(j)) by {
                assert(om.restrict(seen) =~= Map::<u16, [u64; 5]>::empty());
                lemma_map_sum_empty::<u16, [u64; 5]>(slot(j));
            }
        }
        for k in it: other.by_round.keys()
            invariant
                m0 == old(self).by_round@,
                om == other.by_round@,
                old(self).can_merge(other),
                forall|j: int| 0 <= j < 5 ==> #[trigger] self.total@[j] == old(self).total@[j]
                    + other.total@[j],
                it.seq().no_duplicates(),
                it.seq().unref().to_set() == om.dom(),
                forall|r: u16|
                    #[trigger] seen.contains(r) ==> exists|j: int|
                        0 <= j < it.index() && *it.seq()[j] == r,
                forall|r: u16|
                    #[trigger] om.contains_key(r) ==> seen.contains(r) || exists|j: int|
                        it.index() <= j < it.seq().len() && *it.seq()[j] == r,
                seen.subset_of(om.dom()),
                self.by_round@.dom() == m0.dom() + seen,
                forall|j: int| 0 <= j < 5 ==> #[trigger] map_sum(self.by_round@, slot(j))
                    == map_sum(m0, slot(j)) + map_sum(om.restrict(seen), slot(j)),
                forall|r: u16, j: int|
                    self.by_round@.contains_key(r) && 0 <= j < 5 ==> #[trigger] self.by_round@[r]@[j]
                        == round_row(m0, r)[j] + if seen.contains(r) {
                        round_row(om, r)[j]
                    } else {
                        0
                    },
        {
            let round: u16 = *k;
            let ghost idx = it.index();
            proof {
                assert(it.seq()[idx] == k);
                assert(it.seq().unref().contains(round)) by {
                    assert(it.seq().unref()[idx] == round);
                }
                assert(om.contains_key(round));
                assert(!seen.contains(round)) by {
                    if seen.contains(round) {
                        let w = choose|w: int| 0 <= w < idx && *it.seq()[w] == round;
                        assert(it.seq()[w] == it.seq()[idx]);
                    }
                }
            }
            let theirs: [u64; 5] = match other.by_round.get(&round) {
                Some(r) => *r,
                None => [0, 0, 0, 0, 0],
            };
            let mut row: [u64; 5] = match self.by_round.get(&round) {
                Some(r) => *r,
                None => [0, 0, 0, 0, 0],
            };
            assert(row@ =~= round_row(m0, round)) by {
                if self.by_round@.contains_key(round) {
                    assert forall|x: int| 0 <= x < 5 implies row@[x] == round_row(m0, round)[x] by {
                        assert(self.by_round@[round]@[x] == round_row(m0, round)[x] + 0);
                    }
                }
            }
            let mut j: usize = 0;
            while j < 5
                invariant
                    j <= 5,
                    old(self).can_merge(other),
                    om == other.by_round@,
                    om.contains_key(round),
                    theirs@ == om[round]@,
                    forall|x: int| j <= x < 5 ==> #[trigger] row@[x] == round_row(m0, round)[x],
                    forall|x: int| 0 <= x < j ==> #[trigger] row@[x] == round_row(m0, round)[x] + theirs@[x],
                    m0 == old(self).by_round@,
                decreases 5 - j,
            {
                let a = row[j];
                let b = theirs[j];
                assert(round_row(old(self).by_round@, round)[j as int] + om[round]@[j as int] <= u64::MAX);
                row.set(j, a + b);
                j = j + 1;
            }
            let ghost cur = self.by_round@;
            self.by_round.insert(round, row);
            proof {
                let seen2 = seen.insert(round);
                assert(om.restrict(seen2) =~= om.restrict(seen).insert(round, om[round]));
                assert(other.by_round@.dom().finite());
                assert(om.restrict(seen).dom() =~= om.dom().intersect(seen));
                vstd::set::axiom_set_intersect_finite(om.dom(), seen);
                assert forall|j: int| 0 <= j < 5 implies #[trigger] map_sum(self.by_round@, slot(j))
                    == map_sum(m0, slot(j)) + map_sum(om.restrict(seen2), slot(j)) by {
                    lemma_map_sum_insert(cur, round, row, slot(j));
                    lemma_map_sum_insert(om.restrict(seen), round, om[round], slot(j));
                    if cur.contains_key(round) {
                        assert(cur[round]@[j] == round_row(m0, round)[j] + 0);
                    }
                }
                assert forall|r: u16| #[trigger] seen2.contains(r) implies exists|w: int|
                    0 <= w < idx + 1 && *it.seq()[w] == r by {
                    if r == round {
                        assert(*it.seq()[idx] == r);
                    } else {
                        assert(seen.contains(r));
                    }
                }
                assert forall|r: u16| #[trigger] om.contains_key(r) implies seen2.contains(r) || exists|w: int|
                    idx + 1 <= w < it.seq().len() && *it.seq()[w] == r by {
                    if !seen.contains(r) {
                        let w = choose|w: int| idx <= w < it.seq().len() && *it.seq()[w] == r;
                        if w == idx {
                            assert(r == round);
                        }
                    }
                }
                assert(self.by_round@.dom() =~= m0.dom() + seen2);
                seen = seen2;
            }
        }
        proof {
            assert(seen =~= om.dom());
            assert(om.restrict(seen) =~= om);
        }
    }
}

} // verus!

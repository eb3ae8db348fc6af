//! The opener probe's tallies: what the champion chooses at its own
//! decision points in rounds 1-3, where each build-shaped move ranks, why
//! Farm builds, population increases and developments are not legal, and
//! how many action points the chosen moves cost.
use vstd::prelude::*;
use crate::cards::{
    BuildKind, CardType, DecisionKind, Move, build_target_kind_spec, decision_kind,
    decision_kind_spec, probe_build_kind, probe_build_kind_spec, well_formed_move,
    develop_eligible_kind, develop_eligible_spec, all_build_kinds,
};

verus! {

// ---------------------------------------------------------------------
// Action points
// ---------------------------------------------------------------------

/// The decider's civil and military action pools either side of one move.
#[derive(Clone, Copy, Debug)]
pub struct PoolDelta {
    pub pre_ca: i8,
    pub pre_ma: i8,
    pub post_ca: i8,
    pub post_ma: i8,
}

/// How much a pool shrank, or 0 if it did not.
pub open spec fn debit(pre: i8, post: i8) -> int {
    if pre - post > 0 {
        pre - post
    } else {
        0
    }
}

/// Action points debited by the chosen moves of rounds 1-3, in total, per
/// round, and the number of decisions and own turns behind them.
#[derive(Clone, Copy, Debug, Default)]
pub struct ActionPointStats {
    pub ca: u64,
    pub ma: u64,
    pub ca_decisions: u64,
    pub ma_decisions: u64,
    pub ca_round1: u64,
    pub ca_round2: u64,
    pub ca_round3: u64,
    pub ma_round1: u64,
    pub ma_round2: u64,
    pub ma_round3: u64,
    pub turns_round1: u64,
    pub turns_round2: u64,
    pub turns_round3: u64,
}

/// Every debit recorded lands in exactly one round's bucket.
pub open spec fn ap_rounds_add_up(s: ActionPointStats) -> bool {
    &&& s.ca == s.ca_round1 + s.ca_round2 + s.ca_round3
    &&& s.ma == s.ma_round1 + s.ma_round2 + s.ma_round3
}

/// The tally after recording one decision of `round` whose move debited
/// `ca` civil and `ma` military points; `end_turn` says whether the move
/// ended the turn.
pub open spec fn ap_recorded(s: ActionPointStats, round: u8, end_turn: bool, ca: int, ma: int) -> ActionPointStats {
    ActionPointStats {
        ca: (s.ca + ca) as u64,
        ma: (s.ma + ma) as u64,
        ca_decisions: if ca > 0 { (s.ca_decisions + 1) as u64 } else { s.ca_decisions },
        ma_decisions: if ma > 0 { (s.ma_decisions + 1) as u64 } else { s.ma_decisions },
        ca_round1: if ca > 0 && round == 1 { (s.ca_round1 + ca) as u64 } else { s.ca_round1 },
        ca_round2: if ca > 0 && round == 2 { (s.ca_round2 + ca) as u64 } else { s.ca_round2 },
        ca_round3: if ca > 0 && round == 3 { (s.ca_round3 + ca) as u64 } else { s.ca_round3 },
        ma_round1: if ma > 0 && round == 1 { (s.ma_round1 + ma) as u64 } else { s.ma_round1 },
        ma_round2: if ma > 0 && round == 2 { (s.ma_round2 + ma) as u64 } else { s.ma_round2 },
        ma_round3: if ma > 0 && round == 3 { (s.ma_round3 + ma) as u64 } else { s.ma_round3 },
        turns_round1: if end_turn && round == 1 { (s.turns_round1 + 1) as u64 } else { s.turns_round1 },
        turns_round2: if end_turn && round == 2 { (s.turns_round2 + 1) as u64 } else { s.turns_round2 },
        turns_round3: if end_turn && round == 3 { (s.turns_round3 + 1) as u64 } else { s.turns_round3 },
    }
}

/// The field-wise sum of two tallies.
pub open spec fn ap_merged(s: ActionPointStats, o: ActionPointStats) -> ActionPointStats {
    ActionPointStats {
        ca: (s.ca + o.ca) as u64,
        ma: (s.ma + o.ma) as u64,
        ca_decisions: (s.ca_decisions + o.ca_decisions) as u64,
        ma_decisions: (s.ma_decisions + o.ma_decisions) as u64,
        ca_round1: (s.ca_round1 + o.ca_round1) as u64,
        ca_round2: (s.ca_round2 + o.ca_round2) as u64,
        ca_round3: (s.ca_round3 + o.ca_round3) as u64,
        ma_round1: (s.ma_round1 + o.ma_round1) as u64,
        ma_round2: (s.ma_round2 + o.ma_round2) as u64,
        ma_round3: (s.ma_round3 + o.ma_round3) as u64,
        turns_round1: (s.turns_round1 + o.turns_round1) as u64,
        turns_round2: (s.turns_round2 + o.turns_round2) as u64,
        turns_round3: (s.turns_round3 + o.turns_round3) as u64,
    }
}

/// Room in every counter that recording one decision of `round`, debiting
/// `ca` civil and `ma` military points, adds to.
pub open spec fn ap_record_room(s: ActionPointStats, round: u8, end_turn: bool, ca: int, ma: int) -> bool {
    &&& s.ca + ca <= u64::MAX
    &&& s.ma + ma <= u64::MAX
    &&& ca > 0 ==> s.ca_decisions < u64::MAX
    &&& ma > 0 ==> s.ma_decisions < u64::MAX
    &&& ca > 0 && round == 1 ==> s.ca_round1 + ca <= u64::MAX
    &&& ca > 0 && round == 2 ==> s.ca_round2 + ca <= u64::MAX
    &&& ca > 0 && round == 3 ==> s.ca_round3 + ca <= u64::MAX
    &&& ma > 0 && round == 1 ==> s.ma_round1 + ma <= u64::MAX
    &&& ma > 0 && round == 2 ==> s.ma_round2 + ma <= u64::MAX
    &&& ma > 0 && round == 3 ==> s.ma_round3 + ma <= u64::MAX
    &&& end_turn && round == 1 ==> s.turns_round1 < u64::MAX
    &&& end_turn && round == 2 ==> s.turns_round2 < u64::MAX
    &&& end_turn && round == 3 ==> s.turns_round3 < u64::MAX
}

/// Room to add two tallies field by field.
pub open spec fn ap_can_merge(s: ActionPointStats, o: ActionPointStats) -> bool {
    &&& s.ca + o.ca <= u64::MAX
    &&& s.ma + o.ma <= u64::MAX
    &&& s.ca_decisions + o.ca_decisions <= u64::MAX
    &&& s.ma_decisions + o.ma_decisions <= u64::MAX
    &&& s.ca_round1 + o.ca_round1 <= u64::MAX
    &&& s.ca_round2 + o.ca_round2 <= u64::MAX
    &&& s.ca_round3 + o.ca_round3 <= u64::MAX
    &&& s.ma_round1 + o.ma_round1 <= u64::MAX
    &&& s.ma_round2 + o.ma_round2 <= u64::MAX
    &&& s.ma_round3 + o.ma_round3 <= u64::MAX
    &&& s.turns_round1 + o.turns_round1 <= u64::MAX
    &&& s.turns_round2 + o.turns_round2 <= u64::MAX
    &&& s.turns_round3 + o.turns_round3 <= u64::MAX
}

impl ActionPointStats {
    /// Records the action points one chosen move of `round` debited, read as
    /// the shrink of the decider's pools; ending the turn debits nothing
    /// (the refill it triggers is not a cost) and counts one own turn.
    pub fn record(&mut self, round: u8, chosen: &Move, pools: PoolDelta)
        requires
            ap_record_room(
                *old(self),
                round,
                *chosen == Move::EndTurn,
                if *chosen == Move::EndTurn { 0 } else { debit(pools.pre_ca, pools.post_ca) },
                if *chosen == Move::EndTurn { 0 } else { debit(pools.pre_ma, pools.post_ma) },
            ),
        ensures
            *final(self) == ap_recorded(
                *old(self),
                round,
                *chosen == Move::EndTurn,
                if *chosen == Move::EndTurn { 0 } else { debit(pools.pre_ca, pools.post_ca) },
                if *chosen == Move::EndTurn { 0 } else { debit(pools.pre_ma, pools.post_ma) },
            ),
    {
        let end_turn = match chosen {
            Move::EndTurn => true,
            _ => false,
        };
        let (ca, ma): (u64, u64) = if end_turn {
            (0, 0)
        } else {
            let dc: i64 = pools.pre_ca as i64 - pools.post_ca as i64;
            let dm: i64 = pools.pre_ma as i64 - pools.post_ma as i64;
            (if dc > 0 { dc as u64 } else { 0 }, if dm > 0 { dm as u64 } else { 0 })
        };
        self.ca = self.ca + ca;
        self.ma = self.ma + ma;
        if end_turn {
            if round == 1 {
                self.turns_round1 = self.turns_round1 + 1;
            } else if round == 2 {
                self.turns_round2 = self.turns_round2 + 1;
            } else if round == 3 {
                self.turns_round3 = self.turns_round3 + 1;
            }
        }
        if ca > 0 {
            self.ca_decisions = self.ca_decisions + 1;
            if round == 1 {
                self.ca_round1 = self.ca_round1 + ca;
            } else if round == 2 {
                self.ca_round2 = self.ca_round2 + ca;
            } else if round == 3 {
                self.ca_round3 = self.ca_round3 + ca;
            }
        }
        if ma > 0 {
            self.ma_decisions = self.ma_decisions + 1;
            if round == 1 {
                self.ma_round1 = self.ma_round1 + ma;
            } else if round == 2 {
                self.ma_round2 = self.ma_round2 + ma;
            } else if round == 3 {
                self.ma_round3 = self.ma_round3 + ma;
            }
        }
    }

    /// Adds another tally into this one, field by field.
    pub fn merge(&mut self, o: ActionPointStats)
        requires
            ap_can_merge(*old(self), o),
        ensures
            *final(self) == ap_merged(*old(self), o),
    {
        self.ca = self.ca + o.ca;
        self.ma = self.ma + o.ma;
        self.ca_decisions = self.ca_decisions + o.ca_decisions;
        self.ma_decisions = self.ma_decisions + o.ma_decisions;
        self.ca_round1 = self.ca_round1 + o.ca_round1;
        self.ca_round2 = self.ca_round2 + o.ca_round2;
        self.ca_round3 = self.ca_round3 + o.ca_round3;
        self.ma_round1 = self.ma_round1 + o.ma_round1;
        self.ma_round2 = self.ma_round2 + o.ma_round2;
        self.ma_round3 = self.ma_round3 + o.ma_round3;
        self.turns_round1 = self.turns_round1 + o.turns_round1;
        self.turns_round2 = self.turns_round2 + o.turns_round2;
        self.turns_round3 = self.turns_round3 + o.turns_round3;
    }
}

/// In the window the probe watches (rounds 1-3), every action point
/// recorded lands in exactly one round's bucket: recording keeps the
/// per-round buckets summing to the totals, and so does merging two
/// tallies that each had that property.
pub proof fn lemma_action_points_rounds_add_up(
    s: ActionPointStats,
    o: ActionPointStats,
    round: u8,
    end_turn: bool,
    ca: int,
    ma: int,
)
    requires
        ap_rounds_add_up(s),
        ap_rounds_add_up(o),
        1 <= round <= 3,
        0 <= ca,
        0 <= ma,
        ap_record_room(s, round, end_turn, ca, ma),
        ap_can_merge(s, o),
    ensures
        ap_rounds_add_up(ap_recorded(s, round, end_turn, ca, ma)),
        ap_rounds_add_up(ap_merged(s, o)),
{
}

// ---------------------------------------------------------------------
// Decision kinds
// ---------------------------------------------------------------------

/// How many chosen moves fell into each decision bucket.
#[derive(Clone, Copy, Debug, Default)]
pub struct DecisionKindCounts {
    pub take: u64,
    pub build_farm: u64,
    pub build_mine: u64,
    pub build_urban: u64,
    pub build_military: u64,
    pub develop: u64,
    pub upgrade: u64,
    pub wonder_step: u64,
    pub pop: u64,
    pub leader: u64,
    pub action_card: u64,
    pub end_turn: u64,
    pub other: u64,
}

/// The count of one decision bucket.
pub open spec fn dk_count(c: DecisionKindCounts, k: DecisionKind) -> int {
    match k {
        DecisionKind::Take => c.take as int,
        DecisionKind::BuildFarm => c.build_farm as int,
        DecisionKind::BuildMine => c.build_mine as int,
        DecisionKind::BuildUrban => c.build_urban as int,
        DecisionKind::BuildMilitary => c.build_military as int,
        DecisionKind::Develop => c.develop as int,
        DecisionKind::Upgrade => c.upgrade as int,
        DecisionKind::WonderStep => c.wonder_step as int,
        DecisionKind::Pop => c.pop as int,
        DecisionKind::Leader => c.leader as int,
        DecisionKind::ActionCard => c.action_card as int,
        DecisionKind::EndTurn => c.end_turn as int,
        DecisionKind::Other => c.other as int,
    }
}

/// The sum of every bucket.
pub open spec fn dk_total(c: DecisionKindCounts) -> int {
    c.take + c.build_farm + c.build_mine + c.build_urban + c.build_military + c.develop + c.upgrade
        + c.wonder_step + c.pop + c.leader + c.action_card + c.end_turn + c.other
}

/// Every bucket below `bound`.
pub open spec fn dk_below(c: DecisionKindCounts, bound: int) -> bool {
    forall|k: DecisionKind| dk_count(c, k) < bound
}

impl DecisionKindCounts {
    /// Counts one chosen move of kind `k`.
    pub fn record(&mut self, k: DecisionKind)
        requires
            dk_count(*old(self), k) < u64::MAX,
        ensures
            dk_count(*final(self), k) == dk_count(*old(self), k) + 1,
            forall|j: DecisionKind| j != k ==> dk_count(*final(self), j) == dk_count(*old(self), j),
            dk_total(*final(self)) == dk_total(*old(self)) + 1,
    {
        match k {
            DecisionKind::Take => self.take = self.take + 1,
            DecisionKind::BuildFarm => self.build_farm = self.build_farm + 1,
            DecisionKind::BuildMine => self.build_mine = self.build_mine + 1,
            DecisionKind::BuildUrban => self.build_urban = self.build_urban + 1,
            DecisionKind::BuildMilitary => self.build_military = self.build_military + 1,
            DecisionKind::Develop => self.develop = self.develop + 1,
            DecisionKind::Upgrade => self.upgrade = self.upgrade + 1,
            DecisionKind::WonderStep => self.wonder_step = self.wonder_step + 1,
            DecisionKind::Pop => self.pop = self.pop + 1,
            DecisionKind::Leader => self.leader = self.leader + 1,
            DecisionKind::ActionCard => self.action_card = self.action_card + 1,
            DecisionKind::EndTurn => self.end_turn = self.end_turn + 1,
            DecisionKind::Other => self.other = self.other + 1,
        }
    }

    /// The number of moves counted in every bucket together.
    pub fn total(&self) -> (t: u64)
        requires
            dk_total(*self) <= u64::MAX,
        ensures
            t == dk_total(*self),
    {
        self.take + self.build_farm + self.build_mine + self.build_urban + self.build_military
            + self.develop + self.upgrade + self.wonder_step + self.pop + self.leader
            + self.action_card + self.end_turn + self.other
    }

    /// Adds another tally into this one, bucket by bucket.
    pub fn merge(&mut self, o: DecisionKindCounts)
        requires
            forall|k: DecisionKind| dk_count(*old(self), k) + dk_count(o, k) <= u64::MAX,
        ensures
            forall|k: DecisionKind| dk_count(*final(self), k) == dk_count(*old(self), k) + dk_count(o, k),
            dk_total(*final(self)) == dk_total(*old(self)) + dk_total(o),
    {
        assert(dk_count(*self, DecisionKind::Take) + dk_count(o, DecisionKind::Take) <= u64::MAX);
        assert(dk_count(*self, DecisionKind::BuildFarm) + dk_count(o, DecisionKind::BuildFarm) <= u64::MAX);
        assert(dk_count(*self, DecisionKind::BuildMine) + dk_count(o, DecisionKind::BuildMine) <= u64::MAX);
        assert(dk_count(*self, DecisionKind::BuildUrban) + dk_count(o, DecisionKind::BuildUrban) <= u64::MAX);
        assert(dk_count(*self, DecisionKind::BuildMilitary) + dk_count(o, DecisionKind::BuildMilitary) <= u64::MAX);
        assert(dk_count(*self, DecisionKind::Develop) + dk_count(o, DecisionKind::Develop) <= u64::MAX);
        assert(dk_count(*self, DecisionKind::Upgrade) + dk_count(o, DecisionKind::Upgrade) <= u64::MAX);
        assert(dk_count(*self, DecisionKind::WonderStep) + dk_count(o, DecisionKind::WonderStep) <= u64::MAX);
        assert(dk_count(*self, DecisionKind::Pop) + dk_count(o, DecisionKind::Pop) <= u64::MAX);
        assert(dk_count(*self, DecisionKind::Leader) + dk_count(o, DecisionKind::Leader) <= u64::MAX);
        assert(dk_count(*self, DecisionKind::ActionCard) + dk_count(o, DecisionKind::ActionCard) <= u64::MAX);
        assert(dk_count(*self, DecisionKind::EndTurn) + dk_count(o, DecisionKind::EndTurn) <= u64::MAX);
        assert(dk_count(*self, DecisionKind::Other) + dk_count(o, DecisionKind::Other) <= u64::MAX);
        self.take = self.take + o.take;
        self.build_farm = self.build_farm + o.build_farm;
        self.build_mine = self.build_mine + o.build_mine;
        self.build_urban = self.build_urban + o.build_urban;
        self.build_military = self.build_military + o.build_military;
        self.develop = self.develop + o.develop;
        self.upgrade = self.upgrade + o.upgrade;
        self.wonder_step = self.wonder_step + o.wonder_step;
        self.pop = self.pop + o.pop;
        self.leader = self.leader + o.leader;
        self.action_card = self.action_card + o.action_card;
        self.end_turn = self.end_turn + o.end_turn;
        self.other = self.other + o.other;
        assert forall|k: DecisionKind| dk_count(*self, k) == dk_count(*old(self), k) + dk_count(o, k) by {
            match k {
                DecisionKind::Take => {},
                DecisionKind::BuildFarm => {},
                DecisionKind::BuildMine => {},
                DecisionKind::BuildUrban => {},
                DecisionKind::BuildMilitary => {},
                DecisionKind::Develop => {},
                DecisionKind::Upgrade => {},
                DecisionKind::WonderStep => {},
                DecisionKind::Pop => {},
                DecisionKind::Leader => {},
                DecisionKind::ActionCard => {},
                DecisionKind::EndTurn => {},
                DecisionKind::Other => {},
            }
        }
    }
}

// ---------------------------------------------------------------------
// Build ranks and presence
// ---------------------------------------------------------------------

/// For each build kind, the rank (1 = the chosen move) of its best-scored
/// legal move at every decision point where one was legal.
#[derive(Clone, Debug, Default)]
pub struct BuildRankSamples {
    pub farm: Vec<u32>,
    pub mine: Vec<u32>,
    pub urban: Vec<u32>,
    pub military: Vec<u32>,
    pub wonder_step: Vec<u32>,
}

/// The rank samples of one build kind.
pub open spec fn rank_samples(s: BuildRankSamples, k: BuildKind) -> Seq<u32> {
    match k {
        BuildKind::Farm => s.farm@,
        BuildKind::Mine => s.mine@,
        BuildKind::Urban => s.urban@,
        BuildKind::Military => s.military@,
        BuildKind::WonderStep => s.wonder_step@,
    }
}

impl BuildRankSamples {
    /// Records one rank for kind `k`.
    pub fn record(&mut self, k: BuildKind, rank: u32)
        ensures
            rank_samples(*final(self), k) == rank_samples(*old(self), k).push(rank),
            forall|j: BuildKind| j != k ==> rank_samples(*final(self), j) == rank_samples(*old(self), j),
    {
        match k {
            BuildKind::Farm => self.farm.push(rank),
            BuildKind::Mine => self.mine.push(rank),
            BuildKind::Urban => self.urban.push(rank),
            BuildKind::Military => self.military.push(rank),
            BuildKind::WonderStep => self.wonder_step.push(rank),
        }
    }

    /// The ranks recorded for kind `k`.
    pub fn get(&self, k: BuildKind) -> (r: &[u32])
        ensures
            r@ == rank_samples(*self, k),
    {
        match k {
            BuildKind::Farm => self.farm.as_slice(),
            BuildKind::Mine => self.mine.as_slice(),
            BuildKind::Urban => self.urban.as_slice(),
            BuildKind::Military => self.military.as_slice(),
            BuildKind::WonderStep => self.wonder_step.as_slice(),
        }
    }

    /// Appends another tally's samples after this one's, kind by kind.
    pub fn merge(&mut self, o: BuildRankSamples)
        ensures
            forall|k: BuildKind| rank_samples(*final(self), k) == rank_samples(*old(self), k)
                + rank_samples(o, k),
    {
        let ghost o0 = o;
        let mut o = o;
        self.farm.append(&mut o.farm);
        self.mine.append(&mut o.mine);
        self.urban.append(&mut o.urban);
        self.military.append(&mut o.military);
        self.wonder_step.append(&mut o.wonder_step);
        assert forall|k: BuildKind| rank_samples(*self, k) == rank_samples(*old(self), k) + rank_samples(o0, k) by {
            match k {
                BuildKind::Farm => {},
                BuildKind::Mine => {},
                BuildKind::Urban => {},
                BuildKind::Military => {},
                BuildKind::WonderStep => {},
            }
        }
    }
}

/// Per build kind, at how many decision points a legal move of that kind
/// was present and at how many it was absent.
#[derive(Clone, Copy, Debug, Default)]
pub struct BuildPresenceCounts {
    pub farm_present: u64,
    pub farm_absent: u64,
    pub mine_present: u64,
    pub mine_absent: u64,
    pub urban_present: u64,
    pub urban_absent: u64,
    pub military_present: u64,
    pub military_absent: u64,
    pub wonder_step_present: u64,
    pub wonder_step_absent: u64,
}

/// The (present, absent) counts of one build kind.
pub open spec fn presence(c: BuildPresenceCounts, k: BuildKind) -> (u64, u64) {
    match k {
        BuildKind::Farm => (c.farm_present, c.farm_absent),
        BuildKind::Mine => (c.mine_present, c.mine_absent),
        BuildKind::Urban => (c.urban_present, c.urban_absent),
        BuildKind::Military => (c.military_present, c.military_absent),
        BuildKind::WonderStep => (c.wonder_step_present, c.wonder_step_absent),
    }
}

/// Every presence counter below `u64::MAX`.
pub open spec fn presence_has_room(c: BuildPresenceCounts) -> bool {
    forall|k: BuildKind| presence(c, k).0 < u64::MAX && presence(c, k).1 < u64::MAX
}

impl BuildPresenceCounts {
    /// Counts one decision point at which kind `k` was (or was not) legal.
    pub fn record(&mut self, k: BuildKind, present: bool)
        requires
            if present { presence(*old(self), k).0 < u64::MAX } else { presence(*old(self), k).1 < u64::MAX },
        ensures
            presence(*final(self), k) == (if present {
                ((presence(*old(self), k).0 + 1) as u64, presence(*old(self), k).1)
            } else {
                (presence(*old(self), k).0, (presence(*old(self), k).1 + 1) as u64)
            }),
            forall|j: BuildKind| j != k ==> presence(*final(self), j) == presence(*old(self), j),
    {
        match (k, present) {
            (BuildKind::Farm, true) => self.farm_present = self.farm_present + 1,
            (BuildKind::Farm, false) => self.farm_absent = self.farm_absent + 1,
            (BuildKind::Mine, true) => self.mine_present = self.mine_present + 1,
            (BuildKind::Mine, false) => self.mine_absent = self.mine_absent + 1,
            (BuildKind::Urban, true) => self.urban_present = self.urban_present + 1,
            (BuildKind::Urban, false) => self.urban_absent = self.urban_absent + 1,
            (BuildKind::Military, true) => self.military_present = self.military_present + 1,
            (BuildKind::Military, false) => self.military_absent = self.military_absent + 1,
            (BuildKind::WonderStep, true) => self.wonder_step_present = self.wonder_step_present + 1,
            (BuildKind::WonderStep, false) => self.wonder_step_absent = self.wonder_step_absent + 1,
        }
    }

    /// The (present, absent) counts of kind `k`.
    pub fn counts(&self, k: BuildKind) -> (r: (u64, u64))
        ensures
            r == presence(*self, k),
    {
        match k {
            BuildKind::Farm => (self.farm_present, self.farm_absent),
            BuildKind::Mine => (self.mine_present, self.mine_absent),
            BuildKind::Urban => (self.urban_present, self.urban_absent),
            BuildKind::Military => (self.military_present, self.military_absent),
            BuildKind::WonderStep => (self.wonder_step_present, self.wonder_step_absent),
        }
    }

    /// Adds another tally into this one, counter by counter.
    pub fn merge(&mut self, o: BuildPresenceCounts)
        requires
            forall|k: BuildKind| presence(*old(self), k).0 + presence(o, k).0 <= u64::MAX
                && presence(*old(self), k).1 + presence(o, k).1 <= u64::MAX,
        ensures
            forall|k: BuildKind| presence(*final(self), k) == (
                (presence(*old(self), k).0 + presence(o, k).0) as u64,
                (presence(*old(self), k).1 + presence(o, k).1) as u64,
            ),
    {
        assert(presence(*self, BuildKind::Farm).0 + presence(o, BuildKind::Farm).0 <= u64::MAX);
        assert(presence(*self, BuildKind::Mine).0 + presence(o, BuildKind::Mine).0 <= u64::MAX);
        assert(presence(*self, BuildKind::Urban).0 + presence(o, BuildKind::Urban).0 <= u64::MAX);
        assert(presence(*self, BuildKind::Military).0 + presence(o, BuildKind::Military).0 <= u64::MAX);
        assert(presence(*self, BuildKind::WonderStep).0 + presence(o, BuildKind::WonderStep).0 <= u64::MAX);
        self.farm_present = self.farm_present + o.farm_present;
        self.farm_absent = self.farm_absent + o.farm_absent;
        self.mine_present = self.mine_present + o.mine_present;
        self.mine_absent = self.mine_absent + o.mine_absent;
        self.urban_present = self.urban_present + o.urban_present;
        self.urban_absent = self.urban_absent + o.urban_absent;
        self.military_present = self.military_present + o.military_present;
        self.military_absent = self.military_absent + o.military_absent;
        self.wonder_step_present = self.wonder_step_present + o.wonder_step_present;
        self.wonder_step_absent = self.wonder_step_absent + o.wonder_step_absent;
        assert forall|k: BuildKind| presence(*self, k) == (
            (presence(*old(self), k).0 + presence(o, k).0) as u64,
            (presence(*old(self), k).1 + presence(o, k).1) as u64,
        ) by {
            match k {
                BuildKind::Farm => {},
                BuildKind::Mine => {},
                BuildKind::Urban => {},
                BuildKind::Military => {},
                BuildKind::WonderStep => {},
            }
        }
    }
}

// ---------------------------------------------------------------------
// Why a Farm build is not legal
// ---------------------------------------------------------------------

/// Why no Farm build is legal.
#[derive(Clone, Copy, Debug, PartialEq, Eq, Structural)]
pub enum FarmIllegalReason {
    /// No Farm-type card in the tableau.
    CardNotInPlay,
    /// A Farm card is owned but no worker is free.
    FreeWorkerUnavailable,
    /// No civil action left and no exemption from spending one.
    CivilActionUnavailable,
    /// The resource cost cannot be paid.
    ResourcesUnaffordable,
}

/// What the engine reports about a player that bears on building a Farm:
/// how many Farm-type cards the tableau holds, free workers, civil actions
/// left, whether a one-time discount waives the civil action, the net
/// resource cost of building the first Farm card (`None` when it has no
/// printed cost), resources on hand, and how much food a trade agreement
/// can turn into resources.
#[derive(Clone, Copy, Debug)]
pub struct FarmFacts {
    pub farm_cards: usize,
    pub workers_free: u8,
    pub civil_actions: i8,
    pub build_ca_exempt: bool,
    pub build_cost: Option<i32>,
    pub resources: u8,
    pub trade_fill: i32,
}

/// The food a trade agreement can turn into resources: what the agreement
/// still grants, capped by the food on hand.
pub fn trade_fill(remaining_grant: i32, food: u8) -> (r: i32)
    ensures
        r == (if remaining_grant < food { remaining_grant as int } else { food as int }),
{
    if remaining_grant < food as i32 {
        remaining_grant
    } else {
        food as i32
    }
}

/// The reason classification reaches the resource check.
pub open spec fn farm_reaches_cost(f: FarmFacts) -> bool {
    f.farm_cards > 0 && f.workers_free != 0 && (f.civil_actions >= 1 || f.build_ca_exempt)
}

/// What the engine's build loop would say about the cost: the build is
/// affordable (possibly with the trade agreement's help).
pub open spec fn farm_affordable(f: FarmFacts) -> bool {
    match f.build_cost {
        Some(cost) => f.resources >= cost || f.resources + f.trade_fill >= cost,
        None => false,
    }
}

/// The inputs the classification accepts: it is only asked about a player
/// whose Farm build the move generator rejected, so when the other checks
/// are clear the cost must be unaffordable, and the sum it checks must fit.
pub open spec fn farm_facts_consistent(f: FarmFacts) -> bool {
    farm_reaches_cost(f) ==> match f.build_cost {
        Some(cost) => !farm_affordable(f) && (f.resources >= cost || f.resources + f.trade_fill
            <= i32::MAX),
        None => true,
    }
}

/// The reason a Farm build is not legal, check by check in the order the
/// move generator checks them.
pub open spec fn farm_reason_spec(f: FarmFacts) -> FarmIllegalReason {
    if f.farm_cards == 0 {
        FarmIllegalReason::CardNotInPlay
    } else if f.workers_free == 0 {
        FarmIllegalReason::FreeWorkerUnavailable
    } else if !(f.civil_actions >= 1) && !f.build_ca_exempt {
        FarmIllegalReason::CivilActionUnavailable
    } else {
        FarmIllegalReason::ResourcesUnaffordable
    }
}

/// Why a Farm build is not legal for a player whose Farm build the move
/// generator rejected, and whether the tableau holds more than one Farm
/// card (the reason is read off the first).
pub fn classify_farm_illegal(f: &FarmFacts) -> (r: (FarmIllegalReason, bool))
    requires
        farm_facts_consistent(*f),
    ensures
        r.0 == farm_reason_spec(*f),
        r.1 == (f.farm_cards > 1),
{
    let multi_candidate = f.farm_cards > 1;
    if f.farm_cards == 0 {
        return (FarmIllegalReason::CardNotInPlay, multi_candidate);
    }
    if f.workers_free == 0 {
        return (FarmIllegalReason::FreeWorkerUnavailable, multi_candidate);
    }
    let have_ca = f.civil_actions >= 1;
    if !have_ca && !f.build_ca_exempt {
        return (FarmIllegalReason::CivilActionUnavailable, multi_candidate);
    }
    (FarmIllegalReason::ResourcesUnaffordable, multi_candidate)
}

// ---------------------------------------------------------------------
// Why a population increase is not legal
// ---------------------------------------------------------------------

/// Why no population increase is legal.
#[derive(Clone, Copy, Debug, PartialEq, Eq, Structural)]
pub enum PopIllegalReason {
    /// Round 1 allows nothing but taking cards.
    Round1TakeOnly,
    /// No worker left in the yellow bank.
    YellowBankEmpty,
    /// No spendable civil action and no exemption.
    CivilActionUnavailable,
    /// Not enough food for the price.
    FoodUnaffordable,
}

/// What the engine reports about a player that bears on increasing
/// population: the round, the food price (`None` when the yellow bank is
/// empty), whether the player has a free increase each turn and has not
/// used Ocean Liners, workers in the yellow bank, the one-time food
/// discount, food on hand, the undiscounted price, spendable civil actions,
/// and whether a one-time discount waives the civil action.
#[derive(Clone, Copy, Debug)]
pub struct PopFacts {
    pub round: u16,
    pub pop_cost: Option<i32>,
    pub free_pop_per_turn: bool,
    pub ocean_liners_used: bool,
    pub yellow_bank: u8,
    pub pop_food_discount: u8,
    pub food: u8,
    pub pop_cost_base: Option<u8>,
    pub spare_ca: i32,
    pub pop_ca_exempt: bool,
}

/// The free increase granted each turn is available.
pub open spec fn free_pop_arm(f: PopFacts) -> bool {
    f.free_pop_per_turn && !f.ocean_liners_used && f.yellow_bank > 0
}

/// The one-time discount covers the whole price.
pub open spec fn discount_pop_arm(f: PopFacts) -> bool {
    f.yellow_bank > 0 && f.pop_food_discount > 0 && f.food == 0 && match f.pop_cost_base {
        Some(base) => base <= f.pop_food_discount,
        None => false,
    }
}

/// The inputs the classification accepts: it is only asked about a player
/// the move generator offered no increase, so past round 1 with workers in
/// the bank neither free arm is live, and a player with a civil action
/// cannot afford the food.
pub open spec fn pop_facts_consistent(f: PopFacts) -> bool {
    f.round != 1 && f.pop_cost is Some ==> {
        &&& !free_pop_arm(f) && !discount_pop_arm(f)
        &&& (f.spare_ca >= 1 || f.pop_ca_exempt) ==> f.food < f.pop_cost.unwrap()
    }
}

/// The reason no population increase is legal.
pub open spec fn pop_reason_spec(f: PopFacts) -> PopIllegalReason {
    if f.round == 1 {
        PopIllegalReason::Round1TakeOnly
    } else if f.pop_cost is None {
        PopIllegalReason::YellowBankEmpty
    } else if !(f.spare_ca >= 1 || f.pop_ca_exempt) {
        PopIllegalReason::CivilActionUnavailable
    } else {
        PopIllegalReason::FoodUnaffordable
    }
}

/// Why no population increase is legal for a player the move generator
/// offered none.
pub fn classify_pop_illegal(f: &PopFacts) -> (r: PopIllegalReason)
    requires
        pop_facts_consistent(*f),
    ensures
        r == pop_reason_spec(*f),
{
    if f.round == 1 {
        return PopIllegalReason::Round1TakeOnly;
    }
    if f.pop_cost.is_none() {
        return PopIllegalReason::YellowBankEmpty;
    }
    let ca_ok = f.spare_ca >= 1 || f.pop_ca_exempt;
    if !ca_ok {
        return PopIllegalReason::CivilActionUnavailable;
    }
    PopIllegalReason::FoodUnaffordable
}

// ---------------------------------------------------------------------
// Why a development is not legal
// ---------------------------------------------------------------------

/// Why no development is legal.
#[derive(Clone, Copy, Debug, PartialEq, Eq, Structural)]
pub enum DevelopIllegalReason {
    Round1TakeOnly,
    NoEligibleCardInHand,
    CivilActionUnavailable,
    SciencePactPartnersUnavailable,
    ScienceUnaffordable,
}

/// A civil card in hand: its type and its net science cost (`None` when
/// it has none).
#[derive(Clone, Copy, Debug)]
pub struct HandCard {
    pub kind: CardType,
    pub tech_cost: Option<i32>,
}

/// What the engine reports about a player that bears on developing: the
/// round, the civil hand, spendable civil actions, whether a one-time
/// discount waives the civil action, whether science-pact partners can pay
/// their share, and science on hand.
#[derive(Clone, Debug)]
pub struct DevelopFacts {
    pub round: u16,
    pub hand: Vec<HandCard>,
    pub spare_ca: i32,
    pub develop_ca_exempt: bool,
    pub science_pact_ok: bool,
    pub science: u8,
}

/// The hand cards that could ever be developed.
pub open spec fn eligible_cards(hand: Seq<HandCard>) -> Seq<HandCard>
    decreases hand.len(),
{
    if hand.len() == 0 {
        seq![]
    } else {
        let rest = eligible_cards(hand.drop_last());
        if develop_eligible_spec(hand.last().kind) {
            rest.push(hand.last())
        } else {
            rest
        }
    }
}

/// The inputs the classification accepts: it is only asked about a player
/// the move generator offered no development, so once the other checks are
/// clear no eligible card is affordable.
pub open spec fn develop_facts_consistent(f: DevelopFacts) -> bool {
    let el = eligible_cards(f.hand@);
    (f.round != 1 && el.len() > 0 && (f.spare_ca >= 1 || f.develop_ca_exempt) && f.science_pact_ok)
        ==> forall|i: int| 0 <= i < el.len() ==> f.science < match (#[trigger] el[i]).tech_cost {
            Some(c) => c as int,
            None => 0,
        }
}

/// The reason no development is legal.
pub open spec fn develop_reason_spec(f: DevelopFacts) -> DevelopIllegalReason {
    if f.round == 1 {
        DevelopIllegalReason::Round1TakeOnly
    } else if eligible_cards(f.hand@).len() == 0 {
        DevelopIllegalReason::NoEligibleCardInHand
    } else if !(f.spare_ca >= 1 || f.develop_ca_exempt) {
        DevelopIllegalReason::CivilActionUnavailable
    } else if !f.science_pact_ok {
        DevelopIllegalReason::SciencePactPartnersUnavailable
    } else {
        DevelopIllegalReason::ScienceUnaffordable
    }
}

/// Why no development is legal for a player the move generator offered
/// none, and whether the hand holds more than one eligible card.
pub fn classify_develop_illegal(f: &DevelopFacts) -> (r: (DevelopIllegalReason, bool))
    requires
        develop_facts_consistent(*f),
    ensures
        r.0 == develop_reason_spec(*f),
        r.1 == (f.round != 1 && eligible_cards(f.hand@).len() > 1),
{
    if f.round == 1 {
        return (DevelopIllegalReason::Round1TakeOnly, false);
    }
    let mut n_eligible: usize = 0;
    let mut i: usize = 0;
    while i < f.hand.len()
        invariant
            i <= f.hand@.len(),
            n_eligible == eligible_cards(f.hand@.take(i as int)).len(),
            n_eligible <= i,
        decreases f.hand@.len() - i,
    {
        assert(f.hand@.take(i + 1).drop_last() =~= f.hand@.take(i as int));
        if develop_eligible_kind(f.hand[i].kind) {
            n_eligible = n_eligible + 1;
        }
        i = i + 1;
    }
    assert(f.hand@.take(f.hand@.len() as int) =~= f.hand@);
    let multi_candidate = n_eligible > 1;
    if n_eligible == 0 {
        return (DevelopIllegalReason::NoEligibleCardInHand, multi_candidate);
    }
    let ca_ok = f.spare_ca >= 1 || f.develop_ca_exempt;
    if !ca_ok {
        return (DevelopIllegalReason::CivilActionUnavailable, multi_candidate);
    }
    if !f.science_pact_ok {
        return (DevelopIllegalReason::SciencePactPartnersUnavailable, multi_candidate);
    }
    (DevelopIllegalReason::ScienceUnaffordable, multi_candidate)
}

// ---------------------------------------------------------------------
// Reason tallies
// ---------------------------------------------------------------------

/// How often each Farm reason came up.
#[derive(Clone, Copy, Debug, Default)]
pub struct FarmReasonCounts {
    pub no_such_card_in_play: u64,
    pub no_free_worker: u64,
    pub no_civil_action: u64,
    pub no_resources: u64,
}

/// The count of one Farm reason.
pub open spec fn farm_count(c: FarmReasonCounts, r: FarmIllegalReason) -> int {
    match r {
        FarmIllegalReason::CardNotInPlay => c.no_such_card_in_play as int,
        FarmIllegalReason::FreeWorkerUnavailable => c.no_free_worker as int,
        FarmIllegalReason::CivilActionUnavailable => c.no_civil_action as int,
        FarmIllegalReason::ResourcesUnaffordable => c.no_resources as int,
    }
}

impl FarmReasonCounts {
    /// Counts one occurrence of reason `r`.
    pub fn record(&mut self, r: FarmIllegalReason)
        requires
            farm_count(*old(self), r) < u64::MAX,
        ensures
            farm_count(*final(self), r) == farm_count(*old(self), r) + 1,
            forall|j: FarmIllegalReason| j != r ==> farm_count(*final(self), j) == farm_count(*old(self), j),
    {
        match r {
            FarmIllegalReason::CardNotInPlay => self.no_such_card_in_play = self.no_such_card_in_play + 1,
            FarmIllegalReason::FreeWorkerUnavailable => self.no_free_worker = self.no_free_worker + 1,
            FarmIllegalReason::CivilActionUnavailable => self.no_civil_action = self.no_civil_action + 1,
            FarmIllegalReason::ResourcesUnaffordable => self.no_resources = self.no_resources + 1,
        }
    }

    /// Adds another tally into this one.
    pub fn merge(&mut self, o: FarmReasonCounts)
        requires
            forall|r: FarmIllegalReason| farm_count(*old(self), r) + farm_count(o, r) <= u64::MAX,
        ensures
            forall|r: FarmIllegalReason| farm_count(*final(self), r) == farm_count(*old(self), r) + farm_count(o, r),
    {
        assert(farm_count(*self, FarmIllegalReason::CardNotInPlay) + farm_count(o, FarmIllegalReason::CardNotInPlay) <= u64::MAX);
        assert(farm_count(*self, FarmIllegalReason::FreeWorkerUnavailable) + farm_count(o, FarmIllegalReason::FreeWorkerUnavailable) <= u64::MAX);
        assert(farm_count(*self, FarmIllegalReason::CivilActionUnavailable) + farm_count(o, FarmIllegalReason::CivilActionUnavailable) <= u64::MAX);
        assert(farm_count(*self, FarmIllegalReason::ResourcesUnaffordable) + farm_count(o, FarmIllegalReason::ResourcesUnaffordable) <= u64::MAX);
        self.no_such_card_in_play = self.no_such_card_in_play + o.no_such_card_in_play;
        self.no_free_worker = self.no_free_worker + o.no_free_worker;
        self.no_civil_action = self.no_civil_action + o.no_civil_action;
        self.no_resources = self.no_resources + o.no_resources;
        assert forall|r: FarmIllegalReason| farm_count(*self, r) == farm_count(*old(self), r) + farm_count(o, r) by {
            match r {
                FarmIllegalReason::CardNotInPlay => {},
                FarmIllegalReason::FreeWorkerUnavailable => {},
                FarmIllegalReason::CivilActionUnavailable => {},
                FarmIllegalReason::ResourcesUnaffordable => {},
            }
        }
    }
}

/// How often each population reason came up.
#[derive(Clone, Copy, Debug, Default)]
pub struct PopReasonCounts {
    pub round1_take_only: u64,
    pub yellow_bank_empty: u64,
    pub no_civil_action: u64,
    pub no_food: u64,
}

/// The count of one population reason.
pub open spec fn pop_count(c: PopReasonCounts, r: PopIllegalReason) -> int {
    match r {
        PopIllegalReason::Round1TakeOnly => c.round1_take_only as int,
        PopIllegalReason::YellowBankEmpty => c.yellow_bank_empty as int,
        PopIllegalReason::CivilActionUnavailable => c.no_civil_action as int,
        PopIllegalReason::FoodUnaffordable => c.no_food as int,
    }
}

impl PopReasonCounts {
    /// Counts one occurrence of reason `r`.
    pub fn record(&mut self, r: PopIllegalReason)
        requires
            pop_count(*old(self), r) < u64::MAX,
        ensures
            pop_count(*final(self), r) == pop_count(*old(self), r) + 1,
            forall|j: PopIllegalReason| j != r ==> pop_count(*final(self), j) == pop_count(*old(self), j),
    {
        match r {
            PopIllegalReason::Round1TakeOnly => self.round1_take_only = self.round1_take_only + 1,
            PopIllegalReason::YellowBankEmpty => self.yellow_bank_empty = self.yellow_bank_empty + 1,
            PopIllegalReason::CivilActionUnavailable => self.no_civil_action = self.no_civil_action + 1,
            PopIllegalReason::FoodUnaffordable => self.no_food = self.no_food + 1,
        }
    }

    /// Adds another tally into this one.
    pub fn merge(&mut self, o: PopReasonCounts)
        requires
            forall|r: PopIllegalReason| pop_count(*old(self), r) + pop_count(o, r) <= u64::MAX,
        ensures
            forall|r: PopIllegalReason| pop_count(*final(self), r) == pop_count(*old(self), r) + pop_count(o, r),
    {
        assert(pop_count(*self, PopIllegalReason::Round1TakeOnly) + pop_count(o, PopIllegalReason::Round1TakeOnly) <= u64::MAX);
        assert(pop_count(*self, PopIllegalReason::YellowBankEmpty) + pop_count(o, PopIllegalReason::YellowBankEmpty) <= u64::MAX);
        assert(pop_count(*self, PopIllegalReason::CivilActionUnavailable) + pop_count(o, PopIllegalReason::CivilActionUnavailable) <= u64::MAX);
        assert(pop_count(*self, PopIllegalReason::FoodUnaffordable) + pop_count(o, PopIllegalReason::FoodUnaffordable) <= u64::MAX);
        self.round1_take_only = self.round1_take_only + o.round1_take_only;
        self.yellow_bank_empty = self.yellow_bank_empty + o.yellow_bank_empty;
        self.no_civil_action = self.no_civil_action + o.no_civil_action;
        self.no_food = self.no_food + o.no_food;
        assert forall|r: PopIllegalReason| pop_count(*self, r) == pop_count(*old(self), r) + pop_count(o, r) by {
            match r {
                PopIllegalReason::Round1TakeOnly => {},
                PopIllegalReason::YellowBankEmpty => {},
                PopIllegalReason::CivilActionUnavailable => {},
                PopIllegalReason::FoodUnaffordable => {},
            }
        }
    }
}

/// How often each development reason came up.
#[derive(Clone, Copy, Debug, Default)]
pub struct DevelopReasonCounts {
    pub round1_take_only: u64,
    pub no_eligible_card: u64,
    pub no_civil_action: u64,
    pub no_science_pact_partners: u64,
    pub no_science: u64,
}

/// The count of one development reason.
pub open spec fn develop_count(c: DevelopReasonCounts, r: DevelopIllegalReason) -> int {
    match r {
        DevelopIllegalReason::Round1TakeOnly => c.round1_take_only as int,
        DevelopIllegalReason::NoEligibleCardInHand => c.no_eligible_card as int,
        DevelopIllegalReason::CivilActionUnavailable => c.no_civil_action as int,
        DevelopIllegalReason::SciencePactPartnersUnavailable => c.no_science_pact_partners as int,
        DevelopIllegalReason::ScienceUnaffordable => c.no_science as int,
    }
}

impl DevelopReasonCounts {
    /// Counts one occurrence of reason `r`.
    pub fn record(&mut self, r: DevelopIllegalReason)
        requires
            develop_count(*old(self), r) < u64::MAX,
        ensures
            develop_count(*final(self), r) == develop_count(*old(self), r) + 1,
            forall|j: DevelopIllegalReason| j != r ==> develop_count(*final(self), j) == develop_count(*old(self), j),
    {
        match r {
            DevelopIllegalReason::Round1TakeOnly => self.round1_take_only = self.round1_take_only + 1,
            DevelopIllegalReason::NoEligibleCardInHand => self.no_eligible_card = self.no_eligible_card + 1,
            DevelopIllegalReason::CivilActionUnavailable => self.no_civil_action = self.no_civil_action + 1,
            DevelopIllegalReason::SciencePactPartnersUnavailable => self.no_science_pact_partners = self.no_science_pact_partners + 1,
            DevelopIllegalReason::ScienceUnaffordable => self.no_science = self.no_science + 1,
        }
    }

    /// Adds another tally into this one.
    pub fn merge(&mut self, o: DevelopReasonCounts)
        requires
            forall|r: DevelopIllegalReason| develop_count(*old(self), r) + develop_count(o, r) <= u64::MAX,
        ensures
            forall|r: DevelopIllegalReason| develop_count(*final(self), r) == develop_count(*old(self), r) + develop_count(o, r),
    {
        assert(develop_count(*self, DevelopIllegalReason::Round1TakeOnly) + develop_count(o, DevelopIllegalReason::Round1TakeOnly) <= u64::MAX);
        assert(develop_count(*self, DevelopIllegalReason::NoEligibleCardInHand) + develop_count(o, DevelopIllegalReason::NoEligibleCardInHand) <= u64::MAX);
        assert(develop_count(*self, DevelopIllegalReason::CivilActionUnavailable) + develop_count(o, DevelopIllegalReason::CivilActionUnavailable) <= u64::MAX);
        assert(develop_count(*self, DevelopIllegalReason::SciencePactPartnersUnavailable) + develop_count(o, DevelopIllegalReason::SciencePactPartnersUnavailable) <= u64::MAX);
        assert(develop_count(*self, DevelopIllegalReason::ScienceUnaffordable) + develop_count(o, DevelopIllegalReason::ScienceUnaffordable) <= u64::MAX);
        self.round1_take_only = self.round1_take_only + o.round1_take_only;
        self.no_eligible_card = self.no_eligible_card + o.no_eligible_card;
        self.no_civil_action = self.no_civil_action + o.no_civil_action;
        self.no_science_pact_partners = self.no_science_pact_partners + o.no_science_pact_partners;
        self.no_science = self.no_science + o.no_science;
        assert forall|r: DevelopIllegalReason| develop_count(*self, r) == develop_count(*old(self), r) + develop_count(o, r) by {
            match r {
                DevelopIllegalReason::Round1TakeOnly => {},
                DevelopIllegalReason::NoEligibleCardInHand => {},
                DevelopIllegalReason::CivilActionUnavailable => {},
                DevelopIllegalReason::SciencePactPartnersUnavailable => {},
                DevelopIllegalReason::ScienceUnaffordable => {},
            }
        }
    }
}

// ---------------------------------------------------------------------
// The report
// ---------------------------------------------------------------------

/// Everything the probe measures, summed over games.
#[derive(Clone, Debug, Default)]
pub struct Report {
    pub games: u64,
    pub decisions: u64,
    pub action_points: ActionPointStats,
    pub top_kind: DecisionKindCounts,
    pub build_rank: BuildRankSamples,
    pub build_presence: BuildPresenceCounts,
    pub farm_legal: u64,
    pub farm_illegal: u64,
    pub farm_illegal_reason: FarmReasonCounts,
    pub farm_illegal_multi_candidate: u64,
    pub pop_legal: u64,
    pub pop_illegal: u64,
    pub pop_illegal_reason: PopReasonCounts,
    pub pop_rank: Vec<u32>,
    pub pop_legal_not_chosen_top_kind: DecisionKindCounts,
    pub develop_legal: u64,
    pub develop_illegal: u64,
    pub develop_illegal_reason: DevelopReasonCounts,
    pub develop_illegal_multi_candidate: u64,
    pub develop_rank: Vec<u32>,
    pub develop_legal_not_chosen_top_kind: DecisionKindCounts,
}

/// What the engine reports about the decider at one decision point.
#[derive(Clone, Debug)]
pub struct DecisionFacts {
    pub farm: FarmFacts,
    pub pop: PopFacts,
    pub develop: DevelopFacts,
}

/// Every decision is counted once as a legal or an illegal Farm build, once
/// as a legal or an illegal population increase, once as a legal or an
/// illegal development, and once under its chosen kind; every illegal one is
/// counted under exactly one reason; and every legal population increase
/// and development left exactly one rank sample.
pub open spec fn report_balanced(r: Report) -> bool {
    &&& r.farm_legal + r.farm_illegal == r.decisions
    &&& r.pop_legal + r.pop_illegal == r.decisions
    &&& r.develop_legal + r.develop_illegal == r.decisions
    &&& dk_total(r.top_kind) == r.decisions
    &&& farm_count(r.farm_illegal_reason, FarmIllegalReason::CardNotInPlay) + farm_count(
        r.farm_illegal_reason,
        FarmIllegalReason::FreeWorkerUnavailable,
    ) + farm_count(r.farm_illegal_reason, FarmIllegalReason::CivilActionUnavailable) + farm_count(
        r.farm_illegal_reason,
        FarmIllegalReason::ResourcesUnaffordable,
    ) == r.farm_illegal
    &&& pop_count(r.pop_illegal_reason, PopIllegalReason::Round1TakeOnly) + pop_count(
        r.pop_illegal_reason,
        PopIllegalReason::YellowBankEmpty,
    ) + pop_count(r.pop_illegal_reason, PopIllegalReason::CivilActionUnavailable) + pop_count(
        r.pop_illegal_reason,
        PopIllegalReason::FoodUnaffordable,
    ) == r.pop_illegal
    &&& develop_count(r.develop_illegal_reason, DevelopIllegalReason::Round1TakeOnly)
        + develop_count(r.develop_illegal_reason, DevelopIllegalReason::NoEligibleCardInHand)
        + develop_count(r.develop_illegal_reason, DevelopIllegalReason::CivilActionUnavailable)
        + develop_count(
        r.develop_illegal_reason,
        DevelopIllegalReason::SciencePactPartnersUnavailable,
    ) + develop_count(r.develop_illegal_reason, DevelopIllegalReason::ScienceUnaffordable)
        == r.develop_illegal
    &&& r.pop_rank@.len() == r.pop_legal
    &&& r.develop_rank@.len() == r.develop_legal
}

proof fn lemma_dk_counted_total(n: DecisionKindCounts, o: DecisionKindCounts, d: DecisionKind)
    requires
        dk_counted(n, o, d),
    ensures
        dk_total(n) == dk_total(o) + 1,
{
    assert(dk_count(n, DecisionKind::Take) == dk_count(o, DecisionKind::Take) + if d == DecisionKind::Take { 1int } else { 0 });
    assert(dk_count(n, DecisionKind::BuildFarm) == dk_count(o, DecisionKind::BuildFarm) + if d == DecisionKind::BuildFarm { 1int } else { 0 });
    assert(dk_count(n, DecisionKind::BuildMine) == dk_count(o, DecisionKind::BuildMine) + if d == DecisionKind::BuildMine { 1int } else { 0 });
    assert(dk_count(n, DecisionKind::BuildUrban) == dk_count(o, DecisionKind::BuildUrban) + if d == DecisionKind::BuildUrban { 1int } else { 0 });
    assert(dk_count(n, DecisionKind::BuildMilitary) == dk_count(o, DecisionKind::BuildMilitary) + if d == DecisionKind::BuildMilitary { 1int } else { 0 });
    assert(dk_count(n, DecisionKind::Develop) == dk_count(o, DecisionKind::Develop) + if d == DecisionKind::Develop { 1int } else { 0 });
    assert(dk_count(n, DecisionKind::Upgrade) == dk_count(o, DecisionKind::Upgrade) + if d == DecisionKind::Upgrade { 1int } else { 0 });
    assert(dk_count(n, DecisionKind::WonderStep) == dk_count(o, DecisionKind::WonderStep) + if d == DecisionKind::WonderStep { 1int } else { 0 });
    assert(dk_count(n, DecisionKind::Pop) == dk_count(o, DecisionKind::Pop) + if d == DecisionKind::Pop { 1int } else { 0 });
    assert(dk_count(n, DecisionKind::Leader) == dk_count(o, DecisionKind::Leader) + if d == DecisionKind::Leader { 1int } else { 0 });
    assert(dk_count(n, DecisionKind::ActionCard) == dk_count(o, DecisionKind::ActionCard) + if d == DecisionKind::ActionCard { 1int } else { 0 });
    assert(dk_count(n, DecisionKind::EndTurn) == dk_count(o, DecisionKind::EndTurn) + if d == DecisionKind::EndTurn { 1int } else { 0 });
    assert(dk_count(n, DecisionKind::Other) == dk_count(o, DecisionKind::Other) + if d == DecisionKind::Other { 1int } else { 0 });
}

proof fn lemma_dk_sum_total(n: DecisionKindCounts, a: DecisionKindCounts, b: DecisionKindCounts)
    requires
        dk_sum_of(n, a, b),
    ensures
        dk_total(n) == dk_total(a) + dk_total(b),
{
    assert(dk_count(n, DecisionKind::Take) == dk_count(a, DecisionKind::Take) + dk_count(b, DecisionKind::Take));
    assert(dk_count(n, DecisionKind::BuildFarm) == dk_count(a, DecisionKind::BuildFarm) + dk_count(b, DecisionKind::BuildFarm));
    assert(dk_count(n, DecisionKind::BuildMine) == dk_count(a, DecisionKind::BuildMine) + dk_count(b, DecisionKind::BuildMine));
    assert(dk_count(n, DecisionKind::BuildUrban) == dk_count(a, DecisionKind::BuildUrban) + dk_count(b, DecisionKind::BuildUrban));
    assert(dk_count(n, DecisionKind::BuildMilitary) == dk_count(a, DecisionKind::BuildMilitary) + dk_count(b, DecisionKind::BuildMilitary));
    assert(dk_count(n, DecisionKind::Develop) == dk_count(a, DecisionKind::Develop) + dk_count(b, DecisionKind::Develop));
    assert(dk_count(n, DecisionKind::Upgrade) == dk_count(a, DecisionKind::Upgrade) + dk_count(b, DecisionKind::Upgrade));
    assert(dk_count(n, DecisionKind::WonderStep) == dk_count(a, DecisionKind::WonderStep) + dk_count(b, DecisionKind::WonderStep));
    assert(dk_count(n, DecisionKind::Pop) == dk_count(a, DecisionKind::Pop) + dk_count(b, DecisionKind::Pop));
    assert(dk_count(n, DecisionKind::Leader) == dk_count(a, DecisionKind::Leader) + dk_count(b, DecisionKind::Leader));
    assert(dk_count(n, DecisionKind::ActionCard) == dk_count(a, DecisionKind::ActionCard) + dk_count(b, DecisionKind::ActionCard));
    assert(dk_count(n, DecisionKind::EndTurn) == dk_count(a, DecisionKind::EndTurn) + dk_count(b, DecisionKind::EndTurn));
    assert(dk_count(n, DecisionKind::Other) == dk_count(a, DecisionKind::Other) + dk_count(b, DecisionKind::Other));
}

proof fn lemma_recording_keeps_balance(
    n: Report,
    o: Report,
    facts: DecisionFacts,
    legal: Seq<Move>,
    ranked: Seq<Move>,
)
    requires
        ranked.len() > 0,
        n.decisions == o.decisions + 1,
        dk_counted(n.top_kind, o.top_kind, decision_kind_spec(ranked[0])),
        farm_recorded(n, o, facts.farm, legal),
        pop_recorded(n, o, facts.pop, legal, ranked),
        develop_recorded(n, o, facts.develop, legal, ranked),
    ensures
        report_balanced(o) ==> report_balanced(n),
{
    lemma_dk_counted_total(n.top_kind, o.top_kind, decision_kind_spec(ranked[0]));
}

proof fn lemma_merging_keeps_balance(n: Report, a: Report, b: Report)
    requires
        report_sum_of(n, a, b),
    ensures
        report_balanced(a) && report_balanced(b) ==> report_balanced(n),
{
    lemma_dk_sum_total(n.top_kind, a.top_kind, b.top_kind);
}

/// Index of the first move at or after `i` that is a build of kind `k`, or
/// `ranked.len()`.
pub open spec fn first_build_pos(ranked: Seq<Move>, k: BuildKind, i: int) -> int
    decreases ranked.len() - i,
{
    if i >= ranked.len() || i < 0 {
        ranked.len() as int
    } else if probe_build_kind_spec(ranked[i]) == Some(k) {
        i
    } else {
        first_build_pos(ranked, k, i + 1)
    }
}

/// Index of the first move at or after `i` of decision kind `d`, or
/// `ranked.len()`.
pub open spec fn first_kind_pos(ranked: Seq<Move>, d: DecisionKind, i: int) -> int
    decreases ranked.len() - i,
{
    if i >= ranked.len() || i < 0 {
        ranked.len() as int
    } else if decision_kind_spec(ranked[i]) == d {
        i
    } else {
        first_kind_pos(ranked, d, i + 1)
    }
}

/// Some legal move builds a Farm-type card.
pub open spec fn farm_build_legal(legal: Seq<Move>) -> bool {
    exists|i: int| 0 <= i < legal.len() && (#[trigger] legal[i] matches Move::Build { card } && card.kind == CardType::Farm)
}

/// Some legal move is of decision kind `d`.
pub open spec fn kind_legal(legal: Seq<Move>, d: DecisionKind) -> bool {
    exists|i: int| 0 <= i < legal.len() && decision_kind_spec(#[trigger] legal[i]) == d
}

/// The decision point is one the probe can record: the bot ranked every
/// legal move (so `ranked` is non-empty and holds each of them), every
/// build targets a worker-taking card, and the engine's facts agree with
/// the move list.
pub open spec fn decision_recordable(facts: DecisionFacts, legal: Seq<Move>, ranked: Seq<Move>) -> bool {
    &&& ranked.len() > 0
    &&& forall|i: int| 0 <= i < ranked.len() ==> well_formed_move(#[trigger] ranked[i])
    &&& forall|i: int| 0 <= i < legal.len() ==> well_formed_move(#[trigger] legal[i])
    &&& forall|i: int| 0 <= i < legal.len() ==> exists|j: int| 0 <= j < ranked.len() && ranked[j] == #[trigger] legal[i]
    &&& !farm_build_legal(legal) ==> farm_facts_consistent(facts.farm)
    &&& !kind_legal(legal, DecisionKind::Pop) ==> pop_facts_consistent(facts.pop)
    &&& !kind_legal(legal, DecisionKind::Develop) ==> develop_facts_consistent(facts.develop)
}

/// Room in every counter one recorded decision can touch.
pub open spec fn report_has_room(r: Report) -> bool {
    &&& r.decisions < u64::MAX
    &&& dk_below(r.top_kind, u64::MAX as int)
    &&& presence_has_room(r.build_presence)
    &&& r.farm_legal < u64::MAX
    &&& r.farm_illegal < u64::MAX
    &&& forall|x: FarmIllegalReason| farm_count(r.farm_illegal_reason, x) < u64::MAX
    &&& r.farm_illegal_multi_candidate < u64::MAX
    &&& r.pop_legal < u64::MAX
    &&& r.pop_illegal < u64::MAX
    &&& forall|x: PopIllegalReason| pop_count(r.pop_illegal_reason, x) < u64::MAX
    &&& dk_below(r.pop_legal_not_chosen_top_kind, u64::MAX as int)
    &&& r.develop_legal < u64::MAX
    &&& r.develop_illegal < u64::MAX
    &&& forall|x: DevelopIllegalReason| develop_count(r.develop_illegal_reason, x) < u64::MAX
    &&& r.develop_illegal_multi_candidate < u64::MAX
    &&& dk_below(r.develop_legal_not_chosen_top_kind, u64::MAX as int)
}

/// A decision-kind tally after counting `d` once.
pub open spec fn dk_counted(n: DecisionKindCounts, o: DecisionKindCounts, d: DecisionKind) -> bool {
    &&& dk_count(n, d) == dk_count(o, d) + 1
    &&& forall|j: DecisionKind| j != d ==> dk_count(n, j) == dk_count(o, j)
}

/// The rank of a position, as the report stores it.
pub open spec fn rank_of(pos: int) -> u32 {
    (pos + 1) as u32
}

/// The build items of one recorded decision: for each build kind, its first
/// position among the ranked moves counts as present with that rank, or as
/// absent when no move of the kind was ranked.
pub open spec fn builds_recorded(n: Report, o: Report, ranked: Seq<Move>) -> bool {
    forall|k: BuildKind| #[trigger] build_recorded(n, o, ranked, k)
}

/// The Farm item of one recorded decision.
pub open spec fn farm_recorded(n: Report, o: Report, f: FarmFacts, legal: Seq<Move>) -> bool {
    if farm_build_legal(legal) {
        &&& n.farm_legal == o.farm_legal + 1
        &&& n.farm_illegal == o.farm_illegal
        &&& n.farm_illegal_reason == o.farm_illegal_reason
        &&& n.farm_illegal_multi_candidate == o.farm_illegal_multi_candidate
    } else {
        let reason = farm_reason_spec(f);
        &&& n.farm_legal == o.farm_legal
        &&& n.farm_illegal == o.farm_illegal + 1
        &&& farm_count(n.farm_illegal_reason, reason) == farm_count(o.farm_illegal_reason, reason) + 1
        &&& forall|j: FarmIllegalReason| j != reason ==> farm_count(n.farm_illegal_reason, j) == farm_count(o.farm_illegal_reason, j)
        &&& n.farm_illegal_multi_candidate == o.farm_illegal_multi_candidate + (if f.farm_cards > 1 { 1int } else { 0 })
    }
}

/// The population item of one recorded decision.
pub open spec fn pop_recorded(n: Report, o: Report, f: PopFacts, legal: Seq<Move>, ranked: Seq<Move>) -> bool {
    let top = decision_kind_spec(ranked[0]);
    if kind_legal(legal, DecisionKind::Pop) {
        &&& n.pop_legal == o.pop_legal + 1
        &&& n.pop_illegal == o.pop_illegal
        &&& n.pop_illegal_reason == o.pop_illegal_reason
        &&& n.pop_rank@ == o.pop_rank@.push(rank_of(first_kind_pos(ranked, DecisionKind::Pop, 0)))
        &&& if top != DecisionKind::Pop {
            dk_counted(n.pop_legal_not_chosen_top_kind, o.pop_legal_not_chosen_top_kind, top)
        } else {
            n.pop_legal_not_chosen_top_kind == o.pop_legal_not_chosen_top_kind
        }
    } else {
        let reason = pop_reason_spec(f);
        &&& n.pop_legal == o.pop_legal
        &&& n.pop_illegal == o.pop_illegal + 1
        &&& pop_count(n.pop_illegal_reason, reason) == pop_count(o.pop_illegal_reason, reason) + 1
        &&& forall|j: PopIllegalReason| j != reason ==> pop_count(n.pop_illegal_reason, j) == pop_count(o.pop_illegal_reason, j)
        &&& n.pop_rank@ == o.pop_rank@
        &&& n.pop_legal_not_chosen_top_kind == o.pop_legal_not_chosen_top_kind
    }
}

/// The development item of one recorded decision.
pub open spec fn develop_recorded(n: Report, o: Report, f: DevelopFacts, legal: Seq<Move>, ranked: Seq<Move>) -> bool {
    let top = decision_kind_spec(ranked[0]);
    if kind_legal(legal, DecisionKind::Develop) {
        &&& n.develop_legal == o.develop_legal + 1
        &&& n.develop_illegal == o.develop_illegal
        &&& n.develop_illegal_reason == o.develop_illegal_reason
        &&& n.develop_illegal_multi_candidate == o.develop_illegal_multi_candidate
        &&& n.develop_rank@ == o.develop_rank@.push(rank_of(first_kind_pos(ranked, DecisionKind::Develop, 0)))
        &&& if top != DecisionKind::Develop {
            dk_counted(n.develop_legal_not_chosen_top_kind, o.develop_legal_not_chosen_top_kind, top)
        } else {
            n.develop_legal_not_chosen_top_kind == o.develop_legal_not_chosen_top_kind
        }
    } else {
        let reason = develop_reason_spec(f);
        &&& n.develop_legal == o.develop_legal
        &&& n.develop_illegal == o.develop_illegal + 1
        &&& develop_count(n.develop_illegal_reason, reason) == develop_count(o.develop_illegal_reason, reason) + 1
        &&& forall|j: DevelopIllegalReason| j != reason ==> develop_count(n.develop_illegal_reason, j) == develop_count(o.develop_illegal_reason, j)
        &&& n.develop_illegal_multi_candidate == o.develop_illegal_multi_candidate
            + (if f.round != 1 && eligible_cards(f.hand@).len() > 1 { 1int } else { 0 })
        &&& n.develop_rank@ == o.develop_rank@
        &&& n.develop_legal_not_chosen_top_kind == o.develop_legal_not_chosen_top_kind
    }
}

proof fn lemma_first_kind_pos(ranked: Seq<Move>, d: DecisionKind, i: int)
    requires
        0 <= i <= ranked.len(),
    ensures
        i <= first_kind_pos(ranked, d, i) <= ranked.len(),
        first_kind_pos(ranked, d, i) < ranked.len() ==> decision_kind_spec(ranked[first_kind_pos(ranked, d, i)]) == d,
        forall|j: int| i <= j < first_kind_pos(ranked, d, i) ==> decision_kind_spec(#[trigger] ranked[j]) != d,
    decreases ranked.len() - i,
{
    if i < ranked.len() && decision_kind_spec(ranked[i]) != d {
        lemma_first_kind_pos(ranked, d, i + 1);
    }
}

/// The position of the first ranked move of decision kind `d`, if any.
fn position_of_kind(ranked: &[Move], d: DecisionKind) -> (r: Option<usize>)
    requires
        forall|i: int| 0 <= i < ranked@.len() ==> well_formed_move(#[trigger] ranked@[i]),
    ensures
        match r {
            Some(p) => p == first_kind_pos(ranked@, d, 0) && p < ranked@.len(),
            None => first_kind_pos(ranked@, d, 0) == ranked@.len(),
        },
{
    let mut i: usize = 0;
    while i < ranked.len()
        invariant
            i <= ranked@.len(),
            forall|j: int| 0 <= j < ranked@.len() ==> well_formed_move(#[trigger] ranked@[j]),
            first_kind_pos(ranked@, d, 0) == first_kind_pos(ranked@, d, i as int),
        decreases ranked@.len() - i,
    {
        if decision_kind(ranked[i]) == d {
            return Some(i);
        }
        i = i + 1;
    }
    None
}

/// The position of the first ranked build of kind `k`, if any.
fn position_of_build(ranked: &[Move], k: BuildKind) -> (r: Option<usize>)
    requires
        forall|i: int| 0 <= i < ranked@.len() ==> well_formed_move(#[trigger] ranked@[i]),
    ensures
        match r {
            Some(p) => p == first_build_pos(ranked@, k, 0) && p < ranked@.len(),
            None => first_build_pos(ranked@, k, 0) == ranked@.len(),
        },
{
    let mut i: usize = 0;
    while i < ranked.len()
        invariant
            i <= ranked@.len(),
            forall|j: int| 0 <= j < ranked@.len() ==> well_formed_move(#[trigger] ranked@[j]),
            first_build_pos(ranked@, k, 0) == first_build_pos(ranked@, k, i as int),
        decreases ranked@.len() - i,
    {
        if probe_build_kind(ranked[i]) == Some(k) {
            return Some(i);
        }
        i = i + 1;
    }
    None
}

/// Whether some legal move builds a Farm-type card.
fn any_farm_build(legal: &[Move]) -> (r: bool)
    ensures
        r == farm_build_legal(legal@),
{
    let mut i: usize = 0;
    while i < legal.len()
        invariant
            i <= legal@.len(),
            forall|j: int| 0 <= j < i ==> !(#[trigger] legal@[j] matches Move::Build { card } && card.kind == CardType::Farm),
        decreases legal@.len() - i,
    {
        match legal[i] {
            Move::Build { card } => {
                if card.kind == CardType::Farm {
                    return true;
                }
            },
            _ => {},
        }
        i = i + 1;
    }
    false
}

/// Whether some legal move is of decision kind `d`.
fn any_of_kind(legal: &[Move], d: DecisionKind) -> (r: bool)
    requires
        forall|i: int| 0 <= i < legal@.len() ==> well_formed_move(#[trigger] legal@[i]),
    ensures
        r == kind_legal(legal@, d),
{
    let mut i: usize = 0;
    while i < legal.len()
        invariant
            i <= legal@.len(),
            forall|j: int| 0 <= j < legal@.len() ==> well_formed_move(#[trigger] legal@[j]),
            forall|j: int| 0 <= j < i ==> decision_kind_spec(#[trigger] legal@[j]) != d,
        decreases legal@.len() - i,
    {
        if decision_kind(legal[i]) == d {
            return true;
        }
        i = i + 1;
    }
    false
}

/// The build item for kind `k`, over the two tallies it touches.
pub open spec fn build_parts_recorded(
    np: BuildPresenceCounts,
    op: BuildPresenceCounts,
    nr: BuildRankSamples,
    or: BuildRankSamples,
    ranked: Seq<Move>,
    k: BuildKind,
) -> bool {
    let p = first_build_pos(ranked, k, 0);
    if p < ranked.len() {
        &&& presence(np, k) == ((presence(op, k).0 + 1) as u64, presence(op, k).1)
        &&& rank_samples(nr, k) == rank_samples(or, k).push(rank_of(p))
    } else {
        &&& presence(np, k) == (presence(op, k).0, (presence(op, k).1 + 1) as u64)
        &&& rank_samples(nr, k) == rank_samples(or, k)
    }
}

/// The build item for kind `k`: present with its rank, or absent.
pub open spec fn build_recorded(n: Report, o: Report, ranked: Seq<Move>, k: BuildKind) -> bool {
    build_parts_recorded(n.build_presence, o.build_presence, n.build_rank, o.build_rank, ranked, k)
}

/// Records the build item of one decision point for one kind.
fn record_one_build(
    presence_counts: &mut BuildPresenceCounts,
    ranks: &mut BuildRankSamples,
    ranked: &[Move],
    k: BuildKind,
)
    requires
        forall|i: int| 0 <= i < ranked@.len() ==> well_formed_move(#[trigger] ranked@[i]),
        presence(*old(presence_counts), k).0 < u64::MAX,
        presence(*old(presence_counts), k).1 < u64::MAX,
    ensures
        build_parts_recorded(*final(presence_counts), *old(presence_counts), *final(ranks), *old(ranks), ranked@, k),
        forall|j: BuildKind| j != k ==> presence(*final(presence_counts), j) == presence(*old(presence_counts), j)
            && rank_samples(*final(ranks), j) == rank_samples(*old(ranks), j),
{
    match position_of_build(ranked, k) {
        Some(pos) => {
            let n = ranked.len();
            assert(pos < n);
            presence_counts.record(k, true);
            ranks.record(k, #[verifier::truncate] ((pos + 1) as u32));
        },
        None => {
            presence_counts.record(k, false);
        },
    }
}

/// Records the build-rank item of one decision point, for all five kinds.
fn record_builds(presence_counts: &mut BuildPresenceCounts, ranks: &mut BuildRankSamples, ranked: &[Move])
    requires
        forall|i: int| 0 <= i < ranked@.len() ==> well_formed_move(#[trigger] ranked@[i]),
        presence_has_room(*old(presence_counts)),
    ensures
        forall|k: BuildKind| #[trigger] build_parts_recorded(*final(presence_counts), *old(presence_counts), *final(ranks), *old(ranks), ranked@, k),
{
    let ghost op = *presence_counts;
    let ghost or = *ranks;
    assert(presence(op, BuildKind::Farm).0 < u64::MAX && presence(op, BuildKind::Farm).1 < u64::MAX);
    assert(presence(op, BuildKind::Mine).0 < u64::MAX && presence(op, BuildKind::Mine).1 < u64::MAX);
    assert(presence(op, BuildKind::Urban).0 < u64::MAX && presence(op, BuildKind::Urban).1 < u64::MAX);
    assert(presence(op, BuildKind::Military).0 < u64::MAX && presence(op, BuildKind::Military).1 < u64::MAX);
    assert(presence(op, BuildKind::WonderStep).0 < u64::MAX && presence(op, BuildKind::WonderStep).1 < u64::MAX);
    let kinds = all_build_kinds();
    record_one_build(presence_counts, ranks, ranked, kinds[0]);
    record_one_build(presence_counts, ranks, ranked, kinds[1]);
    record_one_build(presence_counts, ranks, ranked, kinds[2]);
    record_one_build(presence_counts, ranks, ranked, kinds[3]);
    record_one_build(presence_counts, ranks, ranked, kinds[4]);
    assert forall|k: BuildKind| #[trigger] build_parts_recorded(*presence_counts, op, *ranks, or, ranked@, k) by {
        match k {
            BuildKind::Farm => {},
            BuildKind::Mine => {},
            BuildKind::Urban => {},
            BuildKind::Military => {},
            BuildKind::WonderStep => {},
        }
    }
}

/// Records one of the decider's own decision points: the kind of the
/// chosen (top-ranked) move, the rank of each build-shaped kind, and for
/// Farm builds, population increases and developments whether one was
/// legal, and if not why, and if so its rank and what won instead.
/// `legal` is the move list the engine offered; `ranked` the same moves in
/// the bot's preference order, best first.
pub fn record_decision(report: &mut Report, facts: &DecisionFacts, legal: &[Move], ranked: &[Move])
    requires
        decision_recordable(*facts, legal@, ranked@),
        report_has_room(*old(report)),
    ensures
        final(report).games == old(report).games,
        final(report).decisions == old(report).decisions + 1,
        final(report).action_points == old(report).action_points,
        dk_counted(final(report).top_kind, old(report).top_kind, decision_kind_spec(ranked@[0])),
        builds_recorded(*final(report), *old(report), ranked@),
        farm_recorded(*final(report), *old(report), facts.farm, legal@),
        pop_recorded(*final(report), *old(report), facts.pop, legal@, ranked@),
        develop_recorded(*final(report), *old(report), facts.develop, legal@, ranked@),
        report_balanced(*old(report)) ==> report_balanced(*final(report)),
{
    let ghost o = *report;
    report.decisions = report.decisions + 1;
    let top_kind = decision_kind(ranked[0]);
    assert(dk_count(report.top_kind, top_kind) < u64::MAX);
    report.top_kind.record(top_kind);
    record_builds(&mut report.build_presence, &mut report.build_rank, ranked);

    // Farm builds.
    if any_farm_build(legal) {
        report.farm_legal = report.farm_legal + 1;
    } else {
        report.farm_illegal = report.farm_illegal + 1;
        let (reason, multi) = classify_farm_illegal(&facts.farm);
        assert(farm_count(report.farm_illegal_reason, reason) < u64::MAX);
        report.farm_illegal_reason.record(reason);
        if multi {
            report.farm_illegal_multi_candidate = report.farm_illegal_multi_candidate + 1;
        }
    }

    // Population increases.
    if any_of_kind(legal, DecisionKind::Pop) {
        report.pop_legal = report.pop_legal + 1;
        proof {
            let i = choose|i: int| 0 <= i < legal@.len() && decision_kind_spec(#[trigger] legal@[i]) == DecisionKind::Pop;
            let j = choose|j: int| 0 <= j < ranked@.len() && ranked@[j] == legal@[i];
            lemma_first_kind_pos(ranked@, DecisionKind::Pop, 0);
        }
        match position_of_kind(ranked, DecisionKind::Pop) {
            Some(pos) => {
                let n = ranked.len();
                assert(pos < n);
                report.pop_rank.push(#[verifier::truncate] ((pos + 1) as u32));
            },
            None => {
                proof {
                    let i = choose|i: int| 0 <= i < legal@.len() && decision_kind_spec(#[trigger] legal@[i]) == DecisionKind::Pop;
                    let j = choose|j: int| 0 <= j < ranked@.len() && ranked@[j] == legal@[i];
                    assert(decision_kind_spec(ranked@[j]) == DecisionKind::Pop);
                }
            },
        }
        if top_kind != DecisionKind::Pop {
            assert(dk_count(report.pop_legal_not_chosen_top_kind, top_kind) < u64::MAX);
            report.pop_legal_not_chosen_top_kind.record(top_kind);
        }
    } else {
        report.pop_illegal = report.pop_illegal + 1;
        let reason = classify_pop_illegal(&facts.pop);
        assert(pop_count(report.pop_illegal_reason, reason) < u64::MAX);
        report.pop_illegal_reason.record(reason);
    }

    // Developments.
    if any_of_kind(legal, DecisionKind::Develop) {
        report.develop_legal = report.develop_legal + 1;
        match position_of_kind(ranked, DecisionKind::Develop) {
            Some(pos) => {
                let n = ranked.len();
                assert(pos < n);
                report.develop_rank.push(#[verifier::truncate] ((pos + 1) as u32));
            },
            None => {
                proof {
                    let i = choose|i: int| 0 <= i < legal@.len() && decision_kind_spec(#[trigger] legal@[i]) == DecisionKind::Develop;
                    let j = choose|j: int| 0 <= j < ranked@.len() && ranked@[j] == legal@[i];
                    lemma_first_kind_pos(ranked@, DecisionKind::Develop, 0);
                    assert(decision_kind_spec(ranked@[j]) == DecisionKind::Develop);
                }
            },
        }
        if top_kind != DecisionKind::Develop {
            assert(dk_count(report.develop_legal_not_chosen_top_kind, top_kind) < u64::MAX);
            report.develop_legal_not_chosen_top_kind.record(top_kind);
        }
    } else {
        report.develop_illegal = report.develop_illegal + 1;
        let (reason, multi) = classify_develop_illegal(&facts.develop);
        assert(develop_count(report.develop_illegal_reason, reason) < u64::MAX);
        report.develop_illegal_reason.record(reason);
        if multi {
            report.develop_illegal_multi_candidate = report.develop_illegal_multi_candidate + 1;
        }
    }
    proof {
        lemma_recording_keeps_balance(*report, o, *facts, legal@, ranked@);
    }
}

/// Room to add two decision-kind tallies.
pub open spec fn dk_can_merge(a: DecisionKindCounts, b: DecisionKindCounts) -> bool {
    forall|k: DecisionKind| dk_count(a, k) + dk_count(b, k) <= u64::MAX
}

/// Room to add two reports field by field.
pub open spec fn report_can_merge(a: Report, b: Report) -> bool {
    &&& a.games + b.games <= u64::MAX
    &&& a.decisions + b.decisions <= u64::MAX
    &&& ap_can_merge(a.action_points, b.action_points)
    &&& dk_can_merge(a.top_kind, b.top_kind)
    &&& forall|k: BuildKind| presence(a.build_presence, k).0 + presence(b.build_presence, k).0 <= u64::MAX
        && presence(a.build_presence, k).1 + presence(b.build_presence, k).1 <= u64::MAX
    &&& a.farm_legal + b.farm_legal <= u64::MAX
    &&& a.farm_illegal + b.farm_illegal <= u64::MAX
    &&& forall|r: FarmIllegalReason| farm_count(a.farm_illegal_reason, r) + farm_count(b.farm_illegal_reason, r) <= u64::MAX
    &&& a.farm_illegal_multi_candidate + b.farm_illegal_multi_candidate <= u64::MAX
    &&& a.pop_legal + b.pop_legal <= u64::MAX
    &&& a.pop_illegal + b.pop_illegal <= u64::MAX
    &&& forall|r: PopIllegalReason| pop_count(a.pop_illegal_reason, r) + pop_count(b.pop_illegal_reason, r) <= u64::MAX
    &&& dk_can_merge(a.pop_legal_not_chosen_top_kind, b.pop_legal_not_chosen_top_kind)
    &&& a.develop_legal + b.develop_legal <= u64::MAX
    &&& a.develop_illegal + b.develop_illegal <= u64::MAX
    &&& forall|r: DevelopIllegalReason| develop_count(a.develop_illegal_reason, r) + develop_count(b.develop_illegal_reason, r) <= u64::MAX
    &&& a.develop_illegal_multi_candidate + b.develop_illegal_multi_candidate <= u64::MAX
    &&& dk_can_merge(a.develop_legal_not_chosen_top_kind, b.develop_legal_not_chosen_top_kind)
}

/// Two decision-kind tallies added bucket by bucket.
pub open spec fn dk_sum_of(n: DecisionKindCounts, a: DecisionKindCounts, b: DecisionKindCounts) -> bool {
    forall|k: DecisionKind| dk_count(n, k) == dk_count(a, k) + dk_count(b, k)
}

/// `n` is `a` and `b` added: every counter summed, every sample list
/// concatenated with `a`'s samples first.
pub open spec fn report_sum_of(n: Report, a: Report, b: Report) -> bool {
    &&& n.games == a.games + b.games
    &&& n.decisions == a.decisions + b.decisions
    &&& n.action_points == ap_merged(a.action_points, b.action_points)
    &&& dk_sum_of(n.top_kind, a.top_kind, b.top_kind)
    &&& forall|k: BuildKind| rank_samples(n.build_rank, k) == rank_samples(a.build_rank, k) + rank_samples(b.build_rank, k)
    &&& forall|k: BuildKind| presence(n.build_presence, k) == ((presence(a.build_presence, k).0 + presence(b.build_presence, k).0) as u64,
        (presence(a.build_presence, k).1 + presence(b.build_presence, k).1) as u64)
    &&& n.farm_legal == a.farm_legal + b.farm_legal
    &&& n.farm_illegal == a.farm_illegal + b.farm_illegal
    &&& forall|r: FarmIllegalReason| farm_count(n.farm_illegal_reason, r) == farm_count(a.farm_illegal_reason, r) + farm_count(b.farm_illegal_reason, r)
    &&& n.farm_illegal_multi_candidate == a.farm_illegal_multi_candidate + b.farm_illegal_multi_candidate
    &&& n.pop_legal == a.pop_legal + b.pop_legal
    &&& n.pop_illegal == a.pop_illegal + b.pop_illegal
    &&& forall|r: PopIllegalReason| pop_count(n.pop_illegal_reason, r) == pop_count(a.pop_illegal_reason, r) + pop_count(b.pop_illegal_reason, r)
    &&& n.pop_rank@ == a.pop_rank@ + b.pop_rank@
    &&& dk_sum_of(n.pop_legal_not_chosen_top_kind, a.pop_legal_not_chosen_top_kind, b.pop_legal_not_chosen_top_kind)
    &&& n.develop_legal == a.develop_legal + b.develop_legal
    &&& n.develop_illegal == a.develop_illegal + b.develop_illegal
    &&& forall|r: DevelopIllegalReason| develop_count(n.develop_illegal_reason, r) == develop_count(a.develop_illegal_reason, r) + develop_count(b.develop_illegal_reason, r)
    &&& n.develop_illegal_multi_candidate == a.develop_illegal_multi_candidate + b.develop_illegal_multi_candidate
    &&& n.develop_rank@ == a.develop_rank@ + b.develop_rank@
    &&& dk_sum_of(n.develop_legal_not_chosen_top_kind, a.develop_legal_not_chosen_top_kind, b.develop_legal_not_chosen_top_kind)
}

impl Report {
    /// Adds another report into this one: counters summed, sample lists
    /// appended after this report's own.
    pub fn merge(&mut self, o: Report)
        requires
            report_can_merge(*old(self), o),
        ensures
            report_sum_of(*final(self), *old(self), o),
            report_balanced(*old(self)) && report_balanced(o) ==> report_balanced(*final(self)),
    {
        let ghost s0 = *self;
        let ghost o0 = o;
        let mut o = o;
        self.games = self.games + o.games;
        self.decisions = self.decisions + o.decisions;
        self.action_points.merge(o.action_points);
        self.top_kind.merge(o.top_kind);
        self.build_rank.merge(o.build_rank);
        self.build_presence.merge(o.build_presence);
        self.farm_legal = self.farm_legal + o.farm_legal;
        self.farm_illegal = self.farm_illegal + o.farm_illegal;
        self.farm_illegal_reason.merge(o.farm_illegal_reason);
        self.farm_illegal_multi_candidate = self.farm_illegal_multi_candidate + o.farm_illegal_multi_candidate;
        self.pop_legal = self.pop_legal + o.pop_legal;
        self.pop_illegal = self.pop_illegal + o.pop_illegal;
        self.pop_illegal_reason.merge(o.pop_illegal_reason);
        self.pop_rank.append(&mut o.pop_rank);
        self.pop_legal_not_chosen_top_kind.merge(o.pop_legal_not_chosen_top_kind);
        self.develop_legal = self.develop_legal + o.develop_legal;
        self.develop_illegal = self.develop_illegal + o.develop_illegal;
        self.develop_illegal_reason.merge(o.develop_illegal_reason);
        self.develop_illegal_multi_candidate = self.develop_illegal_multi_candidate + o.develop_illegal_multi_candidate;
        self.develop_rank.append(&mut o.develop_rank);
        self.develop_legal_not_chosen_top_kind.merge(o.develop_legal_not_chosen_top_kind);
        proof {
            lemma_merging_keeps_balance(*self, s0, o0);
        }
    }
}

} // verus!

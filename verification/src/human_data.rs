//! The tallies kept while the human-move dataset is extracted: how many
//! games were read, how many decisions they gave and how those split by
//! player count, age, move category and skill tier, how many followed an
//! arbitrary discard, and how much of each game's real length the recorded
//! decisions reach.
use std::collections::BTreeMap;
use vstd::prelude::*;
use crate::keyed_tally::{recorded, room, total_count, EntryView, KeyedTally};
use crate::sums::{lemma_map_sum_empty, lemma_map_sum_insert, map_sum};

verus! {

broadcast use vstd::std_specs::btree::group_btree_axioms;

/// How many decisions have been recorded at a player count.
pub open spec fn players_count(m: Map<u8, u64>, p: u8) -> int {
    if m.contains_key(p) {
        m[p] as int
    } else {
        0
    }
}

/// The extraction's tallies.
pub struct HumanDataStats {
    pub games_no_journal: u64,
    pub games_processed: u64,
    pub decisions: u64,
    pub tainted: u64,
    pub by_players: BTreeMap<u8, u64>,
    pub by_age: KeyedTally,
    pub by_category: KeyedTally,
    pub by_tier: KeyedTally,
    pub true_rounds_sum: u64,
    pub reached_round_sum: u64,
    pub games_with_a_decision: u64,
    /// The highest round any decision of the game being read reached.
    pub game_max_round: u16,
    /// Whether the game being read has given a decision yet.
    pub game_has_decision: bool,
}

/// A player-count tally, as a number.
pub open spec fn tally_weight() -> spec_fn(u64) -> int {
    |c: u64| c as int
}

impl HumanDataStats {
    /// Every decision is counted once in each breakdown (by player count,
    /// by age, by category), every game read once by tier, and the tainted
    /// decisions are among the decisions.
    pub open spec fn consistent(&self) -> bool {
        &&& self.by_players@.dom().finite()
        &&& map_sum(self.by_players@, tally_weight()) == self.decisions
        &&& total_count(self.by_age@) == self.decisions
        &&& total_count(self.by_category@) == self.decisions
        &&& total_count(self.by_tier@) == self.games_processed
        &&& self.tainted <= self.decisions
    }

    /// The keyed tallies are well formed.
    pub open spec fn wf(&self) -> bool {
        &&& self.by_age.wf()
        &&& self.by_category.wf()
        &&& self.by_tier.wf()
    }

    /// Nothing read yet.
    pub fn new() -> (s: HumanDataStats)
        ensures
            s.wf(),
            s.games_no_journal == 0 && s.games_processed == 0 && s.decisions == 0 && s.tainted == 0,
            s.by_players@ == Map::<u8, u64>::empty(),
            s.by_age@ == Seq::<EntryView>::empty(),
            s.by_category@ == Seq::<EntryView>::empty(),
            s.by_tier@ == Seq::<EntryView>::empty(),
            s.true_rounds_sum == 0 && s.reached_round_sum == 0 && s.games_with_a_decision == 0,
            s.consistent(),
    {
        proof {
            lemma_map_sum_empty::<u8, u64>(tally_weight());
        }
        HumanDataStats {
            games_no_journal: 0,
            games_processed: 0,
            decisions: 0,
            tainted: 0,
            by_players: BTreeMap::new(),
            by_age: KeyedTally::new(),
            by_category: KeyedTally::new(),
            by_tier: KeyedTally::new(),
            true_rounds_sum: 0,
            reached_round_sum: 0,
            games_with_a_decision: 0,
            game_max_round: 0,
            game_has_decision: false,
        }
    }

    /// Counts a matching game whose journal could not be read.
    pub fn journal_missing(&mut self)
        requires
            old(self).games_no_journal < u64::MAX,
        ensures
            final(self).games_no_journal == old(self).games_no_journal + 1,
            final(self).games_processed == old(self).games_processed,
            final(self).wf() == old(self).wf(),
            old(self).consistent() ==> final(self).consistent(),
    {
        self.games_no_journal = self.games_no_journal + 1;
    }

    /// Starts reading a game of skill tier `tier`.
    pub fn start_game(&mut self, tier: &str)
        requires
            old(self).wf(),
            old(self).games_processed < u64::MAX,
            room(old(self).by_tier@, 1, 0),
        ensures
            final(self).wf(),
            final(self).games_processed == old(self).games_processed + 1,
            final(self).by_tier@ == recorded(old(self).by_tier@, tier@, 0, ""@),
            final(self).game_max_round == 0,
            !final(self).game_has_decision,
            final(self).decisions == old(self).decisions,
            final(self).games_with_a_decision == old(self).games_with_a_decision,
            old(self).consistent() ==> final(self).consistent(),
    {
        self.games_processed = self.games_processed + 1;
        self.by_tier.record(tier, 0, "");
        self.game_max_round = 0;
        self.game_has_decision = false;
    }

    /// Counts one decision of the game being read: taken at a table of
    /// `players` in age `age` (as the age prints) and round `round`, of move
    /// category `category`, after an arbitrary discard or not.
    pub fn record_decision(&mut self, players: u8, age: &str, category: &str, round: u16, tainted: bool)
        requires
            old(self).wf(),
            old(self).decisions < u64::MAX,
            old(self).tainted < u64::MAX,
            players_count(old(self).by_players@, players) < u64::MAX,
            room(old(self).by_age@, 1, 0),
            room(old(self).by_category@, 1, 0),
        ensures
            final(self).wf(),
            final(self).decisions == old(self).decisions + 1,
            final(self).tainted == old(self).tainted + if tainted {
                1int
            } else {
                0
            },
            final(self).by_players@ == old(self).by_players@.insert(
                players,
                (players_count(old(self).by_players@, players) + 1) as u64,
            ),
            final(self).by_age@ == recorded(old(self).by_age@, age@, 0, ""@),
            final(self).by_category@ == recorded(old(self).by_category@, category@, 0, ""@),
            final(self).game_max_round == if round > old(self).game_max_round {
                round
            } else {
                old(self).game_max_round
            },
            final(self).game_has_decision,
            final(self).games_processed == old(self).games_processed,
            final(self).games_with_a_decision == old(self).games_with_a_decision,
            old(self).consistent() ==> final(self).consistent(),
    {
        let ghost before = self.by_players@;
        self.decisions = self.decisions + 1;
        if tainted {
            self.tainted = self.tainted + 1;
        }
        let prev: u64 = match self.by_players.get(&players) {
            Some(n) => *n,
            None => 0,
        };
        self.by_players.insert(players, prev + 1);
        proof {
            if before.dom().finite() {
                lemma_map_sum_insert(before, players, (prev + 1) as u64, tally_weight());
            }
        }
        self.by_age.record(age, 0, "");
        self.by_category.record(category, 0, "");
        if round > self.game_max_round {
            self.game_max_round = round;
        }
        self.game_has_decision = true;
    }

    /// Ends the game being read, whose real length was `true_rounds`: a
    /// game that gave a decision adds its real length and the highest round
    /// its decisions reached to the sampling-bias sums.
    pub fn finish_game(&mut self, true_rounds: u32)
        requires
            old(self).game_has_decision ==> old(self).games_with_a_decision < u64::MAX
                && old(self).true_rounds_sum + true_rounds <= u64::MAX
                && old(self).reached_round_sum + old(self).game_max_round <= u64::MAX,
        ensures
            final(self).wf() == old(self).wf(),
            final(self).games_with_a_decision == old(self).games_with_a_decision + if old(
                self,
            ).game_has_decision {
                1int
            } else {
                0
            },
            final(self).true_rounds_sum == old(self).true_rounds_sum + if old(
                self,
            ).game_has_decision {
                true_rounds as int
            } else {
                0
            },
            final(self).reached_round_sum == old(self).reached_round_sum + if old(
                self,
            ).game_has_decision {
                old(self).game_max_round as int
            } else {
                0
            },
            final(self).decisions == old(self).decisions,
            final(self).games_processed == old(self).games_processed,
            !final(self).game_has_decision,
            old(self).consistent() ==> final(self).consistent(),
    {
        if self.game_has_decision {
            self.games_with_a_decision = self.games_with_a_decision + 1;
            self.true_rounds_sum = self.true_rounds_sum + true_rounds as u64;
            self.reached_round_sum = self.reached_round_sum + self.game_max_round as u64;
        }
        self.game_has_decision = false;
        self.game_max_round = 0;
    }
}

} // verus!

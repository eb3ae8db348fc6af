//! Small per-game tallies of the self-play experiments, summed across games,
//! and the replay categories the divergence pass looks at.
use vstd::prelude::*;

verus! {

/// One opening goal's tally across an arm's games: how often it was
/// achieved by the end of the forced window, how many decisions the forcing
/// decided, and how many fell through to the unforced choice.
#[derive(Clone, Copy, Debug, Default)]
pub struct GoalTally {
    pub achieved: u32,
    pub forced: u32,
    pub fallthrough: u32,
}

impl GoalTally {
    /// Adds one game's outcome for this goal.
    pub fn add(&mut self, achieved: bool, forced: u32, fallthrough: u32)
        requires
            achieved ==> old(self).achieved < u32::MAX,
            old(self).forced + forced <= u32::MAX,
            old(self).fallthrough + fallthrough <= u32::MAX,
        ensures
            final(self).achieved == old(self).achieved + if achieved {
                1int
            } else {
                0
            },
            final(self).forced == old(self).forced + forced,
            final(self).fallthrough == old(self).fallthrough + fallthrough,
    {
        self.achieved = self.achieved + if achieved {
            1
        } else {
            0
        };
        self.forced = self.forced + forced;
        self.fallthrough = self.fallthrough + fallthrough;
    }
}

/// One game's counts of real decisions (more than one legal move), of those
/// where the policy prior reordered the beam, where it changed the choice,
/// and where the search hit its node cap.
#[derive(Default)]
pub struct DecisionTally {
    pub decisions: u64,
    pub permuted: u64,
    pub different: u64,
    pub capped: u64,
}

impl DecisionTally {
    /// Adds `other`'s counts into `self`.
    pub fn add(&mut self, other: &DecisionTally)
        requires
            old(self).decisions + other.decisions <= u64::MAX,
            old(self).permuted + other.permuted <= u64::MAX,
            old(self).different + other.different <= u64::MAX,
            old(self).capped + other.capped <= u64::MAX,
        ensures
            final(self).decisions == old(self).decisions + other.decisions,
            final(self).permuted == old(self).permuted + other.permuted,
            final(self).different == old(self).different + other.different,
            final(self).capped == old(self).capped + other.capped,
    {
        self.decisions = self.decisions + other.decisions;
        self.permuted = self.permuted + other.permuted;
        self.different = self.different + other.different;
        self.capped = self.capped + other.capped;
    }
}

/// The category a replayed human decision falls in.
#[derive(Clone, Copy, Debug, PartialEq, Eq, Structural)]
pub enum Category {
    TakeCard,
    IncreasePopulation,
    Build,
    LeaderOrWonderStep,
    PoliticalAction,
    AggressionOrWar,
    Pact,
    Tactics,
    Bid,
    EndTurn,
    Other,
}

/// Whether `category` is one of the two the divergence pass targets: taking
/// a card and increasing population.
pub fn in_scope(category: Category) -> (r: bool)
    ensures
        r == (category == Category::TakeCard || category == Category::IncreasePopulation),
{
    match category {
        Category::TakeCard | Category::IncreasePopulation => true,
        Category::Build
        | Category::LeaderOrWonderStep
        | Category::PoliticalAction
        | Category::AggressionOrWar
        | Category::Pact
        | Category::Tactics
        | Category::Bid
        | Category::EndTurn
        | Category::Other => false,
    }
}

} // verus!

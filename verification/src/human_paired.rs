//! Paired accuracy of the human-imitation policy and the weighted bot on the
//! same human decisions.
use vstd::prelude::*;

verus! {

/// How many decisions one bucket saw, and how many each predictor got right.
#[derive(Default, Clone, Copy)]
pub struct Bucket {
    pub human_correct: usize,
    pub weighted_correct: usize,
    pub n: usize,
}

impl Bucket {
    /// Records one decision and whether each predictor chose the human's move.
    pub fn add(&mut self, human_correct: bool, weighted_correct: bool)
        requires
            old(self).n < usize::MAX,
            human_correct ==> old(self).human_correct < usize::MAX,
            weighted_correct ==> old(self).weighted_correct < usize::MAX,
        ensures
            final(self).n == old(self).n + 1,
            final(self).human_correct == old(self).human_correct + if human_correct {
                1int
            } else {
                0
            },
            final(self).weighted_correct == old(self).weighted_correct + if weighted_correct {
                1int
            } else {
                0
            },
            old(self).human_correct <= old(self).n ==> final(self).human_correct <= final(self).n,
            old(self).weighted_correct <= old(self).n ==> final(self).weighted_correct
                <= final(self).n,
    {
        self.n = self.n + 1;
        self.human_correct = self.human_correct + if human_correct {
            1
        } else {
            0
        };
        self.weighted_correct = self.weighted_correct + if weighted_correct {
            1
        } else {
            0
        };
    }
}

} // verus!

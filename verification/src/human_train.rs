//! Held-out accuracy of the human-imitation policy, bucketed.
use vstd::prelude::*;

verus! {

/// How many held-out decisions a bucket saw and how many were predicted.
#[derive(Default)]
pub struct Bucket {
    pub correct: usize,
    pub total: usize,
}

impl Bucket {
    /// Records one decision, predicted correctly or not.
    pub fn hit(&mut self, correct: bool)
        requires
            old(self).total < usize::MAX,
            correct ==> old(self).correct < usize::MAX,
        ensures
            final(self).total == old(self).total + 1,
            final(self).correct == old(self).correct + if correct {
                1int
            } else {
                0
            },
            old(self).correct <= old(self).total ==> final(self).correct <= final(self).total,
    {
        self.total = self.total + 1;
        if correct {
            self.correct = self.correct + 1;
        }
    }
}

} // verus!

//! The health meters of a ranking-data run: how often the teacher's search
//! overruled its own net, and where the value rows came from.
use vstd::prelude::*;

verus! {

/// Where a game's value rows were read from.
#[derive(Clone, Copy, Debug, PartialEq, Eq, Structural)]
pub enum ValueSource {
    /// The state before each recorded move.
    PreMoveState,
    /// The leaves the teacher's search reached.
    SearchLeaves,
}

/// What one recorded game reports to the health meters: decisions sampled,
/// how many of them the search overruled (`None` when the teacher has no net
/// to compare against), and where its value rows came from.
#[derive(Clone, Copy, Debug)]
pub struct Recorded {
    pub values_from: ValueSource,
    pub sampled: u64,
    pub overruled: Option<u64>,
}

/// The run's health meters, folded over its games.
#[derive(Debug)]
pub struct Health {
    pub sampled: u64,
    pub overruled: Option<u64>,
    pub values_from: ValueSource,
}

impl Default for Health {
    /// Nothing sampled, nothing compared, rows from pre-move states.
    fn default() -> (h: Health)
        ensures
            h.sampled == 0,
            h.overruled is None,
            h.values_from == ValueSource::PreMoveState,
    {
        Health { sampled: 0, overruled: None, values_from: ValueSource::PreMoveState }
    }
}

impl Health {

    /// Folds one game in: samples add up, overrule counts add up once any
    /// game reports one, and a single game whose rows came from search leaves
    /// makes the whole run's rows leaf rows.
    pub fn fold(&mut self, r: &Recorded)
        requires
            old(self).sampled + r.sampled <= u64::MAX,
            r.overruled matches Some(n) ==> match old(self).overruled {
                Some(m) => m + n <= u64::MAX,
                None => true,
            },
        ensures
            final(self).sampled == old(self).sampled + r.sampled,
            final(self).overruled == match r.overruled {
                None => old(self).overruled,
                Some(n) => Some(
                    (match old(self).overruled {
                        Some(m) => m + n,
                        None => n as int,
                    }) as u64,
                ),
            },
            final(self).values_from == if r.values_from == ValueSource::SearchLeaves {
                ValueSource::SearchLeaves
            } else {
                old(self).values_from
            },
    {
        self.sampled = self.sampled + r.sampled;
        if let Some(n) = r.overruled {
            let prev: u64 = match self.overruled {
                Some(m) => m,
                None => 0,
            };
            self.overruled = Some(prev + n);
        }
        if r.values_from == ValueSource::SearchLeaves {
            self.values_from = ValueSource::SearchLeaves;
        }
    }

    /// The overrule rate for the report: `NA` when there is no net to compare
    /// against or nothing was sampled, else `share_text`, the caller's
    /// rendering of `overruled / sampled`.
    pub fn disagree_rate(&self, share_text: &str) -> (out: String)
        ensures
            out@ == if self.overruled is None || self.sampled == 0 {
                "NA"@
            } else {
                share_text@
            },
    {
        match self.overruled {
            None => String::from_str("NA"),
            Some(_) => {
                if self.sampled == 0 {
                    String::from_str("NA")
                } else {
                    String::from_str(share_text)
                }
            },
        }
    }
}

} // verus!

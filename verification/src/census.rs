//! Per-player-count tallies of the human-corpus opening census: the cost of
//! each player-game's first take, the round of its first wonder stage, and the
//! fate of every civil card it took.
use std::collections::BTreeMap;
use vstd::prelude::*;
use vstd::multiset::Multiset;
use crate::text::str_eq;
use crate::sums::{lemma_map_sum_empty, lemma_map_sum_insert, map_sum};

verus! {

broadcast use {vstd::laws_cmp::group_laws_cmp, vstd::std_specs::btree::group_btree_axioms};

/// How many times `c` has been recorded in the histogram `h`.
pub open spec fn tally(h: Map<i32, u64>, c: i32) -> int {
    if h.contains_key(c) {
        h[c] as int
    } else {
        0
    }
}

/// First-take civil-action-cost tally for one player count: a histogram of
/// costs, their sum, and how many player-games were recorded.
pub struct CostStats {
    pub hist: BTreeMap<i32, u64>,
    pub sum: i64,
    pub n: u64,
}

/// A histogram count, as a number.
pub open spec fn count_weight() -> spec_fn(u64) -> int {
    |c: u64| c as int
}

impl Default for CostStats {
    /// An empty tally.
    fn default() -> (s: CostStats)
        ensures
            s.hist@ == Map::<i32, u64>::empty(),
            s.sum == 0,
            s.n == 0,
            s.counts_add_up(),
    {
        let s = CostStats { hist: BTreeMap::new(), sum: 0, n: 0 };
        proof {
            lemma_map_sum_empty::<i32, u64>(count_weight());
        }
        s
    }
}

impl CostStats {
    /// The histogram holds one count for every player-game recorded.
    pub open spec fn counts_add_up(&self) -> bool {
        map_sum(self.hist@, count_weight()) == self.n
    }


    /// Records one player-game whose first take cost `cost`.
    pub fn record(&mut self, cost: i32)
        requires
            old(self).n < u64::MAX,
            i64::MIN <= old(self).sum + cost <= i64::MAX,
            tally(old(self).hist@, cost) < u64::MAX,
        ensures
            final(self).hist@ == old(self).hist@.insert(
                cost,
                (tally(old(self).hist@, cost) + 1) as u64,
            ),
            final(self).sum == old(self).sum + cost,
            final(self).n == old(self).n + 1,
            old(self).counts_add_up() ==> final(self).counts_add_up(),
    {
        let ghost before = self.hist@;
        let prev: u64 = match self.hist.get(&cost) {
            Some(c) => *c,
            None => 0,
        };
        self.hist.insert(cost, prev + 1);
        self.sum = self.sum + cost as i64;
        self.n = self.n + 1;
        proof {
            lemma_map_sum_insert(before, cost, (prev + 1) as u64, count_weight());
        }
    }
}

/// How many of `rounds` are after round 4.
pub open spec fn count_after_round4(rounds: Seq<i32>) -> int
    decreases rounds.len(),
{
    if rounds.len() == 0 {
        0
    } else {
        count_after_round4(rounds.drop_last()) + if rounds.last() > 4 {
            1int
        } else {
            0
        }
    }
}

/// Round of the first wonder stage of each player-game at one player count,
/// also split by the player-game's outcome, with the player-games that never
/// built one counted apart.
pub struct WonderRoundStats {
    pub rounds: Vec<i32>,
    pub win_rounds: Vec<i32>,
    pub loss_rounds: Vec<i32>,
    pub never_built: u64,
    pub total: u64,
}

impl Default for WonderRoundStats {
    /// An empty tally.
    fn default() -> (s: WonderRoundStats)
        ensures
            s.wf(),
            s.total == 0,
            s.rounds@ == Seq::<i32>::empty(),
            s.win_rounds@ == Seq::<i32>::empty(),
            s.loss_rounds@ == Seq::<i32>::empty(),
    {
        WonderRoundStats {
            rounds: Vec::new(),
            win_rounds: Vec::new(),
            loss_rounds: Vec::new(),
            never_built: 0,
            total: 0,
        }
    }
}

impl WonderRoundStats {
    /// Every player-game is either in `rounds` or in `never_built`, and the
    /// outcome splits hold no more than `rounds` does.
    pub open spec fn wf(&self) -> bool {
        &&& self.never_built + self.rounds@.len() == self.total
        &&& self.win_rounds@.len() + self.loss_rounds@.len() <= self.rounds@.len()
    }


    /// Records one player-game: the round of its first wonder stage, if it
    /// built one, and its outcome (`"win"`, `"loss"`, or anything else for a
    /// tie or an unknown result).
    pub fn record(&mut self, first_round: Option<i32>, outcome: &str)
        requires
            old(self).total < u64::MAX,
            first_round is None ==> old(self).never_built < u64::MAX,
        ensures
            old(self).wf() ==> final(self).wf(),
            final(self).total == old(self).total + 1,
            match first_round {
                None => {
                    &&& final(self).never_built == old(self).never_built + 1
                    &&& final(self).rounds@ == old(self).rounds@
                    &&& final(self).win_rounds@ == old(self).win_rounds@
                    &&& final(self).loss_rounds@ == old(self).loss_rounds@
                },
                Some(r) => {
                    &&& final(self).never_built == old(self).never_built
                    &&& final(self).rounds@ == old(self).rounds@.push(r)
                    &&& final(self).win_rounds@ == if outcome@ == "win"@ {
                        old(self).win_rounds@.push(r)
                    } else {
                        old(self).win_rounds@
                    }
                    &&& final(self).loss_rounds@ == if outcome@ == "loss"@ {
                        old(self).loss_rounds@.push(r)
                    } else {
                        old(self).loss_rounds@
                    }
                },
            },
    {
        self.total = self.total + 1;
        match first_round {
            None => {
                self.never_built = self.never_built + 1;
            },
            Some(r) => {
                self.rounds.push(r);
                proof {
                    reveal_strlit("win");
                    reveal_strlit("loss");
                    assert("win"@.len() != "loss"@.len());
                }
                if str_eq(outcome, "win") {
                    self.win_rounds.push(r);
                } else if str_eq(outcome, "loss") {
                    self.loss_rounds.push(r);
                }
            },
        }
    }

    /// Player-games with no wonder-stage progress by round 4: those that
    /// never built one, plus those whose first stage came after round 4.
    pub fn no_progress_by_round4(&self) -> (k: u64)
        requires
            self.never_built + count_after_round4(self.rounds@) <= u64::MAX,
        ensures
            k == self.never_built + count_after_round4(self.rounds@),
    {
        let mut late: u64 = 0;
        let mut i: usize = 0;
        while i < self.rounds.len()
            invariant
                i <= self.rounds@.len(),
                late == count_after_round4(self.rounds@.take(i as int)),
                late <= i,
            decreases self.rounds@.len() - i,
        {
            assert(self.rounds@.take(i + 1).drop_last() == self.rounds@.take(i as int));
            if self.rounds[i] > 4 {
                late = late + 1;
            }
            i = i + 1;
        }
        assert(self.rounds@.take(self.rounds@.len() as int) == self.rounds@);
        self.never_built + late
    }
}

/// Where a taken civil card ended up by game end.
#[derive(Clone, Copy, Debug, PartialEq, Eq, Structural)]
pub enum CardFate {
    /// Played from hand.
    Played,
    /// Culled by an age transition before it was played.
    Antiquated,
    /// Neither of the above by game end.
    StillInHand,
}

/// Tallies of [`CardFate`] over many player-games.
#[derive(Default, Clone, Copy)]
pub struct CardFateCounts {
    pub taken: u64,
    pub played: u64,
    pub antiquated: u64,
    pub still_in_hand: u64,
}

impl CardFateCounts {
    /// Every taken card has exactly one fate.
    pub open spec fn balanced(&self) -> bool {
        self.taken == self.played + self.antiquated + self.still_in_hand
    }

    /// Records `n` taken cards that met `fate`.
    pub fn record(&mut self, fate: CardFate, n: u64)
        requires
            old(self).taken + n <= u64::MAX,
            fate == CardFate::Played ==> old(self).played + n <= u64::MAX,
            fate == CardFate::Antiquated ==> old(self).antiquated + n <= u64::MAX,
            fate == CardFate::StillInHand ==> old(self).still_in_hand + n <= u64::MAX,
        ensures
            old(self).balanced() ==> final(self).balanced(),
            final(self).taken == old(self).taken + n,
            final(self).played == old(self).played + if fate == CardFate::Played {
                n
            } else {
                0
            },
            final(self).antiquated == old(self).antiquated + if fate == CardFate::Antiquated {
                n
            } else {
                0
            },
            final(self).still_in_hand == old(self).still_in_hand + if fate
                == CardFate::StillInHand {
                n
            } else {
                0
            },
    {
        self.taken = self.taken + n;
        match fate {
            CardFate::Played => self.played = self.played + n,
            CardFate::Antiquated => self.antiquated = self.antiquated + n,
            CardFate::StillInHand => self.still_in_hand = self.still_in_hand + n,
        }
    }
}

/// One outcome group's accumulated card-fate numbers: the fate counts, and
/// per-player-game and per-card samples for the distribution lines.
#[derive(Default)]
pub struct CardFateGroupStats {
    pub counts: CardFateCounts,
    pub taken_per_game: Vec<i32>,
    pub still_in_hand_per_game: Vec<i32>,
    pub played_dwell: Vec<i32>,
    pub censored_dwell: Vec<i32>,
}

impl CardFateGroupStats {
    /// Adds one player-game's numbers: `n_played` cards played,
    /// `n_antiquated` antiquated and `still_in_hand` left at game end, out of
    /// `n_taken` taken, and the dwell time of each played and each censored
    /// card. The per-game samples hold the counts as `i32` (wrapping, as an
    /// `as` cast does).
    pub fn record(
        &mut self,
        n_taken: u32,
        n_played: u32,
        n_antiquated: u32,
        still_in_hand: u64,
        played_dwell: &[i32],
        censored_dwell: &[i32],
    )
        requires
            old(self).counts.taken + n_played + n_antiquated + still_in_hand <= u64::MAX,
            old(self).counts.played + n_played <= u64::MAX,
            old(self).counts.antiquated + n_antiquated <= u64::MAX,
            old(self).counts.still_in_hand + still_in_hand <= u64::MAX,
        ensures
            old(self).counts.balanced() ==> final(self).counts.balanced(),
            final(self).counts.taken == old(self).counts.taken + n_played + n_antiquated
                + still_in_hand,
            final(self).counts.played == old(self).counts.played + n_played,
            final(self).counts.antiquated == old(self).counts.antiquated + n_antiquated,
            final(self).counts.still_in_hand == old(self).counts.still_in_hand + still_in_hand,
            final(self).taken_per_game@ == old(self).taken_per_game@.push(n_taken as i32),
            final(self).still_in_hand_per_game@ == old(self).still_in_hand_per_game@.push(
                still_in_hand as i32,
            ),
            final(self).played_dwell@ == old(self).played_dwell@ + played_dwell@,
            final(self).censored_dwell@ == old(self).censored_dwell@ + censored_dwell@,
    {
        self.counts.record(CardFate::Played, n_played as u64);
        self.counts.record(CardFate::Antiquated, n_antiquated as u64);
        self.counts.record(CardFate::StillInHand, still_in_hand);
        self.taken_per_game.push(#[verifier::truncate] (n_taken as i32));
        self.still_in_hand_per_game.push(#[verifier::truncate] (still_in_hand as i32));
        append_all(&mut self.played_dwell, played_dwell);
        append_all(&mut self.censored_dwell, censored_dwell);
    }
}

/// Appends every element of `src` to `dst`, in order.
fn append_all(dst: &mut Vec<i32>, src: &[i32])
    ensures
        final(dst)@ == old(dst)@ + src@,
{
    let mut i: usize = 0;
    while i < src.len()
        invariant
            i <= src@.len(),
            dst@ == old(dst)@ + src@.take(i as int),
        decreases src@.len() - i,
    {
        dst.push(src[i]);
        assert(src@.take(i + 1) == src@.take(i as int).push(src@[i as int]));
        i = i + 1;
    }
    assert(src@.take(src@.len() as int) == src@);
}

/// The cards of `pre` left over once each card of `left` has cancelled one
/// equal card of `pre`, earliest first, in the order they come in `pre`.
pub open spec fn multiset_diff(pre: Seq<u16>, left: Multiset<u16>) -> Seq<u16>
    decreases pre.len(),
{
    if pre.len() == 0 {
        Seq::<u16>::empty()
    } else if left.contains(pre[0]) {
        multiset_diff(pre.drop_first(), left.remove(pre[0]))
    } else {
        seq![pre[0]] + multiset_diff(pre.drop_first(), left)
    }
}

/// Removing the element at `p` by moving the last one into its place drops
/// exactly one copy of it from the multiset.
proof fn lemma_swap_remove_multiset(s: Seq<u16>, p: int)
    requires
        0 <= p < s.len(),
    ensures
        s.update(p, s.last()).drop_last().to_multiset() == s.to_multiset().remove(s[p]),
{
    broadcast use vstd::seq_lib::group_to_multiset_ensures;
    broadcast use vstd::multiset::group_multiset_axioms;

    let t = s.update(p, s.last());
    assert(t.last() == s.last());
    assert(t.remove(t.len() - 1) =~= t.drop_last());
    assert(t.to_multiset() == s.to_multiset().insert(s.last()).remove(s[p]));
    assert(t.drop_last().to_multiset() == t.to_multiset().remove(s.last()));
    assert(s.to_multiset().count(s[p]) > 0) by {
        assert(s.contains(s[p]));
    }
    assert(s.to_multiset().insert(s.last()).remove(s[p]).remove(s.last())
        =~= s.to_multiset().remove(s[p]));
}

/// Position of the first `card` in `v`, if any.
fn first_position(v: &Vec<u16>, card: u16) -> (r: Option<usize>)
    ensures
        match r {
            Some(k) => k < v@.len() && v@[k as int] == card,
            None => !v@.contains(card),
        },
{
    let mut k: usize = 0;
    while k < v.len()
        invariant
            k <= v@.len(),
            forall|j: int| 0 <= j < k ==> v@[j] != card,
        decreases v@.len() - k,
    {
        if v[k] == card {
            return Some(k);
        }
        k = k + 1;
    }
    None
}

/// Cards present in `pre` but not matched one-for-one in `post`: a multiset
/// difference, since a hand can hold more than one copy of a card.
pub fn hand_multiset_diff(pre: &[u16], post: &[u16]) -> (removed: Vec<u16>)
    ensures
        removed@ == multiset_diff(pre@, post@.to_multiset()),
{
    broadcast use vstd::seq_lib::group_to_multiset_ensures;

    let mut remaining: Vec<u16> = vstd::slice::slice_to_vec(post);
    let mut removed: Vec<u16> = Vec::new();
    assert(pre@.skip(0) == pre@);
    assert(removed@ + multiset_diff(pre@, post@.to_multiset()) == multiset_diff(
        pre@,
        post@.to_multiset(),
    ));
    let mut i: usize = 0;
    while i < pre.len()
        invariant
            i <= pre@.len(),
            removed@ + multiset_diff(pre@.skip(i as int), remaining@.to_multiset())
                == multiset_diff(pre@, post@.to_multiset()),
        decreases pre@.len() - i,
    {
        let card = pre[i];
        let ghost rest = pre@.skip(i as int);
        let ghost ms = remaining@.to_multiset();
        assert(rest[0] == card);
        assert(rest.drop_first() == pre@.skip(i + 1));
        match first_position(&remaining, card) {
            Some(p) => {
                proof {
                    lemma_swap_remove_multiset(remaining@, p as int);
                    assert(remaining@.contains(card));
                    remaining@.to_multiset_ensures();
                }
                remaining.swap_remove(p);
            },
            None => {
                proof {
                    remaining@.to_multiset_ensures();
                }
                let ghost before = removed@;
                removed.push(card);
                assert(removed@ + multiset_diff(pre@.skip(i + 1), ms) =~= before + (seq![card]
                    + multiset_diff(pre@.skip(i + 1), ms)));
            },
        }
        i = i + 1;
    }
    assert(pre@.skip(pre@.len() as int) == Seq::<u16>::empty());
    assert(removed@ + Seq::<u16>::empty() == removed@);
    removed
}

/// The cards [`hand_multiset_diff`] reports are exactly the multiset
/// difference of the two hands: each card appears as many times as `pre`
/// holds it beyond what `post` still holds.
pub proof fn lemma_hand_diff_is_multiset_difference(pre: Seq<u16>, left: Multiset<u16>)
    ensures
        multiset_diff(pre, left).to_multiset() =~= pre.to_multiset().difference_with(left),
    decreases pre.len(),
{
    broadcast use vstd::seq_lib::group_to_multiset_ensures;
    broadcast use vstd::multiset::group_multiset_axioms;
    broadcast use vstd::multiset::group_multiset_properties;

    if pre.len() == 0 {
        assert(pre.to_multiset() =~= Multiset::<u16>::empty());
    } else {
        let c = pre[0];
        let rest = pre.drop_first();
        assert(pre =~= seq![c] + rest);
        vstd::seq_lib::lemma_multiset_commutative(seq![c], rest);
        assert(seq![c].to_multiset() =~= Multiset::<u16>::empty().insert(c)) by {
            assert(seq![c] =~= Seq::<u16>::empty().push(c));
        }
        if left.contains(c) {
            lemma_hand_diff_is_multiset_difference(rest, left.remove(c));
        } else {
            lemma_hand_diff_is_multiset_difference(rest, left);
            vstd::seq_lib::lemma_multiset_commutative(seq![c], multiset_diff(rest, left));
        }
    }
}

} // verus!

//! Following the civil cards a player takes to their fate: played from hand,
//! culled by an age transition, or still in hand when the game ends.
use vstd::prelude::*;
use crate::cards::{played_civil_card, played_civil_card_spec, Card, CardType, Move};
use crate::census::{hand_multiset_diff, multiset_diff, CardFateCounts, CardFateGroupStats};
use crate::journal::{color_of_seat, Color};
use crate::text::str_eq;

verus! {

/// A player-game's fate state as plain values: every card still held with
/// the round it was taken in, in taking order; the counts of cards taken,
/// played, antiquated and of departures that matched no take; and the dwell
/// times, in rounds, of played cards and of antiquated ones.
pub struct TrackView {
    pub held: Seq<(u16, u16)>,
    pub n_taken: int,
    pub n_played: int,
    pub n_antiquated: int,
    pub n_mismatch: int,
    pub played_dwell: Seq<i32>,
    pub censored_dwell: Seq<i32>,
}

/// The first position at or after `i` of a held copy of `card`, or -1.
pub open spec fn first_held(held: Seq<(u16, u16)>, card: u16, i: int) -> int
    decreases held.len() - i,
{
    if i < 0 || i >= held.len() {
        -1
    } else if held[i].0 == card {
        i
    } else {
        first_held(held, card, i + 1)
    }
}

/// The state after taking `card` in round `round`.
pub open spec fn take_spec(t: TrackView, card: u16, round: u16) -> TrackView {
    TrackView { held: t.held.push((card, round)), n_taken: t.n_taken + 1, ..t }
}

/// The state after `card` leaves the hand in round `round`, played from it
/// or else antiquated: the earliest-taken copy held is the one that leaves,
/// and its dwell is the rounds since it was taken; with no copy held the
/// departure is counted as unmatched.
pub open spec fn leave_spec(t: TrackView, card: u16, round: u16, played: bool) -> TrackView {
    let p = first_held(t.held, card, 0);
    if p < 0 {
        TrackView { n_mismatch: t.n_mismatch + 1, ..t }
    } else {
        let dwell = (round - t.held[p].1) as i32;
        if played {
            TrackView {
                held: t.held.remove(p),
                n_played: t.n_played + 1,
                played_dwell: t.played_dwell.push(dwell),
                ..t
            }
        } else {
            TrackView {
                held: t.held.remove(p),
                n_antiquated: t.n_antiquated + 1,
                censored_dwell: t.censored_dwell.push(dwell),
                ..t
            }
        }
    }
}

/// The state after each of `cards`, in order, is antiquated in round
/// `round`.
pub open spec fn antiquate_all(t: TrackView, cards: Seq<u16>, round: u16) -> TrackView
    decreases cards.len(),
{
    if cards.len() == 0 {
        t
    } else {
        leave_spec(antiquate_all(t, cards.drop_last(), round), cards.last(), round, false)
    }
}

/// One player-game's state for following taken civil cards.
pub struct CardFateTrack {
    /// Every card still held, with the round it was taken in, in taking
    /// order.
    pub held: Vec<(u16, u16)>,
    pub n_taken: u32,
    pub n_played: u32,
    pub n_antiquated: u32,
    /// Departures (plays or antiquations) that matched no card taken.
    pub n_mismatch: u32,
    pub played_dwell: Vec<i32>,
    /// Dwell times of antiquated cards; those still in hand at game end are
    /// added by [`CardFateTrack::close`].
    pub censored_dwell: Vec<i32>,
}

impl CardFateTrack {
    /// The state as plain values.
    pub open spec fn view(&self) -> TrackView {
        TrackView {
            held: self.held@,
            n_taken: self.n_taken as int,
            n_played: self.n_played as int,
            n_antiquated: self.n_antiquated as int,
            n_mismatch: self.n_mismatch as int,
            played_dwell: self.played_dwell@,
            censored_dwell: self.censored_dwell@,
        }
    }

    /// Nothing taken yet.
    pub fn new() -> (t: CardFateTrack)
        ensures
            t.view() == (TrackView {
                held: Seq::empty(),
                n_taken: 0,
                n_played: 0,
                n_antiquated: 0,
                n_mismatch: 0,
                played_dwell: Seq::empty(),
                censored_dwell: Seq::empty(),
            }),
    {
        CardFateTrack {
            held: Vec::new(),
            n_taken: 0,
            n_played: 0,
            n_antiquated: 0,
            n_mismatch: 0,
            played_dwell: Vec::new(),
            censored_dwell: Vec::new(),
        }
    }

    /// Takes `card` in round `round`.
    pub fn take(&mut self, card: u16, round: u16)
        requires
            old(self).n_taken < u32::MAX,
        ensures
            final(self).view() == take_spec(old(self).view(), card, round),
    {
        self.held.push((card, round));
        self.n_taken = self.n_taken + 1;
    }

    /// `card` leaves the hand in round `round`, played from it when `played`,
    /// else antiquated. The earliest-taken copy held leaves; with none held,
    /// the departure is counted as unmatched.
    pub fn leave(&mut self, card: u16, round: u16, played: bool)
        requires
            old(self).n_mismatch < u32::MAX,
            played ==> old(self).n_played < u32::MAX,
            !played ==> old(self).n_antiquated < u32::MAX,
        ensures
            final(self).view() == leave_spec(old(self).view(), card, round, played),
    {
        let ghost before = self.view();
        let n = self.held.len();
        let mut i: usize = 0;
        while i < n
            invariant
                n == self.held@.len(),
                self.view() == before,
                before == old(self).view(),
                played ==> self.n_played < u32::MAX,
                !played ==> self.n_antiquated < u32::MAX,
                i <= n,
                first_held(before.held, card, i as int) == first_held(before.held, card, 0),
            decreases n - i,
        {
            if self.held[i].0 == card {
                let taken_round = self.held[i].1;
                let dwell: i32 = round as i32 - taken_round as i32;
                self.held.remove(i);
                if played {
                    self.n_played = self.n_played + 1;
                    self.played_dwell.push(dwell);
                } else {
                    self.n_antiquated = self.n_antiquated + 1;
                    self.censored_dwell.push(dwell);
                }
                return;
            }
            i = i + 1;
        }
        self.n_mismatch = self.n_mismatch + 1;
    }

    /// At game end, `final_round`: how many cards are still in hand, and the
    /// censored dwell times, those of the antiquated cards followed by the
    /// rounds each card still held has been held, in taking order.
    pub fn close(&self, final_round: u16) -> (r: (u64, Vec<i32>))
        ensures
            r.0 == self.held@.len(),
            r.1@ == self.censored_dwell@ + self.held@.map_values(
                |h: (u16, u16)| (final_round - h.1) as i32,
            ),
    {
        let mut out: Vec<i32> = Vec::new();
        let mut k: usize = 0;
        while k < self.censored_dwell.len()
            invariant
                k <= self.censored_dwell@.len(),
                out@ == self.censored_dwell@.take(k as int),
            decreases self.censored_dwell@.len() - k,
        {
            out.push(self.censored_dwell[k]);
            k = k + 1;
            assert(out@ =~= self.censored_dwell@.take(k as int));
        }
        assert(self.censored_dwell@.take(k as int) =~= self.censored_dwell@);
        let n = self.held.len();
        let mut i: usize = 0;
        while i < n
            invariant
                n == self.held@.len(),
                i <= n,
                out@ == self.censored_dwell@ + self.held@.take(i as int).map_values(
                    |h: (u16, u16)| (final_round - h.1) as i32,
                ),
            decreases n - i,
        {
            let d: i32 = final_round as i32 - self.held[i].1 as i32;
            out.push(d);
            i = i + 1;
            assert(out@ =~= self.censored_dwell@ + self.held@.take(i as int).map_values(
                |h: (u16, u16)| (final_round - h.1) as i32,
            ));
        }
        assert(self.held@.take(n as int) =~= self.held@);
        (n as u64, out)
    }
}

/// The first position at or after `i` of `c` in `r`, or -1.
pub open spec fn first_index(r: Seq<u16>, c: u16, i: int) -> int
    decreases r.len() - i,
{
    if i < 0 || i >= r.len() {
        -1
    } else if r[i] == c {
        i
    } else {
        first_index(r, c, i + 1)
    }
}

/// The cards an age transition culled from a hand that held `pre` before
/// the move and `post` after it: those not matched one for one in `post`,
/// less the first copy of the card the move itself played, if any.
pub open spec fn antiquated_cards(pre: Seq<u16>, post: Seq<u16>, played: Option<u16>) -> Seq<u16> {
    let r = multiset_diff(pre, post.to_multiset());
    match played {
        Some(c) => {
            let p = first_index(r, c, 0);
            if p >= 0 {
                r.remove(p)
            } else {
                r
            }
        },
        None => r,
    }
}

/// The civil card a move took into hand, given the card in the row slot it
/// took from: none for an empty slot or a wonder.
pub open spec fn taken_card(mv: Move, slot_card: Option<Card>) -> Option<u16> {
    match (mv, slot_card) {
        (Move::Take { .. }, Some(c)) => if c.kind != CardType::Wonder {
            Some(c.id)
        } else {
            None
        },
        _ => None,
    }
}

/// The civil card a move played out of hand, by its identity.
pub open spec fn played_card(mv: Move) -> Option<u16> {
    match played_civil_card_spec(mv) {
        Some(c) => Some(c.id),
        None => None,
    }
}

/// The seats' states as plain values.
pub open spec fn views(ts: Seq<CardFateTrack>) -> Seq<TrackView> {
    ts.map_values(|t: CardFateTrack| t.view())
}

/// The seats' states after the move `mv` of the player in seat `actor`, made
/// in round `round`: the card it took is held from `round`, the card it
/// played leaves that player's hand, and when the move ended an age every
/// hand's culled cards leave as antiquated. A seat outside the table
/// changes nothing.
pub open spec fn fate_step(
    ts: Seq<TrackView>,
    actor: int,
    round: u16,
    mv: Move,
    slot_card: Option<Card>,
    age_changed: bool,
    pre: Seq<Seq<u16>>,
    post: Seq<Seq<u16>>,
) -> Seq<TrackView> {
    if actor < 0 || actor >= ts.len() {
        ts
    } else {
        let t1 = match taken_card(mv, slot_card) {
            Some(c) => ts.update(actor, take_spec(ts[actor], c, round)),
            None => ts,
        };
        let t2 = match played_card(mv) {
            Some(c) => t1.update(actor, leave_spec(t1[actor], c, round, true)),
            None => t1,
        };
        if !age_changed {
            t2
        } else {
            Seq::new(
                t2.len(),
                |i: int|
                    antiquate_all(
                        t2[i],
                        antiquated_cards(
                            pre[i],
                            post[i],
                            if i == actor {
                                played_card(mv)
                            } else {
                                None
                            },
                        ),
                        round,
                    ),
            )
        }
    }
}

/// Every seat's counters can take one more take, one more play and, for each
/// card its hand held before the move, one more antiquation or unmatched
/// departure.
pub open spec fn fate_room(ts: Seq<TrackView>, pre: Seq<Seq<u16>>) -> bool {
    forall|i: int|
        0 <= i < ts.len() ==> {
            &&& #[trigger] ts[i].n_taken < u32::MAX
            &&& ts[i].n_played < u32::MAX
            &&& ts[i].n_mismatch + 1 + pre[i].len() <= u32::MAX
            &&& ts[i].n_antiquated + pre[i].len() <= u32::MAX
        }
}

/// A multiset difference is no longer than the sequence it is taken from.
proof fn lemma_multiset_diff_len(pre: Seq<u16>, left: vstd::multiset::Multiset<u16>)
    ensures
        multiset_diff(pre, left).len() <= pre.len(),
    decreases pre.len(),
{
    if pre.len() > 0 {
        if left.contains(pre[0]) {
            lemma_multiset_diff_len(pre.drop_first(), left.remove(pre[0]));
        } else {
            lemma_multiset_diff_len(pre.drop_first(), left);
        }
    }
}

/// A found position lies inside the sequence and holds `c`.
proof fn lemma_first_index_range(r: Seq<u16>, c: u16, i: int)
    ensures
        first_index(r, c, i) == -1 || (i <= first_index(r, c, i) < r.len() && r[first_index(
            r,
            c,
            i,
        )] == c),
    decreases r.len() - i,
{
    if 0 <= i < r.len() && r[i] != c {
        lemma_first_index_range(r, c, i + 1);
    }
}

/// The cards of a seat's hand culled by an age transition, as the move's
/// player's own card played is set aside.
fn antiquated_of(pre: &Vec<u16>, post: &Vec<u16>, played: Option<u16>) -> (r: Vec<u16>)
    ensures
        r@ == antiquated_cards(pre@, post@, played),
        r@.len() <= pre@.len(),
{
    let mut removed = hand_multiset_diff(pre.as_slice(), post.as_slice());
    proof {
        lemma_multiset_diff_len(pre@, post@.to_multiset());
    }
    match played {
        Some(c) => {
            let ghost r0 = removed@;
            let n = removed.len();
            let mut k: usize = 0;
            while k < n
                invariant
                    n == removed@.len(),
                    removed@ == r0,
                    r0 == multiset_diff(pre@, post@.to_multiset()),
                    r0.len() <= pre@.len(),
                    played == Some(c),
                    k <= n,
                    first_index(r0, c, k as int) == first_index(r0, c, 0),
                decreases n - k,
            {
                if removed[k] == c {
                    assert(first_index(r0, c, 0) == k);
                    removed.remove(k);
                    assert(removed@ == r0.remove(k as int));
                    return removed;
                }
                k = k + 1;
            }
            removed
        },
        None => removed,
    }
}

/// Antiquates each of `cards`, in order, from `t` in round `round`.
fn antiquate_each(t: &mut CardFateTrack, cards: &Vec<u16>, round: u16)
    requires
        old(t).n_mismatch + cards@.len() <= u32::MAX,
        old(t).n_antiquated + cards@.len() <= u32::MAX,
    ensures
        final(t).view() == antiquate_all(old(t).view(), cards@, round),
{
    let n = cards.len();
    let mut k: usize = 0;
    while k < n
        invariant
            n == cards@.len(),
            k <= n,
            t.view() == antiquate_all(old(t).view(), cards@.take(k as int), round),
            t.n_mismatch + t.n_antiquated == old(t).n_mismatch + old(t).n_antiquated + k,
            t.n_mismatch >= old(t).n_mismatch,
            t.n_antiquated >= old(t).n_antiquated,
            old(t).n_mismatch + n <= u32::MAX,
            old(t).n_antiquated + n <= u32::MAX,
        decreases n - k,
    {
        assert(cards@.take(k + 1).drop_last() =~= cards@.take(k as int));
        t.leave(cards[k], round, false);
        k = k + 1;
    }
    assert(cards@.take(n as int) =~= cards@);
}

/// Follows the move `mv` that the player in seat `actor` made in round
/// `round`: a civil card taken from the row (`slot_card` is the card in the
/// slot a take took from) is held from `round`; a civil card played leaves
/// that player's hand; and when the move ended an age (`age_changed`), each
/// seat's cards in `pre_hands[i]` but not in `post_hands[i]` leave as
/// antiquated, except the card the player played. A seat outside the table
/// changes nothing.
pub fn record_fate_decision(
    tracks: &mut Vec<CardFateTrack>,
    actor: usize,
    round: u16,
    mv: Move,
    slot_card: Option<Card>,
    age_changed: bool,
    pre_hands: &Vec<Vec<u16>>,
    post_hands: &Vec<Vec<u16>>,
)
    requires
        age_changed ==> pre_hands@.len() == old(tracks)@.len() && post_hands@.len() == old(
            tracks,
        )@.len(),
        fate_room(views(old(tracks)@), pre_hands@.map_values(|h: Vec<u16>| h@)),
    ensures
        views(final(tracks)@) == fate_step(
            views(old(tracks)@),
            actor as int,
            round,
            mv,
            slot_card,
            age_changed,
            pre_hands@.map_values(|h: Vec<u16>| h@),
            post_hands@.map_values(|h: Vec<u16>| h@),
        ),
{
    let ghost ts0 = views(tracks@);
    let ghost pre = pre_hands@.map_values(|h: Vec<u16>| h@);
    let ghost post = post_hands@.map_values(|h: Vec<u16>| h@);
    let n = tracks.len();
    if actor >= n {
        return;
    }
    let taken: Option<u16> = match (mv, slot_card) {
        (Move::Take { .. }, Some(c)) => if c.kind != CardType::Wonder {
            Some(c.id)
        } else {
            None
        },
        _ => None,
    };
    let played: Option<u16> = match played_civil_card(mv) {
        Some(c) => Some(c.id),
        None => None,
    };
    assert(taken == taken_card(mv, slot_card));
    assert(played == played_card(mv));
    assert(ts0[actor as int] == tracks@[actor as int].view());
    let mut t = tracks.remove(actor);
    assert(t.view() == ts0[actor as int]);
    assert(ts0[actor as int].n_taken < u32::MAX);
    if let Some(c) = taken {
        t.take(c, round);
    }
    if let Some(c) = played {
        t.leave(c, round, true);
    }
    tracks.insert(actor, t);
    let ghost t2 = views(tracks@);
    proof {
        let t1 = match taken {
            Some(c) => ts0.update(actor as int, take_spec(ts0[actor as int], c, round)),
            None => ts0,
        };
        let t2s = match played {
            Some(c) => t1.update(actor as int, leave_spec(t1[actor as int], c, round, true)),
            None => t1,
        };
        assert(t2 =~= t2s);
    }
    if !age_changed {
        return;
    }
    assert forall|j: int| 0 <= j < n implies #[trigger] t2[j].n_mismatch + pre[j].len()
        <= u32::MAX && t2[j].n_antiquated + pre[j].len() <= u32::MAX by {
        assert(ts0[j].n_taken < u32::MAX);
        if j != actor {
            assert(t2[j] == ts0[j]);
        }
    }
    let mut i: usize = 0;
    while i < n
        invariant
            n == tracks@.len(),
            n == t2.len(),
            actor < n,
            i <= n,
            pre_hands@.len() == n,
            post_hands@.len() == n,
            pre == pre_hands@.map_values(|h: Vec<u16>| h@),
            post == post_hands@.map_values(|h: Vec<u16>| h@),
            played == played_card(mv),
            forall|j: int|
                0 <= j < n ==> {
                    &&& #[trigger] t2[j].n_mismatch + pre[j].len() <= u32::MAX
                    &&& t2[j].n_antiquated + pre[j].len() <= u32::MAX
                },
            forall|j: int|
                0 <= j < i ==> #[trigger] views(tracks@)[j] == antiquate_all(
                    t2[j],
                    antiquated_cards(
                        pre[j],
                        post[j],
                        if j == actor {
                            played_card(mv)
                        } else {
                            None
                        },
                    ),
                    round,
                ),
            forall|j: int| i <= j < n ==> #[trigger] views(tracks@)[j] == t2[j],
        decreases n - i,
    {
        let own: Option<u16> = if i == actor {
            played
        } else {
            None
        };
        assert(pre_hands@[i as int]@ == pre[i as int]);
        assert(post_hands@[i as int]@ == post[i as int]);
        let removed = antiquated_of(&pre_hands[i], &post_hands[i], own);
        let ghost before = views(tracks@);
        assert(before[i as int] == tracks@[i as int].view());
        let mut t = tracks.remove(i);
        assert(t.view() == t2[i as int]);
        assert(t2[i as int].n_mismatch + pre[i as int].len() <= u32::MAX);
        assert(t2[i as int].n_antiquated + pre[i as int].len() <= u32::MAX);
        antiquate_each(&mut t, &removed, round);
        tracks.insert(i, t);
        assert(views(tracks@) =~= before.update(i as int, antiquate_all(t2[i as int], removed@, round)));
        i = i + 1;
    }
    proof {
        assert(views(tracks@) =~= fate_step(ts0, actor as int, round, mv, slot_card, age_changed, pre, post));
    }
}

/// The censored dwell times of a player-game that ended in `final_round`:
/// those of its antiquated cards, then the rounds each card still held has
/// been held, in taking order.
pub open spec fn censored_at_end(t: TrackView, final_round: u16) -> Seq<i32> {
    t.censored_dwell + t.held.map_values(|h: (u16, u16)| (final_round - h.1) as i32)
}

/// `after` is `before` with one player-game of state `t`, ended in
/// `final_round`, added.
pub open spec fn group_recorded(
    before: CardFateGroupStats,
    after: CardFateGroupStats,
    t: TrackView,
    final_round: u16,
) -> bool {
    &&& after.counts.taken == before.counts.taken + t.n_played + t.n_antiquated + t.held.len()
    &&& after.counts.played == before.counts.played + t.n_played
    &&& after.counts.antiquated == before.counts.antiquated + t.n_antiquated
    &&& after.counts.still_in_hand == before.counts.still_in_hand + t.held.len()
    &&& after.taken_per_game@ == before.taken_per_game@.push(t.n_taken as i32)
    &&& after.still_in_hand_per_game@ == before.still_in_hand_per_game@.push(t.held.len() as i32)
    &&& after.played_dwell@ == before.played_dwell@ + t.played_dwell
    &&& after.censored_dwell@ == before.censored_dwell@ + censored_at_end(t, final_round)
}

/// A group's counts can take one more player-game of state `t`.
pub open spec fn group_room(g: CardFateGroupStats, t: TrackView) -> bool {
    &&& g.counts.taken + t.n_played + t.n_antiquated + t.held.len() <= u64::MAX
    &&& g.counts.played + t.n_played <= u64::MAX
    &&& g.counts.antiquated + t.n_antiquated <= u64::MAX
    &&& g.counts.still_in_hand + t.held.len() <= u64::MAX
}

/// `g` holds nothing: every fate count is zero and every sample list is
/// empty.
pub open spec fn group_empty(g: CardFateGroupStats) -> bool {
    &&& g.counts.taken == 0
    &&& g.counts.played == 0
    &&& g.counts.antiquated == 0
    &&& g.counts.still_in_hand == 0
    &&& g.taken_per_game@.len() == 0
    &&& g.still_in_hand_per_game@.len() == 0
    &&& g.played_dwell@.len() == 0
    &&& g.censored_dwell@.len() == 0
}

/// An empty group.
fn empty_group() -> (g: CardFateGroupStats)
    ensures
        g.counts.taken == 0 && g.counts.played == 0 && g.counts.antiquated == 0
            && g.counts.still_in_hand == 0,
        g.taken_per_game@.len() == 0 && g.still_in_hand_per_game@.len() == 0,
        g.played_dwell@.len() == 0 && g.censored_dwell@.len() == 0,
{
    CardFateGroupStats {
        counts: CardFateCounts { taken: 0, played: 0, antiquated: 0, still_in_hand: 0 },
        taken_per_game: Vec::new(),
        still_in_hand_per_game: Vec::new(),
        played_dwell: Vec::new(),
        censored_dwell: Vec::new(),
    }
}

/// Adds a player-game of state `t`, ended in `final_round`, to `g`.
fn record_into(g: &mut CardFateGroupStats, t: &CardFateTrack, final_round: u16)
    requires
        group_room(*old(g), t.view()),
    ensures
        group_recorded(*old(g), *final(g), t.view(), final_round),
        old(g).counts.balanced() ==> final(g).counts.balanced(),
{
    let (still, censored) = t.close(final_round);
    g.record(t.n_taken, t.n_played, t.n_antiquated, still, t.played_dwell.as_slice(), censored.as_slice());
}

/// One player count's civil-card fates: the player-games followed, those
/// skipped because their replay stopped short, the departures that matched
/// no take, and the fate tallies overall and of winners and of losers.
pub struct CardFateStats {
    pub n_player_games: u64,
    pub n_incomplete_skipped: u64,
    pub n_mismatch: u64,
    pub overall: CardFateGroupStats,
    pub winners: CardFateGroupStats,
    pub losers: CardFateGroupStats,
}

impl CardFateStats {
    /// Every group's fate tallies balance: each taken card has one fate.
    pub open spec fn balanced(&self) -> bool {
        &&& self.overall.counts.balanced()
        &&& self.winners.counts.balanced()
        &&& self.losers.counts.balanced()
    }

    /// Nothing recorded yet.
    pub fn new() -> (s: CardFateStats)
        ensures
            s.n_player_games == 0 && s.n_incomplete_skipped == 0 && s.n_mismatch == 0,
            s.balanced(),
            group_empty(s.overall),
            group_empty(s.winners),
            group_empty(s.losers),
    {
        CardFateStats {
            n_player_games: 0,
            n_incomplete_skipped: 0,
            n_mismatch: 0,
            overall: empty_group(),
            winners: empty_group(),
            losers: empty_group(),
        }
    }

    /// Adds one player-game, followed to its end in `final_round`, whose
    /// player's outcome was `outcome`: to the overall tallies, and to the
    /// winners' for `win` or the losers' for `loss`.
    pub fn record_player_game(&mut self, t: &CardFateTrack, final_round: u16, outcome: &str)
        requires
            old(self).n_player_games < u64::MAX,
            old(self).n_mismatch + t.n_mismatch <= u64::MAX,
            group_room(old(self).overall, t.view()),
            outcome@ == "win"@ ==> group_room(old(self).winners, t.view()),
            outcome@ == "loss"@ ==> group_room(old(self).losers, t.view()),
        ensures
            final(self).n_player_games == old(self).n_player_games + 1,
            final(self).n_incomplete_skipped == old(self).n_incomplete_skipped,
            final(self).n_mismatch == old(self).n_mismatch + t.n_mismatch,
            group_recorded(old(self).overall, final(self).overall, t.view(), final_round),
            if outcome@ == "win"@ {
                group_recorded(old(self).winners, final(self).winners, t.view(), final_round)
            } else {
                final(self).winners == old(self).winners
            },
            if outcome@ == "loss"@ {
                group_recorded(old(self).losers, final(self).losers, t.view(), final_round)
            } else {
                final(self).losers == old(self).losers
            },
            old(self).balanced() ==> final(self).balanced(),
    {
        proof {
            reveal_strlit("win");
            reveal_strlit("loss");
            assert("win"@[0] != "loss"@[0]);
        }
        self.n_player_games = self.n_player_games + 1;
        self.n_mismatch = self.n_mismatch + t.n_mismatch as u64;
        record_into(&mut self.overall, t, final_round);
        if str_eq(outcome, "win") {
            record_into(&mut self.winners, t, final_round);
        } else if str_eq(outcome, "loss") {
            record_into(&mut self.losers, t, final_round);
        }
    }

    /// Counts `n` player-games skipped because their replay never reached
    /// the game's end.
    pub fn skip_incomplete(&mut self, n: u64)
        requires
            old(self).n_incomplete_skipped + n <= u64::MAX,
        ensures
            final(self).n_incomplete_skipped == old(self).n_incomplete_skipped + n,
            final(self).n_player_games == old(self).n_player_games,
            final(self).n_mismatch == old(self).n_mismatch,
            final(self).overall == old(self).overall,
            final(self).winners == old(self).winners,
            final(self).losers == old(self).losers,
    {
        self.n_incomplete_skipped = self.n_incomplete_skipped + n;
    }
}

/// The outcome listed for the colour seated at `seat`, the first listing of
/// it winning; `unknown` when the seat has no colour or its colour is not
/// listed.
pub open spec fn seat_outcome_spec(seat: u8, outcomes: Seq<(Color, Seq<char>)>, i: int) -> Seq<char>
    decreases outcomes.len() - i,
{
    if i < 0 || i >= outcomes.len() {
        "unknown"@
    } else if color_of_seat(seat as int) == Some(outcomes[i].0) {
        outcomes[i].1
    } else {
        seat_outcome_spec(seat, outcomes, i + 1)
    }
}

/// The outcomes as plain values.
pub open spec fn outcome_views(o: Seq<(Color, String)>) -> Seq<(Color, Seq<char>)> {
    o.map_values(|p: (Color, String)| (p.0, p.1@))
}

/// The outcome (`win`, `loss`, ...) of the player seated at `seat`, read off
/// the game's outcomes by colour.
pub fn seat_outcome(seat: u8, outcomes: &Vec<(Color, String)>) -> (r: &str)
    ensures
        r@ == seat_outcome_spec(seat, outcome_views(outcomes@), 0),
{
    let ghost ov = outcome_views(outcomes@);
    let color = match Color::from_seat(seat) {
        Some(c) => c,
        None => {
            proof {
                lemma_no_seat_colour(seat, ov, 0);
            }
            return "unknown";
        },
    };
    let mut i: usize = 0;
    while i < outcomes.len()
        invariant
            ov == outcome_views(outcomes@),
            i <= outcomes@.len(),
            color_of_seat(seat as int) == Some(color),
            seat_outcome_spec(seat, ov, i as int) == seat_outcome_spec(seat, ov, 0),
        decreases outcomes@.len() - i,
    {
        assert(ov[i as int] == (outcomes@[i as int].0, outcomes@[i as int].1@));
        if outcomes[i].0 == color {
            return outcomes[i].1.as_str();
        }
        i = i + 1;
    }
    "unknown"
}

/// With no colour at `seat`, no listing matches.
proof fn lemma_no_seat_colour(seat: u8, o: Seq<(Color, Seq<char>)>, i: int)
    requires
        color_of_seat(seat as int) is None,
    ensures
        seat_outcome_spec(seat, o, i) == "unknown"@,
    decreases o.len() - i,
{
    if 0 <= i < o.len() {
        lemma_no_seat_colour(seat, o, i + 1);
    }
}

} // verus!

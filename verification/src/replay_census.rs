//! The replay census: what replaying each corpus game against its journal
//! comes to, summed over the corpus.
//!
//! Replaying a game is the engine's; this module takes what one replay found
//! as plain facts and folds them into the census's counters, histograms and
//! example lists, and checks a completed game's final scores against the
//! index's.
use vstd::prelude::*;
use crate::keyed_tally::{recorded, room, EntryView, KeyedTally};
use crate::num::{parse_unsigned, parse_unsigned_spec};
use crate::replay_stats::{
    action_class_bucket_key, action_class_key_spec, bucket_key, bucket_key_spec, event_name,
    hand_ledger_key_spec, hand_ledger_verdict_key, journal_arithmetic_error_suppression,
    suppression_in_range, suppression_spec, CultureOracleDivergence, FinalEventAwardDivergence,
    HandLedgerVerdict, LedgerEventKind, MismatchKind,
};
use crate::stats::{sort_i32, sorted_i32};
use crate::text::{is_age_two_plus, is_late_age, journal_line_age, line_age};

verus! {

/// What the military-hand ledger found at a game's first discard-phase
/// divergence.
pub struct LedgerFacts {
    pub verdict: HandLedgerVerdict,
    /// The kind of the ledger's own last event before the divergence.
    pub last_event: Option<LedgerEventKind>,
    /// The example line shown for the verdict's bucket.
    pub example: String,
}

/// A game's first disagreement with the journal's discard count.
pub struct DiscardFacts {
    /// The line listed for the game.
    pub line: String,
    pub ledger: Option<LedgerFacts>,
}

/// Why and where a replay stopped short.
pub struct StopFacts {
    pub kind: MismatchKind,
    /// The journal's round column at the stop, as written.
    pub round: String,
    /// The example line shown for the reason's bucket.
    pub example: String,
}

/// What replaying one game found.
pub struct GameFacts {
    /// The game's length in rounds, from the index.
    pub rounds: u32,
    pub bid_ceilings_grounded: u32,
    pub hand_full_takes_overridden: u32,
    pub discard_checked: u64,
    pub discard_agreed: u64,
    pub discard_divergence: Option<DiscardFacts>,
    pub culture_checked: u64,
    pub culture_agreed: u64,
    pub culture_divergence: Option<CultureOracleDivergence>,
    /// The example line shown for a culture divergence's bucket.
    pub culture_example: String,
    pub science_checked: u64,
    pub science_agreed: u64,
    pub science_diverged: bool,
    pub resource_checked: u64,
    pub resource_agreed: u64,
    pub resource_diverged: bool,
    /// The example shown when the civil deck advanced an age too early.
    pub premature_example: Option<String>,
    pub politics_false_skips: u32,
    pub politics_false_skips_unrecovered: u32,
    pub award_divergences: Vec<FinalEventAwardDivergence>,
    /// The example line for each award divergence, in the same order.
    pub award_examples: Vec<String>,
    /// The journal line of each decision the replay recorded.
    pub decision_lines: Vec<usize>,
    pub completed: bool,
    /// The engine's final scores in seat order, when the game was scored.
    pub engine_scores: Option<Vec<i32>>,
    /// The index's final scores, in placement order.
    pub index_scores: Vec<i32>,
    /// The seat that placed at each position, when it could be pinned.
    pub index_order: Option<Vec<u8>>,
    pub stop: Option<StopFacts>,
}

/// The census's counters.
#[derive(Clone, Copy)]
pub struct Counts {
    pub n_games: u64,
    pub rounds_total_sum: u64,
    pub bid_ceilings_grounded: u64,
    pub n_bid_ceiling_games: u64,
    pub hand_full_takes_overridden: u64,
    pub n_hand_full_take_games: u64,
    pub discard_checked: u64,
    pub discard_agreed: u64,
    pub culture_checked: u64,
    pub culture_agreed: u64,
    pub science_checked: u64,
    pub science_agreed: u64,
    pub n_science_diverging: u64,
    pub resource_checked: u64,
    pub resource_agreed: u64,
    pub n_resource_diverging: u64,
    pub n_premature: u64,
    pub n_false_skips_total: u64,
    pub n_games_with_false_skip: u64,
    pub n_false_skips_unrecovered_total: u64,
    pub n_games_with_unrecovered_false_skip: u64,
    pub n_games_with_award_divergence: u64,
    pub decisions_total: u64,
    pub decisions_age_two_plus: u64,
    pub n_completed: u64,
    pub round_reached_sum: u64,
    pub n_score_checked: u64,
    pub n_score_exact: u64,
    pub n_gate_suppressed: u64,
}

/// How a game's final scores compared with the index's.
pub enum ScoreCheck {
    /// The game was not completed, or the engine never scored it.
    NotChecked,
    /// The sorted score lists are equal.
    Exact,
    /// They differ by one award the journal mis-stated.
    Suppressed,
    /// They differ otherwise.
    Diverged,
}

/// An optional list of seats taken as a sequence.
pub open spec fn order_view(o: Option<Vec<u8>>) -> Option<Seq<u8>> {
    match o {
        Some(v) => Some(v@),
        None => None,
    }
}

/// How the game's final scores compared with the index's.
pub open spec fn score_check(g: GameFacts) -> ScoreCheck {
    if !g.completed {
        ScoreCheck::NotChecked
    } else {
        match g.engine_scores {
            None => ScoreCheck::NotChecked,
            Some(e) => if sorted_i32(e@) == sorted_i32(g.index_scores@) {
                ScoreCheck::Exact
            } else if suppression_spec(
                e@,
                g.index_scores@,
                order_view(g.index_order),
                g.award_divergences@,
                g.culture_divergence is Some,
            ) is Some {
                ScoreCheck::Suppressed
            } else {
                ScoreCheck::Diverged
            },
        }
    }
}

/// The smaller of two lengths.
pub open spec fn min_len(a: int, b: int) -> int {
    if a <= b {
        a
    } else {
        b
    }
}

/// The engine's sorted scores minus the index's, position by position, for
/// a game whose scores diverged; nothing otherwise.
pub open spec fn score_deltas_of(g: GameFacts) -> Seq<i32> {
    match (score_check(g), g.engine_scores) {
        (ScoreCheck::Diverged, Some(e)) => {
            let a = sorted_i32(e@);
            let b = sorted_i32(g.index_scores@);
            Seq::new(min_len(a.len() as int, b.len() as int) as nat, |k: int| (a[k] - b[k]) as i32)
        },
        _ => Seq::empty(),
    }
}

/// How many of `lines` name a journal line of Age II or later.
pub open spec fn late_count(journal: Seq<char>, lines: Seq<usize>) -> int
    decreases lines.len(),
{
    if lines.len() == 0 {
        0
    } else {
        late_count(journal, lines.drop_last()) + if journal_line_age(
            journal,
            lines.last() as int,
        ) matches Some(age) && is_late_age(age) {
            1int
        } else {
            0
        }
    }
}

/// The round a stopped game reached: its stop's round column read as a
/// number, 0 when it is not one.
pub open spec fn stop_round(s: StopFacts) -> int {
    match parse_unsigned_spec(s.round@, u32::MAX as int) {
        Some(n) => n,
        None => 0,
    }
}

/// The rounds a game adds to the rounds-reached sum: all of them when it was
/// completed, the round it stopped in when it stopped with a reason, none
/// otherwise.
pub open spec fn rounds_reached(g: GameFacts) -> int {
    if g.completed {
        g.rounds as int
    } else {
        match g.stop {
            Some(s) => stop_round(s),
            None => 0,
        }
    }
}

/// 1 for true, 0 for false.
pub open spec fn one_if(b: bool) -> int {
    if b {
        1
    } else {
        0
    }
}

/// The counters after one game, in unbounded integers.
pub open spec fn counts_step(c: Counts, g: GameFacts, journal: Seq<char>) -> Seq<int> {
    let check = score_check(g);
    seq![
        c.n_games + 1,
        c.rounds_total_sum + g.rounds,
        c.bid_ceilings_grounded + g.bid_ceilings_grounded,
        c.n_bid_ceiling_games + one_if(g.bid_ceilings_grounded > 0),
        c.hand_full_takes_overridden + g.hand_full_takes_overridden,
        c.n_hand_full_take_games + one_if(g.hand_full_takes_overridden > 0),
        c.discard_checked + g.discard_checked,
        c.discard_agreed + g.discard_agreed,
        c.culture_checked + g.culture_checked,
        c.culture_agreed + g.culture_agreed,
        c.science_checked + g.science_checked,
        c.science_agreed + g.science_agreed,
        c.n_science_diverging + one_if(g.science_diverged),
        c.resource_checked + g.resource_checked,
        c.resource_agreed + g.resource_agreed,
        c.n_resource_diverging + one_if(g.resource_diverged),
        c.n_premature + one_if(g.premature_example is Some),
        c.n_false_skips_total + g.politics_false_skips,
        c.n_games_with_false_skip + one_if(g.politics_false_skips > 0),
        c.n_false_skips_unrecovered_total + g.politics_false_skips_unrecovered,
        c.n_games_with_unrecovered_false_skip + one_if(g.politics_false_skips_unrecovered > 0),
        c.n_games_with_award_divergence + one_if(g.award_divergences@.len() > 0),
        c.decisions_total + g.decision_lines@.len(),
        c.decisions_age_two_plus + late_count(journal, g.decision_lines@),
        c.n_completed + one_if(g.completed),
        c.round_reached_sum + rounds_reached(g),
        c.n_score_checked + one_if(!(check is NotChecked)),
        c.n_score_exact + one_if(check is Exact),
        c.n_gate_suppressed + one_if(check is Suppressed),
    ]
}

/// The counters as a sequence, in the order of [`counts_step`].
pub open spec fn counts_seq(c: Counts) -> Seq<int> {
    seq![
        c.n_games as int,
        c.rounds_total_sum as int,
        c.bid_ceilings_grounded as int,
        c.n_bid_ceiling_games as int,
        c.hand_full_takes_overridden as int,
        c.n_hand_full_take_games as int,
        c.discard_checked as int,
        c.discard_agreed as int,
        c.culture_checked as int,
        c.culture_agreed as int,
        c.science_checked as int,
        c.science_agreed as int,
        c.n_science_diverging as int,
        c.resource_checked as int,
        c.resource_agreed as int,
        c.n_resource_diverging as int,
        c.n_premature as int,
        c.n_false_skips_total as int,
        c.n_games_with_false_skip as int,
        c.n_false_skips_unrecovered_total as int,
        c.n_games_with_unrecovered_false_skip as int,
        c.n_games_with_award_divergence as int,
        c.decisions_total as int,
        c.decisions_age_two_plus as int,
        c.n_completed as int,
        c.round_reached_sum as int,
        c.n_score_checked as int,
        c.n_score_exact as int,
        c.n_gate_suppressed as int,
    ]
}

/// Every counter after one more game still fits in `u64`.
pub open spec fn counts_fit(c: Counts, g: GameFacts, journal: Seq<char>) -> bool {
    forall|i: int| 0 <= i < 29 ==> #[trigger] counts_step(c, g, journal)[i] <= u64::MAX
}

/// The inputs on which checking a completed game's scores stays inside
/// `i32`: the journal-arithmetic-error test's own range, and the
/// differences of the sorted scores of a game that diverged.
pub open spec fn scores_in_range(g: GameFacts) -> bool {
    match (g.completed, g.engine_scores) {
        (true, Some(e)) => {
            let a = sorted_i32(e@);
            let b = sorted_i32(g.index_scores@);
            let order = order_view(g.index_order);
            let drifted = g.culture_divergence is Some;
            a != b ==> {
                &&& suppression_in_range(e@, g.index_scores@, order, g.award_divergences@, drifted)
                &&& suppression_spec(e@, g.index_scores@, order, g.award_divergences@, drifted)
                    is None ==> forall|k: int|
                    0 <= k < min_len(a.len() as int, b.len() as int) ==> i32::MIN <= #[trigger] (
                    a[k] - b[k]) <= i32::MAX
            }
        },
        _ => true,
    }
}

/// Whether two lists of scores are equal.
fn same_scores(a: &Vec<i32>, b: &Vec<i32>) -> (r: bool)
    ensures
        r == (a@ == b@),
{
    if a.len() != b.len() {
        return false;
    }
    let mut i: usize = 0;
    while i < a.len()
        invariant
            a@.len() == b@.len(),
            i <= a@.len(),
            forall|k: int| 0 <= k < i ==> a@[k] == b@[k],
        decreases a@.len() - i,
    {
        if a[i] != b[i] {
            return false;
        }
        i = i + 1;
    }
    assert(a@ =~= b@);
    true
}

/// A copy of a list of scores.
fn copy_scores(v: &Vec<i32>) -> (r: Vec<i32>)
    ensures
        r@ == v@,
{
    let mut r: Vec<i32> = Vec::new();
    let mut i: usize = 0;
    while i < v.len()
        invariant
            i <= v@.len(),
            r@ == v@.take(i as int),
        decreases v@.len() - i,
    {
        r.push(v[i]);
        i = i + 1;
        assert(r@ =~= v@.take(i as int));
    }
    assert(v@.take(v@.len() as int) =~= v@);
    r
}

/// Compares a game's final scores with the index's: not at all unless the
/// game was completed and scored; else equal once both lists are sorted,
/// or one award the journal mis-stated, or diverged, with the sorted
/// differences.
fn check_scores(g: &GameFacts) -> (r: (ScoreCheck, Vec<i32>))
    requires
        scores_in_range(*g),
    ensures
        r.0 == score_check(*g),
        r.1@ == score_deltas_of(*g),
{
    if !g.completed {
        return (ScoreCheck::NotChecked, Vec::new());
    }
    let e = match &g.engine_scores {
        None => return (ScoreCheck::NotChecked, Vec::new()),
        Some(e) => e,
    };
    let mut a = copy_scores(e);
    let mut b = copy_scores(&g.index_scores);
    sort_i32(&mut a);
    sort_i32(&mut b);
    if same_scores(&a, &b) {
        return (ScoreCheck::Exact, Vec::new());
    }
    let order: Option<&[u8]> = match &g.index_order {
        Some(o) => Some(o.as_slice()),
        None => None,
    };
    let suppressed = journal_arithmetic_error_suppression(
        e.as_slice(),
        g.index_scores.as_slice(),
        order,
        g.award_divergences.as_slice(),
        g.culture_divergence.as_ref(),
    );
    if suppressed.is_some() {
        return (ScoreCheck::Suppressed, Vec::new());
    }
    let n = if a.len() <= b.len() {
        a.len()
    } else {
        b.len()
    };
    let mut deltas: Vec<i32> = Vec::new();
    let mut k: usize = 0;
    while k < n
        invariant
            n == min_len(a@.len() as int, b@.len() as int),
            k <= n,
            forall|j: int| 0 <= j < n ==> i32::MIN <= #[trigger] (a@[j] - b@[j]) <= i32::MAX,
            deltas@ == Seq::new(k as nat, |j: int| (a@[j] - b@[j]) as i32),
        decreases n - k,
    {
        deltas.push(a[k] - b[k]);
        k = k + 1;
        assert(deltas@ =~= Seq::new(k as nat, |j: int| (a@[j] - b@[j]) as i32));
    }
    (ScoreCheck::Diverged, deltas)
}

/// How many of the decisions at journal lines `lines` were taken in Age II
/// or later.
fn late_decisions(journal: &str, lines: &Vec<usize>) -> (n: u64)
    requires
        lines@.len() <= u64::MAX,
    ensures
        n == late_count(journal@, lines@),
{
    let mut n: u64 = 0;
    let mut i: usize = 0;
    while i < lines.len()
        invariant
            i <= lines@.len(),
            lines@.len() <= u64::MAX,
            n == late_count(journal@, lines@.take(i as int)),
            n <= i,
        decreases lines@.len() - i,
    {
        assert(lines@.take(i + 1).drop_last() =~= lines@.take(i as int));
        let late = match line_age(journal, lines[i]) {
            Some(age) => is_age_two_plus(age),
            None => false,
        };
        if late {
            n = n + 1;
        }
        i = i + 1;
    }
    assert(lines@.take(lines@.len() as int) =~= lines@);
    n
}

/// Strings taken as plain characters.
pub open spec fn views(v: Seq<String>) -> Seq<Seq<char>> {
    v.map_values(|s: String| s@)
}

/// The ledger histogram after one game: the ledger's verdict counted when
/// the game's discard count diverged and the ledger had a verdict on it.
pub open spec fn ledger_after(t: Seq<EntryView>, g: GameFacts) -> Seq<EntryView> {
    match g.discard_divergence {
        Some(d) => match d.ledger {
            Some(l) => recorded(t, hand_ledger_key_spec(l.verdict, event_name(l.last_event)), 0, l.example@),
            None => t,
        },
        None => t,
    }
}

/// The culture histogram after one game: its first culture divergence
/// counted under the action class that preceded it.
pub open spec fn culture_after(t: Seq<EntryView>, g: GameFacts) -> Seq<EntryView> {
    match g.culture_divergence {
        Some(d) => recorded(t, action_class_key_spec(d.last_action_class), 0, g.culture_example@),
        None => t,
    }
}

/// The award histogram after the first `k` award divergences of a game,
/// each counted under its card.
pub open spec fn awards_after(
    t: Seq<EntryView>,
    ds: Seq<FinalEventAwardDivergence>,
    examples: Seq<String>,
    k: int,
) -> Seq<EntryView>
    decreases k,
{
    if k <= 0 {
        t
    } else {
        recorded(awards_after(t, ds, examples, k - 1), ds[k - 1].card@, 0, examples[k - 1]@)
    }
}

/// The stop-reason histogram after one game: a game that stopped short with
/// a reason counted under that reason, with the round it reached.
pub open spec fn stop_after(t: Seq<EntryView>, g: GameFacts) -> Seq<EntryView> {
    match g.stop {
        Some(st) => if g.completed {
            t
        } else {
            recorded(t, bucket_key_spec(st.kind), stop_round(st), st.example@)
        },
        None => t,
    }
}

/// The discard-divergence list after one game.
pub open spec fn discard_lines_after(lines: Seq<Seq<char>>, g: GameFacts) -> Seq<Seq<char>> {
    match g.discard_divergence {
        Some(d) => lines.push(d.line@),
        None => lines,
    }
}

/// The premature-advance examples after one game: at most ten are kept.
pub open spec fn premature_after(examples: Seq<Seq<char>>, g: GameFacts) -> Seq<Seq<char>> {
    match g.premature_example {
        Some(ex) => if examples.len() < 10 {
            examples.push(ex@)
        } else {
            examples
        },
        None => examples,
    }
}

/// What replaying the corpus has found so far.
pub struct ReplayCensus {
    pub counts: Counts,
    /// The engine's sorted scores minus the index's, for every game whose
    /// scores diverged, in game order.
    pub score_deltas: Vec<i32>,
    /// One line per game whose discard count diverged, in game order.
    pub discard_divergences: Vec<String>,
    /// Up to ten examples of the civil deck advancing an age too early.
    pub premature_examples: Vec<String>,
    /// Games by what the military-hand ledger found at their first discard
    /// divergence.
    pub ledger_buckets: KeyedTally,
    /// Games by the action class that preceded their first culture
    /// divergence.
    pub culture_buckets: KeyedTally,
    /// (Game, seat) award divergences by card.
    pub award_buckets: KeyedTally,
    /// Games that stopped short, by reason, with the rounds they reached.
    pub stop_buckets: KeyedTally,
}

impl ReplayCensus {
    /// The histograms are well formed.
    pub open spec fn wf(&self) -> bool {
        &&& self.ledger_buckets.wf()
        &&& self.culture_buckets.wf()
        &&& self.award_buckets.wf()
        &&& self.stop_buckets.wf()
    }

    /// Nothing found yet.
    pub fn new() -> (c: ReplayCensus)
        ensures
            c.wf(),
            counts_seq(c.counts) == Seq::new(29, |i: int| 0int),
            consistent(c.counts),
            c.score_deltas@ == Seq::<i32>::empty(),
            c.discard_divergences@ == Seq::<String>::empty(),
            c.premature_examples@ == Seq::<String>::empty(),
            c.ledger_buckets@ == Seq::<EntryView>::empty(),
            c.culture_buckets@ == Seq::<EntryView>::empty(),
            c.award_buckets@ == Seq::<EntryView>::empty(),
            c.stop_buckets@ == Seq::<EntryView>::empty(),
    {
        let c = ReplayCensus {
            counts: Counts {
                n_games: 0,
                rounds_total_sum: 0,
                bid_ceilings_grounded: 0,
                n_bid_ceiling_games: 0,
                hand_full_takes_overridden: 0,
                n_hand_full_take_games: 0,
                discard_checked: 0,
                discard_agreed: 0,
                culture_checked: 0,
                culture_agreed: 0,
                science_checked: 0,
                science_agreed: 0,
                n_science_diverging: 0,
                resource_checked: 0,
                resource_agreed: 0,
                n_resource_diverging: 0,
                n_premature: 0,
                n_false_skips_total: 0,
                n_games_with_false_skip: 0,
                n_false_skips_unrecovered_total: 0,
                n_games_with_unrecovered_false_skip: 0,
                n_games_with_award_divergence: 0,
                decisions_total: 0,
                decisions_age_two_plus: 0,
                n_completed: 0,
                round_reached_sum: 0,
                n_score_checked: 0,
                n_score_exact: 0,
                n_gate_suppressed: 0,
            },
            score_deltas: Vec::new(),
            discard_divergences: Vec::new(),
            premature_examples: Vec::new(),
            ledger_buckets: KeyedTally::new(),
            culture_buckets: KeyedTally::new(),
            award_buckets: KeyedTally::new(),
            stop_buckets: KeyedTally::new(),
        };
        assert(counts_seq(c.counts) =~= Seq::new(29, |i: int| 0int));
        c
    }
}

/// The game's discard count diverged and the ledger has a verdict on it.
pub open spec fn has_ledger_verdict(g: GameFacts) -> bool {
    match g.discard_divergence {
        Some(d) => d.ledger is Some,
        None => false,
    }
}

/// The counters agree with one another: of the games read, the completed,
/// the scored, and the exact or suppressed are nested in that order; a game
/// counted as having some finding is one of the games read and contributed
/// at least one to that finding's total; and the late decisions are among
/// the decisions.
pub open spec fn consistent(c: Counts) -> bool {
    &&& c.n_score_exact + c.n_gate_suppressed <= c.n_score_checked
    &&& c.n_score_checked <= c.n_completed
    &&& c.n_completed <= c.n_games
    &&& c.n_bid_ceiling_games <= c.n_games
    &&& c.n_bid_ceiling_games <= c.bid_ceilings_grounded
    &&& c.n_hand_full_take_games <= c.n_games
    &&& c.n_hand_full_take_games <= c.hand_full_takes_overridden
    &&& c.n_science_diverging <= c.n_games
    &&& c.n_resource_diverging <= c.n_games
    &&& c.n_premature <= c.n_games
    &&& c.n_games_with_false_skip <= c.n_games
    &&& c.n_games_with_false_skip <= c.n_false_skips_total
    &&& c.n_games_with_unrecovered_false_skip <= c.n_games
    &&& c.n_games_with_unrecovered_false_skip <= c.n_false_skips_unrecovered_total
    &&& c.n_games_with_award_divergence <= c.n_games
    &&& c.decisions_age_two_plus <= c.decisions_total
}

/// The late decisions are among the decisions.
proof fn lemma_late_count_bound(journal: Seq<char>, lines: Seq<usize>)
    ensures
        0 <= late_count(journal, lines) <= lines.len(),
    decreases lines.len(),
{
    if lines.len() > 0 {
        lemma_late_count_bound(journal, lines.drop_last());
    }
}

/// Folding in one more game keeps the counters agreeing with one another.
pub proof fn lemma_census_stays_consistent(c: Counts, g: GameFacts, journal: Seq<char>, d: Counts)
    requires
        consistent(c),
        counts_seq(d) == counts_step(c, g, journal),
    ensures
        consistent(d),
{
    let s = counts_step(c, g, journal);
    let t = counts_seq(d);
    lemma_late_count_bound(journal, g.decision_lines@);
    assert(t[0] == s[0] && t[2] == s[2] && t[3] == s[3] && t[4] == s[4] && t[5] == s[5]);
    assert(t[12] == s[12] && t[15] == s[15] && t[16] == s[16] && t[17] == s[17] && t[18] == s[18]);
    assert(t[19] == s[19] && t[20] == s[20] && t[21] == s[21] && t[22] == s[22] && t[23] == s[23]);
    assert(t[24] == s[24] && t[26] == s[26] && t[27] == s[27] && t[28] == s[28]);
    let check = score_check(g);
    if !g.completed {
        assert(check is NotChecked);
    }
}

/// Folding in one game adds that game's own checkpoints to each oracle's
/// tallies: the discard, culture, science and resource oracles' checked
/// counters grow by the game's checked checkpoints and their agreed
/// counters by the game's agreed ones; so when every game's agreed
/// checkpoints are among its checked ones, the census's are too.
pub proof fn lemma_oracle_checkpoints_add_up(c: Counts, g: GameFacts, journal: Seq<char>, d: Counts)
    requires
        counts_seq(d) == counts_step(c, g, journal),
    ensures
        d.discard_checked == c.discard_checked + g.discard_checked,
        d.discard_agreed == c.discard_agreed + g.discard_agreed,
        d.culture_checked == c.culture_checked + g.culture_checked,
        d.culture_agreed == c.culture_agreed + g.culture_agreed,
        d.science_checked == c.science_checked + g.science_checked,
        d.science_agreed == c.science_agreed + g.science_agreed,
        d.resource_checked == c.resource_checked + g.resource_checked,
        d.resource_agreed == c.resource_agreed + g.resource_agreed,
        c.science_agreed <= c.science_checked && g.science_agreed <= g.science_checked
            ==> d.science_agreed <= d.science_checked,
        c.culture_agreed <= c.culture_checked && g.culture_agreed <= g.culture_checked
            ==> d.culture_agreed <= d.culture_checked,
        c.discard_agreed <= c.discard_checked && g.discard_agreed <= g.discard_checked
            ==> d.discard_agreed <= d.discard_checked,
        c.resource_agreed <= c.resource_checked && g.resource_agreed <= g.resource_checked
            ==> d.resource_agreed <= d.resource_checked,
{
    let s = counts_step(c, g, journal);
    let t = counts_seq(d);
    assert(t[6] == s[6] && t[7] == s[7] && t[8] == s[8] && t[9] == s[9]);
    assert(t[10] == s[10] && t[11] == s[11] && t[13] == s[13] && t[14] == s[14]);
}

/// Folding in one game counts one more game; a completed game one more
/// completed game; a completed game the engine scored one more checked
/// score, which is exact exactly when the sorted score lists agree; and
/// each of the game's decision lines one more decision.
pub proof fn lemma_games_and_scores_are_counted(c: Counts, g: GameFacts, journal: Seq<char>, d: Counts)
    requires
        counts_seq(d) == counts_step(c, g, journal),
    ensures
        d.n_games == c.n_games + 1,
        d.n_completed == c.n_completed + if g.completed {
            1int
        } else {
            0int
        },
        d.decisions_total == c.decisions_total + g.decision_lines@.len(),
        d.n_score_checked == c.n_score_checked + if g.completed && g.engine_scores is Some {
            1int
        } else {
            0int
        },
        d.n_score_exact == c.n_score_exact + if g.completed && g.engine_scores is Some && sorted_i32(
            g.engine_scores->0@,
        ) == sorted_i32(g.index_scores@) {
            1int
        } else {
            0int
        },
        d.rounds_total_sum == c.rounds_total_sum + g.rounds,
{
    let s = counts_step(c, g, journal);
    let t = counts_seq(d);
    assert(t[0] == s[0] && t[1] == s[1] && t[22] == s[22] && t[24] == s[24]);
    assert(t[26] == s[26] && t[27] == s[27]);
}

/// The inputs on which folding one more game in stays inside the machine's
/// integers: every counter, every histogram count the game adds to, and the
/// stop histogram's sum of rounds.
pub open spec fn room_for(c: ReplayCensus, g: GameFacts, journal: Seq<char>) -> bool {
    &&& counts_fit(c.counts, g, journal)
    &&& scores_in_range(g)
    &&& has_ledger_verdict(g) ==> room(c.ledger_buckets@, 1, 0)
    &&& g.culture_divergence is Some ==> room(c.culture_buckets@, 1, 0)
    &&& g.award_divergences@.len() + 1 <= u64::MAX
    &&& room(c.award_buckets@, g.award_divergences@.len() as int, 0)
    &&& (!g.completed && g.stop is Some) ==> room(c.stop_buckets@, 1, stop_round(g.stop->0))
}

impl ReplayCensus {
    /// Folds in what replaying one game found, `journal` being that game's
    /// journal text: the counters, the score check of a completed game, the
    /// histograms, and the example lists.
    #[verifier::loop_isolation(false)]
    #[verifier::rlimit(40)]
    pub fn record_game(&mut self, g: GameFacts, journal: &str)
        requires
            old(self).wf(),
            g.award_examples@.len() == g.award_divergences@.len(),
            room_for(*old(self), g, journal@),
        ensures
            final(self).wf(),
            counts_seq(final(self).counts) == counts_step(old(self).counts, g, journal@),
            final(self).score_deltas@ == old(self).score_deltas@ + score_deltas_of(g),
            views(final(self).discard_divergences@) == discard_lines_after(
                views(old(self).discard_divergences@),
                g,
            ),
            views(final(self).premature_examples@) == premature_after(
                views(old(self).premature_examples@),
                g,
            ),
            final(self).ledger_buckets@ == ledger_after(old(self).ledger_buckets@, g),
            final(self).culture_buckets@ == culture_after(old(self).culture_buckets@, g),
            final(self).award_buckets@ == awards_after(
                old(self).award_buckets@,
                g.award_divergences@,
                g.award_examples@,
                g.award_divergences@.len() as int,
            ),
            final(self).stop_buckets@ == stop_after(old(self).stop_buckets@, g),
            consistent(old(self).counts) ==> consistent(final(self).counts),
    {
        let ghost g0 = g;
        let ghost c0 = self.counts;
        let (check, deltas) = check_scores(&g);
        let n_lines = g.decision_lines.len();
        assert(n_lines <= u64::MAX);
        let late = late_decisions(journal, &g.decision_lines);
        let round_reached: u64 = if g.completed {
            g.rounds as u64
        } else {
            match &g.stop {
                Some(st) => match parse_unsigned(st.round.as_str(), u32::MAX as u64) {
                    Some(n) => n,
                    None => 0,
                },
                None => 0,
            }
        };
        let c = self.counts;
        proof {
            let s = counts_step(c, g, journal@);
            assert forall|i: int| 0 <= i < 29 implies s[i] <= u64::MAX by {
                assert(counts_fit(c, g, journal@));
            }
        }
        let checked: u64 = match check {
            ScoreCheck::NotChecked => 0,
            _ => 1,
        };
        let exact: u64 = match check {
            ScoreCheck::Exact => 1,
            _ => 0,
        };
        let suppressed: u64 = match check {
            ScoreCheck::Suppressed => 1,
            _ => 0,
        };
        let ghost s = counts_step(c, g, journal@);
        assert(s[0] <= u64::MAX && s[1] <= u64::MAX && s[2] <= u64::MAX && s[3] <= u64::MAX);
        assert(s[4] <= u64::MAX && s[5] <= u64::MAX && s[6] <= u64::MAX && s[7] <= u64::MAX);
        assert(s[8] <= u64::MAX && s[9] <= u64::MAX && s[10] <= u64::MAX && s[11] <= u64::MAX);
        assert(s[12] <= u64::MAX && s[13] <= u64::MAX && s[14] <= u64::MAX && s[15] <= u64::MAX);
        assert(s[16] <= u64::MAX && s[17] <= u64::MAX && s[18] <= u64::MAX && s[19] <= u64::MAX);
        assert(s[20] <= u64::MAX && s[21] <= u64::MAX && s[22] <= u64::MAX && s[23] <= u64::MAX);
        assert(s[24] <= u64::MAX && s[25] <= u64::MAX && s[26] <= u64::MAX && s[27] <= u64::MAX);
        assert(s[28] <= u64::MAX);
        self.counts = Counts {
            n_games: c.n_games + 1,
            rounds_total_sum: c.rounds_total_sum + g.rounds as u64,
            bid_ceilings_grounded: c.bid_ceilings_grounded + g.bid_ceilings_grounded as u64,
            n_bid_ceiling_games: c.n_bid_ceiling_games + if g.bid_ceilings_grounded > 0 {
                1
            } else {
                0
            },
            hand_full_takes_overridden: c.hand_full_takes_overridden
                + g.hand_full_takes_overridden as u64,
            n_hand_full_take_games: c.n_hand_full_take_games + if g.hand_full_takes_overridden > 0 {
                1
            } else {
                0
            },
            discard_checked: c.discard_checked + g.discard_checked,
            discard_agreed: c.discard_agreed + g.discard_agreed,
            culture_checked: c.culture_checked + g.culture_checked,
            culture_agreed: c.culture_agreed + g.culture_agreed,
            science_checked: c.science_checked + g.science_checked,
            science_agreed: c.science_agreed + g.science_agreed,
            n_science_diverging: c.n_science_diverging + if g.science_diverged {
                1
            } else {
                0
            },
            resource_checked: c.resource_checked + g.resource_checked,
            resource_agreed: c.resource_agreed + g.resource_agreed,
            n_resource_diverging: c.n_resource_diverging + if g.resource_diverged {
                1
            } else {
                0
            },
            n_premature: c.n_premature + if g.premature_example.is_some() {
                1
            } else {
                0
            },
            n_false_skips_total: c.n_false_skips_total + g.politics_false_skips as u64,
            n_games_with_false_skip: c.n_games_with_false_skip + if g.politics_false_skips > 0 {
                1
            } else {
                0
            },
            n_false_skips_unrecovered_total: c.n_false_skips_unrecovered_total
                + g.politics_false_skips_unrecovered as u64,
            n_games_with_unrecovered_false_skip: c.n_games_with_unrecovered_false_skip
                + if g.politics_false_skips_unrecovered > 0 {
                1
            } else {
                0
            },
            n_games_with_award_divergence: c.n_games_with_award_divergence
                + if g.award_divergences.len() > 0 {
                1
            } else {
                0
            },
            decisions_total: c.decisions_total + g.decision_lines.len() as u64,
            decisions_age_two_plus: c.decisions_age_two_plus + late,
            n_completed: c.n_completed + if g.completed {
                1
            } else {
                0
            },
            round_reached_sum: c.round_reached_sum + round_reached,
            n_score_checked: c.n_score_checked + checked,
            n_score_exact: c.n_score_exact + exact,
            n_gate_suppressed: c.n_gate_suppressed + suppressed,
        };
        assert(counts_seq(self.counts) =~= counts_step(c, g0, journal@));
        let ghost deltas_before = self.score_deltas@;
        let ghost mid = *self;
        let mut k: usize = 0;
        while k < deltas.len()
            invariant
                self.counts == mid.counts,
                self.discard_divergences == mid.discard_divergences,
                self.premature_examples == mid.premature_examples,
                self.ledger_buckets == mid.ledger_buckets,
                self.culture_buckets == mid.culture_buckets,
                self.award_buckets == mid.award_buckets,
                self.stop_buckets == mid.stop_buckets,
                k <= deltas@.len(),
                self.score_deltas@ == deltas_before + deltas@.take(k as int),
            decreases deltas@.len() - k,
        {
            self.score_deltas.push(deltas[k]);
            k = k + 1;
            assert(self.score_deltas@ =~= deltas_before + deltas@.take(k as int));
        }
        assert(deltas@.take(deltas@.len() as int) =~= deltas@);
        proof {
            if consistent(c0) {
                lemma_census_stays_consistent(c0, g0, journal@, self.counts);
            }
        }
        self.record_histograms(g, round_reached);
    }

    /// Folds one game's findings into the histograms and example lists.
    #[verifier::loop_isolation(false)]
    fn record_histograms(&mut self, g: GameFacts, round_reached: u64)
        requires
            old(self).wf(),
            g.award_examples@.len() == g.award_divergences@.len(),
            has_ledger_verdict(g) ==> room(old(self).ledger_buckets@, 1, 0),
            g.culture_divergence is Some ==> room(old(self).culture_buckets@, 1, 0),
            g.award_divergences@.len() + 1 <= u64::MAX,
            room(old(self).award_buckets@, g.award_divergences@.len() as int, 0),
            (!g.completed && g.stop is Some) ==> round_reached == stop_round(g.stop->0) && room(
                old(self).stop_buckets@,
                1,
                stop_round(g.stop->0),
            ),
        ensures
            final(self).wf(),
            final(self).counts == old(self).counts,
            final(self).score_deltas@ == old(self).score_deltas@,
            views(final(self).discard_divergences@) == discard_lines_after(
                views(old(self).discard_divergences@),
                g,
            ),
            views(final(self).premature_examples@) == premature_after(
                views(old(self).premature_examples@),
                g,
            ),
            final(self).ledger_buckets@ == ledger_after(old(self).ledger_buckets@, g),
            final(self).culture_buckets@ == culture_after(old(self).culture_buckets@, g),
            final(self).award_buckets@ == awards_after(
                old(self).award_buckets@,
                g.award_divergences@,
                g.award_examples@,
                g.award_divergences@.len() as int,
            ),
            final(self).stop_buckets@ == stop_after(old(self).stop_buckets@, g),
    {
        let ghost g0 = g;
        let ghost before = *self;
        let GameFacts {
            discard_divergence,
            culture_divergence,
            culture_example,
            premature_example,
            award_divergences,
            award_examples,
            completed,
            stop,
            ..
        } = g;
        match discard_divergence {
            Some(d) => {
                let DiscardFacts { line, ledger } = d;
                let ghost lines0 = self.discard_divergences@;
                self.discard_divergences.push(line);
                assert(views(self.discard_divergences@) =~= views(lines0).push(g0.discard_divergence->0.line@));
                match ledger {
                    Some(l) => {
                        let LedgerFacts { verdict, last_event, example } = l;
                        let key = hand_ledger_verdict_key(&verdict, last_event);
                        self.ledger_buckets.record(key.as_str(), 0, example.as_str());
                    },
                    None => {},
                }
            },
            None => {},
        }
        match culture_divergence {
            Some(d) => {
                let key = action_class_bucket_key(d.last_action_class);
                self.culture_buckets.record(key.as_str(), 0, culture_example.as_str());
            },
            None => {},
        }
        match premature_example {
            Some(ex) => {
                if self.premature_examples.len() < 10 {
                    let ghost ex0 = self.premature_examples@;
                    self.premature_examples.push(ex);
                    assert(views(self.premature_examples@) =~= views(ex0).push(g0.premature_example->0@));
                }
            },
            None => {},
        }
        let n = award_divergences.len();
        let ghost mid = *self;
        let mut i: usize = 0;
        while i < n
            invariant
                self.counts == mid.counts,
                self.score_deltas == mid.score_deltas,
                self.discard_divergences == mid.discard_divergences,
                self.premature_examples == mid.premature_examples,
                self.ledger_buckets == mid.ledger_buckets,
                self.culture_buckets == mid.culture_buckets,
                self.stop_buckets == mid.stop_buckets,
                n == award_divergences@.len(),
                award_divergences@ == g0.award_divergences@,
                award_examples@ == g0.award_examples@,
                award_examples@.len() == n,
                n + 1 <= u64::MAX,
                i <= n,
                self.award_buckets.wf(),
                self.award_buckets@ == awards_after(
                    before.award_buckets@,
                    award_divergences@,
                    award_examples@,
                    i as int,
                ),
                room(self.award_buckets@, (n - i) as int, 0),
            decreases n - i,
        {
            proof {
                crate::keyed_tally::lemma_recorded_room(
                    self.award_buckets@,
                    award_divergences@[i as int].card@,
                    award_examples@[i as int]@,
                    (n - i - 1) as int,
                );
            }
            self.award_buckets.record(
                award_divergences[i].card.as_str(),
                0,
                award_examples[i].as_str(),
            );
            i = i + 1;
        }
        if !completed {
            match stop {
                Some(st) => {
                    let key = bucket_key(&st.kind);
                    self.stop_buckets.record(key.as_str(), round_reached, st.example.as_str());
                },
                None => {},
            }
        }
    }
}

/// Whether two final score lists hold the same scores, compared as sorted
/// lists.
pub fn scores_match(engine: &Vec<i32>, index: &Vec<i32>) -> (r: bool)
    ensures
        r == (sorted_i32(engine@) == sorted_i32(index@)),
{
    let mut a = copy_scores(engine);
    let mut b = copy_scores(index);
    sort_i32(&mut a);
    sort_i32(&mut b);
    same_scores(&a, &b)
}

/// The replay tool's totals over the games it was asked to replay.
pub struct ReplaySummary {
    pub n_completed: u64,
    /// Completed games that needed the colonize approximation.
    pub n_approx: u64,
    /// Completed games the engine scored.
    pub n_score_checked: u64,
    /// Of those, the games whose scores matched the index's.
    pub n_score_match: u64,
    pub discards_solved: u64,
    pub discards_chosen: u64,
    pub discards_forced_collision: u64,
}

impl ReplaySummary {
    /// Every match is of a scored game, every scored or approximated game a
    /// completed one.
    pub open spec fn consistent(&self) -> bool {
        &&& self.n_score_match <= self.n_score_checked
        &&& self.n_score_checked <= self.n_completed
        &&& self.n_approx <= self.n_completed
    }

    /// Nothing replayed yet.
    pub fn new() -> (s: ReplaySummary)
        ensures
            s.consistent(),
            s.n_completed == 0 && s.n_approx == 0 && s.n_score_checked == 0 && s.n_score_match == 0,
            s.discards_solved == 0 && s.discards_chosen == 0 && s.discards_forced_collision == 0,
    {
        ReplaySummary {
            n_completed: 0,
            n_approx: 0,
            n_score_checked: 0,
            n_score_match: 0,
            discards_solved: 0,
            discards_chosen: 0,
            discards_forced_collision: 0,
        }
    }

    /// Adds one replayed game: whether it completed, whether it needed the
    /// colonize approximation, the engine's and the index's final scores,
    /// and how its military discards were resolved.
    pub fn record(
        &mut self,
        completed: bool,
        colonize_approximated: bool,
        engine_scores: Option<&Vec<i32>>,
        index_scores: &Vec<i32>,
        solved: u32,
        chosen: u32,
        forced_collision: u32,
    )
        requires
            old(self).n_completed < u64::MAX,
            old(self).discards_solved + solved <= u64::MAX,
            old(self).discards_chosen + chosen <= u64::MAX,
            old(self).discards_forced_collision + forced_collision <= u64::MAX,
            old(self).consistent(),
        ensures
            final(self).consistent(),
            final(self).discards_solved == old(self).discards_solved + solved,
            final(self).discards_chosen == old(self).discards_chosen + chosen,
            final(self).discards_forced_collision == old(self).discards_forced_collision
                + forced_collision,
            final(self).n_completed == old(self).n_completed + one_if(completed),
            final(self).n_approx == old(self).n_approx + one_if(completed && colonize_approximated),
            final(self).n_score_checked == old(self).n_score_checked + one_if(
                completed && engine_scores is Some,
            ),
            final(self).n_score_match == old(self).n_score_match + one_if(
                completed && match engine_scores {
                    Some(e) => sorted_i32(e@) == sorted_i32(index_scores@),
                    None => false,
                },
            ),
    {
        self.discards_solved = self.discards_solved + solved as u64;
        self.discards_chosen = self.discards_chosen + chosen as u64;
        self.discards_forced_collision = self.discards_forced_collision + forced_collision as u64;
        if completed {
            self.n_completed = self.n_completed + 1;
            if colonize_approximated {
                self.n_approx = self.n_approx + 1;
            }
            if let Some(e) = engine_scores {
                self.n_score_checked = self.n_score_checked + 1;
                if scores_match(e, index_scores) {
                    self.n_score_match = self.n_score_match + 1;
                }
            }
        }
    }
}

} // verus!

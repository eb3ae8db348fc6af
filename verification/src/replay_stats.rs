//! Bucket keys for the replay census's histograms, and the test that
//! recognises a final-score divergence as the journal's own arithmetic
//! error rather than an engine bug.
use vstd::prelude::*;
use crate::journal::{ActionClass, Color, action_class_name, color_of_seat, color_name};
use crate::text::{normalize, collapse_digits, move_kind, first_word, is_ascii_text, ascii_first_word};

verus! {

broadcast use vstd::string::group_string_axioms;

/// The ledger mechanism an event belongs to, by the name its kind prints
/// as (`"Draw"`, `"Discard"`, `"PrepareEvent"`, ...).
#[derive(Clone, Debug, PartialEq, Eq)]
pub struct LedgerEventKind {
    pub name: String,
}

impl LedgerEventKind {
    /// The kind printed as `name`.
    pub fn named(name: &str) -> (k: LedgerEventKind)
        ensures
            k.name@ == name@,
    {
        LedgerEventKind { name: String::from_str(name) }
    }
}

/// Why the military-hand ledger and the journal disagree.
#[derive(Clone, Debug)]
pub enum HandLedgerVerdict {
    /// The ledger agrees with the journal; the forward simulator is wrong.
    SimulatorBug,
    /// The ledger disagrees too: an event class nobody models, with the
    /// most recent ledger event before it, if any.
    UnmodelledEvent(Option<LedgerEventKind>),
    /// No ledger entry to compare against.
    NoLedgerEntry,
}

/// The text a last-event slot prints as.
pub open spec fn last_event_text(e: Option<Seq<char>>) -> Seq<char> {
    match e {
        Some(name) => name,
        None => "none"@,
    }
}

/// The histogram key of what the ledger found, given the name of the ledger
/// event that preceded the divergence.
pub open spec fn hand_ledger_key_spec(v: HandLedgerVerdict, last_event: Option<Seq<char>>) -> Seq<
    char,
> {
    match v {
        HandLedgerVerdict::SimulatorBug => "SimulatorBug (ledger agrees with journal; forward simulator's own hand_military is wrong) -- last ledger event was "@
            + last_event_text(last_event),
        HandLedgerVerdict::UnmodelledEvent(Some(kind)) => "UnmodelledEvent: last ledger event was "@
            + kind.name@,
        HandLedgerVerdict::UnmodelledEvent(None) => "UnmodelledEvent: no prior ledger event at all"@,
        HandLedgerVerdict::NoLedgerEntry => "NoLedgerEntry (ledger coverage gap)"@,
    }
}

/// The name of an optional ledger event kind.
pub open spec fn event_name(e: Option<LedgerEventKind>) -> Option<Seq<char>> {
    match e {
        Some(k) => Some(k.name@),
        None => None,
    }
}

/// A stable, printable histogram key for what the ledger found: it names the
/// mechanism, and for `SimulatorBug` also the ledger event that came just
/// before the divergence.
pub fn hand_ledger_verdict_key(v: &HandLedgerVerdict, last_event: Option<LedgerEventKind>) -> (key:
    String)
    ensures
        key@ == hand_ledger_key_spec(*v, event_name(last_event)),
{
    match v {
        HandLedgerVerdict::SimulatorBug => {
            let mut out = String::from_str(
                "SimulatorBug (ledger agrees with journal; forward simulator's own hand_military is wrong) -- last ledger event was ",
            );
            match &last_event {
                Some(k) => out.append(k.name.as_str()),
                None => out.append("none"),
            }
            out
        },
        HandLedgerVerdict::UnmodelledEvent(Some(kind)) => {
            let mut out = String::from_str("UnmodelledEvent: last ledger event was ");
            out.append(kind.name.as_str());
            out
        },
        HandLedgerVerdict::UnmodelledEvent(None) => String::from_str(
            "UnmodelledEvent: no prior ledger event at all",
        ),
        HandLedgerVerdict::NoLedgerEntry => String::from_str("NoLedgerEntry (ledger coverage gap)"),
    }
}

/// The two findings that mean opposite things, a simulator bug and an
/// unmodelled event, never share a histogram key, whatever ledger events
/// accompany them.
pub proof fn lemma_simulator_bug_key_differs_from_unmodelled(
    kind: Option<LedgerEventKind>,
    e1: Option<Seq<char>>,
    e2: Option<Seq<char>>,
)
    ensures
        hand_ledger_key_spec(HandLedgerVerdict::SimulatorBug, e1) != hand_ledger_key_spec(
            HandLedgerVerdict::UnmodelledEvent(kind),
            e2,
        ),
{
    reveal_strlit("SimulatorBug (ledger agrees with journal; forward simulator's own hand_military is wrong) -- last ledger event was ");
    reveal_strlit("UnmodelledEvent: last ledger event was ");
    reveal_strlit("UnmodelledEvent: no prior ledger event at all");
    let a = hand_ledger_key_spec(HandLedgerVerdict::SimulatorBug, e1);
    let b = hand_ledger_key_spec(HandLedgerVerdict::UnmodelledEvent(kind), e2);
    assert(a[0] == 'S');
    assert(b[0] == 'U');
}

/// The histogram key of the action class that preceded a culture divergence.
pub open spec fn action_class_key_spec(c: Option<ActionClass>) -> Seq<char> {
    match c {
        Some(class) => action_class_name(class),
        None => "(no prior classified action this game)"@,
    }
}

/// The culture-oracle histogram key: the name of the last classified action
/// before the divergence, or a bucket of its own when there was none.
pub fn action_class_bucket_key(last_action_class: Option<ActionClass>) -> (key: String)
    ensures
        key@ == action_class_key_spec(last_action_class),
{
    match last_action_class {
        Some(class) => String::from_str(class.name()),
        None => String::from_str("(no prior classified action this game)"),
    }
}

/// Why a replay stopped before its journal ran out.
#[derive(Clone, Debug)]
pub enum MismatchKind {
    UnrecoverableHiddenInfo(String),
    StuckPending(String),
    ParserGap(String),
    EventPlanInfeasible(String),
    /// The journal's move was not legal here: the move tried, rendered with
    /// `Debug`, and the legal moves there were.
    IllegalMove { attempted: String, legal_moves: String },
}

/// The stop-reason histogram key.
pub open spec fn bucket_key_spec(kind: MismatchKind) -> Seq<char> {
    match kind {
        MismatchKind::UnrecoverableHiddenInfo(s) => "UnrecoverableHiddenInfo: "@ + collapse_digits(
            s@,
            false,
        ),
        MismatchKind::StuckPending(s) => "StuckPending: "@ + collapse_digits(s@, false),
        MismatchKind::ParserGap(s) => "ParserGap: "@ + collapse_digits(s@, false),
        MismatchKind::EventPlanInfeasible(s) => "EventPlanInfeasible: "@ + collapse_digits(
            s@,
            false,
        ),
        MismatchKind::IllegalMove { attempted, .. } => "IllegalMove: "@ + first_word(attempted@),
    }
}

/// The stop-reason histogram key: the reason's name, with its message's
/// numbers collapsed, or for an illegal move the name of the move variant
/// only.
pub fn bucket_key(kind: &MismatchKind) -> (key: String)
    ensures
        key@ == bucket_key_spec(*kind),
        *kind matches MismatchKind::IllegalMove { attempted, .. } ==> (is_ascii_text(attempted@)
            ==> key@ == "IllegalMove: "@ + ascii_first_word(attempted@)),
{
    match kind {
        MismatchKind::UnrecoverableHiddenInfo(s) => {
            let mut out = String::from_str("UnrecoverableHiddenInfo: ");
            out.append(normalize(s.as_str()).as_str());
            out
        },
        MismatchKind::StuckPending(s) => {
            let mut out = String::from_str("StuckPending: ");
            out.append(normalize(s.as_str()).as_str());
            out
        },
        MismatchKind::ParserGap(s) => {
            let mut out = String::from_str("ParserGap: ");
            out.append(normalize(s.as_str()).as_str());
            out
        },
        MismatchKind::EventPlanInfeasible(s) => {
            let mut out = String::from_str("EventPlanInfeasible: ");
            out.append(normalize(s.as_str()).as_str());
            out
        },
        MismatchKind::IllegalMove { attempted, .. } => {
            let mut out = String::from_str("IllegalMove: ");
            out.append(move_kind(attempted.as_str()));
            out
        },
    }
}

/// Two illegal moves of the same variant land in the same bucket, whatever
/// their fields and whatever moves were legal.
pub proof fn lemma_illegal_moves_bucket_by_variant(a1: String, l1: String, a2: String, l2: String)
    requires
        first_word(a1@) == first_word(a2@),
    ensures
        bucket_key_spec(MismatchKind::IllegalMove { attempted: a1, legal_moves: l1 })
            == bucket_key_spec(MismatchKind::IllegalMove { attempted: a2, legal_moves: l2 }),
{
}

/// One final-scoring award on which the journal's stated amount and the
/// engine's recomputed amount differ.
#[derive(Clone, Debug)]
pub struct FinalEventAwardDivergence {
    pub card: String,
    pub seat: u8,
    pub journal_amount: i32,
    pub engine_amount: i32,
}

/// The first in-play culture checkpoint at which the engine's running total
/// left the journal's.
#[derive(Clone, Debug)]
pub struct CultureOracleDivergence {
    pub lineno: usize,
    pub actor: String,
    pub journal_now: i32,
    pub reconstructed: i32,
    pub last_action_class: Option<ActionClass>,
}

/// Journal and engine disagree on the sign of the award, not only its size.
pub open spec fn is_direction_flip(d: FinalEventAwardDivergence) -> bool {
    (d.journal_amount >= 0 && d.engine_amount < 0) || (d.journal_amount < 0 && d.engine_amount >= 0)
}

/// Some award's journal and engine amounts differ in sign.
pub open spec fn has_direction_flip(ds: Seq<FinalEventAwardDivergence>) -> bool {
    exists|i: int| 0 <= i < ds.len() && is_direction_flip(#[trigger] ds[i])
}

/// `b` (in placement order) written into seat order: position `pos` of `b`
/// goes to seat `order[pos]`, a later position overwriting an earlier one,
/// and a seat nobody lands on keeps `i32::MIN`.
pub open spec fn seat_scores(b: Seq<i32>, order: Seq<u8>, k: int) -> Seq<i32>
    decreases k,
{
    if k <= 0 {
        Seq::new(b.len(), |i: int| i32::MIN)
    } else {
        let prev = seat_scores(b, order, k - 1);
        if (order[k - 1] as int) < prev.len() {
            prev.update(order[k - 1] as int, b[k - 1])
        } else {
            prev
        }
    }
}

/// Every seat number in `order` names a seat of a `len`-player table.
pub open spec fn seats_in_range(order: Seq<u8>, len: int) -> bool {
    forall|pos: int| 0 <= pos < order.len() ==> (#[trigger] order[pos]) < len
}

/// The seats, in increasing order, among the first `k` at which `a` and `bs`
/// differ.
pub open spec fn differing_seats(a: Seq<i32>, bs: Seq<i32>, k: int) -> Seq<int>
    decreases k,
{
    if k <= 0 {
        seq![]
    } else if a[k - 1] - bs[k - 1] != 0 {
        differing_seats(a, bs, k - 1).push(k - 1)
    } else {
        differing_seats(a, bs, k - 1)
    }
}

/// Whether the check reaches the per-seat comparison.
pub open spec fn reaches_seat_compare(
    a: Seq<i32>,
    b: Seq<i32>,
    order: Option<Seq<u8>>,
    ds: Seq<FinalEventAwardDivergence>,
    drifted: bool,
) -> bool {
    &&& !drifted
    &&& !has_direction_flip(ds)
    &&& ds.len() == 1
    &&& a.len() == b.len()
    &&& ds[0].engine_amount - ds[0].journal_amount != 0
    &&& order is Some
    &&& order.unwrap().len() == b.len()
    &&& seats_in_range(order.unwrap(), b.len() as int)
}

/// The journal-arithmetic-error test: `Some((colour, award))` exactly when
/// in-play culture never drifted, no award flips sign, exactly one award
/// differs, and seating the placement-ordered journal totals shows exactly
/// one seat off, that award's seat, by exactly that award's difference.
pub open spec fn suppression_spec(
    a: Seq<i32>,
    b: Seq<i32>,
    order: Option<Seq<u8>>,
    ds: Seq<FinalEventAwardDivergence>,
    drifted: bool,
) -> Option<(Seq<char>, FinalEventAwardDivergence)> {
    if !reaches_seat_compare(a, b, order, ds, drifted) {
        None
    } else {
        let d = ds[0];
        let delta = d.engine_amount - d.journal_amount;
        let bs = seat_scores(b, order.unwrap(), b.len() as int);
        let off = differing_seats(a, bs, a.len() as int);
        if off.len() == 1 && a[off[0]] - bs[off[0]] == delta && off[0] % 256 == d.seat
            && color_of_seat(d.seat as int) is Some {
            Some((color_name(color_of_seat(d.seat as int).unwrap()), d))
        } else {
            None
        }
    }
}

/// The inputs on which every subtraction the check makes stays inside `i32`.
pub open spec fn suppression_in_range(
    a: Seq<i32>,
    b: Seq<i32>,
    order: Option<Seq<u8>>,
    ds: Seq<FinalEventAwardDivergence>,
    drifted: bool,
) -> bool {
    &&& forall|i: int|
        0 <= i < ds.len() ==> i32::MIN <= (#[trigger] ds[i]).engine_amount - ds[i].journal_amount
            <= i32::MAX
    &&& reaches_seat_compare(a, b, order, ds, drifted) ==> {
        let bs = seat_scores(b, order.unwrap(), b.len() as int);
        forall|s: int| 0 <= s < a.len() ==> i32::MIN <= #[trigger] a[s] - bs[s] <= i32::MAX
    }
}

proof fn lemma_seat_scores_len(b: Seq<i32>, order: Seq<u8>, k: int)
    ensures
        seat_scores(b, order, k).len() == b.len(),
    decreases k,
{
    if k > 0 {
        lemma_seat_scores_len(b, order, k - 1);
    }
}

/// Whether some award among `ds` flips sign between journal and engine.
fn any_direction_flip(ds: &[FinalEventAwardDivergence]) -> (r: bool)
    ensures
        r == has_direction_flip(ds@),
{
    let mut i: usize = 0;
    while i < ds.len()
        invariant
            i <= ds@.len(),
            forall|j: int| 0 <= j < i ==> !is_direction_flip(#[trigger] ds@[j]),
        decreases ds@.len() - i,
    {
        let d = &ds[i];
        if (d.journal_amount >= 0 && d.engine_amount < 0) || (d.journal_amount < 0
            && d.engine_amount >= 0) {
            assert(is_direction_flip(ds@[i as int]));
            return true;
        }
        i = i + 1;
    }
    false
}

/// The journal-arithmetic-error test. `a` holds the engine's final scores
/// in seat order, `b` the index's totals in placement order, and
/// `index_order[pos]` the seat that placed `pos`-th. Returns the colour and
/// the award when the whole final-score divergence is one award the
/// journal mis-stated: no in-play culture drift, no award whose sign flips
/// (that is a formula error, which must surface), exactly one award, and
/// exactly one seat off, that award's own, by exactly its
/// difference. `None` whenever the winner could not be pinned
/// (`index_order` is `None`) or anything else disagrees.
#[verifier::loop_isolation(false)]
pub fn journal_arithmetic_error_suppression(
    a: &[i32],
    b: &[i32],
    index_order: Option<&[u8]>,
    divergences: &[FinalEventAwardDivergence],
    culture_oracle_divergence: Option<&CultureOracleDivergence>,
) -> (r: Option<(String, FinalEventAwardDivergence)>)
    requires
        suppression_in_range(
            a@,
            b@,
            match index_order {
                Some(o) => Some(o@),
                None => None,
            },
            divergences@,
            culture_oracle_divergence is Some,
        ),
    ensures
        ({
            let spec_r = suppression_spec(
                a@,
                b@,
                match index_order {
                    Some(o) => Some(o@),
                    None => None,
                },
                divergences@,
                culture_oracle_divergence is Some,
            );
            match r {
                Some((name, d)) => spec_r == Some((name@, d)),
                None => spec_r is None,
            }
        }),
{
    let ghost order_spec = match index_order {
        Some(o) => Some(o@),
        None => None,
    };
    if culture_oracle_divergence.is_some() {
        return None;
    }
    if any_direction_flip(divergences) {
        return None;
    }
    if divergences.len() != 1 {
        return None;
    }
    let d = &divergences[0];
    let delta = d.engine_amount - d.journal_amount;
    if a.len() != b.len() || delta == 0 {
        return None;
    }
    let index_order = match index_order {
        Some(o) => o,
        None => return None,
    };
    if index_order.len() != b.len() {
        return None;
    }
    let n = b.len();
    let mut b_seated: Vec<i32> = Vec::new();
    let mut k: usize = 0;
    while k < n
        invariant
            n == b@.len(),
            k <= n,
            b_seated@.len() == k,
            forall|i: int| 0 <= i < k ==> b_seated@[i] == i32::MIN,
        decreases n - k,
    {
        b_seated.push(i32::MIN);
        k = k + 1;
    }
    assert(b_seated@ =~= seat_scores(b@, index_order@, 0));
    let mut pos: usize = 0;
    while pos < n
        invariant
            n == b@.len(),
            n == index_order@.len(),
            pos <= n,
            b_seated@ == seat_scores(b@, index_order@, pos as int),
            forall|q: int| 0 <= q < pos ==> (#[trigger] index_order@[q]) < n,
        decreases n - pos,
    {
        proof {
            lemma_seat_scores_len(b@, index_order@, pos as int);
        }
        let seat = index_order[pos];
        if seat as usize >= b_seated.len() {
            assert(!seats_in_range(index_order@, n as int)) by {
                assert(index_order@[pos as int] >= n);
            }
            assert(order_spec == Some(index_order@));
            assert(!reaches_seat_compare(a@, b@, order_spec, divergences@, false));
            return None;
        }
        b_seated.set(seat as usize, b[pos]);
        pos = pos + 1;
    }
    assert(seats_in_range(index_order@, n as int));
    assert(reaches_seat_compare(a@, b@, order_spec, divergences@, false));
    let ghost bs = seat_scores(b@, index_order@, n as int);
    proof {
        lemma_seat_scores_len(b@, index_order@, n as int);
    }
    let mut non_zero: Vec<(usize, i32)> = Vec::new();
    let mut s: usize = 0;
    while s < n
        invariant
            n == a@.len(),
            n == b_seated@.len(),
            b_seated@ == bs,
            s <= n,
            forall|t: int| 0 <= t < n ==> i32::MIN <= #[trigger] a@[t] - bs[t] <= i32::MAX,
            non_zero@.len() == differing_seats(a@, bs, s as int).len(),
            forall|q: int|
                0 <= q < non_zero@.len() ==> {
                    &&& (#[trigger] non_zero@[q]).0 == differing_seats(a@, bs, s as int)[q]
                    &&& non_zero@[q].0 < n
                    &&& non_zero@[q].1 == a@[non_zero@[q].0 as int] - bs[non_zero@[q].0 as int]
                },
        decreases n - s,
    {
        let diff = a[s] - b_seated[s];
        if diff != 0 {
            non_zero.push((s, diff));
        }
        s = s + 1;
    }
    if non_zero.len() != 1 {
        return None;
    }
    let (seat, diff) = non_zero[0];
    if diff != delta {
        return None;
    }
    if (#[verifier::truncate] (seat as u8)) != d.seat {
        assert((seat as u8) as int == seat % 256) by (bit_vector);
        return None;
    }
    assert((seat as u8) as int == seat % 256) by (bit_vector);
    let color = match Color::from_seat(d.seat) {
        Some(c) => c,
        None => return None,
    };
    let out = FinalEventAwardDivergence {
        card: d.card.clone(),
        seat: d.seat,
        journal_amount: d.journal_amount,
        engine_amount: d.engine_amount,
    };
    Some((String::from_str(color.as_str()), out))
}

/// The test never hides what it must surface: any in-play culture drift,
/// an unpinned winner, any award whose sign flips, or more or fewer than
/// one diverging award means no suppression; and when a game is
/// suppressed, its one award's seat is the only seat off, by exactly that
/// award's difference.
pub proof fn lemma_suppression_surfaces_real_bugs(
    a: Seq<i32>,
    b: Seq<i32>,
    order: Option<Seq<u8>>,
    ds: Seq<FinalEventAwardDivergence>,
    drifted: bool,
)
    ensures
        drifted ==> suppression_spec(a, b, order, ds, drifted) is None,
        order is None ==> suppression_spec(a, b, order, ds, drifted) is None,
        has_direction_flip(ds) ==> suppression_spec(a, b, order, ds, drifted) is None,
        ds.len() != 1 ==> suppression_spec(a, b, order, ds, drifted) is None,
        suppression_spec(a, b, order, ds, drifted) matches Some((_, d)) ==> {
            let bs = seat_scores(b, order.unwrap(), b.len() as int);
            let off = differing_seats(a, bs, a.len() as int);
            &&& forall|i: int| 0 <= i < ds.len() ==> !is_direction_flip(#[trigger] ds[i])
            &&& ds == seq![d]
            &&& off.len() == 1
            &&& off[0] % 256 == d.seat
            &&& a[off[0]] - bs[off[0]] == d.engine_amount - d.journal_amount
        },
{
    if suppression_spec(a, b, order, ds, drifted) is Some {
        assert(ds =~= seq![ds[0]]);
        let bs = seat_scores(b, order.unwrap(), b.len() as int);
        let off = differing_seats(a, bs, a.len() as int);
        lemma_differing_seats_bounds(a, bs, a.len() as int);
    }
}

proof fn lemma_differing_seats_bounds(a: Seq<i32>, bs: Seq<i32>, k: int)
    ensures
        forall|i: int| 0 <= i < differing_seats(a, bs, k).len() ==> 0 <= #[trigger] differing_seats(a, bs, k)[i] < k,
    decreases k,
{
    if k > 0 {
        lemma_differing_seats_bounds(a, bs, k - 1);
        let rest = differing_seats(a, bs, k - 1);
        assert forall|i: int| 0 <= i < differing_seats(a, bs, k).len() implies 0
            <= #[trigger] differing_seats(a, bs, k)[i] < k by {
            if i < rest.len() {
                assert(differing_seats(a, bs, k)[i] == rest[i]);
            }
        }
    }
}

} // verus!

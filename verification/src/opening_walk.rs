//! Each player's opening in a replayed human game, as the opening census
//! reads it off the moves: the first card taken and what it cost, the first
//! card built, whether a leader was played or the population grown, the
//! civil actions left unused at the end of turns (all in rounds 1 to 3), and
//! the round of the first wonder stage (in any round).
use vstd::prelude::*;
use crate::cards::{build_kind, build_kind_name_spec, Card, Move};
use std::collections::BTreeMap;
use crate::num::{decimal_digits, decimal_text, push_decimal, push_int};

verus! {

broadcast use {vstd::string::group_string_axioms, vstd::std_specs::btree::group_btree_axioms};

/// A seat's opening as plain values.
pub struct OpeningView {
    /// The name of the first card taken, and what taking it cost.
    pub first_take: Option<(Seq<char>, int)>,
    /// The build kind and name of the first card built, developed or
    /// upgraded to.
    pub first_build: Option<(Seq<char>, Seq<char>)>,
    pub took_leader: bool,
    pub increased_pop: bool,
    /// Civil actions left over at the ends of turns.
    pub ca_unused: int,
    /// The round of the first wonder stage built.
    pub first_wonder_round: Option<int>,
}

/// The card a build, develop or upgrade move names.
pub open spec fn built_card(mv: Move) -> Option<Card> {
    match mv {
        Move::Build { card } => Some(card),
        Move::Develop { card } => Some(card),
        Move::Upgrade { to } => Some(to),
        _ => None,
    }
}

/// The opening after the move `mv` in round `round`. `take` is the name and
/// cost of the card in the slot a take takes from (`None` for an empty
/// slot), `card_name` the name of the card a build, develop or upgrade
/// names, and `civil_actions` the civil actions the player had left when the
/// move was made.
pub open spec fn opening_step(
    o: OpeningView,
    round: u16,
    mv: Move,
    take: Option<(Seq<char>, int)>,
    card_name: Seq<char>,
    civil_actions: u8,
) -> OpeningView {
    let o1 = if mv is WonderStep && o.first_wonder_round is None {
        OpeningView { first_wonder_round: Some(round as int), ..o }
    } else {
        o
    };
    if round > 3 {
        o1
    } else {
        match mv {
            Move::Take { .. } => if o1.first_take is None && take is Some {
                OpeningView { first_take: take, ..o1 }
            } else {
                o1
            },
            Move::PlayLeader { .. } => OpeningView { took_leader: true, ..o1 },
            Move::Pop => OpeningView { increased_pop: true, ..o1 },
            Move::PopFree => OpeningView { increased_pop: true, ..o1 },
            Move::EndTurn => OpeningView { ca_unused: o1.ca_unused + civil_actions, ..o1 },
            _ => match built_card(mv) {
                Some(c) => if o1.first_build is None {
                    OpeningView {
                        first_build: Some((build_kind_name_spec(c.kind), card_name)),
                        ..o1
                    }
                } else {
                    o1
                },
                None => o1,
            },
        }
    }
}

/// A seat increased its population by round 3 exactly when it already had,
/// or the move is a population increase, paid for or free, made in rounds
/// 1-3; the took-leader flag likewise follows leader plays in rounds 1-3.
pub proof fn lemma_population_increase_is_seen(
    o: OpeningView,
    round: u16,
    mv: Move,
    take: Option<(Seq<char>, int)>,
    card_name: Seq<char>,
    civil_actions: u8,
)
    ensures
        opening_step(o, round, mv, take, card_name, civil_actions).increased_pop == (o.increased_pop
            || (round <= 3 && (mv == Move::Pop || mv == Move::PopFree))),
        opening_step(o, round, mv, take, card_name, civil_actions).took_leader == (o.took_leader || (
        round <= 3 && mv is PlayLeader)),
{
}

/// What else a move does to an opening: ending a turn in rounds 1-3 adds
/// the civil actions left unused and nothing else does; the first wonder
/// stage's round, the first take and the first build are set once and then
/// kept; a take in rounds 1-3 of a card in the slot sets the first take
/// when there was none.
pub proof fn lemma_opening_firsts_are_kept(
    o: OpeningView,
    round: u16,
    mv: Move,
    take: Option<(Seq<char>, int)>,
    card_name: Seq<char>,
    civil_actions: u8,
)
    ensures
        ({
            let r = opening_step(o, round, mv, take, card_name, civil_actions);
            &&& r.ca_unused == o.ca_unused + if round <= 3 && mv == Move::EndTurn {
                civil_actions as int
            } else {
                0int
            }
            &&& o.first_wonder_round is Some ==> r.first_wonder_round == o.first_wonder_round
            &&& o.first_wonder_round is None ==> r.first_wonder_round == if mv is WonderStep {
                Some(round as int)
            } else {
                None
            }
            &&& o.first_take is Some ==> r.first_take == o.first_take
            &&& o.first_take is None && round <= 3 && mv is Take ==> r.first_take == take
            &&& !(round <= 3 && mv is Take) ==> r.first_take == o.first_take
            &&& o.first_build is Some ==> r.first_build == o.first_build
        }),
{
}

/// A seat's opening.
pub struct SeatOpening {
    pub first_take: Option<(String, i32)>,
    pub first_build: Option<(String, String)>,
    pub took_leader: bool,
    pub increased_pop: bool,
    pub ca_unused: i32,
    pub first_wonder_round: Option<i32>,
}

impl SeatOpening {
    /// The opening as plain values.
    pub open spec fn view(&self) -> OpeningView {
        OpeningView {
            first_take: match self.first_take {
                Some((n, c)) => Some((n@, c as int)),
                None => None,
            },
            first_build: match self.first_build {
                Some((k, n)) => Some((k@, n@)),
                None => None,
            },
            took_leader: self.took_leader,
            increased_pop: self.increased_pop,
            ca_unused: self.ca_unused as int,
            first_wonder_round: match self.first_wonder_round {
                Some(r) => Some(r as int),
                None => None,
            },
        }
    }

    /// Nothing seen yet.
    pub fn new() -> (o: SeatOpening)
        ensures
            o.view() == (OpeningView {
                first_take: None,
                first_build: None,
                took_leader: false,
                increased_pop: false,
                ca_unused: 0,
                first_wonder_round: None,
            }),
    {
        SeatOpening {
            first_take: None,
            first_build: None,
            took_leader: false,
            increased_pop: false,
            ca_unused: 0,
            first_wonder_round: None,
        }
    }

    /// Follows the move `mv` this seat made in round `round` (see
    /// [`opening_step`] for `take`, `card_name` and `civil_actions`).
    pub fn record(
        &mut self,
        round: u16,
        mv: Move,
        take: Option<(String, i32)>,
        card_name: &str,
        civil_actions: u8,
    )
        requires
            old(self).ca_unused + civil_actions <= i32::MAX,
        ensures
            final(self).view() == opening_step(
                old(self).view(),
                round,
                mv,
                match take {
                    Some((n, c)) => Some((n@, c as int)),
                    None => None,
                },
                card_name@,
                civil_actions,
            ),
    {
        if let Move::WonderStep { .. } = mv {
            if self.first_wonder_round.is_none() {
                self.first_wonder_round = Some(round as i32);
            }
        }
        if round > 3 {
            return;
        }
        match mv {
            Move::Take { .. } => {
                if self.first_take.is_none() {
                    if let Some(t) = take {
                        self.first_take = Some(t);
                    }
                }
            },
            Move::PlayLeader { .. } => {
                self.took_leader = true;
            },
            Move::Pop => {
                self.increased_pop = true;
            },
            Move::PopFree => {
                self.increased_pop = true;
            },
            Move::EndTurn => {
                self.ca_unused = self.ca_unused + civil_actions as i32;
            },
            Move::Build { card } | Move::Develop { card } | Move::Upgrade { to: card } => {
                if self.first_build.is_none() {
                    self.first_build = Some(
                        (String::from_str(build_kind(card.kind)), String::from_str(card_name)),
                    );
                }
            },
            _ => {},
        }
    }
}

/// `true` or `false`, as a `bool` prints.
pub open spec fn bool_text(b: bool) -> Seq<char> {
    if b {
        "true"@
    } else {
        "false"@
    }
}

/// The census's tab-separated line for one seat: game id, seat, first take
/// (name and cost, `none` and -1 without one), first build (kind and name,
/// `none` twice without one), leader played, population grown, civil actions
/// unused, and the seat's outcome.
pub open spec fn opening_line_spec(id: Seq<char>, seat: u8, o: OpeningView, outcome: Seq<char>) -> Seq<
    char,
> {
    let (take_name, take_cost) = match o.first_take {
        Some((n, c)) => (n, c),
        None => ("none"@, -1),
    };
    let (kind, name) = match o.first_build {
        Some((k, n)) => (k, n),
        None => ("none"@, "none"@),
    };
    id + "\t"@ + decimal_digits(seat as nat) + "\t"@ + take_name + "\t"@ + decimal_text(take_cost)
        + "\t"@ + kind + "\t"@ + name + "\t"@ + bool_text(o.took_leader) + "\t"@ + bool_text(
        o.increased_pop,
    ) + "\t"@ + decimal_text(o.ca_unused) + "\t"@ + outcome
}

/// Appends `b` as a `bool` prints.
fn push_bool(out: &mut String, b: bool)
    ensures
        final(out)@ == old(out)@ + bool_text(b),
{
    if b {
        out.append("true");
    } else {
        out.append("false");
    }
}

/// The census's tab-separated line for the seat `seat` of game `id`.
pub fn opening_line(id: &str, seat: u8, o: &SeatOpening, outcome: &str) -> (line: String)
    ensures
        line@ == opening_line_spec(id@, seat, o.view(), outcome@),
{
    let mut line = String::from_str(id);
    line.append("\t");
    push_decimal(&mut line, seat as u64);
    line.append("\t");
    match &o.first_take {
        Some((n, c)) => {
            line.append(n.as_str());
            line.append("\t");
            push_int(&mut line, *c as i64);
        },
        None => {
            line.append("none");
            line.append("\t");
            push_int(&mut line, -1);
        },
    }
    line.append("\t");
    match &o.first_build {
        Some((k, n)) => {
            line.append(k.as_str());
            line.append("\t");
            line.append(n.as_str());
        },
        None => {
            line.append("none");
            line.append("\t");
            line.append("none");
        },
    }
    line.append("\t");
    push_bool(&mut line, o.took_leader);
    line.append("\t");
    push_bool(&mut line, o.increased_pop);
    line.append("\t");
    push_int(&mut line, o.ca_unused as i64);
    line.append("\t");
    line.append(outcome);
    line
}

/// Notices where a player's turn starts in a stream of moves: at a move by a
/// different player than the move before it.
pub struct TurnWatch {
    pub prev_actor: Option<u8>,
}

impl TurnWatch {
    /// No move seen yet.
    pub fn new() -> (w: TurnWatch)
        ensures
            w.prev_actor is None,
    {
        TurnWatch { prev_actor: None }
    }

    /// Whether a move by `actor` starts a turn, that is, whether the move
    /// before it was another player's (or there was none).
    pub fn starts_turn(&mut self, actor: u8) -> (r: bool)
        ensures
            r == (old(self).prev_actor != Some(actor)),
            final(self).prev_actor == Some(actor),
    {
        let r = match self.prev_actor {
            Some(p) => p != actor,
            None => true,
        };
        self.prev_actor = Some(actor);
        r
    }
}

/// The sums of food and resources produced at the starts of turns, and how
/// many turn starts were sampled, for each round.
pub struct ProductionCurve {
    pub by_round: BTreeMap<u16, (u64, u64, u64)>,
}

/// The sums of a round, zeros for a round never sampled.
pub open spec fn round_sums(m: Map<u16, (u64, u64, u64)>, round: u16) -> (int, int, int) {
    if m.contains_key(round) {
        (m[round].0 as int, m[round].1 as int, m[round].2 as int)
    } else {
        (0, 0, 0)
    }
}

impl ProductionCurve {
    /// Nothing sampled yet.
    pub fn new() -> (c: ProductionCurve)
        ensures
            c.by_round@ == Map::<u16, (u64, u64, u64)>::empty(),
    {
        ProductionCurve { by_round: BTreeMap::new() }
    }

    /// Adds one turn start of round `round` at which the player produced
    /// `food` food and `resources` resources.
    pub fn record(&mut self, round: u16, food: u32, resources: u32)
        requires
            round_sums(old(self).by_round@, round).0 + food <= u64::MAX,
            round_sums(old(self).by_round@, round).1 + resources <= u64::MAX,
            round_sums(old(self).by_round@, round).2 + 1 <= u64::MAX,
        ensures
            final(self).by_round@ == old(self).by_round@.insert(
                round,
                (
                    (round_sums(old(self).by_round@, round).0 + food) as u64,
                    (round_sums(old(self).by_round@, round).1 + resources) as u64,
                    (round_sums(old(self).by_round@, round).2 + 1) as u64,
                ),
            ),
    {
        let (f, r, n): (u64, u64, u64) = match self.by_round.get(&round) {
            Some(e) => *e,
            None => (0, 0, 0),
        };
        self.by_round.insert(round, (f + food as u64, r + resources as u64, n + 1));
    }
}

} // verus!

//! The text pass of the winner-versus-loser study: what each colour at a
//! human game's table did, read line by line off the game's journal.
//!
//! What only the engine's corpus reader can say of a line (which action
//! class it is, the card it names, the colour it names as actor or target,
//! the parsed winner line, the number after a scoring marker) comes in as
//! plain facts; the columns, the order of the checks and what each fact
//! does to the tallies are this module's.
use vstd::prelude::*;
use crate::journal::{age_idx, age_index, age_name, color_name, color_of_seat, parse_age, Age, ActionClass, Color};
use crate::num::{parse_unsigned, parse_unsigned_spec};
use crate::text::{chars_of, find, find_char_from, find_chars, lemma_next_index_of_bounds, next_index_of};
use crate::winners::{extract_now_value, now_value};

verus! {

broadcast use vstd::string::group_string_axioms;

/// The four columns after the date of a journal line, as
/// `splitn(5, '\t')` gives them: colour, age, round and the text (which may
/// hold tabs of its own); `None` when the line holds fewer than four tabs.
pub open spec fn journal_columns(line: Seq<char>) -> Option<
    (Seq<char>, Seq<char>, Seq<char>, Seq<char>),
> {
    let t0 = next_index_of(line, '\t', 0);
    let t1 = next_index_of(line, '\t', t0 + 1);
    let t2 = next_index_of(line, '\t', t1 + 1);
    let t3 = next_index_of(line, '\t', t2 + 1);
    if t3 < line.len() {
        Some(
            (
                line.subrange(t0 + 1, t1),
                line.subrange(t1 + 1, t2),
                line.subrange(t2 + 1, t3),
                line.subrange(t3 + 1, line.len() as int),
            ),
        )
    } else {
        None
    }
}

/// A journal line's columns after the date.
pub struct Columns {
    pub colour: String,
    pub age: String,
    pub round: String,
    pub text: String,
}

/// The columns of a journal line after its date, when it has all five.
pub fn columns_of(line: &str) -> (r: Option<Columns>)
    ensures
        match r {
            Some(c) => journal_columns(line@) == Some((c.colour@, c.age@, c.round@, c.text@)),
            None => journal_columns(line@) is None,
        },
{
    let cs = chars_of(line);
    let n = cs.len();
    proof {
        lemma_next_index_of_bounds(cs@, '\t', 0);
    }
    let t0 = find_char_from(&cs, '\t', 0);
    if t0 >= n {
        assert(next_index_of(cs@, '\t', t0 + 1) == n);
        return None;
    }
    proof {
        lemma_next_index_of_bounds(cs@, '\t', t0 + 1);
    }
    let t1 = find_char_from(&cs, '\t', t0 + 1);
    if t1 >= n {
        assert(next_index_of(cs@, '\t', t1 + 1) == n);
        return None;
    }
    proof {
        lemma_next_index_of_bounds(cs@, '\t', t1 + 1);
    }
    let t2 = find_char_from(&cs, '\t', t1 + 1);
    if t2 >= n {
        assert(next_index_of(cs@, '\t', t2 + 1) == n);
        return None;
    }
    let t3 = find_char_from(&cs, '\t', t2 + 1);
    if t3 >= n {
        return None;
    }
    Some(
        Columns {
            colour: line.substring_char(t0 + 1, t1).to_string(),
            age: line.substring_char(t1 + 1, t2).to_string(),
            round: line.substring_char(t2 + 1, t3).to_string(),
            text: line.substring_char(t3 + 1, n).to_string(),
        },
    )
}

/// What a journal line's columns say: the colour in its colour column, its
/// age, its round (0 when the column is not a number) and its text.
pub struct LineFields {
    pub colour: Option<Color>,
    pub age: Option<Age>,
    pub round: u32,
    pub text: String,
}

/// `f` holds what the columns `cols` say.
pub open spec fn fields_of(f: LineFields, cols: (Seq<char>, Seq<char>, Seq<char>, Seq<char>)) -> bool {
    &&& (match f.colour {
        Some(c) => color_name(c) == cols.0,
        None => forall|c: Color| color_name(c) != cols.0,
    })
    &&& (match f.age {
        Some(a) => age_name(a) == cols.1,
        None => forall|a: Age| age_name(a) != cols.1,
    })
    &&& f.round == (match parse_unsigned_spec(cols.2, u32::MAX as int) {
        Some(n) => n,
        None => 0,
    })
    &&& f.text@ == cols.3
}

/// The fields of the journal line numbered `lineno` (0 for the header),
/// when it is a non-empty line after the header with all five columns.
pub fn line_fields(lineno: usize, line: &str) -> (r: Option<LineFields>)
    ensures
        match r {
            Some(f) => lineno != 0 && (journal_columns(line@) matches Some(cols) && fields_of(f, cols)),
            None => lineno == 0 || journal_columns(line@) is None,
        },
{
    if lineno == 0 {
        return None;
    }
    let cols = match columns_of(line) {
        Some(c) => c,
        None => return None,
    };
    let round: u32 = match parse_unsigned(cols.round.as_str(), u32::MAX as u64) {
        Some(n) => n as u32,
        None => 0,
    };
    Some(
        LineFields {
            colour: Color::parse(cols.colour.as_str()),
            age: parse_age(cols.age.as_str()),
            round,
            text: cols.text,
        },
    )
}

/// The seat of a colour: Orange, Purple, Green and Grey sit in seats 0 to 3.
pub open spec fn seat_of(c: Color) -> int {
    match c {
        Color::Orange => 0,
        Color::Purple => 1,
        Color::Green => 2,
        Color::Grey => 3,
    }
}

/// The seat of a colour.
fn seat_index(c: Color) -> (i: usize)
    ensures
        i == seat_of(c),
        color_of_seat(i as int) == Some(c),
{
    match c {
        Color::Orange => 0,
        Color::Purple => 1,
        Color::Green => 2,
        Color::Grey => 3,
    }
}

/// One colour's record of a game, as plain values: its placing and final
/// score (0 and 0 until the winner line is read), the wonders it completed
/// (with the age), its government changes (with the round and age), its
/// leaders, how many lines of each action class it has, the colours it
/// declared war on and played aggressions against (with the age), its
/// running culture and science at the last end of turn of each age (with
/// that turn's round), its culture rank at each age's end, and what the
/// strength scoring gave it.
pub struct PlayerView {
    pub rank: int,
    pub score: int,
    pub wonders: Seq<(Age, u16)>,
    pub gov_changes: Seq<(u32, Age, u16)>,
    pub leaders: Seq<u16>,
    pub action_counts: Seq<(ActionClass, u32)>,
    pub war_declares: Seq<(Age, Color)>,
    pub aggression_plays: Seq<(Age, Color)>,
    pub age_culture: Seq<Option<i32>>,
    pub age_science: Seq<Option<i32>>,
    pub age_round: Seq<Option<u32>>,
    pub age_culture_rank: Seq<Option<u8>>,
    pub strength_score: Option<i32>,
}

/// One colour's record of a game.
pub struct PlayerAgg {
    pub rank: u8,
    pub score: i32,
    pub wonders: Vec<(Age, u16)>,
    pub gov_changes: Vec<(u32, Age, u16)>,
    pub leaders: Vec<u16>,
    pub action_counts: Vec<(ActionClass, u32)>,
    pub war_declares: Vec<(Age, Color)>,
    pub aggression_plays: Vec<(Age, Color)>,
    pub age_culture: [Option<i32>; 5],
    pub age_science: [Option<i32>; 5],
    pub age_round: [Option<u32>; 5],
    pub age_culture_rank: [Option<u8>; 5],
    pub strength_score: Option<i32>,
}

impl PlayerAgg {
    /// The record as plain values.
    pub open spec fn view(&self) -> PlayerView {
        PlayerView {
            rank: self.rank as int,
            score: self.score as int,
            wonders: self.wonders@,
            gov_changes: self.gov_changes@,
            leaders: self.leaders@,
            action_counts: self.action_counts@,
            war_declares: self.war_declares@,
            aggression_plays: self.aggression_plays@,
            age_culture: self.age_culture@,
            age_science: self.age_science@,
            age_round: self.age_round@,
            age_culture_rank: self.age_culture_rank@,
            strength_score: self.strength_score,
        }
    }

    /// A colour with nothing read yet.
    pub fn new() -> (p: PlayerAgg)
        ensures
            p.view() == empty_player(),
    {
        let p = PlayerAgg {
            rank: 0,
            score: 0,
            wonders: Vec::new(),
            gov_changes: Vec::new(),
            leaders: Vec::new(),
            action_counts: Vec::new(),
            war_declares: Vec::new(),
            aggression_plays: Vec::new(),
            age_culture: [None, None, None, None, None],
            age_science: [None, None, None, None, None],
            age_round: [None, None, None, None, None],
            age_culture_rank: [None, None, None, None, None],
            strength_score: None,
        };
        assert(p.view() =~= empty_player());
        p
    }

    /// How many lines of action class `c` this colour has.
    pub fn count(&self, c: ActionClass) -> (n: u32)
        ensures
            n == class_count(self.action_counts@, c),
    {
        let mut i: usize = 0;
        while i < self.action_counts.len()
            invariant
                i <= self.action_counts@.len(),
                class_pos(self.action_counts@, c, i as int) == class_pos(self.action_counts@, c, 0),
            decreases self.action_counts@.len() - i,
        {
            if self.action_counts[i].0 == c {
                return self.action_counts[i].1;
            }
            i = i + 1;
        }
        0
    }
}

/// A colour with nothing read yet.
pub open spec fn empty_player() -> PlayerView {
    PlayerView {
        rank: 0,
        score: 0,
        wonders: Seq::empty(),
        gov_changes: Seq::empty(),
        leaders: Seq::empty(),
        action_counts: Seq::empty(),
        war_declares: Seq::empty(),
        aggression_plays: Seq::empty(),
        age_culture: seq![None, None, None, None, None],
        age_science: seq![None, None, None, None, None],
        age_round: seq![None, None, None, None, None],
        age_culture_rank: seq![None, None, None, None, None],
        strength_score: None,
    }
}

/// The first position at or after `i` holding the count of class `c`, or
/// -1.
pub open spec fn class_pos(counts: Seq<(ActionClass, u32)>, c: ActionClass, i: int) -> int
    decreases counts.len() - i,
{
    if i < 0 || i >= counts.len() {
        -1
    } else if counts[i].0 == c {
        i
    } else {
        class_pos(counts, c, i + 1)
    }
}

/// How many lines of class `c` the counts hold.
pub open spec fn class_count(counts: Seq<(ActionClass, u32)>, c: ActionClass) -> int {
    let p = class_pos(counts, c, 0);
    if p < 0 {
        0
    } else {
        counts[p].1 as int
    }
}

/// The counts with one more line of class `c`.
pub open spec fn counted(counts: Seq<(ActionClass, u32)>, c: ActionClass) -> Seq<(ActionClass, u32)> {
    let p = class_pos(counts, c, 0);
    if p < 0 {
        counts.push((c, 1u32))
    } else {
        counts.update(p, (c, (counts[p].1 + 1) as u32))
    }
}

/// What the corpus reader makes of an action line: its class, the card it
/// names, the colour it names as actor, and the colours named after " on "
/// (a war's target) and after " against " (an aggression's).
#[derive(Clone, Copy)]
pub struct ActionFacts {
    pub class: ActionClass,
    pub card: Option<u16>,
    pub actor: Option<Color>,
    pub war_target: Option<Color>,
    pub aggression_target: Option<Color>,
}

/// What the corpus reader makes of a line's text.
pub struct LineFacts {
    /// The placings (rank, colour, score) read from the winner line that
    /// starts at the text's "WINNER IS"; empty when there is none or it
    /// does not parse.
    pub winner_ranks: Vec<(u8, Color, i32)>,
    /// For each seat, the number that follows "<colour> scores " in the
    /// text, when the marker is there and a number follows it.
    pub strength_scores: Vec<Option<i32>>,
    /// The action the line records, if it records one.
    pub action: Option<ActionFacts>,
}

/// A game's record as plain values: the table size, whether the winner
/// line and the strength scoring line have been read, and each seat's
/// record.
pub struct GameView {
    pub players: int,
    pub winner_parsed: bool,
    pub has_strength_line: bool,
    pub seats: Seq<PlayerView>,
}

/// The placings `ranks[..k]` written into the seats, a later placing of a
/// colour overwriting an earlier one; a colour not at the table is passed
/// over.
pub open spec fn apply_ranks(seats: Seq<PlayerView>, ranks: Seq<(u8, Color, i32)>, k: int) -> Seq<
    PlayerView,
>
    decreases k,
{
    if k <= 0 {
        seats
    } else {
        let s = apply_ranks(seats, ranks, k - 1);
        let (r, c, sc) = ranks[k - 1];
        let i = seat_of(c);
        if i < s.len() {
            s.update(i, PlayerView { rank: r as int, score: sc as int, ..s[i] })
        } else {
            s
        }
    }
}

/// The record after a line whose text is `text` and whose winner-line
/// placings are `ranks`: the first winner line that yields placings is the
/// one read.
pub open spec fn winner_step(g: GameView, text: Seq<char>, ranks: Seq<(u8, Color, i32)>) -> GameView {
    if !g.winner_parsed && find(text, "WINNER IS"@) is Some && ranks.len() > 0 {
        GameView { seats: apply_ranks(g.seats, ranks, ranks.len() as int), winner_parsed: true, ..g }
    } else {
        g
    }
}

/// The marker after which the strength scoring line gives a colour's
/// award.
pub open spec fn scores_marker(c: Color) -> Seq<char> {
    color_name(c) + " scores "@
}

/// The record after a line whose text is `text`, `scores` being the
/// numbers after each seat's scoring marker: on the strength scoring line
/// every seat at the table is given 0 unless it already has an award, and
/// each seat whose marker the line holds is given the number after it.
pub open spec fn strength_step(g: GameView, text: Seq<char>, scores: Seq<Option<i32>>) -> GameView {
    if text.len() >= 18 && text.subrange(0, 18) == "Impact of Strength"@ {
        GameView {
            has_strength_line: true,
            seats: Seq::new(
                g.seats.len(),
                |i: int|
                    {
                        let p = g.seats[i];
                        let base = if p.strength_score is None {
                            Some(0i32)
                        } else {
                            p.strength_score
                        };
                        let marked = find(text, scores_marker(color_of_seat(i).unwrap())) is Some;
                        PlayerView {
                            strength_score: if marked && i < scores.len() && scores[i] is Some {
                                scores[i]
                            } else {
                                base
                            },
                            ..p
                        }
                    },
            ),
            ..g
        }
    } else {
        g
    }
}

/// What an action of class-specific interest adds to the record of the
/// colour that took it, on a line of age `age`, round `round` and text
/// `text`.
pub open spec fn class_effect(p: PlayerView, a: ActionFacts, age: Option<Age>, round: u32, text: Seq<char>) -> PlayerView {
    match a.class {
        ActionClass::BuildWonderStage => match (a.card, age) {
            (Some(id), Some(ag)) => if find(text, "Wonder completed"@) is Some {
                PlayerView { wonders: p.wonders.push((ag, id)), ..p }
            } else {
                p
            },
            _ => p,
        },
        ActionClass::ElectLeader => match a.card {
            Some(id) => PlayerView { leaders: p.leaders.push(id), ..p },
            None => p,
        },
        ActionClass::ChangeGovernment => match (a.card, age) {
            (Some(id), Some(ag)) => PlayerView { gov_changes: p.gov_changes.push((round, ag, id)), ..p },
            _ => p,
        },
        ActionClass::DeclareWar => match (a.war_target, age) {
            (Some(t), Some(ag)) => PlayerView { war_declares: p.war_declares.push((ag, t)), ..p },
            _ => p,
        },
        ActionClass::PlayAggression => match (a.aggression_target, age) {
            (Some(t), Some(ag)) => PlayerView {
                aggression_plays: p.aggression_plays.push((ag, t)),
                ..p
            },
            _ => p,
        },
        ActionClass::EndTurn => match age {
            Some(ag) => {
                let idx = age_index(ag);
                let p1 = match now_value(text, "culture (now "@) {
                    Some(v) => PlayerView {
                        age_culture: p.age_culture.update(idx, Some(v as i32)),
                        age_round: p.age_round.update(idx, Some(round)),
                        ..p
                    },
                    None => p,
                };
                match now_value(text, "science (now "@) {
                    Some(v) => PlayerView { age_science: p1.age_science.update(idx, Some(v as i32)), ..p1 },
                    None => p1,
                }
            },
            None => p,
        },
        _ => p,
    }
}

/// The record after an action line: the acting colour (the one the line
/// names, else its colour column) gets one more line of the class and the
/// class's own effect; a line with no action, no actor or an actor not at
/// the table changes nothing.
pub open spec fn action_step(g: GameView, f: LineFields, a: Option<ActionFacts>) -> GameView {
    match a {
        None => g,
        Some(act) => {
            let actor = match act.actor {
                Some(c) => Some(c),
                None => f.colour,
            };
            match actor {
                None => g,
                Some(c) => {
                    let i = seat_of(c);
                    if i >= g.seats.len() {
                        g
                    } else {
                        let p = g.seats[i];
                        let p1 = PlayerView { action_counts: counted(p.action_counts, act.class), ..p };
                        GameView {
                            seats: g.seats.update(i, class_effect(p1, act, f.age, f.round, f.text@)),
                            ..g
                        }
                    }
                },
            }
        },
    }
}

/// The record after one journal line with fields `f` and facts
/// `(ranks, scores, action)`: the winner line, then the strength scoring,
/// then the action.
pub open spec fn line_step(
    g: GameView,
    f: LineFields,
    ranks: Seq<(u8, Color, i32)>,
    scores: Seq<Option<i32>>,
    action: Option<ActionFacts>,
) -> GameView {
    action_step(strength_step(winner_step(g, f.text@, ranks), f.text@, scores), f, action)
}

/// The seats' records as plain values.
pub open spec fn seat_views(seats: Seq<PlayerAgg>) -> Seq<PlayerView> {
    seats.map_values(|p: PlayerAgg| p.view())
}

/// No seat has a class counted `u32::MAX` times.
pub open spec fn counts_room(seats: Seq<PlayerView>) -> bool {
    forall|i: int, c: ActionClass|
        0 <= i < seats.len() ==> #[trigger] class_count(seats[i].action_counts, c) < u32::MAX
}

/// A game's record, colour by colour, read off its journal.
pub struct GameAgg {
    pub players: u8,
    pub winner_parsed: bool,
    pub has_strength_line: bool,
    /// Each seat's record: Orange, Purple, Green, Grey, as many as play.
    pub seats: Vec<PlayerAgg>,
}

impl GameAgg {
    /// The record as plain values.
    pub open spec fn view(&self) -> GameView {
        GameView {
            players: self.players as int,
            winner_parsed: self.winner_parsed,
            has_strength_line: self.has_strength_line,
            seats: seat_views(self.seats@),
        }
    }

    /// One record per player.
    pub open spec fn wf(&self) -> bool {
        self.seats@.len() == self.players && self.players <= 4
    }

    /// A game of `players` players with nothing read yet. A table has at
    /// most four colours.
    pub fn new(players: u8) -> (g: GameAgg)
        requires
            players <= 4,
        ensures
            g.wf(),
            g.view() == (GameView {
                players: players as int,
                winner_parsed: false,
                has_strength_line: false,
                seats: Seq::new(players as nat, |i: int| empty_player()),
            }),
    {
        let mut seats: Vec<PlayerAgg> = Vec::new();
        let mut i: u8 = 0;
        while i < players
            invariant
                i <= players,
                seats@.len() == i,
                forall|j: int| 0 <= j < i ==> #[trigger] seats@[j].view() == empty_player(),
            decreases players - i,
        {
            seats.push(PlayerAgg::new());
            i = i + 1;
        }
        let g = GameAgg { players, winner_parsed: false, has_strength_line: false, seats };
        assert(seat_views(g.seats@) =~= Seq::new(players as nat, |i: int| empty_player()));
        g
    }

    /// Reads the winner line's placings, if this is the first winner line
    /// that yields any.
    fn apply_winner(&mut self, text: &str, ranks: &Vec<(u8, Color, i32)>)
        requires
            old(self).wf(),
        ensures
            final(self).wf(),
            final(self).view() == winner_step(old(self).view(), text@, ranks@),
    {
        if self.winner_parsed || ranks.len() == 0 {
            return;
        }
        let cs = chars_of(text);
        let pat = chars_of("WINNER IS");
        if find_chars(&cs, &pat).is_none() {
            return;
        }
        let ghost s0 = seat_views(self.seats@);
        let n = self.seats.len();
        let mut k: usize = 0;
        while k < ranks.len()
            invariant
                n == self.seats@.len(),
                self.wf(),
                k <= ranks@.len(),
                seat_views(self.seats@) == apply_ranks(s0, ranks@, k as int),
                s0 == seat_views(old(self).seats@),
                self.players == old(self).players,
                self.has_strength_line == old(self).has_strength_line,
                self.winner_parsed == old(self).winner_parsed,
            decreases ranks@.len() - k,
        {
            let (r, c, sc) = ranks[k];
            let i = seat_index(c);
            if i < n {
                let ghost before = seat_views(self.seats@);
                let mut p = self.seats.remove(i);
                p.rank = r;
                p.score = sc;
                self.seats.insert(i, p);
                assert(seat_views(self.seats@) =~= before.update(
                    i as int,
                    PlayerView { rank: r as int, score: sc as int, ..before[i as int] },
                ));
            }
            k = k + 1;
        }
        self.winner_parsed = true;
    }
}

/// Whether `cs` starts with `pat`.
fn starts_with_chars(cs: &Vec<char>, pat: &str) -> (r: bool)
    ensures
        r == (cs@.len() >= pat@.len() && cs@.subrange(0, pat@.len() as int) == pat@),
{
    let p = chars_of(pat);
    if cs.len() < p.len() {
        return false;
    }
    let mut k: usize = 0;
    while k < p.len()
        invariant
            p@ == pat@,
            cs@.len() >= p@.len(),
            k <= p@.len(),
            forall|j: int| 0 <= j < k ==> cs@[j] == p@[j],
        decreases p@.len() - k,
    {
        if cs[k] != p[k] {
            assert(cs@.subrange(0, pat@.len() as int)[k as int] != pat@[k as int]);
            return false;
        }
        k = k + 1;
    }
    assert(cs@.subrange(0, pat@.len() as int) =~= pat@);
    true
}

impl GameAgg {
    /// Reads the strength scoring line, if this is one.
    fn apply_strength(&mut self, text: &str, scores: &Vec<Option<i32>>)
        requires
            old(self).wf(),
        ensures
            final(self).wf(),
            final(self).view() == strength_step(old(self).view(), text@, scores@),
    {
        proof {
            reveal_strlit("Impact of Strength");
        }
        let cs = chars_of(text);
        if !starts_with_chars(&cs, "Impact of Strength") {
            return;
        }
        let ghost g0 = self.view();
        assert(text@.len() >= 18 && text@.subrange(0, 18) == "Impact of Strength"@);
        self.has_strength_line = true;
        let n = self.seats.len();
        let mut i: usize = 0;
        while i < n
            invariant
                n == self.seats@.len(),
                self.wf(),
                i <= n,
                cs@ == text@,
                text@.len() >= 18 && text@.subrange(0, 18) == "Impact of Strength"@,
                g0.seats.len() == n,
                self.players == g0.players,
                self.winner_parsed == g0.winner_parsed,
                self.has_strength_line,
                forall|j: int| 0 <= j < i ==> #[trigger] seat_views(self.seats@)[j]
                    == strength_step(g0, text@, scores@).seats[j],
                forall|j: int| i <= j < n ==> #[trigger] seat_views(self.seats@)[j] == g0.seats[j],
            decreases n - i,
        {
            let ghost before = seat_views(self.seats@);
            assert(before[i as int] == self.seats@[i as int].view());
            let mut p = self.seats.remove(i);
            if p.strength_score.is_none() {
                p.strength_score = Some(0);
            }
            let c = match Color::from_seat(i as u8) {
                Some(c) => c,
                None => Color::Grey,
            };
            assert(color_of_seat(i as int) == Some(c));
            let mut marker = String::from_str(c.as_str());
            marker.append(" scores ");
            assert(marker@ == scores_marker(c));
            let pat = chars_of(marker.as_str());
            if find_chars(&cs, &pat).is_some() && i < scores.len() {
                if let Some(v) = scores[i] {
                    p.strength_score = Some(v);
                }
            }
            assert(p.view() == strength_step(g0, text@, scores@).seats[i as int]);
            self.seats.insert(i, p);
            assert(seat_views(self.seats@) =~= before.update(
                i as int,
                strength_step(g0, text@, scores@).seats[i as int],
            ));
            i = i + 1;
        }
        assert(seat_views(self.seats@) =~= strength_step(g0, text@, scores@).seats);
    }
}

/// Counts one more line of class `c`.
fn count_class(counts: &mut Vec<(ActionClass, u32)>, c: ActionClass)
    requires
        class_count(old(counts)@, c) < u32::MAX,
    ensures
        final(counts)@ == counted(old(counts)@, c),
{
    let ghost c0 = counts@;
    let n = counts.len();
    let mut i: usize = 0;
    while i < n
        invariant
            n == counts@.len(),
            counts@ == c0,
            c0 == old(counts)@,
            class_count(c0, c) < u32::MAX,
            i <= n,
            class_pos(c0, c, i as int) == class_pos(c0, c, 0),
        decreases n - i,
    {
        if counts[i].0 == c {
            let k = counts[i].1;
            counts.set(i, (c, k + 1));
            return;
        }
        i = i + 1;
    }
    counts.push((c, 1));
}

/// Adds the class-specific effect of the action `a`, on a line of age
/// `age`, round `round` and text `text`, to the record `p` of the colour
/// that took it.
fn apply_class_effect(p: &mut PlayerAgg, a: ActionFacts, age: Option<Age>, round: u32, text: &str)
    ensures
        final(p).view() == class_effect(old(p).view(), a, age, round, text@),
{
    match a.class {
        ActionClass::BuildWonderStage => {
            if let (Some(id), Some(ag)) = (a.card, age) {
                let cs = chars_of(text);
                let pat = chars_of("Wonder completed");
                if find_chars(&cs, &pat).is_some() {
                    p.wonders.push((ag, id));
                }
            }
        },
        ActionClass::ElectLeader => {
            if let Some(id) = a.card {
                p.leaders.push(id);
            }
        },
        ActionClass::ChangeGovernment => {
            if let (Some(id), Some(ag)) = (a.card, age) {
                p.gov_changes.push((round, ag, id));
            }
        },
        ActionClass::DeclareWar => {
            if let (Some(t), Some(ag)) = (a.war_target, age) {
                p.war_declares.push((ag, t));
            }
        },
        ActionClass::PlayAggression => {
            if let (Some(t), Some(ag)) = (a.aggression_target, age) {
                p.aggression_plays.push((ag, t));
            }
        },
        ActionClass::EndTurn => {
            if let Some(ag) = age {
                let idx = age_idx(ag);
                if let Some(v) = extract_now_value(text, "culture (now ") {
                    p.age_culture.set(idx, Some(v));
                    p.age_round.set(idx, Some(round));
                }
                if let Some(v) = extract_now_value(text, "science (now ") {
                    p.age_science.set(idx, Some(v));
                }
            }
        },
        _ => {},
    }
}

impl GameAgg {
    /// Reads an action line.
    fn apply_action(&mut self, f: &LineFields, a: Option<ActionFacts>)
        requires
            old(self).wf(),
            counts_room(old(self).view().seats),
        ensures
            final(self).wf(),
            final(self).view() == action_step(old(self).view(), *f, a),
    {
        let act = match a {
            None => return,
            Some(x) => x,
        };
        let actor = match act.actor {
            Some(c) => c,
            None => match f.colour {
                Some(c) => c,
                None => return,
            },
        };
        let i = seat_index(actor);
        if i >= self.seats.len() {
            return;
        }
        let ghost before = seat_views(self.seats@);
        assert(before[i as int] == self.seats@[i as int].view());
        let mut p = self.seats.remove(i);
        assert(class_count(before[i as int].action_counts, act.class) < u32::MAX);
        count_class(&mut p.action_counts, act.class);
        apply_class_effect(&mut p, act, f.age, f.round, f.text.as_str());
        self.seats.insert(i, p);
        assert(seat_views(self.seats@) =~= before.update(i as int, p.view()));
    }

    /// Reads one journal line with fields `f`, the corpus reader's facts
    /// about its text being `facts`: the winner line, then the strength
    /// scoring, then the action.
    pub fn record_line(&mut self, f: &LineFields, facts: LineFacts)
        requires
            old(self).wf(),
            counts_room(old(self).view().seats),
        ensures
            final(self).wf(),
            final(self).view() == line_step(
                old(self).view(),
                *f,
                facts.winner_ranks@,
                facts.strength_scores@,
                facts.action,
            ),
    {
        self.apply_winner(f.text.as_str(), &facts.winner_ranks);
        proof {
            lemma_counts_room_kept(old(self).view(), self.view(), f.text@, facts.winner_ranks@);
        }
        let ghost g1 = self.view();
        self.apply_strength(f.text.as_str(), &facts.strength_scores);
        proof {
            assert forall|i: int, c: ActionClass| 0 <= i < self.view().seats.len() implies #[trigger] class_count(
                self.view().seats[i].action_counts,
                c,
            ) < u32::MAX by {
                if f.text@.len() >= 18 && f.text@.subrange(0, 18) == "Impact of Strength"@ {
                    assert(self.view().seats[i].action_counts == g1.seats[i].action_counts);
                }
            }
        }
        self.apply_action(f, facts.action);
    }
}

/// Reading the winner line leaves every seat's class counts as they were.
proof fn lemma_counts_room_kept(g0: GameView, g1: GameView, text: Seq<char>, ranks: Seq<(u8, Color, i32)>)
    requires
        counts_room(g0.seats),
        g1 == winner_step(g0, text, ranks),
    ensures
        counts_room(g1.seats),
{
    if !g0.winner_parsed && find(text, "WINNER IS"@) is Some && ranks.len() > 0 {
        lemma_apply_ranks_counts(g0.seats, ranks, ranks.len() as int);
    }
}

/// Writing placings leaves every seat's class counts as they were.
proof fn lemma_apply_ranks_counts(seats: Seq<PlayerView>, ranks: Seq<(u8, Color, i32)>, k: int)
    ensures
        apply_ranks(seats, ranks, k).len() == seats.len(),
        forall|i: int|
            0 <= i < seats.len() ==> #[trigger] apply_ranks(seats, ranks, k)[i].action_counts
                == seats[i].action_counts,
    decreases k,
{
    if k > 0 {
        lemma_apply_ranks_counts(seats, ranks, k - 1);
    }
}

/// How many of the seats before `k` are ahead of seat `s` on culture at the
/// end of age `idx`: with more culture, or as much and an earlier seat.
/// Seats with no culture recorded for that age are not counted.
pub open spec fn ahead_count(seats: Seq<PlayerView>, idx: int, s: int, k: int) -> int
    decreases k,
{
    if k <= 0 {
        0
    } else {
        let t = k - 1;
        let rest = ahead_count(seats, idx, s, t);
        match (seats[t].age_culture[idx], seats[s].age_culture[idx]) {
            (Some(vt), Some(vs)) => if vt > vs || (vt == vs && t < s) {
                rest + 1
            } else {
                rest
            },
            _ => rest,
        }
    }
}

/// Seat `s`'s rank on culture at the end of age `idx` among the seats with
/// a culture recorded for that age (1 for the most; ties go to the earlier
/// seat), or its old rank when it has none recorded.
pub open spec fn culture_rank(seats: Seq<PlayerView>, idx: int, s: int) -> Option<u8> {
    if seats[s].age_culture[idx] is Some {
        Some((1 + ahead_count(seats, idx, s, seats.len() as int)) as u8)
    } else {
        seats[s].age_culture_rank[idx]
    }
}

/// The record with every seat's culture rank filled in at each age's end.
pub open spec fn ranked(g: GameView) -> GameView {
    GameView {
        seats: Seq::new(
            g.seats.len(),
            |s: int|
                PlayerView {
                    age_culture_rank: Seq::new(5, |idx: int| culture_rank(g.seats, idx, s)),
                    ..g.seats[s]
                },
        ),
        ..g
    }
}

proof fn lemma_ahead_count_bound(seats: Seq<PlayerView>, idx: int, s: int, k: int)
    ensures
        0 <= ahead_count(seats, idx, s, k) <= if k < 0 {
            0
        } else {
            k
        },
    decreases k,
{
    if k > 0 {
        lemma_ahead_count_bound(seats, idx, s, k - 1);
    }
}

/// Seat `s`'s culture rank at the end of age `idx`, if it has a culture
/// recorded then.
fn rank_at(seats: &Vec<PlayerAgg>, idx: usize, s: usize) -> (r: Option<u8>)
    requires
        s < seats@.len() <= 4,
        idx < 5,
    ensures
        r == (if seat_views(seats@)[s as int].age_culture[idx as int] is Some {
            Some((1 + ahead_count(seat_views(seats@), idx as int, s as int, seats@.len() as int)) as u8)
        } else {
            None
        }),
{
    let ghost sv = seat_views(seats@);
    assert(sv[s as int] == seats@[s as int].view());
    let vs = match seats[s].age_culture[idx] {
        Some(v) => v,
        None => return None,
    };
    let n = seats.len();
    let mut ahead: u8 = 0;
    let mut t: usize = 0;
    while t < n
        invariant
            n == seats@.len() <= 4,
            sv == seat_views(seats@),
            s < n,
            idx < 5,
            t <= n,
            sv[s as int].age_culture[idx as int] == Some(vs),
            ahead == ahead_count(sv, idx as int, s as int, t as int),
        decreases n - t,
    {
        proof {
            lemma_ahead_count_bound(sv, idx as int, s as int, t as int);
        }
        assert(sv[t as int] == seats@[t as int].view());
        if let Some(vt) = seats[t].age_culture[idx] {
            if vt > vs || (vt == vs && t < s) {
                ahead = ahead + 1;
            }
        }
        t = t + 1;
    }
    proof {
        lemma_ahead_count_bound(sv, idx as int, s as int, n as int);
    }
    Some(ahead + 1)
}

impl GameAgg {
    /// Once the whole journal is read: ranks the seats on culture at the
    /// end of each age, among those with a culture recorded for it.
    pub fn rank_culture(&mut self)
        requires
            old(self).wf(),
        ensures
            final(self).wf(),
            final(self).view() == ranked(old(self).view()),
    {
        let ghost g0 = self.view();
        let n = self.seats.len();
        let mut ranks: Vec<[Option<u8>; 5]> = Vec::new();
        let mut s: usize = 0;
        while s < n
            invariant
                n == self.seats@.len(),
                self.wf(),
                self.view() == g0,
                s <= n,
                ranks@.len() == s,
                forall|j: int, idx: int|
                    0 <= j < s && 0 <= idx < 5 ==> (#[trigger] ranks@[j]@[idx] is Some ==> ranks@[j]@[idx]
                        == culture_rank(g0.seats, idx, j)) && (ranks@[j]@[idx] is None
                        ==> g0.seats[j].age_culture[idx] is None),
            decreases n - s,
        {
            let r: [Option<u8>; 5] = [
                rank_at(&self.seats, 0, s),
                rank_at(&self.seats, 1, s),
                rank_at(&self.seats, 2, s),
                rank_at(&self.seats, 3, s),
                rank_at(&self.seats, 4, s),
            ];
            ranks.push(r);
            s = s + 1;
        }
        let mut s: usize = 0;
        while s < n
            invariant
                n == self.seats@.len(),
                n == ranks@.len(),
                n == g0.seats.len(),
                self.wf(),
                self.players == g0.players,
                self.winner_parsed == g0.winner_parsed,
                self.has_strength_line == g0.has_strength_line,
                s <= n,
                forall|j: int, idx: int|
                    0 <= j < n && 0 <= idx < 5 ==> (#[trigger] ranks@[j]@[idx] is Some ==> ranks@[j]@[idx]
                        == culture_rank(g0.seats, idx, j)) && (ranks@[j]@[idx] is None
                        ==> g0.seats[j].age_culture[idx] is None),
                forall|j: int| 0 <= j < s ==> #[trigger] seat_views(self.seats@)[j] == ranked(g0).seats[j],
                forall|j: int| s <= j < n ==> #[trigger] seat_views(self.seats@)[j] == g0.seats[j],
            decreases n - s,
        {
            let ghost before = seat_views(self.seats@);
            assert(before[s as int] == self.seats@[s as int].view());
            let mut p = self.seats.remove(s);
            let r = ranks[s];
            let mut idx: usize = 0;
            while idx < 5
                invariant
                    idx <= 5,
                    r == ranks@[s as int],
                    s < n,
                    n == ranks@.len(),
                    p.view() == (PlayerView { age_culture_rank: p.view().age_culture_rank, ..g0.seats[s as int] }),
                    p.age_culture_rank@.len() == 5,
                    g0.seats[s as int].age_culture_rank.len() == 5,
                    forall|k: int| 0 <= k < idx ==> #[trigger] p.age_culture_rank@[k] == culture_rank(g0.seats, k, s as int),
                    forall|k: int| idx <= k < 5 ==> #[trigger] p.age_culture_rank@[k] == g0.seats[s as int].age_culture_rank[k],
                    forall|j: int, k: int|
                        0 <= j < n && 0 <= k < 5 ==> (#[trigger] ranks@[j]@[k] is Some ==> ranks@[j]@[k]
                            == culture_rank(g0.seats, k, j)) && (ranks@[j]@[k] is None
                            ==> g0.seats[j].age_culture[k] is None),
                decreases 5 - idx,
            {
                if let Some(x) = r[idx] {
                    p.age_culture_rank.set(idx, Some(x));
                }
                idx = idx + 1;
            }
            assert(p.age_culture_rank@ =~= Seq::new(5, |k: int| culture_rank(g0.seats, k, s as int)));
            self.seats.insert(s, p);
            assert(seat_views(self.seats@) =~= before.update(s as int, ranked(g0).seats[s as int]));
            s = s + 1;
        }
        assert(seat_views(self.seats@) =~= ranked(g0).seats);
    }
}

/// Seat `t` is ahead of seat `s` on culture at the end of age `idx`.
pub open spec fn is_ahead(seats: Seq<PlayerView>, idx: int, t: int, s: int) -> bool {
    match (seats[t].age_culture[idx], seats[s].age_culture[idx]) {
        (Some(vt), Some(vs)) => vt > vs || (vt == vs && t < s),
        _ => false,
    }
}

/// Every seat ahead of `t` is ahead of `s` too when `t` is ahead of `s`,
/// and `t` itself is: so `s` counts more seats ahead of it than `t` does.
proof fn lemma_ahead_grows(seats: Seq<PlayerView>, idx: int, s: int, t: int, k: int)
    requires
        is_ahead(seats, idx, t, s),
    ensures
        ahead_count(seats, idx, s, k) >= ahead_count(seats, idx, t, k) + if 0 <= t < k {
            1int
        } else {
            0
        },
    decreases k,
{
    if k > 0 {
        lemma_ahead_grows(seats, idx, s, t, k - 1);
    }
}

/// Ranked on culture at the end of an age, no two seats with a culture
/// recorded for it share a rank.
pub proof fn lemma_culture_ranks_distinct(seats: Seq<PlayerView>, idx: int, s: int, t: int)
    requires
        0 <= s < seats.len() <= 4,
        0 <= t < seats.len(),
        s != t,
        seats[s].age_culture[idx] is Some,
        seats[t].age_culture[idx] is Some,
    ensures
        culture_rank(seats, idx, s) != culture_rank(seats, idx, t),
{
    let n = seats.len() as int;
    lemma_ahead_count_bound(seats, idx, s, n);
    lemma_ahead_count_bound(seats, idx, t, n);
    if is_ahead(seats, idx, t, s) {
        lemma_ahead_grows(seats, idx, s, t, n);
    } else {
        assert(is_ahead(seats, idx, s, t));
        lemma_ahead_grows(seats, idx, t, s, n);
    }
}

} // verus!

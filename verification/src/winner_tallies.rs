//! The winner-versus-loser comparison of the human-corpus study, for one
//! player count: every ranked seat split into the game's winner and its
//! losers, with the samples behind each mean, the hit counts behind each
//! rate, and the per-card tallies of wonders, leaders and final governments.
//!
//! Means and rates are quotients, so the library keeps what they are
//! computed from: each mean's sample in the order the seats were read, and
//! each rate's chances and hits. Card names are what the engine calls each
//! card id, handed in as plain text.
use vstd::prelude::*;
use crate::journal::{ActionClass, Age, Color};
use crate::keyed_tally::{first_pos, lemma_first_pos_range, recorded, EntryView, KeyedTally};
use crate::text::str_eq;
use crate::winner_pass::{class_count, seat_of, seat_views, GameAgg, GameView, PlayerAgg, PlayerView};
use crate::winners::RateStat;

verus! {

broadcast use vstd::string::group_string_axioms;

// ---------------------------------------------------------------------
// Rates, name tallies and their bounds
// ---------------------------------------------------------------------

/// A rate with one more chance, a hit or not.
pub open spec fn rate_added(r: RateStat, hit: bool) -> RateStat {
    RateStat {
        n: (r.n + 1) as u64,
        hits: if hit {
            (r.hits + 1) as u64
        } else {
            r.hits
        },
    }
}

/// A rate's hits are among its chances, and there are at most `b` of them.
pub open spec fn rate_ok(r: RateStat, b: int) -> bool {
    r.hits <= r.n <= b
}

/// Every name's hits are among its counts, and no count exceeds `b`.
pub open spec fn tally_ok(e: Seq<EntryView>, b: int) -> bool {
    forall|i: int| 0 <= i < e.len() ==> 0 <= #[trigger] e[i].sum <= e[i].count <= b
}

/// Records one chance into `r`.
fn add_rate(r: &mut RateStat, hit: bool, Ghost(b): Ghost<int>)
    requires
        rate_ok(*old(r), b),
        b < u64::MAX,
    ensures
        *final(r) == rate_added(*old(r), hit),
        rate_ok(*final(r), b + 1),
{
    r.add(hit);
}

proof fn lemma_tally_ok_recorded(e: Seq<EntryView>, key: Seq<char>, amount: int, example: Seq<char>, b: int)
    requires
        tally_ok(e, b),
        0 <= amount <= 1,
        b >= 0,
    ensures
        tally_ok(recorded(e, key, amount, example), b + 1),
{
    let p = first_pos(e, key, 0);
    lemma_first_pos_range(e, key, 0);
    let t = recorded(e, key, amount, example);
    assert forall|i: int| 0 <= i < t.len() implies 0 <= #[trigger] t[i].sum <= t[i].count <= b + 1 by {
        if p < 0 {
            if i < e.len() {
                assert(t[i] == e[i]);
            }
        } else if i != p {
            assert(t[i] == e[i]);
        }
    }
}

/// The names as text.
pub open spec fn name_views(names: Seq<String>) -> Seq<Seq<char>> {
    names.map_values(|s: String| s@)
}

/// Whether `ids[j]` names a card no earlier id in `ids` shares a name with.
pub open spec fn first_of_name(ids: Seq<u16>, names: Seq<Seq<char>>, j: int) -> bool {
    forall|k: int| 0 <= k < j ==> names[ids[k] as int] != names[ids[j] as int]
}

/// `e` after recording, with `amount`, each distinct name among the first
/// `j` ids once, in the order the names first occur.
pub open spec fn names_recorded(e: Seq<EntryView>, ids: Seq<u16>, names: Seq<Seq<char>>, amount: int, j: int) -> Seq<
    EntryView,
>
    decreases j,
{
    if j <= 0 {
        e
    } else {
        let prev = names_recorded(e, ids, names, amount, j - 1);
        if first_of_name(ids, names, j - 1) {
            recorded(prev, names[ids[j - 1] as int], amount, ""@)
        } else {
            prev
        }
    }
}

/// Every id names a card in `names`.
pub open spec fn ids_named(ids: Seq<u16>, n: int) -> bool {
    forall|k: int| 0 <= k < ids.len() ==> (#[trigger] ids[k] as int) < n
}

/// Records each distinct name among the cards `ids` once into `t`, with a
/// hit when `won`.
fn record_names(t: &mut KeyedTally, ids: &Vec<u16>, names: &Vec<String>, won: bool, Ghost(b): Ghost<int>)
    requires
        old(t).wf(),
        tally_ok(old(t)@, b),
        b >= 0,
        b + ids@.len() < u64::MAX,
        ids_named(ids@, names@.len() as int),
    ensures
        final(t).wf(),
        final(t)@ == names_recorded(
            old(t)@,
            ids@,
            name_views(names@),
            if won {
                1int
            } else {
                0int
            },
            ids@.len() as int,
        ),
        tally_ok(final(t)@, b + ids@.len()),
{
    let ghost t0 = t@;
    let ghost nv = name_views(names@);
    let ghost amt: int = if won {
        1int
    } else {
        0int
    };
    let amount: u64 = if won {
        1
    } else {
        0
    };
    let mut j: usize = 0;
    while j < ids.len()
        invariant
            t.wf(),
            j <= ids@.len(),
            nv == name_views(names@),
            amt == amount,
            amt == (if won {
                1int
            } else {
                0int
            }),
            t@ == names_recorded(t0, ids@, nv, amt, j as int),
            tally_ok(t@, b + j),
            b >= 0,
            b + ids@.len() < u64::MAX,
            ids_named(ids@, names@.len() as int),
        decreases ids@.len() - j,
    {
        let id = ids[j] as usize;
        assert(id < names@.len());
        let name = names[id].as_str();
        assert(name@ == nv[ids@[j as int] as int]);
        let mut fresh = true;
        let mut k: usize = 0;
        while k < j
            invariant
                k <= j,
                j < ids@.len(),
                nv == name_views(names@),
                name@ == nv[ids@[j as int] as int],
                ids_named(ids@, names@.len() as int),
                fresh <==> (forall|q: int| 0 <= q < k ==> nv[ids@[q] as int] != nv[ids@[j as int] as int]),
            decreases j - k,
        {
            let other = ids[k] as usize;
            assert(other < names@.len());
            if str_eq(names[other].as_str(), name) {
                fresh = false;
            }
            k = k + 1;
        }
        assert(fresh == first_of_name(ids@, nv, j as int));
        if fresh {
            proof {
                lemma_tally_ok_recorded(t@, name@, amt, ""@, b + j);
                assert forall|i: int| 0 <= i < t@.len() && t@[i].key == name@ implies t@[i].count
                    < u64::MAX && t@[i].sum + amount <= u64::MAX by {
                    assert(0 <= t@[i].sum <= t@[i].count <= b + j);
                }
            }
            t.record(name, amount, "");
        } else {
            assert(tally_ok(t@, b + j + 1));
        }
        j = j + 1;
    }
}

// ---------------------------------------------------------------------
// One side (winners or losers) of one player count
// ---------------------------------------------------------------------

/// The sum and the number of the cumulative culture values the first `k`
/// seats have at the end of age `idx`.
pub open spec fn table_culture(seats: Seq<PlayerView>, idx: int, k: int) -> (int, int)
    decreases k,
{
    if k <= 0 {
        (0, 0)
    } else {
        let prev = table_culture(seats, idx, k - 1);
        match seats[k - 1].age_culture[idx] {
            Some(v) => (prev.0 + v, prev.1 + 1),
            None => prev,
        }
    }
}

/// The sum and the number of the table's cumulative culture values at the
/// end of age `idx`.
fn table_culture_of(seats: &Vec<PlayerAgg>, idx: usize) -> (r: (i64, u64))
    requires
        seats@.len() <= 4,
        idx < 5,
    ensures
        r.0 as int == table_culture(seat_views(seats@), idx as int, seats@.len() as int).0,
        r.1 as int == table_culture(seat_views(seats@), idx as int, seats@.len() as int).1,
{
    let ghost sv = seat_views(seats@);
    let mut sum: i64 = 0;
    let mut n: u64 = 0;
    let mut k: usize = 0;
    while k < seats.len()
        invariant
            seats@.len() <= 4,
            idx < 5,
            sv == seat_views(seats@),
            k <= seats@.len(),
            sum as int == table_culture(sv, idx as int, k as int).0,
            n as int == table_culture(sv, idx as int, k as int).1,
            -(k * 2147483648) <= sum <= k * 2147483648,
            n <= k,
        decreases seats@.len() - k,
    {
        assert(sv[k as int] == seats@[k as int].view());
        match seats[k].age_culture[idx] {
            Some(v) => {
                sum = sum + v as i64;
                n = n + 1;
            },
            None => {},
        }
        k = k + 1;
    }
    (sum, n)
}

/// One age's end, one side: each seat's culture and the round it was read
/// in (for culture per round), its culture rank at the table, its culture
/// with the table's sum and count (for the difference from the table's
/// mean), and its science and round.
pub struct AgeTally {
    pub culture_rate: Vec<(i32, u32)>,
    pub culture_rank: Vec<u8>,
    pub culture_vs_table: Vec<(i32, i64, u64)>,
    pub science_rate: Vec<(i32, u32)>,
}

/// An age tally as plain values.
pub struct AgeTallyView {
    pub culture_rate: Seq<(i32, u32)>,
    pub culture_rank: Seq<u8>,
    pub culture_vs_table: Seq<(i32, i64, u64)>,
    pub science_rate: Seq<(i32, u32)>,
}

impl AgeTally {
    /// The tally as plain values.
    pub open spec fn view(&self) -> AgeTallyView {
        AgeTallyView {
            culture_rate: self.culture_rate@,
            culture_rank: self.culture_rank@,
            culture_vs_table: self.culture_vs_table@,
            science_rate: self.science_rate@,
        }
    }

    /// Nothing recorded.
    pub fn new() -> (a: AgeTally)
        ensures
            a.view() == empty_age(),
    {
        let a = AgeTally {
            culture_rate: Vec::new(),
            culture_rank: Vec::new(),
            culture_vs_table: Vec::new(),
            science_rate: Vec::new(),
        };
        assert(a.view() =~= empty_age());
        a
    }
}

/// An age tally with nothing recorded.
pub open spec fn empty_age() -> AgeTallyView {
    AgeTallyView {
        culture_rate: Seq::empty(),
        culture_rank: Seq::empty(),
        culture_vs_table: Seq::empty(),
        science_rate: Seq::empty(),
    }
}

/// `a` with seat `s` recorded at the end of age `idx`, the table's culture
/// there being `table` (sum, count). A rate is kept only when the round it
/// was read in is past zero.
pub open spec fn age_added(a: AgeTallyView, s: PlayerView, idx: int, table: (int, int)) -> AgeTallyView {
    let culture = s.age_culture[idx];
    let round = s.age_round[idx];
    let science = s.age_science[idx];
    AgeTallyView {
        culture_rate: if culture is Some && round is Some && round->0 > 0 {
            a.culture_rate.push((culture->0, round->0))
        } else {
            a.culture_rate
        },
        culture_rank: match s.age_culture_rank[idx] {
            Some(r) => a.culture_rank.push(r),
            None => a.culture_rank,
        },
        culture_vs_table: match culture {
            Some(v) => a.culture_vs_table.push((v, table.0 as i64, table.1 as u64)),
            None => a.culture_vs_table,
        },
        science_rate: if science is Some && round is Some && round->0 > 0 {
            a.science_rate.push((science->0, round->0))
        } else {
            a.science_rate
        },
    }
}

/// A record's five per-age columns.
pub open spec fn ages_complete(s: PlayerView) -> bool {
    &&& s.age_culture.len() == 5
    &&& s.age_science.len() == 5
    &&& s.age_round.len() == 5
    &&& s.age_culture_rank.len() == 5
}

/// Records seat `s` at the end of age `idx`.
fn add_age(a: &mut AgeTally, s: &PlayerAgg, idx: usize, table: (i64, u64))
    requires
        idx < 5,
    ensures
        final(a).view() == age_added(old(a).view(), s.view(), idx as int, (table.0 as int, table.1 as int)),
{
    let culture = s.age_culture[idx];
    let round = s.age_round[idx];
    let science = s.age_science[idx];
    match (culture, round) {
        (Some(c), Some(r)) => {
            if r > 0 {
                a.culture_rate.push((c, r));
            }
        },
        _ => {},
    }
    match s.age_culture_rank[idx] {
        Some(r) => a.culture_rank.push(r),
        None => {},
    }
    match culture {
        Some(v) => a.culture_vs_table.push((v, table.0, table.1)),
        None => {},
    }
    match (science, round) {
        (Some(c), Some(r)) => {
            if r > 0 {
                a.science_rate.push((c, r));
            }
        },
        _ => {},
    }
}

/// Builds of every kind: buildings, units and wonder stages.
pub open spec fn builds_of(s: PlayerView) -> int {
    class_count(s.action_counts, ActionClass::BuildBuilding) + class_count(s.action_counts, ActionClass::BuildUnit)
        + class_count(s.action_counts, ActionClass::BuildWonderStage)
}

/// Every card a record names has a name in a list of `n`.
pub open spec fn seat_named(s: PlayerView, n: int) -> bool {
    &&& forall|k: int| 0 <= k < s.gov_changes.len() ==> (#[trigger] s.gov_changes[k]).2 < n
    &&& forall|k: int| 0 <= k < s.wonders.len() ==> (#[trigger] s.wonders[k]).1 < n
    &&& forall|k: int| 0 <= k < s.leaders.len() ==> (#[trigger] s.leaders[k]) < n
}

/// The government a seat ended the game under: the last one it changed to,
/// or Despotism when it never changed.
pub open spec fn government_name(s: PlayerView, names: Seq<Seq<char>>) -> Seq<char> {
    if s.gov_changes.len() == 0 {
        "Despotism (never changed)"@
    } else {
        names[s.gov_changes.last().2 as int]
    }
}

/// The winners' or the losers' side of one player count: per seat, its
/// completed wonders, the round of its first government change, whether it
/// never changed government, declared a war or played an aggression, its
/// card takes, its builds against its takes, its put-backs, its culture and
/// science at the end of ages I to IV, and its final government.
pub struct SideTally {
    pub wonders: Vec<u64>,
    pub first_change_round: Vec<u32>,
    pub never_changed: RateStat,
    pub war: RateStat,
    pub aggression: RateStat,
    pub takes: Vec<u32>,
    pub build_take: Vec<(u32, u32)>,
    pub putbacks: Vec<u32>,
    pub age1: AgeTally,
    pub age2: AgeTally,
    pub age3: AgeTally,
    pub age4: AgeTally,
    pub final_government: KeyedTally,
}

/// A side as plain values.
pub struct SideView {
    pub wonders: Seq<u64>,
    pub first_change_round: Seq<u32>,
    pub never_changed: RateStat,
    pub war: RateStat,
    pub aggression: RateStat,
    pub takes: Seq<u32>,
    pub build_take: Seq<(u32, u32)>,
    pub putbacks: Seq<u32>,
    pub age1: AgeTallyView,
    pub age2: AgeTallyView,
    pub age3: AgeTallyView,
    pub age4: AgeTallyView,
    pub final_government: Seq<EntryView>,
}

impl SideTally {
    /// The side as plain values.
    pub open spec fn view(&self) -> SideView {
        SideView {
            wonders: self.wonders@,
            first_change_round: self.first_change_round@,
            never_changed: self.never_changed,
            war: self.war,
            aggression: self.aggression,
            takes: self.takes@,
            build_take: self.build_take@,
            putbacks: self.putbacks@,
            age1: self.age1.view(),
            age2: self.age2.view(),
            age3: self.age3.view(),
            age4: self.age4.view(),
            final_government: self.final_government@,
        }
    }

    /// Nothing recorded.
    pub fn new() -> (t: SideTally)
        ensures
            t.view() == empty_side(),
            t.final_government.wf(),
    {
        SideTally {
            wonders: Vec::new(),
            first_change_round: Vec::new(),
            never_changed: RateStat { n: 0, hits: 0 },
            war: RateStat { n: 0, hits: 0 },
            aggression: RateStat { n: 0, hits: 0 },
            takes: Vec::new(),
            build_take: Vec::new(),
            putbacks: Vec::new(),
            age1: AgeTally::new(),
            age2: AgeTally::new(),
            age3: AgeTally::new(),
            age4: AgeTally::new(),
            final_government: KeyedTally::new(),
        }
    }
}

/// A side with nothing recorded.
pub open spec fn empty_side() -> SideView {
    SideView {
        wonders: Seq::empty(),
        first_change_round: Seq::empty(),
        never_changed: RateStat { n: 0, hits: 0 },
        war: RateStat { n: 0, hits: 0 },
        aggression: RateStat { n: 0, hits: 0 },
        takes: Seq::empty(),
        build_take: Seq::empty(),
        putbacks: Seq::empty(),
        age1: empty_age(),
        age2: empty_age(),
        age3: empty_age(),
        age4: empty_age(),
        final_government: Seq::empty(),
    }
}

/// A side's counts are within `b`.
pub open spec fn side_ok(t: SideView, b: int) -> bool {
    &&& rate_ok(t.never_changed, b)
    &&& rate_ok(t.war, b)
    &&& rate_ok(t.aggression, b)
    &&& tally_ok(t.final_government, b)
}

/// `t` with seat `s` of the table `seats` recorded.
pub open spec fn side_added(t: SideView, s: PlayerView, seats: Seq<PlayerView>, names: Seq<Seq<char>>) -> SideView {
    let takes = class_count(s.action_counts, ActionClass::TakeCard);
    let k = seats.len() as int;
    SideView {
        wonders: t.wonders.push(s.wonders.len() as u64),
        first_change_round: if s.gov_changes.len() > 0 {
            t.first_change_round.push(s.gov_changes[0].0)
        } else {
            t.first_change_round
        },
        never_changed: rate_added(t.never_changed, s.gov_changes.len() == 0),
        war: rate_added(t.war, class_count(s.action_counts, ActionClass::DeclareWar) > 0),
        aggression: rate_added(t.aggression, class_count(s.action_counts, ActionClass::PlayAggression) > 0),
        takes: t.takes.push(takes as u32),
        build_take: if takes > 0 {
            t.build_take.push((builds_of(s) as u32, takes as u32))
        } else {
            t.build_take
        },
        putbacks: t.putbacks.push(class_count(s.action_counts, ActionClass::PutBack) as u32),
        age1: age_added(t.age1, s, 1, table_culture(seats, 1, k)),
        age2: age_added(t.age2, s, 2, table_culture(seats, 2, k)),
        age3: age_added(t.age3, s, 3, table_culture(seats, 3, k)),
        age4: age_added(t.age4, s, 4, table_culture(seats, 4, k)),
        final_government: recorded(t.final_government, government_name(s, names), 0, ""@),
    }
}

/// Records seat `s` of the table `seats` into side `t`.
fn add_side(t: &mut SideTally, s: &PlayerAgg, seats: &Vec<PlayerAgg>, names: &Vec<String>, Ghost(b): Ghost<int>)
    requires
        old(t).final_government.wf(),
        side_ok(old(t).view(), b),
        0 <= b < u64::MAX,
        seats@.len() <= 4,
        seat_named(s.view(), names@.len() as int),
        builds_of(s.view()) <= u32::MAX,
    ensures
        final(t).final_government.wf(),
        final(t).view() == side_added(old(t).view(), s.view(), seat_views(seats@), name_views(names@)),
        side_ok(final(t).view(), b + 1),
{
    let ghost sv = seat_views(seats@);
    t.wonders.push(s.wonders.len() as u64);
    let nchanges = s.gov_changes.len();
    if nchanges > 0 {
        t.first_change_round.push(s.gov_changes[0].0);
    }
    add_rate(&mut t.never_changed, nchanges == 0, Ghost(b));
    add_rate(&mut t.war, s.count(ActionClass::DeclareWar) > 0, Ghost(b));
    add_rate(&mut t.aggression, s.count(ActionClass::PlayAggression) > 0, Ghost(b));
    let takes = s.count(ActionClass::TakeCard);
    t.takes.push(takes);
    if takes > 0 {
        let builds = s.count(ActionClass::BuildBuilding) as u64 + s.count(ActionClass::BuildUnit) as u64
            + s.count(ActionClass::BuildWonderStage) as u64;
        t.build_take.push((builds as u32, takes));
    }
    t.putbacks.push(s.count(ActionClass::PutBack));
    let t1 = table_culture_of(seats, 1);
    add_age(&mut t.age1, s, 1, t1);
    let t2 = table_culture_of(seats, 2);
    add_age(&mut t.age2, s, 2, t2);
    let t3 = table_culture_of(seats, 3);
    add_age(&mut t.age3, s, 3, t3);
    let t4 = table_culture_of(seats, 4);
    add_age(&mut t.age4, s, 4, t4);
    let gov: &str = if nchanges == 0 {
        "Despotism (never changed)"
    } else {
        let id = s.gov_changes[nchanges - 1].2 as usize;
        assert(s.view().gov_changes[nchanges - 1].2 < names@.len());
        names[id].as_str()
    };
    proof {
        assert(gov@ == government_name(s.view(), name_views(names@)));
        lemma_tally_ok_recorded(t.final_government@, gov@, 0, ""@, b);
        assert forall|i: int|
            0 <= i < t.final_government@.len() && t.final_government@[i].key == gov@ implies t.final_government@[i].count
            < u64::MAX && t.final_government@[i].sum + 0 <= u64::MAX by {
            assert(0 <= t.final_government@[i].sum <= t.final_government@[i].count <= b);
        }
    }
    t.final_government.record(gov, 0, "");
}

// ---------------------------------------------------------------------
// Comebacks: seats behind on culture at the end of Age II
// ---------------------------------------------------------------------

/// How many of the first `k` wonders were completed in Age III.
pub open spec fn wonders_in_age3(ws: Seq<(Age, u16)>, k: int) -> int
    decreases k,
{
    if k <= 0 {
        0
    } else {
        wonders_in_age3(ws, k - 1) + if ws[k - 1].0 == Age::III {
            1int
        } else {
            0int
        }
    }
}

/// How many of the first `k` war declarations were made in Age III.
pub open spec fn wars_in_age3(ws: Seq<(Age, Color)>, k: int) -> int
    decreases k,
{
    if k <= 0 {
        0
    } else {
        wars_in_age3(ws, k - 1) + if ws[k - 1].0 == Age::III {
            1int
        } else {
            0int
        }
    }
}

/// Whether the seat changed government in a round after `round`.
pub open spec fn changed_after(s: PlayerView, round: u32) -> bool {
    exists|k: int| 0 <= k < s.gov_changes.len() && (#[trigger] s.gov_changes[k]).0 > round
}

/// Whether the seat was behind on culture at the end of Age II: it has a
/// culture rank there, and not the first.
pub open spec fn behind_at_age2(s: PlayerView) -> bool {
    s.age_culture_rank[2] is Some && s.age_culture_rank[2]->0 != 1
}

/// The seats behind at the end of Age II that went on to win, or that did
/// not: culture and round at the ends of Ages II and III (for the change in
/// culture per round), wonders completed and wars declared in Age III, and
/// whether the seat changed government after Age II.
pub struct ComebackTally {
    pub rate_change: Vec<(i32, u32, i32, u32)>,
    pub wonders_age3: Vec<u64>,
    pub wars_age3: Vec<u64>,
    pub government_after: RateStat,
}

/// A comeback tally as plain values.
pub struct ComebackView {
    pub rate_change: Seq<(i32, u32, i32, u32)>,
    pub wonders_age3: Seq<u64>,
    pub wars_age3: Seq<u64>,
    pub government_after: RateStat,
}

impl ComebackTally {
    /// The tally as plain values.
    pub open spec fn view(&self) -> ComebackView {
        ComebackView {
            rate_change: self.rate_change@,
            wonders_age3: self.wonders_age3@,
            wars_age3: self.wars_age3@,
            government_after: self.government_after,
        }
    }

    /// Nothing recorded.
    pub fn new() -> (t: ComebackTally)
        ensures
            t.view() == empty_comeback(),
    {
        let t = ComebackTally {
            rate_change: Vec::new(),
            wonders_age3: Vec::new(),
            wars_age3: Vec::new(),
            government_after: RateStat { n: 0, hits: 0 },
        };
        assert(t.view() =~= empty_comeback());
        t
    }
}

/// A comeback tally with nothing recorded.
pub open spec fn empty_comeback() -> ComebackView {
    ComebackView {
        rate_change: Seq::empty(),
        wonders_age3: Seq::empty(),
        wars_age3: Seq::empty(),
        government_after: RateStat { n: 0, hits: 0 },
    }
}

/// `t` with seat `s` recorded. The culture pair is kept only when the Age
/// II round is past zero and the Age III round after it.
pub open spec fn comeback_added(t: ComebackView, s: PlayerView) -> ComebackView {
    let c2 = s.age_culture[2];
    let r2 = s.age_round[2];
    let c3 = s.age_culture[3];
    let r3 = s.age_round[3];
    ComebackView {
        rate_change: if c2 is Some && r2 is Some && c3 is Some && r3 is Some && r2->0 > 0 && r3->0 > r2->0 {
            t.rate_change.push((c2->0, r2->0, c3->0, r3->0))
        } else {
            t.rate_change
        },
        wonders_age3: t.wonders_age3.push(wonders_in_age3(s.wonders, s.wonders.len() as int) as u64),
        wars_age3: t.wars_age3.push(wars_in_age3(s.war_declares, s.war_declares.len() as int) as u64),
        government_after: rate_added(t.government_after, r2 is Some && changed_after(s, r2->0)),
    }
}

/// Records seat `s` into `t`.
fn add_comeback(t: &mut ComebackTally, s: &PlayerAgg, Ghost(b): Ghost<int>)
    requires
        rate_ok(old(t).government_after, b),
        0 <= b < u64::MAX,
    ensures
        final(t).view() == comeback_added(old(t).view(), s.view()),
        rate_ok(final(t).government_after, b + 1),
{
    let ghost sv = s.view();
    match (s.age_culture[2], s.age_round[2], s.age_culture[3], s.age_round[3]) {
        (Some(c2), Some(r2), Some(c3), Some(r3)) => {
            if r2 > 0 && r3 > r2 {
                t.rate_change.push((c2, r2, c3, r3));
            }
        },
        _ => {},
    }
    let mut nw: u64 = 0;
    let mut k: usize = 0;
    while k < s.wonders.len()
        invariant
            sv == s.view(),
            k <= sv.wonders.len(),
            nw as int == wonders_in_age3(sv.wonders, k as int),
            nw <= k,
        decreases sv.wonders.len() - k,
    {
        if s.wonders[k].0 == Age::III {
            nw = nw + 1;
        }
        k = k + 1;
    }
    t.wonders_age3.push(nw);
    let mut nwar: u64 = 0;
    let mut k: usize = 0;
    while k < s.war_declares.len()
        invariant
            sv == s.view(),
            k <= sv.war_declares.len(),
            nwar as int == wars_in_age3(sv.war_declares, k as int),
            nwar <= k,
        decreases sv.war_declares.len() - k,
    {
        if s.war_declares[k].0 == Age::III {
            nwar = nwar + 1;
        }
        k = k + 1;
    }
    t.wars_age3.push(nwar);
    let after = match s.age_round[2] {
        Some(r2) => {
            let mut found = false;
            let mut k: usize = 0;
            while k < s.gov_changes.len()
                invariant
                    sv == s.view(),
                    k <= sv.gov_changes.len(),
                    found <==> exists|q: int| 0 <= q < k && (#[trigger] sv.gov_changes[q]).0 > r2,
                decreases sv.gov_changes.len() - k,
            {
                if s.gov_changes[k].0 > r2 {
                    found = true;
                }
                k = k + 1;
            }
            found
        },
        None => false,
    };
    add_rate(&mut t.government_after, after, Ghost(b));
}

// ---------------------------------------------------------------------
// All seats and games of one player count
// ---------------------------------------------------------------------

proof fn lemma_tally_ok_mono(e: Seq<EntryView>, b1: int, b2: int)
    requires
        tally_ok(e, b1),
        b1 <= b2,
    ensures
        tally_ok(e, b2),
{
    assert forall|i: int| 0 <= i < e.len() implies 0 <= #[trigger] e[i].sum <= e[i].count <= b2 by {
        assert(0 <= e[i].sum <= e[i].count <= b1);
    }
}

/// The winner-versus-loser tallies of one player count: the games whose
/// winner line was read; the winners' and the losers' sides; per wonder
/// name, the ranked seats that completed it and how many of them won, and
/// the same per leader name; how often the strength scoring's leader and
/// its last place won; how often a seat that declared a war or played an
/// aggression won, and a seat that was the target of one; how often a seat
/// behind on culture at the end of Age II won; and those comebacks' details
/// for the seats that went on to win and those that did not.
pub struct WinnerLoserTallies {
    pub games: u64,
    pub winners: SideTally,
    pub losers: SideTally,
    pub wonder_wins: KeyedTally,
    pub leader_wins: KeyedTally,
    pub strength_leader_wins: RateStat,
    pub strength_last_wins: RateStat,
    pub aggressor_wins: RateStat,
    pub target_wins: RateStat,
    pub behind_wins: RateStat,
    pub comeback_won: ComebackTally,
    pub comeback_stayed: ComebackTally,
}

/// The tallies as plain values.
pub struct TalliesView {
    pub games: int,
    pub winners: SideView,
    pub losers: SideView,
    pub wonder_wins: Seq<EntryView>,
    pub leader_wins: Seq<EntryView>,
    pub strength_leader_wins: RateStat,
    pub strength_last_wins: RateStat,
    pub aggressor_wins: RateStat,
    pub target_wins: RateStat,
    pub behind_wins: RateStat,
    pub comeback_won: ComebackView,
    pub comeback_stayed: ComebackView,
}

impl WinnerLoserTallies {
    /// The tallies as plain values.
    pub open spec fn view(&self) -> TalliesView {
        TalliesView {
            games: self.games as int,
            winners: self.winners.view(),
            losers: self.losers.view(),
            wonder_wins: self.wonder_wins@,
            leader_wins: self.leader_wins@,
            strength_leader_wins: self.strength_leader_wins,
            strength_last_wins: self.strength_last_wins,
            aggressor_wins: self.aggressor_wins,
            target_wins: self.target_wins,
            behind_wins: self.behind_wins,
            comeback_won: self.comeback_won.view(),
            comeback_stayed: self.comeback_stayed.view(),
        }
    }

    /// The name tallies are well formed.
    pub open spec fn wf(&self) -> bool {
        &&& self.winners.final_government.wf()
        &&& self.losers.final_government.wf()
        &&& self.wonder_wins.wf()
        &&& self.leader_wins.wf()
    }

    /// Nothing recorded.
    pub fn new() -> (t: WinnerLoserTallies)
        ensures
            t.wf(),
            t.view() == empty_tallies(),
    {
        WinnerLoserTallies {
            games: 0,
            winners: SideTally::new(),
            losers: SideTally::new(),
            wonder_wins: KeyedTally::new(),
            leader_wins: KeyedTally::new(),
            strength_leader_wins: RateStat { n: 0, hits: 0 },
            strength_last_wins: RateStat { n: 0, hits: 0 },
            aggressor_wins: RateStat { n: 0, hits: 0 },
            target_wins: RateStat { n: 0, hits: 0 },
            behind_wins: RateStat { n: 0, hits: 0 },
            comeback_won: ComebackTally::new(),
            comeback_stayed: ComebackTally::new(),
        }
    }
}

/// The tallies with nothing recorded.
pub open spec fn empty_tallies() -> TalliesView {
    TalliesView {
        games: 0,
        winners: empty_side(),
        losers: empty_side(),
        wonder_wins: Seq::empty(),
        leader_wins: Seq::empty(),
        strength_leader_wins: RateStat { n: 0, hits: 0 },
        strength_last_wins: RateStat { n: 0, hits: 0 },
        aggressor_wins: RateStat { n: 0, hits: 0 },
        target_wins: RateStat { n: 0, hits: 0 },
        behind_wins: RateStat { n: 0, hits: 0 },
        comeback_won: empty_comeback(),
        comeback_stayed: empty_comeback(),
    }
}

/// Every count of the tallies is within `b`.
pub open spec fn tallies_ok(t: TalliesView, b: int) -> bool {
    &&& 0 <= t.games <= b
    &&& side_ok(t.winners, b)
    &&& side_ok(t.losers, b)
    &&& tally_ok(t.wonder_wins, b)
    &&& tally_ok(t.leader_wins, b)
    &&& rate_ok(t.strength_leader_wins, b)
    &&& rate_ok(t.strength_last_wins, b)
    &&& rate_ok(t.aggressor_wins, b)
    &&& rate_ok(t.target_wins, b)
    &&& rate_ok(t.behind_wins, b)
    &&& rate_ok(t.comeback_won.government_after, b)
    &&& rate_ok(t.comeback_stayed.government_after, b)
}

proof fn lemma_tallies_ok_mono(t: TalliesView, b1: int, b2: int)
    requires
        tallies_ok(t, b1),
        b1 <= b2,
    ensures
        tallies_ok(t, b2),
{
    lemma_tally_ok_mono(t.winners.final_government, b1, b2);
    lemma_tally_ok_mono(t.losers.final_government, b1, b2);
    lemma_tally_ok_mono(t.wonder_wins, b1, b2);
    lemma_tally_ok_mono(t.leader_wins, b1, b2);
}

/// The cards of a seat's completed wonders.
pub open spec fn wonder_ids(s: PlayerView) -> Seq<u16> {
    s.wonders.map_values(|w: (Age, u16)| w.1)
}

/// How much room one seat's record can take from the tallies' counts: one
/// per seat, plus one per wonder and per leader it names.
pub open spec fn seat_weight(s: PlayerView) -> int {
    (1 + s.wonders.len() + s.leaders.len()) as int
}

/// `t` with seat `s` of the table `seats` recorded: a winner (rank 1) into
/// the winners' side and a loser (a later rank) into the losers'; a ranked
/// seat's distinct wonders and leaders into their name tallies, with a hit
/// when it won; and a ranked seat behind on culture at the end of Age II
/// into the comeback tallies.
pub open spec fn seat_added(t: TalliesView, s: PlayerView, seats: Seq<PlayerView>, names: Seq<Seq<char>>) -> TalliesView {
    let won = s.rank == 1;
    let amount: int = if won {
        1
    } else {
        0
    };
    let ranked = s.rank > 0;
    let behind = ranked && behind_at_age2(s);
    TalliesView {
        winners: if won {
            side_added(t.winners, s, seats, names)
        } else {
            t.winners
        },
        losers: if s.rank > 1 {
            side_added(t.losers, s, seats, names)
        } else {
            t.losers
        },
        wonder_wins: if ranked {
            names_recorded(t.wonder_wins, wonder_ids(s), names, amount, s.wonders.len() as int)
        } else {
            t.wonder_wins
        },
        leader_wins: if ranked {
            names_recorded(t.leader_wins, s.leaders, names, amount, s.leaders.len() as int)
        } else {
            t.leader_wins
        },
        behind_wins: if behind {
            rate_added(t.behind_wins, won)
        } else {
            t.behind_wins
        },
        comeback_won: if behind && won {
            comeback_added(t.comeback_won, s)
        } else {
            t.comeback_won
        },
        comeback_stayed: if behind && !won {
            comeback_added(t.comeback_stayed, s)
        } else {
            t.comeback_stayed
        },
        ..t
    }
}

/// The cards of a seat's completed wonders.
fn wonder_ids_of(s: &PlayerAgg) -> (ids: Vec<u16>)
    ensures
        ids@ == wonder_ids(s.view()),
{
    let mut ids: Vec<u16> = Vec::new();
    let mut k: usize = 0;
    while k < s.wonders.len()
        invariant
            k <= s.wonders@.len(),
            ids@ == s.wonders@.take(k as int).map_values(|w: (Age, u16)| w.1),
        decreases s.wonders@.len() - k,
    {
        ids.push(s.wonders[k].1);
        assert(s.wonders@.take(k + 1).map_values(|w: (Age, u16)| w.1) =~= s.wonders@.take(k as int).map_values(
            |w: (Age, u16)| w.1,
        ).push(s.wonders@[k as int].1));
        k = k + 1;
    }
    assert(s.wonders@.take(s.wonders@.len() as int) =~= s.wonders@);
    ids
}

/// Records seat `s` of the table `seats`.
fn add_seat(t: &mut WinnerLoserTallies, s: &PlayerAgg, seats: &Vec<PlayerAgg>, names: &Vec<String>, Ghost(b): Ghost<int>)
    requires
        old(t).wf(),
        tallies_ok(old(t).view(), b),
        b >= 0,
        b + seat_weight(s.view()) < u64::MAX,
        seats@.len() <= 4,
        seat_named(s.view(), names@.len() as int),
        builds_of(s.view()) <= u32::MAX,
    ensures
        final(t).wf(),
        final(t).view() == seat_added(old(t).view(), s.view(), seat_views(seats@), name_views(names@)),
        tallies_ok(final(t).view(), b + seat_weight(s.view())),
{
    let ghost sv = s.view();
    let ghost bw = b + seat_weight(sv);
    let won = s.rank == 1;
    if won {
        add_side(&mut t.winners, s, seats, names, Ghost(b));
        proof {
            lemma_tally_ok_mono(t.winners.final_government@, b + 1, bw);
        }
    } else if s.rank > 1 {
        add_side(&mut t.losers, s, seats, names, Ghost(b));
        proof {
            lemma_tally_ok_mono(t.losers.final_government@, b + 1, bw);
        }
    }
    proof {
        if !won {
            lemma_tally_ok_mono(t.winners.final_government@, b, bw);
        }
        if !(s.rank > 1) {
            lemma_tally_ok_mono(t.losers.final_government@, b, bw);
        }
    }
    if s.rank > 0 {
        let ids = wonder_ids_of(s);
        assert(ids_named(ids@, names@.len() as int)) by {
            assert forall|k: int| 0 <= k < ids@.len() implies (#[trigger] ids@[k] as int) < names@.len() by {
                assert(sv.wonders[k].1 < names@.len());
            }
        }
        record_names(&mut t.wonder_wins, &ids, names, won, Ghost(b));
        assert(ids_named(s.leaders@, names@.len() as int)) by {
            assert forall|k: int| 0 <= k < s.leaders@.len() implies (#[trigger] s.leaders@[k] as int) < names@.len() by {
                assert(sv.leaders[k] < names@.len());
            }
        }
        record_names(&mut t.leader_wins, &s.leaders, names, won, Ghost(b));
        proof {
            lemma_tally_ok_mono(t.wonder_wins@, b + ids@.len(), bw);
            lemma_tally_ok_mono(t.leader_wins@, b + s.leaders@.len(), bw);
        }
        let behind = match s.age_culture_rank[2] {
            Some(r) => r != 1,
            None => false,
        };
        if behind {
            add_rate(&mut t.behind_wins, won, Ghost(b));
            if won {
                add_comeback(&mut t.comeback_won, s, Ghost(b));
            } else {
                add_comeback(&mut t.comeback_stayed, s, Ghost(b));
            }
        }
    }
    proof {
        if s.rank == 0 {
            lemma_tally_ok_mono(t.wonder_wins@, b, bw);
            lemma_tally_ok_mono(t.leader_wins@, b, bw);
        }
    }
}

// ---------------------------------------------------------------------
// Game-level tallies
// ---------------------------------------------------------------------

/// Every seat got a score line from the strength scoring.
pub open spec fn all_scored(seats: Seq<PlayerView>) -> bool {
    forall|i: int| 0 <= i < seats.len() ==> (#[trigger] seats[i]).strength_score is Some
}

/// What the strength scoring gave seat `i`.
pub open spec fn strength_of(seats: Seq<PlayerView>, i: int) -> int {
    seats[i].strength_score->0 as int
}

/// Among the first `k` seats, the first one with the highest strength
/// score: the head of the seats sorted by score, highest first, ties in
/// seat order.
pub open spec fn strength_leader(seats: Seq<PlayerView>, k: int) -> int
    decreases k,
{
    if k <= 1 {
        0
    } else {
        let best = strength_leader(seats, k - 1);
        if strength_of(seats, k - 1) > strength_of(seats, best) {
            k - 1
        } else {
            best
        }
    }
}

/// Among the first `k` seats, the last one with the lowest strength score:
/// the tail of the seats sorted by score, highest first, ties in seat
/// order.
pub open spec fn strength_last(seats: Seq<PlayerView>, k: int) -> int
    decreases k,
{
    if k <= 1 {
        0
    } else {
        let worst = strength_last(seats, k - 1);
        if strength_of(seats, k - 1) <= strength_of(seats, worst) {
            k - 1
        } else {
            worst
        }
    }
}

/// The seat declared at least one war or played at least one aggression.
pub open spec fn is_aggressor(s: PlayerView) -> bool {
    s.war_declares.len() > 0 || s.aggression_plays.len() > 0
}

/// `r` with a chance for each aggressor among the first `k` seats, a hit
/// when it won.
pub open spec fn aggressors_added(r: RateStat, seats: Seq<PlayerView>, k: int) -> RateStat
    decreases k,
{
    if k <= 0 {
        r
    } else {
        let prev = aggressors_added(r, seats, k - 1);
        if is_aggressor(seats[k - 1]) {
            rate_added(prev, seats[k - 1].rank == 1)
        } else {
            prev
        }
    }
}

/// Some seat declared war on, or played an aggression against, colour `c`.
pub open spec fn is_target(seats: Seq<PlayerView>, c: Color) -> bool {
    ||| exists|i: int, k: int|
        0 <= i < seats.len() && 0 <= k < seats[i].war_declares.len() && (#[trigger] seats[i].war_declares[k]).1 == c
    ||| exists|i: int, k: int|
        0 <= i < seats.len() && 0 <= k < seats[i].aggression_plays.len() && (#[trigger] seats[i].aggression_plays[k]).1
            == c
}

/// `r` with a chance for colour `c` if it was a target and sits at the
/// table with a placing, a hit when it won.
pub open spec fn target_added(r: RateStat, seats: Seq<PlayerView>, c: Color) -> RateStat {
    if is_target(seats, c) && seat_of(c) < seats.len() && seats[seat_of(c)].rank > 0 {
        rate_added(r, seats[seat_of(c)].rank == 1)
    } else {
        r
    }
}

/// `r` with a chance for each colour that was a target.
pub open spec fn targets_added(r: RateStat, seats: Seq<PlayerView>) -> RateStat {
    target_added(
        target_added(target_added(target_added(r, seats, Color::Orange), seats, Color::Purple), seats, Color::Green),
        seats,
        Color::Grey,
    )
}

/// `t` with the game-level facts of game `g`, once its winner line was
/// read: one more game; when the strength scoring scored every seat,
/// whether its leader won and whether its last place won; each aggressor's
/// outcome; and each target's outcome.
pub open spec fn game_level_added(t: TalliesView, g: GameView) -> TalliesView {
    let seats = g.seats;
    let k = seats.len() as int;
    if !g.winner_parsed {
        t
    } else {
        let scored = g.has_strength_line && k > 0 && all_scored(seats);
        TalliesView {
            games: t.games + 1,
            strength_leader_wins: if scored {
                rate_added(t.strength_leader_wins, seats[strength_leader(seats, k)].rank == 1)
            } else {
                t.strength_leader_wins
            },
            strength_last_wins: if scored {
                rate_added(t.strength_last_wins, seats[strength_last(seats, k)].rank == 1)
            } else {
                t.strength_last_wins
            },
            aggressor_wins: aggressors_added(t.aggressor_wins, seats, k),
            target_wins: targets_added(t.target_wins, seats),
            ..t
        }
    }
}

proof fn lemma_strength_picks_in_range(seats: Seq<PlayerView>, k: int)
    requires
        1 <= k <= seats.len(),
    ensures
        0 <= strength_leader(seats, k) < k,
        0 <= strength_last(seats, k) < k,
    decreases k,
{
    if k > 1 {
        lemma_strength_picks_in_range(seats, k - 1);
    }
}

/// Whether some seat declared war on, or played an aggression against,
/// colour `c`.
#[verifier::loop_isolation(false)]
fn targeted(seats: &Vec<PlayerAgg>, c: Color) -> (r: bool)
    ensures
        r == is_target(seat_views(seats@), c),
{
    let ghost sv = seat_views(seats@);
    let mut i: usize = 0;
    while i < seats.len()
        invariant
            sv == seat_views(seats@),
            i <= seats@.len(),
            forall|q: int, k: int|
                0 <= q < i && 0 <= k < sv[q].war_declares.len() ==> (#[trigger] sv[q].war_declares[k]).1 != c,
            forall|q: int, k: int|
                0 <= q < i && 0 <= k < sv[q].aggression_plays.len() ==> (#[trigger] sv[q].aggression_plays[k]).1 != c,
        decreases seats@.len() - i,
    {
        let s = &seats[i];
        assert(sv[i as int] == s.view());
        let mut k: usize = 0;
        while k < s.war_declares.len()
            invariant
                k <= s.war_declares@.len(),
                forall|q: int| 0 <= q < k ==> (#[trigger] s.war_declares@[q]).1 != c,
            decreases s.war_declares@.len() - k,
        {
            if s.war_declares[k].1 == c {
                assert(sv[i as int].war_declares[k as int].1 == c);
                assert(is_target(sv, c));
                return true;
            }
            k = k + 1;
        }
        let mut k: usize = 0;
        while k < s.aggression_plays.len()
            invariant
                k <= s.aggression_plays@.len(),
                forall|q: int| 0 <= q < k ==> (#[trigger] s.aggression_plays@[q]).1 != c,
            decreases s.aggression_plays@.len() - k,
        {
            if s.aggression_plays[k].1 == c {
                assert(sv[i as int].aggression_plays[k as int].1 == c);
                assert(is_target(sv, c));
                return true;
            }
            k = k + 1;
        }
        assert forall|q: int, k: int|
            0 <= q < i + 1 && 0 <= k < sv[q].war_declares.len() implies (#[trigger] sv[q].war_declares[k]).1 != c by {
            if q == i {
                assert(s.war_declares@[k] == sv[q].war_declares[k]);
            }
        }
        assert forall|q: int, k: int|
            0 <= q < i + 1 && 0 <= k < sv[q].aggression_plays.len() implies (#[trigger] sv[q].aggression_plays[k]).1
                != c by {
            if q == i {
                assert(s.aggression_plays@[k] == sv[q].aggression_plays[k]);
            }
        }
        i = i + 1;
    }
    false
}

/// The seat of a colour.
fn seat_number(c: Color) -> (i: usize)
    ensures
        i == seat_of(c),
{
    match c {
        Color::Orange => 0,
        Color::Purple => 1,
        Color::Green => 2,
        Color::Grey => 3,
    }
}

/// Records colour `c`'s outcome if it was a target.
fn add_target(r: &mut RateStat, seats: &Vec<PlayerAgg>, c: Color, Ghost(b): Ghost<int>)
    requires
        rate_ok(*old(r), b),
        0 <= b < u64::MAX,
    ensures
        *final(r) == target_added(*old(r), seat_views(seats@), c),
        rate_ok(*final(r), b + 1),
{
    let i = seat_number(c);
    if targeted(seats, c) && i < seats.len() && seats[i].rank > 0 {
        assert(seat_views(seats@)[i as int] == seats@[i as int].view());
        add_rate(r, seats[i].rank == 1, Ghost(b));
    }
}

/// Records the game-level facts of game `g`.
fn add_game_level(t: &mut WinnerLoserTallies, g: &GameAgg, Ghost(b): Ghost<int>)
    requires
        old(t).wf(),
        g.wf(),
        tallies_ok(old(t).view(), b),
        0 <= b,
        b + 4 < u64::MAX,
    ensures
        final(t).wf(),
        final(t).view() == game_level_added(old(t).view(), g.view()),
        tallies_ok(final(t).view(), b + 4),
{
    let ghost t0 = t.view();
    let ghost sv = seat_views(g.seats@);
    let n = g.seats.len();
    if !g.winner_parsed {
        proof {
            lemma_tallies_ok_mono(t.view(), b, b + 4);
        }
        return;
    }
    t.games = t.games + 1;
    if g.has_strength_line && n > 0 {
        let mut all = true;
        let mut i: usize = 0;
        while i < n
            invariant
                n == g.seats@.len(),
                sv == seat_views(g.seats@),
                i <= n,
                all <==> forall|q: int| 0 <= q < i ==> (#[trigger] sv[q]).strength_score is Some,
            decreases n - i,
        {
            assert(sv[i as int] == g.seats@[i as int].view());
            if g.seats[i].strength_score.is_none() {
                all = false;
            }
            i = i + 1;
        }
        assert(all == all_scored(sv));
        if all {
            let mut best: usize = 0;
            let mut worst: usize = 0;
            let mut i: usize = 1;
            while i < n
                invariant
                    n == g.seats@.len(),
                    sv == seat_views(g.seats@),
                    1 <= i <= n,
                    all_scored(sv),
                    best as int == strength_leader(sv, i as int),
                    worst as int == strength_last(sv, i as int),
                    best < i,
                    worst < i,
                decreases n - i,
            {
                assert(sv[i as int] == g.seats@[i as int].view());
                assert(sv[best as int] == g.seats@[best as int].view());
                assert(sv[worst as int] == g.seats@[worst as int].view());
                assert(sv[i as int].strength_score is Some);
                assert(sv[best as int].strength_score is Some);
                assert(sv[worst as int].strength_score is Some);
                let si = match g.seats[i].strength_score {
                    Some(v) => v,
                    None => 0,
                };
                let sb = match g.seats[best].strength_score {
                    Some(v) => v,
                    None => 0,
                };
                let sw = match g.seats[worst].strength_score {
                    Some(v) => v,
                    None => 0,
                };
                if si > sb {
                    best = i;
                }
                if si <= sw {
                    worst = i;
                }
                i = i + 1;
            }
            assert(sv[best as int] == g.seats@[best as int].view());
            assert(sv[worst as int] == g.seats@[worst as int].view());
            add_rate(&mut t.strength_leader_wins, g.seats[best].rank == 1, Ghost(b));
            add_rate(&mut t.strength_last_wins, g.seats[worst].rank == 1, Ghost(b));
        }
    }
    let ghost t1 = t.view();
    let mut i: usize = 0;
    while i < n
        invariant
            n == g.seats@.len(),
            n <= 4,
            sv == seat_views(g.seats@),
            i <= n,
            t.wf(),
            t.view() == (TalliesView { aggressor_wins: t.aggressor_wins, ..t1 }),
            t1.aggressor_wins == t0.aggressor_wins,
            t.aggressor_wins == aggressors_added(t0.aggressor_wins, sv, i as int),
            rate_ok(t.aggressor_wins, b + i),
            b + 4 < u64::MAX,
        decreases n - i,
    {
        let s = &g.seats[i];
        assert(sv[i as int] == s.view());
        if s.war_declares.len() > 0 || s.aggression_plays.len() > 0 {
            add_rate(&mut t.aggressor_wins, s.rank == 1, Ghost(b + i));
        }
        i = i + 1;
    }
    add_target(&mut t.target_wins, &g.seats, Color::Orange, Ghost(b));
    add_target(&mut t.target_wins, &g.seats, Color::Purple, Ghost(b + 1));
    add_target(&mut t.target_wins, &g.seats, Color::Green, Ghost(b + 2));
    add_target(&mut t.target_wins, &g.seats, Color::Grey, Ghost(b + 3));
    proof {
        lemma_tallies_ok_mono(t0, b, b + 4);
        assert(t.view() =~= game_level_added(t0, g.view()));
    }
}

// ---------------------------------------------------------------------
// The whole player count
// ---------------------------------------------------------------------

/// `t` with the first `k` seats of the table `seats` recorded, in seat
/// order.
pub open spec fn seats_added(t: TalliesView, seats: Seq<PlayerView>, names: Seq<Seq<char>>, k: int) -> TalliesView
    decreases k,
{
    if k <= 0 {
        t
    } else {
        seat_added(seats_added(t, seats, names, k - 1), seats[k - 1], seats, names)
    }
}

/// `t` with game `g` recorded when it has `players` players: its seats,
/// then its game-level facts.
pub open spec fn game_added(t: TalliesView, g: GameView, players: int, names: Seq<Seq<char>>) -> TalliesView {
    if g.players != players {
        t
    } else {
        game_level_added(seats_added(t, g.seats, names, g.seats.len() as int), g)
    }
}

/// The tallies of the games `gs` at `players` players, read in order.
pub open spec fn winner_loser_spec(gs: Seq<GameView>, players: int, names: Seq<Seq<char>>) -> TalliesView
    decreases gs.len(),
{
    if gs.len() == 0 {
        empty_tallies()
    } else {
        game_added(winner_loser_spec(gs.drop_last(), players, names), gs.last(), players, names)
    }
}

/// The games as plain values.
pub open spec fn game_views(gs: Seq<GameAgg>) -> Seq<GameView> {
    gs.map_values(|g: GameAgg| g.view())
}

/// The room a table's seats take from the tallies' counts.
pub open spec fn seats_weight(seats: Seq<PlayerView>) -> int
    decreases seats.len(),
{
    if seats.len() == 0 {
        0
    } else {
        seats_weight(seats.drop_last()) + seat_weight(seats.last())
    }
}

/// The room the games take from the tallies' counts: each game's seats,
/// and four for what the game adds at its own level.
pub open spec fn games_weight(gs: Seq<GameView>) -> int
    decreases gs.len(),
{
    if gs.len() == 0 {
        0
    } else {
        games_weight(gs.drop_last()) + 4 + seats_weight(gs.last().seats)
    }
}

proof fn lemma_seats_weight_prefix(seats: Seq<PlayerView>, j: int)
    requires
        0 <= j <= seats.len(),
    ensures
        0 <= seats_weight(seats.take(j)) <= seats_weight(seats),
    decreases seats.len(),
{
    if j < seats.len() {
        assert(seats.drop_last().take(j) =~= seats.take(j));
        lemma_seats_weight_prefix(seats.drop_last(), j);
    } else {
        assert(seats.take(j) =~= seats);
        if seats.len() > 0 {
            lemma_seats_weight_prefix(seats.drop_last(), 0);
        }
    }
}

proof fn lemma_games_weight_prefix(gs: Seq<GameView>, i: int)
    requires
        0 <= i <= gs.len(),
    ensures
        0 <= games_weight(gs.take(i)) <= games_weight(gs),
    decreases gs.len(),
{
    if i < gs.len() {
        assert(gs.drop_last().take(i) =~= gs.take(i));
        lemma_games_weight_prefix(gs.drop_last(), i);
        lemma_seats_weight_prefix(gs.last().seats, 0);
    } else {
        assert(gs.take(i) =~= gs);
        if gs.len() > 0 {
            lemma_games_weight_prefix(gs.drop_last(), 0);
            lemma_seats_weight_prefix(gs.last().seats, 0);
        }
    }
}

/// What every game at this player count must offer: each card it names has
/// a name, and no seat's builds overflow `u32`.
pub open spec fn games_readable(gs: Seq<GameView>, players: int, n: int) -> bool {
    forall|i: int, s: int|
        0 <= i < gs.len() && gs[i].players == players && 0 <= s < gs[i].seats.len() ==> {
            &&& seat_named(#[trigger] gs[i].seats[s], n)
            &&& builds_of(gs[i].seats[s]) <= u32::MAX
        }
}

/// The winner-versus-loser tallies of the games with `players` players,
/// read in order, `names` giving each card id's name. A player count of at
/// least one, as every table has a seat; the counts must fit in `u64`.
/// Every rate's hits are among its chances, and every name's wins among
/// its seats.
pub fn winner_loser_tallies(games: &Vec<GameAgg>, players: u8, names: &Vec<String>) -> (t: WinnerLoserTallies)
    requires
        players >= 1,
        forall|i: int| 0 <= i < games@.len() ==> (#[trigger] games@[i]).wf(),
        games_readable(game_views(games@), players as int, names@.len() as int),
        games_weight(game_views(games@)) < u64::MAX,
    ensures
        t.wf(),
        t.view() == winner_loser_spec(game_views(games@), players as int, name_views(names@)),
        tallies_ok(t.view(), games_weight(game_views(games@))),
{
    let ghost gv = game_views(games@);
    let ghost nv = name_views(names@);
    let mut t = WinnerLoserTallies::new();
    let mut i: usize = 0;
    while i < games.len()
        invariant
            gv == game_views(games@),
            gv.len() == games@.len(),
            nv == name_views(names@),
            players >= 1,
            forall|q: int| 0 <= q < games@.len() ==> (#[trigger] games@[q]).wf(),
            games_readable(gv, players as int, names@.len() as int),
            games_weight(gv) < u64::MAX,
            i <= games@.len(),
            t.wf(),
            t.view() == winner_loser_spec(gv.take(i as int), players as int, nv),
            tallies_ok(t.view(), games_weight(gv.take(i as int))),
        decreases games@.len() - i,
    {
        let g = &games[i];
        let ghost before = t.view();
        let ghost b0 = games_weight(gv.take(i as int));
        let ghost seats = seat_views(g.seats@);
        proof {
            assert(gv[i as int] == g.view());
            assert(gv.take(i + 1).drop_last() =~= gv.take(i as int));
            assert(gv.take(i + 1).last() == gv[i as int]);
            lemma_games_weight_prefix(gv, i + 1);
            lemma_seats_weight_prefix(seats, 0);
        }
        if g.players == players {
            let n = g.seats.len();
            let mut j: usize = 0;
            while j < n
                invariant
                    n == g.seats@.len(),
                    n <= 4,
                    g.players == players,
                    seats == seat_views(g.seats@),
                    gv[i as int] == g.view(),
                    i < games@.len(),
                    gv.len() == games@.len(),
                    j <= n,
                    games_readable(gv, players as int, names@.len() as int),
                    nv == name_views(names@),
                    b0 + 4 + seats_weight(seats) < u64::MAX,
                    b0 >= 0,
                    t.wf(),
                    t.view() == seats_added(before, seats, nv, j as int),
                    tallies_ok(t.view(), b0 + seats_weight(seats.take(j as int))),
                decreases n - j,
            {
                proof {
                    assert(seats[j as int] == g.seats@[j as int].view());
                    assert(gv[i as int].seats == seats);
                    assert(gv[i as int].players == players as int);
                    assert(seat_named(gv[i as int].seats[j as int], names@.len() as int));
                    assert(builds_of(gv[i as int].seats[j as int]) <= u32::MAX);
                    assert(seats.take(j + 1).drop_last() =~= seats.take(j as int));
                    assert(seats.take(j + 1).last() == seats[j as int]);
                    lemma_seats_weight_prefix(seats, j + 1);
                    lemma_seats_weight_prefix(seats, j as int);
                }
                add_seat(&mut t, &g.seats[j], &g.seats, names, Ghost(b0 + seats_weight(seats.take(j as int))));
                j = j + 1;
            }
            proof {
                assert(seats.take(n as int) =~= seats);
            }
            add_game_level(&mut t, g, Ghost(b0 + seats_weight(seats)));
        } else {
            proof {
                lemma_tallies_ok_mono(t.view(), b0, b0 + 4 + seats_weight(seats));
            }
        }
        i = i + 1;
    }
    proof {
        assert(gv.take(games@.len() as int) =~= gv);
    }
    t
}

/// How many of the first `k` seats have a placing.
pub open spec fn placed_seats(seats: Seq<PlayerView>, k: int) -> int
    decreases k,
{
    if k <= 0 {
        0
    } else {
        placed_seats(seats, k - 1) + if seats[k - 1].rank > 0 {
            1int
        } else {
            0int
        }
    }
}

/// How many seats of the games at `players` players have a placing.
pub open spec fn placed_in_games(gs: Seq<GameView>, players: int) -> int
    decreases gs.len(),
{
    if gs.len() == 0 {
        0
    } else {
        placed_in_games(gs.drop_last(), players) + if gs.last().players == players {
            placed_seats(gs.last().seats, gs.last().seats.len() as int)
        } else {
            0int
        }
    }
}

proof fn lemma_seats_split(t: TalliesView, seats: Seq<PlayerView>, names: Seq<Seq<char>>, k: int)
    requires
        0 <= k <= seats.len(),
    ensures
        seats_added(t, seats, names, k).winners.wonders.len() + seats_added(t, seats, names, k).losers.wonders.len()
            == t.winners.wonders.len() + t.losers.wonders.len() + placed_seats(seats, k),
    decreases k,
{
    if k > 0 {
        lemma_seats_split(t, seats, names, k - 1);
    }
}

/// Every seat with a placing is tallied once, on exactly one side: the
/// winners' and the losers' samples together hold one entry per placed
/// seat of the games at this player count.
pub proof fn lemma_every_placed_seat_is_tallied_once(gs: Seq<GameView>, players: int, names: Seq<Seq<char>>)
    ensures
        winner_loser_spec(gs, players, names).winners.wonders.len() + winner_loser_spec(
            gs,
            players,
            names,
        ).losers.wonders.len() == placed_in_games(gs, players),
    decreases gs.len(),
{
    if gs.len() > 0 {
        lemma_every_placed_seat_is_tallied_once(gs.drop_last(), players, names);
        let g = gs.last();
        if g.players == players {
            lemma_seats_split(
                winner_loser_spec(gs.drop_last(), players, names),
                g.seats,
                names,
                g.seats.len() as int,
            );
        }
    }
}

/// How many of the games had their winner line read, and how many their
/// strength scoring line.
pub open spec fn coverage_spec(gs: Seq<GameView>) -> (int, int)
    decreases gs.len(),
{
    if gs.len() == 0 {
        (0, 0)
    } else {
        let prev = coverage_spec(gs.drop_last());
        (
            prev.0 + if gs.last().winner_parsed {
                1int
            } else {
                0int
            },
            prev.1 + if gs.last().has_strength_line {
                1int
            } else {
                0int
            },
        )
    }
}

/// The coverage of the text pass: how many games had their winner line
/// read, and how many their strength scoring line.
pub fn coverage(games: &Vec<GameAgg>) -> (r: (usize, usize))
    ensures
        r.0 == coverage_spec(game_views(games@)).0,
        r.1 == coverage_spec(game_views(games@)).1,
{
    let ghost gv = game_views(games@);
    let mut winners: usize = 0;
    let mut strength: usize = 0;
    let mut i: usize = 0;
    while i < games.len()
        invariant
            gv == game_views(games@),
            i <= games@.len(),
            winners as int == coverage_spec(gv.take(i as int)).0,
            strength as int == coverage_spec(gv.take(i as int)).1,
            winners <= i,
            strength <= i,
        decreases games@.len() - i,
    {
        assert(gv.take(i + 1).drop_last() =~= gv.take(i as int));
        assert(gv.take(i + 1).last() == games@[i as int].view());
        if games[i].winner_parsed {
            winners = winners + 1;
        }
        if games[i].has_strength_line {
            strength = strength + 1;
        }
        i = i + 1;
    }
    assert(gv.take(games@.len() as int) =~= gv);
    (winners, strength)
}

/// A seat's final government is the one it changed to last: whatever its
/// earlier changes, a seat whose last change was `ch` is tallied under the
/// name of `ch`'s card; a seat that never changed is tallied under
/// Despotism.
pub proof fn lemma_final_government_is_the_last_change(
    t: SideView,
    s: PlayerView,
    ch: (u32, Age, u16),
    seats: Seq<PlayerView>,
    names: Seq<Seq<char>>,
)
    ensures
        ({
            let last = PlayerView { gov_changes: s.gov_changes.push(ch), ..s };
            &&& government_name(last, names) == names[ch.2 as int]
            &&& side_added(t, last, seats, names).final_government == recorded(
                t.final_government,
                names[ch.2 as int],
                0,
                ""@,
            )
        }),
        ({
            let never = PlayerView { gov_changes: Seq::empty(), ..s };
            side_added(t, never, seats, names).final_government == recorded(
                t.final_government,
                "Despotism (never changed)"@,
                0,
                ""@,
            )
        }),
{
}

/// Recording a seat on a side adds one chance to each of the side's rates,
/// a hit for never changing government exactly when the seat made no
/// government change, for war exactly when it declared at least one, and
/// for aggression exactly when it played at least one; it adds the seat's
/// wonder count and takes to their samples, and its first government
/// change's round when it made one.
pub proof fn lemma_side_records_the_seat(t: SideView, s: PlayerView, seats: Seq<PlayerView>, names: Seq<Seq<char>>)
    requires
        t.never_changed.n < u64::MAX,
        t.never_changed.hits < u64::MAX,
        t.war.n < u64::MAX,
        t.war.hits < u64::MAX,
        t.aggression.n < u64::MAX,
        t.aggression.hits < u64::MAX,
        s.wonders.len() <= u64::MAX,
    ensures
        ({
            let r = side_added(t, s, seats, names);
            &&& r.never_changed.n == t.never_changed.n + 1
            &&& r.never_changed.hits == t.never_changed.hits + if s.gov_changes.len() == 0 {
                1int
            } else {
                0int
            }
            &&& r.war.n == t.war.n + 1
            &&& r.war.hits == t.war.hits + if class_count(s.action_counts, ActionClass::DeclareWar) > 0 {
                1int
            } else {
                0int
            }
            &&& r.aggression.n == t.aggression.n + 1
            &&& r.aggression.hits == t.aggression.hits + if class_count(
                s.action_counts,
                ActionClass::PlayAggression,
            ) > 0 {
                1int
            } else {
                0int
            }
            &&& r.wonders.len() == t.wonders.len() + 1
            &&& r.wonders.last() == s.wonders.len()
            &&& r.takes.last() == class_count(s.action_counts, ActionClass::TakeCard)
            &&& s.gov_changes.len() > 0 ==> r.first_change_round == t.first_change_round.push(s.gov_changes[0].0)
            &&& s.gov_changes.len() == 0 ==> r.first_change_round == t.first_change_round
        }),
{
}

/// A seat without a placing leaves every tally as it was.
pub proof fn lemma_unplaced_seats_are_not_tallied(t: TalliesView, s: PlayerView, seats: Seq<PlayerView>, names: Seq<Seq<char>>)
    requires
        s.rank == 0,
    ensures
        seat_added(t, s, seats, names) == t,
{
}

} // verus!

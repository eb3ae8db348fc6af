use lib::journal::{ActionClass, Age, Color};
use lib::keyed_tally::KeyedTally;
use lib::winner_pass::{GameAgg, PlayerAgg};
use lib::winner_tallies::winner_loser_tallies;

fn card_names() -> Vec<String> {
    let mut names: Vec<String> = (0..30).map(|i| format!("card{i}")).collect();
    names[5] = "Pyramids".to_string();
    names[6] = "Colossus".to_string();
    names[10] = "Monarchy".to_string();
    names[20] = "Homer".to_string();
    names[21] = "Moses".to_string();
    names
}

fn rate(r: &lib::winners::RateStat) -> (u64, u64) {
    (r.n, r.hits)
}

fn entries(t: &KeyedTally) -> Vec<(String, u64, u64)> {
    (0..t.len()).map(|i| {
        let (k, c, s, _) = t.entry(i);
        (k.to_string(), c, s)
    }).collect()
}

fn winner_seat() -> PlayerAgg {
    let mut p = PlayerAgg::new();
    p.rank = 1;
    p.wonders = vec![(Age::II, 5), (Age::III, 6), (Age::III, 5)];
    p.gov_changes = vec![(4, Age::I, 10)];
    p.leaders = vec![20];
    p.action_counts = vec![
        (ActionClass::TakeCard, 10),
        (ActionClass::BuildBuilding, 3),
        (ActionClass::BuildUnit, 2),
        (ActionClass::DeclareWar, 1),
        (ActionClass::PutBack, 2),
    ];
    p.war_declares = vec![(Age::III, Color::Purple)];
    p.age_culture = [None, Some(10), Some(30), Some(60), None];
    p.age_round = [None, Some(5), Some(10), Some(15), None];
    p.age_culture_rank = [None, Some(2), Some(1), Some(1), None];
    p.strength_score = Some(5);
    p
}

fn loser_seat() -> PlayerAgg {
    let mut p = PlayerAgg::new();
    p.rank = 2;
    p.leaders = vec![20, 21];
    p.action_counts = vec![(ActionClass::PlayAggression, 1)];
    p.aggression_plays = vec![(Age::II, Color::Orange)];
    p.age_culture = [None, Some(12), Some(20), Some(40), None];
    p.age_round = [None, Some(5), Some(10), Some(15), None];
    p.age_culture_rank = [None, Some(1), Some(2), Some(2), None];
    p.strength_score = Some(0);
    p
}

fn sample_games() -> Vec<GameAgg> {
    let played = GameAgg { players: 2, winner_parsed: true, has_strength_line: true, seats: vec![winner_seat(), loser_seat()] };
    let unread = GameAgg::new(2);
    let mut other = GameAgg::new(3);
    other.winner_parsed = true;
    other.seats[0].rank = 1;
    vec![played, unread, other]
}

#[test]
fn winners_and_losers_are_tallied_apart() {
    let t = winner_loser_tallies(&sample_games(), 2, &card_names());
    assert_eq!(t.games, 1);
    assert_eq!(t.winners.wonders, vec![3]);
    assert_eq!(t.losers.wonders, vec![0]);
    assert_eq!(t.winners.first_change_round, vec![4]);
    assert!(t.losers.first_change_round.is_empty());
    assert_eq!(rate(&t.winners.never_changed), (1, 0));
    assert_eq!(rate(&t.losers.never_changed), (1, 1));
    assert_eq!(rate(&t.winners.war), (1, 1));
    assert_eq!(rate(&t.losers.war), (1, 0));
    assert_eq!(rate(&t.winners.aggression), (1, 0));
    assert_eq!(rate(&t.losers.aggression), (1, 1));
    assert_eq!(t.winners.takes, vec![10]);
    assert_eq!(t.losers.takes, vec![0]);
    assert_eq!(t.winners.build_take, vec![(5, 10)]);
    assert!(t.losers.build_take.is_empty());
    assert_eq!(t.winners.putbacks, vec![2]);
    assert_eq!(t.winners.age1.culture_rate, vec![(10, 5)]);
    assert_eq!(t.winners.age1.culture_rank, vec![2]);
    assert_eq!(t.winners.age1.culture_vs_table, vec![(10, 22, 2)]);
    assert!(t.winners.age1.science_rate.is_empty());
    assert!(t.winners.age4.culture_rate.is_empty());
    assert_eq!(entries(&t.winners.final_government), vec![("Monarchy".to_string(), 1, 0)]);
    assert_eq!(entries(&t.losers.final_government), vec![("Despotism (never changed)".to_string(), 1, 0)]);
}

#[test]
fn wonders_and_leaders_count_once_per_seat_with_the_winners_hits() {
    let t = winner_loser_tallies(&sample_games(), 2, &card_names());
    assert_eq!(entries(&t.wonder_wins), vec![("Pyramids".to_string(), 1, 1), ("Colossus".to_string(), 1, 1)]);
    assert_eq!(entries(&t.leader_wins), vec![("Homer".to_string(), 2, 1), ("Moses".to_string(), 1, 0)]);
}

#[test]
fn game_level_rates_read_strength_aggression_and_targets() {
    let t = winner_loser_tallies(&sample_games(), 2, &card_names());
    assert_eq!(rate(&t.strength_leader_wins), (1, 1));
    assert_eq!(rate(&t.strength_last_wins), (1, 0));
    assert_eq!(rate(&t.aggressor_wins), (2, 1));
    assert_eq!(rate(&t.target_wins), (2, 1));
}

#[test]
fn a_seat_behind_at_age_two_is_a_comeback_candidate() {
    let t = winner_loser_tallies(&sample_games(), 2, &card_names());
    assert_eq!(rate(&t.behind_wins), (1, 0));
    assert_eq!(t.comeback_stayed.rate_change, vec![(20, 10, 40, 15)]);
    assert_eq!(t.comeback_stayed.wonders_age3, vec![0]);
    assert_eq!(t.comeback_stayed.wars_age3, vec![0]);
    assert_eq!(rate(&t.comeback_stayed.government_after), (1, 0));
    assert!(t.comeback_won.wonders_age3.is_empty());
}

#[test]
fn strength_ties_pick_the_first_leader_and_the_last_of_the_last() {
    let mut a = winner_seat();
    a.strength_score = Some(3);
    let mut b = loser_seat();
    b.strength_score = Some(3);
    let g = GameAgg { players: 2, winner_parsed: true, has_strength_line: true, seats: vec![a, b] };
    let t = winner_loser_tallies(&vec![g], 2, &card_names());
    // The leader is seat 0 (the winner), the last place seat 1.
    assert_eq!(rate(&t.strength_leader_wins), (1, 1));
    assert_eq!(rate(&t.strength_last_wins), (1, 0));
}

#[test]
fn every_placed_seat_lands_on_one_side() {
    let t = winner_loser_tallies(&sample_games(), 2, &card_names());
    // Two placed seats among the two-player games; the unread game's seats
    // have no placing.
    assert_eq!(t.winners.wonders.len() + t.losers.wonders.len(), 2);
}

#[test]
fn coverage_counts_winner_and_strength_lines() {
    assert_eq!(lib::winner_tallies::coverage(&sample_games()), (2, 1));
}

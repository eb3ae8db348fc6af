use lib::card_fate::{record_fate_decision, seat_outcome, CardFateStats, CardFateTrack};
use lib::cards::{Card, CardType, Move};
use lib::journal::Color;

fn civil(id: u16) -> Card {
    Card { id, kind: CardType::Leader }
}

#[test]
fn a_played_card_leaves_the_earliest_copy_taken() {
    let mut t = CardFateTrack::new();
    t.take(7, 1);
    t.take(9, 2);
    t.take(7, 3);
    t.leave(7, 5, true);
    assert_eq!(t.held, vec![(9, 2), (7, 3)]);
    assert_eq!((t.n_taken, t.n_played, t.n_antiquated, t.n_mismatch), (3, 1, 0, 0));
    assert_eq!(t.played_dwell, vec![4]);
}

#[test]
fn a_departure_with_no_copy_held_is_counted_as_unmatched() {
    let mut t = CardFateTrack::new();
    t.take(7, 1);
    t.leave(8, 4, false);
    assert_eq!(t.n_mismatch, 1);
    assert_eq!(t.held, vec![(7, 1)]);
    assert!(t.censored_dwell.is_empty());
}

#[test]
fn closing_a_game_counts_what_is_still_held_and_how_long() {
    let mut t = CardFateTrack::new();
    t.take(1, 2);
    t.take(2, 3);
    t.take(3, 4);
    t.leave(2, 6, false);
    let (still, censored) = t.close(10);
    assert_eq!(still, 2);
    assert_eq!(censored, vec![3, 8, 6]);
}

#[test]
fn a_take_holds_the_slot_card_unless_it_is_a_wonder_or_the_slot_is_empty() {
    let mut tracks = vec![CardFateTrack::new(), CardFateTrack::new()];
    let none: Vec<Vec<u16>> = Vec::new();
    record_fate_decision(&mut tracks, 1, 2, Move::Take { slot: 3 }, Some(civil(40)), false, &none, &none);
    record_fate_decision(&mut tracks, 1, 2, Move::Take { slot: 4 }, Some(Card { id: 41, kind: CardType::Wonder }), false, &none, &none);
    record_fate_decision(&mut tracks, 1, 2, Move::Take { slot: 5 }, None, false, &none, &none);
    record_fate_decision(&mut tracks, 5, 2, Move::Take { slot: 5 }, Some(civil(42)), false, &none, &none);
    assert_eq!(tracks[1].held, vec![(40, 2)]);
    assert_eq!(tracks[1].n_taken, 1);
    assert!(tracks[0].held.is_empty());
}

#[test]
fn an_age_transition_antiquates_every_culled_card_but_the_one_played() {
    let mut tracks = vec![CardFateTrack::new(), CardFateTrack::new()];
    let none: Vec<Vec<u16>> = Vec::new();
    record_fate_decision(&mut tracks, 0, 1, Move::Take { slot: 0 }, Some(civil(10)), false, &none, &none);
    record_fate_decision(&mut tracks, 0, 2, Move::Take { slot: 0 }, Some(civil(11)), false, &none, &none);
    record_fate_decision(&mut tracks, 1, 2, Move::Take { slot: 0 }, Some(civil(12)), false, &none, &none);
    // Seat 0 plays 10 as a leader and the age turns: 11 is culled from seat 0,
    // 12 and an untracked 13 from seat 1.
    let pre = vec![vec![10, 11], vec![12, 13]];
    let post = vec![vec![], vec![]];
    record_fate_decision(&mut tracks, 0, 5, Move::PlayLeader { card: civil(10) }, None, true, &pre, &post);
    assert_eq!((tracks[0].n_played, tracks[0].n_antiquated, tracks[0].n_mismatch), (1, 1, 0));
    assert_eq!(tracks[0].played_dwell, vec![4]);
    assert_eq!(tracks[0].censored_dwell, vec![3]);
    assert_eq!((tracks[1].n_antiquated, tracks[1].n_mismatch), (1, 1));
    assert!(tracks[0].held.is_empty() && tracks[1].held.is_empty());
}

#[test]
fn card_fate_stats_split_by_outcome_and_stay_balanced() {
    let mut s = CardFateStats::new();
    let mut t = CardFateTrack::new();
    t.take(1, 1);
    t.take(2, 1);
    t.take(3, 2);
    t.leave(1, 3, true);
    t.leave(2, 4, false);
    s.record_player_game(&t, 9, "win");
    s.record_player_game(&t, 9, "draw");
    s.skip_incomplete(2);
    assert_eq!((s.n_player_games, s.n_incomplete_skipped, s.n_mismatch), (2, 2, 0));
    let o = &s.overall.counts;
    assert_eq!((o.taken, o.played, o.antiquated, o.still_in_hand), (6, 2, 2, 2));
    assert_eq!(s.winners.counts.taken, 3);
    assert_eq!(s.losers.counts.taken, 0);
    assert_eq!(s.overall.censored_dwell, vec![3, 7, 3, 7]);
    assert_eq!(s.winners.taken_per_game, vec![3]);
}

#[test]
fn a_seat_outcome_is_read_by_its_colour() {
    let outcomes = vec![(Color::Purple, "loss".to_string()), (Color::Orange, "win".to_string())];
    assert_eq!(seat_outcome(0, &outcomes), "win");
    assert_eq!(seat_outcome(1, &outcomes), "loss");
    assert_eq!(seat_outcome(2, &outcomes), "unknown");
    assert_eq!(seat_outcome(9, &outcomes), "unknown");
}

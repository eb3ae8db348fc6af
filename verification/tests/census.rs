use lib::census::{hand_multiset_diff, CardFate, CardFateCounts, CardFateGroupStats, CostStats, WonderRoundStats};

#[test]
fn cost_stats_count_each_cost_and_keep_the_sum() {
    let mut c = CostStats::default();
    c.record(2);
    c.record(3);
    c.record(2);
    assert_eq!(c.n, 3);
    assert_eq!(c.sum, 7);
    assert_eq!(c.hist.get(&2), Some(&2));
    assert_eq!(c.hist.get(&3), Some(&1));
    assert_eq!(c.hist.len(), 2);
}

#[test]
fn wonder_rounds_split_by_outcome_and_count_the_never_built() {
    let mut w = WonderRoundStats::default();
    w.record(Some(3), "win");
    w.record(Some(6), "loss");
    w.record(Some(5), "tie");
    w.record(None, "win");
    assert_eq!(w.total, 4);
    assert_eq!(w.rounds, vec![3, 6, 5]);
    assert_eq!(w.win_rounds, vec![3]);
    assert_eq!(w.loss_rounds, vec![6]);
    assert_eq!(w.never_built, 1);
    assert_eq!(w.no_progress_by_round4(), 3);
}

#[test]
fn card_fate_counts_stay_balanced() {
    let mut c = CardFateCounts::default();
    c.record(CardFate::Played, 4);
    c.record(CardFate::Antiquated, 2);
    c.record(CardFate::StillInHand, 1);
    assert_eq!((c.taken, c.played, c.antiquated, c.still_in_hand), (7, 4, 2, 1));
}

#[test]
fn card_fate_group_stats_record_one_player_game() {
    let mut g = CardFateGroupStats::default();
    g.record(9, 5, 1, 3, &[2, 4], &[7]);
    g.record(1, 0, 0, 1, &[], &[1, 1]);
    assert_eq!((g.counts.taken, g.counts.played, g.counts.antiquated, g.counts.still_in_hand), (10, 5, 1, 4));
    assert_eq!(g.taken_per_game, vec![9, 1]);
    assert_eq!(g.still_in_hand_per_game, vec![3, 1]);
    assert_eq!(g.played_dwell, vec![2, 4]);
    assert_eq!(g.censored_dwell, vec![7, 1, 1]);
}

#[test]
fn hand_multiset_diff_cancels_copies_one_for_one() {
    assert_eq!(hand_multiset_diff(&[5, 7, 5, 9], &[5, 9]), vec![7, 5]);
    assert_eq!(hand_multiset_diff(&[1, 2, 3], &[3, 2, 1, 4]), Vec::<u16>::new());
    assert_eq!(hand_multiset_diff(&[], &[1]), Vec::<u16>::new());
    assert_eq!(hand_multiset_diff(&[8, 8, 8], &[8]), vec![8, 8]);
}

#[test]
fn a_new_card_fate_track_is_empty() {
    let t = lib::card_fate::CardFateTrack::new();
    assert!(t.held.is_empty());
    assert_eq!((t.n_taken, t.n_played, t.n_antiquated, t.n_mismatch), (0, 0, 0, 0));
    assert!(t.played_dwell.is_empty() && t.censored_dwell.is_empty());
}

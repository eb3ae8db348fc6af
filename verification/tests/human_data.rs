use lib::human_data::HumanDataStats;

#[test]
fn human_data_counts_games_and_decisions_by_each_breakdown() {
    let mut s = HumanDataStats::new();
    s.journal_missing();
    s.start_game("Warlord");
    s.record_decision(3, "I", "Take", 2, false);
    s.record_decision(3, "II", "Build", 9, true);
    s.record_decision(3, "II", "Take", 7, false);
    s.finish_game(18);
    s.start_game("Emperor");
    s.finish_game(20);
    s.start_game("Warlord");
    s.record_decision(2, "A", "Take", 1, false);
    s.finish_game(16);
    assert_eq!((s.games_no_journal, s.games_processed, s.decisions, s.tainted), (1, 3, 4, 1));
    assert_eq!(s.by_players.get(&3), Some(&3));
    assert_eq!(s.by_players.get(&2), Some(&1));
    assert_eq!(s.by_age.entry(1), ("II", 2, 0, ""));
    assert_eq!(s.by_category.entry(0), ("Take", 3, 0, ""));
    assert_eq!(s.by_tier.entry(0), ("Warlord", 2, 0, ""));
    assert_eq!(s.by_tier.entry(1), ("Emperor", 1, 0, ""));
    assert_eq!((s.games_with_a_decision, s.true_rounds_sum, s.reached_round_sum), (2, 34, 10));
}

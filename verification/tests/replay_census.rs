use lib::journal::ActionClass;
use lib::replay_census::{scores_match, DiscardFacts, GameFacts, LedgerFacts, ReplayCensus, ReplaySummary, StopFacts};
use lib::replay_stats::{
    CultureOracleDivergence, FinalEventAwardDivergence, HandLedgerVerdict, LedgerEventKind, MismatchKind,
};

const JOURNAL: &str = "date\tplayer_colour\tage\tround\ttext\n\
2026-01-01\tOrange\tA\t1\tOrange takes Foo\n\
2026-01-01\tPurple\tI\t3\tPurple builds Bar\n\
2026-01-01\tOrange\tII\t8\tOrange builds Baz\n\
2026-01-01\tPurple\tIII\t12\tPurple develops Qux\n";

/// A game that found nothing: not completed, no stop reason, no divergence.
fn quiet_game() -> GameFacts {
    GameFacts {
        rounds: 10,
        bid_ceilings_grounded: 0,
        hand_full_takes_overridden: 0,
        discard_checked: 0,
        discard_agreed: 0,
        discard_divergence: None,
        culture_checked: 0,
        culture_agreed: 0,
        culture_divergence: None,
        culture_example: String::new(),
        science_checked: 0,
        science_agreed: 0,
        science_diverged: false,
        resource_checked: 0,
        resource_agreed: 0,
        resource_diverged: false,
        premature_example: None,
        politics_false_skips: 0,
        politics_false_skips_unrecovered: 0,
        award_divergences: Vec::new(),
        award_examples: Vec::new(),
        decision_lines: Vec::new(),
        completed: false,
        engine_scores: None,
        index_scores: Vec::new(),
        index_order: None,
        stop: None,
    }
}

fn div(card: &str, seat: u8, journal: i32, engine: i32) -> FinalEventAwardDivergence {
    FinalEventAwardDivergence { card: card.to_string(), seat, journal_amount: journal, engine_amount: engine }
}

fn completed(engine: Vec<i32>, index: Vec<i32>) -> GameFacts {
    GameFacts { completed: true, engine_scores: Some(engine), index_scores: index, ..quiet_game() }
}

#[test]
fn census_counts_a_completed_game_whose_sorted_scores_match_as_exact() {
    let mut c = ReplayCensus::new();
    c.record_game(completed(vec![120, 98, 130], vec![130, 120, 98]), JOURNAL);
    assert_eq!((c.counts.n_games, c.counts.n_completed, c.counts.n_score_checked), (1, 1, 1));
    assert_eq!((c.counts.n_score_exact, c.counts.n_gate_suppressed), (1, 0));
    assert_eq!(c.counts.round_reached_sum, 10);
    assert!(c.score_deltas.is_empty());
}

#[test]
fn census_lists_the_sorted_differences_of_a_game_whose_scores_diverge() {
    let mut c = ReplayCensus::new();
    c.record_game(completed(vec![101, 90, 77], vec![95, 90, 80]), JOURNAL);
    assert_eq!((c.counts.n_score_checked, c.counts.n_score_exact, c.counts.n_gate_suppressed), (1, 0, 0));
    // sorted: engine [77, 90, 101], index [80, 90, 95]
    assert_eq!(c.score_deltas, vec![-3, 0, 6]);
}

#[test]
fn census_suppresses_a_single_misstated_award_and_lists_no_differences() {
    let mut c = ReplayCensus::new();
    let g = GameFacts {
        award_divergences: vec![div("Impact of Progress", 1, 12, 14)],
        award_examples: vec!["7521849 seat 1: journal says 12, this binary computes 14 (delta 2)".to_string()],
        index_order: Some(vec![1, 0]),
        ..completed(vec![137, 176], vec![174, 137])
    };
    c.record_game(g, JOURNAL);
    assert_eq!((c.counts.n_score_checked, c.counts.n_score_exact, c.counts.n_gate_suppressed), (1, 0, 1));
    assert!(c.score_deltas.is_empty());
    assert_eq!(c.counts.n_games_with_award_divergence, 1);
    assert_eq!(c.award_buckets.len(), 1);
    assert_eq!(c.award_buckets.entry(0).0, "Impact of Progress");
}

#[test]
fn census_does_not_score_a_completed_game_the_engine_never_scored() {
    let mut c = ReplayCensus::new();
    c.record_game(GameFacts { completed: true, ..quiet_game() }, JOURNAL);
    assert_eq!((c.counts.n_completed, c.counts.n_score_checked), (1, 0));
}

#[test]
fn census_buckets_a_stopped_game_by_reason_with_the_round_it_reached() {
    let mut c = ReplayCensus::new();
    let stop = |round: &str, ex: &str| StopFacts {
        kind: MismatchKind::ParserGap("unknown line 42 at col 7".to_string()),
        round: round.to_string(),
        example: ex.to_string(),
    };
    c.record_game(GameFacts { stop: Some(stop("7", "g1 line 80: ...")), ..quiet_game() }, JOURNAL);
    c.record_game(GameFacts { stop: Some(stop("9", "g2 line 99: ...")), ..quiet_game() }, JOURNAL);
    c.record_game(GameFacts { stop: Some(stop("?", "g3 line 5: ...")), ..quiet_game() }, JOURNAL);
    c.record_game(GameFacts { stop: None, ..quiet_game() }, JOURNAL);
    assert_eq!(c.stop_buckets.len(), 1);
    assert_eq!(c.stop_buckets.entry(0), ("ParserGap: unknown line # at col #", 3, 16, "g1 line 80: ..."));
    assert_eq!(c.counts.round_reached_sum, 16);
    assert_eq!(c.counts.n_games, 4);
    assert_eq!(c.counts.rounds_total_sum, 40);
}

#[test]
fn census_ignores_the_stop_reason_of_a_completed_game() {
    let mut c = ReplayCensus::new();
    let g = GameFacts {
        completed: true,
        stop: Some(StopFacts {
            kind: MismatchKind::StuckPending("x".to_string()),
            round: "3".to_string(),
            example: "e".to_string(),
        }),
        ..quiet_game()
    };
    c.record_game(g, JOURNAL);
    assert_eq!(c.stop_buckets.len(), 0);
    assert_eq!(c.counts.round_reached_sum, 10);
}

#[test]
fn census_counts_decisions_and_those_taken_in_age_two_or_later() {
    let mut c = ReplayCensus::new();
    c.record_game(GameFacts { decision_lines: vec![2, 3, 4, 5, 5, 99, 0], ..quiet_game() }, JOURNAL);
    assert_eq!((c.counts.decisions_total, c.counts.decisions_age_two_plus), (7, 3));
}

#[test]
fn census_keeps_the_first_example_of_each_award_card() {
    let mut c = ReplayCensus::new();
    let g = GameFacts {
        award_divergences: vec![div("Impact of Happiness", 0, 6, 10), div("Impact of Happiness", 1, 2, 3), div("Impact of Strength", 0, 0, 2)],
        award_examples: vec!["first".to_string(), "second".to_string(), "third".to_string()],
        ..quiet_game()
    };
    c.record_game(g, JOURNAL);
    assert_eq!(c.award_buckets.entry(0), ("Impact of Happiness", 2, 0, "first"));
    assert_eq!(c.award_buckets.entry(1), ("Impact of Strength", 1, 0, "third"));
    assert_eq!(c.counts.n_games_with_award_divergence, 1);
}

#[test]
fn census_buckets_ledger_verdicts_and_culture_divergences() {
    let mut c = ReplayCensus::new();
    let g = GameFacts {
        discard_divergence: Some(DiscardFacts {
            line: "g1 line 12 (round 4 age I, Orange): ...".to_string(),
            ledger: Some(LedgerFacts {
                verdict: HandLedgerVerdict::SimulatorBug,
                last_event: Some(LedgerEventKind::named("Draw")),
                example: "g1 ledger example".to_string(),
            }),
        }),
        culture_divergence: Some(CultureOracleDivergence {
            lineno: 30,
            actor: "Purple".to_string(),
            journal_now: 14,
            reconstructed: 15,
            last_action_class: Some(ActionClass::BuildWonderStage),
        }),
        culture_example: "g1 line 30 (Purple): ...".to_string(),
        discard_checked: 5,
        discard_agreed: 4,
        culture_checked: 9,
        culture_agreed: 8,
        ..quiet_game()
    };
    c.record_game(g, JOURNAL);
    c.record_game(
        GameFacts {
            discard_divergence: Some(DiscardFacts { line: "g2 line 7".to_string(), ledger: None }),
            ..quiet_game()
        },
        JOURNAL,
    );
    assert_eq!(c.discard_divergences, vec!["g1 line 12 (round 4 age I, Orange): ...".to_string(), "g2 line 7".to_string()]);
    assert_eq!(c.ledger_buckets.len(), 1);
    assert_eq!(
        c.ledger_buckets.entry(0),
        (
            "SimulatorBug (ledger agrees with journal; forward simulator's own hand_military is wrong) -- last ledger event was Draw",
            1,
            0,
            "g1 ledger example"
        )
    );
    assert_eq!(c.culture_buckets.entry(0), ("BuildWonderStage", 1, 0, "g1 line 30 (Purple): ..."));
    assert_eq!((c.counts.discard_checked, c.counts.discard_agreed), (5, 4));
    assert_eq!((c.counts.culture_checked, c.counts.culture_agreed), (9, 8));
}

#[test]
fn census_keeps_at_most_ten_premature_advance_examples() {
    let mut c = ReplayCensus::new();
    for i in 0..12 {
        c.record_game(GameFacts { premature_example: Some(format!("g{i}")), ..quiet_game() }, JOURNAL);
    }
    assert_eq!(c.counts.n_premature, 12);
    assert_eq!(c.premature_examples.len(), 10);
    assert_eq!(c.premature_examples[9], "g9");
}

#[test]
fn census_counts_games_with_each_finding_and_the_findings_themselves() {
    let mut c = ReplayCensus::new();
    let g = GameFacts {
        bid_ceilings_grounded: 3,
        hand_full_takes_overridden: 2,
        politics_false_skips: 4,
        politics_false_skips_unrecovered: 1,
        science_checked: 6,
        science_agreed: 6,
        science_diverged: true,
        resource_checked: 2,
        resource_agreed: 1,
        resource_diverged: true,
        ..quiet_game()
    };
    c.record_game(g, JOURNAL);
    c.record_game(GameFacts { bid_ceilings_grounded: 1, ..quiet_game() }, JOURNAL);
    let k = &c.counts;
    assert_eq!((k.bid_ceilings_grounded, k.n_bid_ceiling_games), (4, 2));
    assert_eq!((k.hand_full_takes_overridden, k.n_hand_full_take_games), (2, 1));
    assert_eq!((k.n_false_skips_total, k.n_games_with_false_skip), (4, 1));
    assert_eq!((k.n_false_skips_unrecovered_total, k.n_games_with_unrecovered_false_skip), (1, 1));
    assert_eq!((k.science_checked, k.science_agreed, k.n_science_diverging), (6, 6, 1));
    assert_eq!((k.resource_checked, k.resource_agreed, k.n_resource_diverging), (2, 1, 1));
    assert!(k.n_score_exact + k.n_gate_suppressed <= k.n_score_checked && k.n_completed <= k.n_games);
}

#[test]
fn replay_summary_counts_completions_scored_games_and_matches() {
    assert!(scores_match(&vec![3, 1, 2], &vec![1, 2, 3]));
    assert!(!scores_match(&vec![3, 1, 2], &vec![1, 2, 4]));
    assert!(!scores_match(&vec![1, 2], &vec![1, 2, 2]));
    let mut s = ReplaySummary::new();
    s.record(true, false, Some(&vec![50, 40]), &vec![40, 50], 2, 1, 0);
    s.record(true, true, Some(&vec![50, 41]), &vec![40, 50], 0, 0, 1);
    s.record(true, false, None, &vec![40, 50], 0, 0, 0);
    s.record(false, true, Some(&vec![1]), &vec![1], 3, 0, 0);
    assert_eq!((s.n_completed, s.n_approx, s.n_score_checked, s.n_score_match), (3, 1, 2, 1));
    assert_eq!((s.discards_solved, s.discards_chosen, s.discards_forced_collision), (5, 1, 1));
}

use lib::journal::Color;
use lib::replay_stats::{
    bucket_key, hand_ledger_verdict_key, journal_arithmetic_error_suppression,
    CultureOracleDivergence, FinalEventAwardDivergence, HandLedgerVerdict, LedgerEventKind,
    MismatchKind,
};
use lib::text::{is_age_two_plus, line_age, move_kind, normalize};

fn gate_div(card: &str, seat: u8, journal: i32, engine: i32) -> FinalEventAwardDivergence {
    FinalEventAwardDivergence { card: card.to_string(), seat, journal_amount: journal, engine_amount: engine }
}

#[test]
fn scorediv_gate_suppresses_one_seat_one_pair_whole_game() {
    let d = gate_div("Impact of Progress", 1, 12, 14);
    let b = [174, 137];
    let idx = [1u8, 0];
    let r = journal_arithmetic_error_suppression(&[137, 176], &b, Some(&idx), &[d], None);
    assert!(matches!(&r, Some((seat, x)) if seat == "Purple" && x.card == "Impact of Progress"));
}

#[test]
fn scorediv_gate_negative_delta_is_still_suppressed() {
    let d = gate_div("Impact of Progress", 1, 14, 12);
    let b = [174, 137];
    let idx = [1u8, 0];
    let r = journal_arithmetic_error_suppression(&[137, 172], &b, Some(&idx), &[d], None);
    assert!(matches!(&r, Some((seat, _)) if seat == "Purple"));
}

#[test]
fn scorediv_gate_direction_flip_is_never_suppressed() {
    let d = gate_div("Impact of Progress", 1, 12, -4);
    let b = [174, 137];
    let idx = [1u8, 0];
    let r = journal_arithmetic_error_suppression(&[137, 158], &b, Some(&idx), &[d], None);
    assert!(r.is_none());
}

#[test]
fn scorediv_gate_two_seats_off_is_never_suppressed() {
    let d0 = gate_div("Impact of Progress", 0, 12, 14);
    let d1 = gate_div("Impact of Strength", 1, 10, 8);
    let b = [174, 137];
    let idx = [1u8, 0];
    let r = journal_arithmetic_error_suppression(&[139, 172], &b, Some(&idx), &[d0, d1], None);
    assert!(r.is_none());
}

#[test]
fn scorediv_gate_one_pair_but_two_seats_off_is_never_suppressed() {
    let d = gate_div("Impact of Progress", 1, 12, 14);
    let b = [174, 137];
    let idx = [1u8, 0];
    let r = journal_arithmetic_error_suppression(&[139, 176], &b, Some(&idx), &[d], None);
    assert!(r.is_none());
}

#[test]
fn scorediv_gate_in_play_culture_drift_is_never_suppressed() {
    let d = gate_div("Impact of Progress", 1, 12, 14);
    let drifted = CultureOracleDivergence {
        lineno: 367,
        actor: "Purple".to_string(),
        journal_now: 128,
        reconstructed: 129,
        last_action_class: None,
    };
    let b = [174, 137];
    let idx = [1u8, 0];
    let r = journal_arithmetic_error_suppression(&[137, 175], &b, Some(&idx), &[d], Some(&drifted));
    assert!(r.is_none());
}

#[test]
fn scorediv_gate_seat_mismatch_between_pair_and_lists_is_never_suppressed() {
    let d = gate_div("Impact of Progress", 1, 12, 14);
    let b = [174, 137];
    let idx = [1u8, 0];
    let r = journal_arithmetic_error_suppression(&[139, 174], &b, Some(&idx), &[d], None);
    assert!(r.is_none());
}

#[test]
fn scorediv_gate_seats_index_by_placement_not_by_sorted_position() {
    let d = gate_div("Impact of Happiness", 2, 10, 12);
    let b = [240, 215, 199, 198];
    let a = [215, 199, 242, 198];
    let idx = [2u8, 0, 1, 3];
    let r = journal_arithmetic_error_suppression(&a, &b, Some(&idx), &[d.clone()], None);
    assert!(matches!(&r, Some((seat, _)) if seat == "Green"));
    let none_order = journal_arithmetic_error_suppression(&a, &b, None, &[d.clone()], None);
    assert!(none_order.is_none());
}

#[test]
fn suppression_reports_the_award_that_explains_the_difference() {
    let d = gate_div("Impact of Progress", 1, 12, 14);
    let r = journal_arithmetic_error_suppression(&[137, 176], &[174, 137], Some(&[1u8, 0]), &[d], None);
    let (seat, award) = r.expect("one seat, one award, no drift");
    assert_eq!(seat, Color::Purple.as_str());
    assert_eq!(award.seat, 1);
    assert_eq!(award.journal_amount, 12);
    assert_eq!(award.engine_amount, 14);
}

#[test]
fn suppression_declines_when_no_award_diverged() {
    let r = journal_arithmetic_error_suppression(&[137, 176], &[176, 137], Some(&[1u8, 0]), &[], None);
    assert!(r.is_none());
}

#[test]
fn hand_ledger_verdict_key_names_the_mechanism_for_simulator_bug_via_the_passed_in_last_event() {
    let key = hand_ledger_verdict_key(&HandLedgerVerdict::SimulatorBug, Some(LedgerEventKind::named("PrepareEvent")));
    assert!(key.contains("SimulatorBug"));
    assert!(key.contains("PrepareEvent"));
}

#[test]
fn hand_ledger_verdict_key_names_the_mechanism_for_an_unmodelled_event() {
    let key = hand_ledger_verdict_key(&HandLedgerVerdict::UnmodelledEvent(Some(LedgerEventKind::named("Discard"))), None);
    assert!(key.contains("UnmodelledEvent"));
    assert!(key.contains("Discard"));
}

#[test]
fn hand_ledger_verdict_key_distinguishes_simulator_bug_from_unmodelled_event_with_the_same_last_kind() {
    let a = hand_ledger_verdict_key(&HandLedgerVerdict::SimulatorBug, Some(LedgerEventKind::named("Draw")));
    let b = hand_ledger_verdict_key(
        &HandLedgerVerdict::UnmodelledEvent(Some(LedgerEventKind::named("Draw"))),
        Some(LedgerEventKind::named("Draw")),
    );
    assert_ne!(a, b);
}

#[test]
fn hand_ledger_verdict_key_spells_out_each_finding() {
    assert_eq!(
        hand_ledger_verdict_key(&HandLedgerVerdict::SimulatorBug, None),
        "SimulatorBug (ledger agrees with journal; forward simulator's own hand_military is wrong) -- last ledger event was none"
    );
    assert_eq!(
        hand_ledger_verdict_key(&HandLedgerVerdict::UnmodelledEvent(None), None),
        "UnmodelledEvent: no prior ledger event at all"
    );
    assert_eq!(hand_ledger_verdict_key(&HandLedgerVerdict::NoLedgerEntry, None), "NoLedgerEntry (ledger coverage gap)");
}

#[test]
fn move_kind_extracts_the_variant_name_from_a_struct_style_debug_string() {
    assert_eq!(move_kind("Take { slot: 2 }"), "Take");
}

#[test]
fn move_kind_extracts_the_variant_name_from_a_tuple_style_debug_string() {
    assert_eq!(move_kind("WonderStep(3)"), "WonderStep");
}

#[test]
fn move_kind_extracts_the_variant_name_from_a_unit_style_debug_string() {
    assert_eq!(move_kind("EndTurn"), "EndTurn");
}

#[test]
fn move_kind_of_an_empty_string_is_empty() {
    assert_eq!(move_kind(""), "");
}

#[test]
fn normalize_collapses_a_run_of_digits_to_one_hash() {
    assert_eq!(normalize("outside 12p seating"), "outside #p seating");
}

#[test]
fn normalize_collapses_two_separate_digit_runs_independently() {
    assert_eq!(normalize("line 5 round 19"), "line # round #");
}

#[test]
fn normalize_is_unchanged_for_a_message_with_no_digits() {
    assert_eq!(normalize("resolve_intervening did not converge"), "resolve_intervening did not converge");
}

#[test]
fn normalize_is_idempotent() {
    let once = normalize("seat 3 at 120 culture, 7 left");
    assert_eq!(once, "seat # at # culture, # left");
    assert_eq!(normalize(&once), once);
}

#[test]
fn line_age_reads_the_third_tab_separated_column_at_a_one_based_line_number() {
    let journal = "date\tplayer_colour\tage\tround\ttext\n2026-01-01\tOrange\tII\t8\tOrange builds Foo\n";
    assert_eq!(line_age(journal, 2), Some("II"));
}

#[test]
fn line_age_returns_none_past_the_end_of_the_journal() {
    let journal = "header\n2026-01-01\tOrange\tA\t1\ttext\n";
    assert_eq!(line_age(journal, 99), None);
}

#[test]
fn line_age_returns_none_for_line_zero_and_for_a_line_without_five_columns() {
    let journal = "header\nonly\ttwo\n";
    assert_eq!(line_age(journal, 0), None);
    assert_eq!(line_age(journal, 2), None);
}

#[test]
fn is_age_two_plus_is_true_for_ii_iii_and_iv_and_false_for_a_and_i() {
    assert!(is_age_two_plus("II"));
    assert!(is_age_two_plus("III"));
    assert!(is_age_two_plus("IV"));
    assert!(!is_age_two_plus("A"));
    assert!(!is_age_two_plus("I"));
}

#[test]
fn bucket_key_groups_illegal_move_by_its_move_variant_not_its_full_debug_string() {
    let a = MismatchKind::IllegalMove { attempted: "Take { slot: 1 }".into(), legal_moves: "[]".into() };
    let b = MismatchKind::IllegalMove { attempted: "Take { slot: 4 }".into(), legal_moves: "[EndTurn]".into() };
    assert_eq!(bucket_key(&a), bucket_key(&b));
}

#[test]
fn bucket_key_normalizes_the_digits_of_a_parser_gap() {
    let k = bucket_key(&MismatchKind::ParserGap("line 12 of 40".into()));
    assert_eq!(k, "ParserGap: line # of #");
}

#[test]
fn suppression_declines_when_another_award_flips_sign() {
    // Seat 1's award alone explains the score difference, but seat 0's
    // award flips sign: that is a formula error and the game must surface.
    let d1 = gate_div("Impact of Progress", 1, 12, 14);
    let d0 = gate_div("Impact of Strength", 0, 5, -3);
    let r = journal_arithmetic_error_suppression(&[137, 176], &[174, 137], Some(&[1u8, 0]), &[d1, d0], None);
    assert!(r.is_none());
}

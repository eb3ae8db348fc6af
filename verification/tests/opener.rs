use lib::cards::{
    build_target_kind, decision_kind, develop_eligible_kind, probe_build_kind, BuildKind,
    CardType, DecisionKind, Move,
};
use lib::opener::{
    classify_develop_illegal, classify_farm_illegal, classify_pop_illegal, DecisionKindCounts,
    DevelopFacts, DevelopIllegalReason, FarmFacts, FarmIllegalReason, HandCard, PopFacts,
    PopIllegalReason,
};

#[test]
fn build_target_kind_maps_every_takes_workers_cardtype_to_a_distinct_bucket() {
    assert_eq!(build_target_kind(CardType::Farm), DecisionKind::BuildFarm);
    assert_eq!(build_target_kind(CardType::Mine), DecisionKind::BuildMine);
    assert_eq!(build_target_kind(CardType::Lab), DecisionKind::BuildUrban);
    assert_eq!(build_target_kind(CardType::Theater), DecisionKind::BuildUrban);
    assert_eq!(build_target_kind(CardType::Infantry), DecisionKind::BuildMilitary);
    assert_eq!(build_target_kind(CardType::Air), DecisionKind::BuildMilitary);
}

#[test]
fn decision_kind_splits_build_by_target_and_leaves_every_other_move_kind_distinct() {
    assert_eq!(decision_kind(Move::Take { slot: 0 }), DecisionKind::Take);
    assert_eq!(decision_kind(Move::PopFree), DecisionKind::Pop);
    assert_eq!(decision_kind(Move::WonderStep { steps: 1 }), DecisionKind::WonderStep);
    assert_eq!(decision_kind(Move::PolPass), DecisionKind::Other);
}

#[test]
fn decision_kind_reads_end_turn_as_its_own_kind_distinct_from_other() {
    assert_eq!(decision_kind(Move::EndTurn), DecisionKind::EndTurn);
    assert_ne!(DecisionKind::EndTurn, DecisionKind::Other);
}

#[test]
fn probe_build_kind_is_none_for_every_non_build_shaped_move() {
    assert_eq!(probe_build_kind(Move::Take { slot: 0 }), None);
    assert_eq!(probe_build_kind(Move::EndTurn), None);
    assert_eq!(probe_build_kind(Move::PopFree), None);
}

#[test]
fn probe_build_kind_reads_wonder_step_as_its_own_kind_distinct_from_every_build_target() {
    assert_eq!(probe_build_kind(Move::WonderStep { steps: 2 }), Some(BuildKind::WonderStep));
}

#[test]
fn decision_kind_counts_total_equals_the_sum_of_every_recorded_kind() {
    let mut c = DecisionKindCounts::default();
    c.record(DecisionKind::Take);
    c.record(DecisionKind::BuildFarm);
    c.record(DecisionKind::Other);
    assert_eq!(c.total(), 3);
}

fn farm(farm_cards: usize, workers_free: u8) -> FarmFacts {
    FarmFacts {
        farm_cards,
        workers_free,
        civil_actions: 4,
        build_ca_exempt: false,
        build_cost: Some(2),
        resources: 0,
        trade_fill: 0,
    }
}

#[test]
fn classify_farm_illegal_reports_no_such_card_in_play_when_the_tableau_has_no_farm_tech() {
    let (reason, _multi) = classify_farm_illegal(&farm(0, 1));
    assert_eq!(reason, FarmIllegalReason::CardNotInPlay);
}

#[test]
fn classify_farm_illegal_reports_no_free_worker_when_the_owned_farm_card_has_none_left() {
    let (reason, _multi) = classify_farm_illegal(&farm(1, 0));
    assert_eq!(reason, FarmIllegalReason::FreeWorkerUnavailable);
}

#[test]
fn classify_farm_illegal_reports_the_civil_action_then_the_cost() {
    let mut f = farm(2, 1);
    f.civil_actions = 0;
    assert_eq!(classify_farm_illegal(&f), (FarmIllegalReason::CivilActionUnavailable, true));
    f.build_ca_exempt = true;
    assert_eq!(classify_farm_illegal(&f), (FarmIllegalReason::ResourcesUnaffordable, true));
}

fn pop(round: u16) -> PopFacts {
    PopFacts {
        round,
        pop_cost: Some(3),
        free_pop_per_turn: false,
        ocean_liners_used: false,
        yellow_bank: 4,
        pop_food_discount: 0,
        food: 1,
        pop_cost_base: Some(3),
        spare_ca: 2,
        pop_ca_exempt: false,
    }
}

#[test]
fn classify_pop_illegal_reports_round1_take_only_when_the_round_is_one() {
    assert_eq!(classify_pop_illegal(&pop(1)), PopIllegalReason::Round1TakeOnly);
}

#[test]
fn classify_pop_illegal_reports_yellow_bank_empty_when_the_bank_has_no_worker() {
    let mut f = pop(2);
    f.yellow_bank = 0;
    f.pop_cost = None;
    assert_eq!(classify_pop_illegal(&f), PopIllegalReason::YellowBankEmpty);
}

#[test]
fn classify_pop_illegal_reports_no_civil_action_when_the_bank_has_a_worker_but_ca_is_spent() {
    let mut f = pop(2);
    f.spare_ca = 0;
    assert!(f.yellow_bank > 0);
    assert_eq!(classify_pop_illegal(&f), PopIllegalReason::CivilActionUnavailable);
}

#[test]
fn classify_pop_illegal_reports_food_when_everything_else_is_clear() {
    assert_eq!(classify_pop_illegal(&pop(2)), PopIllegalReason::FoodUnaffordable);
}

fn develop(round: u16, hand: Vec<HandCard>) -> DevelopFacts {
    DevelopFacts { round, hand, spare_ca: 1, develop_ca_exempt: false, science_pact_ok: true, science: 0 }
}

#[test]
fn classify_develop_illegal_reports_round1_take_only_when_the_round_is_one() {
    assert_eq!(classify_develop_illegal(&develop(1, vec![])).0, DevelopIllegalReason::Round1TakeOnly);
}

#[test]
fn classify_develop_illegal_reports_no_eligible_card_when_hand_civil_is_empty() {
    assert_eq!(classify_develop_illegal(&develop(2, vec![])).0, DevelopIllegalReason::NoEligibleCardInHand);
}

#[test]
fn classify_develop_illegal_counts_eligible_cards_and_reads_science_last() {
    let hand = vec![
        HandCard { kind: CardType::Farm, tech_cost: Some(4) },
        HandCard { kind: CardType::Leader, tech_cost: None },
        HandCard { kind: CardType::Government, tech_cost: Some(6) },
    ];
    assert_eq!(
        classify_develop_illegal(&develop(3, hand)),
        (DevelopIllegalReason::ScienceUnaffordable, true)
    );
    let only_leader = vec![HandCard { kind: CardType::Leader, tech_cost: None }];
    assert_eq!(
        classify_develop_illegal(&develop(3, only_leader)),
        (DevelopIllegalReason::NoEligibleCardInHand, false)
    );
}

#[test]
fn develop_eligible_kind_accepts_government_and_every_takes_workers_or_specialtech_type_only() {
    assert!(develop_eligible_kind(CardType::Government));
    assert!(develop_eligible_kind(CardType::Farm));
    assert!(develop_eligible_kind(CardType::SpecialTech));
    assert!(!develop_eligible_kind(CardType::Wonder));
    assert!(!develop_eligible_kind(CardType::Action));
    assert!(!develop_eligible_kind(CardType::Leader));
}

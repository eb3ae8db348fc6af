use lib::cards::{
    all_build_kinds, build_kind, build_kind_label, is_aggression, is_event, is_pact, is_tactic,
    is_territory, is_war, is_wonder, played_civil_card, BuildKind, Card, CardType, DecisionKind,
    Move,
};
use lib::opener::{
    record_decision, ActionPointStats, BuildPresenceCounts, BuildRankSamples, DecisionFacts,
    DecisionKindCounts, DevelopFacts, DevelopIllegalReason, DevelopReasonCounts, FarmFacts,
    FarmIllegalReason, FarmReasonCounts, PoolDelta, PopFacts, PopIllegalReason, PopReasonCounts,
    Report,
};

fn pools(pre_ca: i8, post_ca: i8, pre_ma: i8, post_ma: i8) -> PoolDelta {
    PoolDelta { pre_ca, pre_ma, post_ca, post_ma }
}

#[test]
fn action_points_land_in_their_round_and_end_turn_counts_a_turn() {
    let mut s = ActionPointStats::default();
    s.record(1, &Move::Take { slot: 2 }, pools(4, 1, 2, 2));
    s.record(2, &Move::War, pools(3, 3, 3, 0));
    s.record(2, &Move::EndTurn, pools(0, 4, 0, 3));
    s.record(3, &Move::PopFree, pools(1, 2, 0, 0));
    assert_eq!((s.ca, s.ma, s.ca_decisions, s.ma_decisions), (3, 3, 1, 1));
    assert_eq!((s.ca_round1, s.ca_round2, s.ca_round3), (3, 0, 0));
    assert_eq!((s.ma_round1, s.ma_round2, s.ma_round3), (0, 3, 0));
    assert_eq!((s.turns_round1, s.turns_round2, s.turns_round3), (0, 1, 0));
    let mut t = ActionPointStats::default();
    t.record(3, &Move::Bid, pools(2, 1, 0, 0));
    s.merge(t);
    assert_eq!((s.ca, s.ca_decisions, s.ca_round3), (4, 2, 1));
}

#[test]
fn decision_kind_counts_merge_kind_by_kind() {
    let mut a = DecisionKindCounts::default();
    a.record(DecisionKind::Pop);
    let mut b = DecisionKindCounts::default();
    b.record(DecisionKind::Pop);
    b.record(DecisionKind::EndTurn);
    a.merge(b);
    assert_eq!((a.pop, a.end_turn, a.total()), (2, 1, 3));
}

#[test]
fn build_rank_samples_keep_each_kind_apart() {
    let mut s = BuildRankSamples::default();
    s.record(BuildKind::Farm, 2);
    s.record(BuildKind::Mine, 1);
    s.record(BuildKind::Farm, 5);
    assert_eq!(s.get(BuildKind::Farm), &[2, 5]);
    assert_eq!(s.get(BuildKind::Mine), &[1]);
    assert!(s.get(BuildKind::WonderStep).is_empty());
    let mut t = BuildRankSamples::default();
    t.record(BuildKind::Farm, 9);
    s.merge(t);
    assert_eq!(s.get(BuildKind::Farm), &[2, 5, 9]);
}

#[test]
fn build_presence_counts_present_and_absent() {
    let mut c = BuildPresenceCounts::default();
    c.record(BuildKind::Urban, true);
    c.record(BuildKind::Urban, false);
    c.record(BuildKind::Urban, true);
    assert_eq!(c.counts(BuildKind::Urban), (2, 1));
    assert_eq!(c.counts(BuildKind::Military), (0, 0));
    let d = c;
    c.merge(d);
    assert_eq!(c.counts(BuildKind::Urban), (4, 2));
}

#[test]
fn reason_counts_record_and_merge() {
    let mut f = FarmReasonCounts::default();
    f.record(FarmIllegalReason::FreeWorkerUnavailable);
    f.merge(f);
    assert_eq!(f.no_free_worker, 2);
    let mut p = PopReasonCounts::default();
    p.record(PopIllegalReason::FoodUnaffordable);
    p.record(PopIllegalReason::Round1TakeOnly);
    p.merge(PopReasonCounts::default());
    assert_eq!((p.no_food, p.round1_take_only, p.yellow_bank_empty), (1, 1, 0));
    let mut d = DevelopReasonCounts::default();
    d.record(DevelopIllegalReason::SciencePactPartnersUnavailable);
    assert_eq!(d.no_science_pact_partners, 1);
}

fn facts(round: u16) -> DecisionFacts {
    DecisionFacts {
        farm: FarmFacts {
            farm_cards: 0,
            workers_free: 1,
            civil_actions: 1,
            build_ca_exempt: false,
            build_cost: Some(2),
            resources: 0,
            trade_fill: 0,
        },
        pop: PopFacts {
            round,
            pop_cost: Some(3),
            free_pop_per_turn: false,
            ocean_liners_used: false,
            yellow_bank: 2,
            pop_food_discount: 0,
            food: 0,
            pop_cost_base: Some(3),
            spare_ca: 1,
            pop_ca_exempt: false,
        },
        develop: DevelopFacts {
            round,
            hand: vec![],
            spare_ca: 1,
            develop_ca_exempt: false,
            science_pact_ok: true,
            science: 0,
        },
    }
}

#[test]
fn record_decision_counts_each_item_once() {
    let farm = Move::Build { card: Card { id: 7, kind: CardType::Farm } };
    let mut r = Report::default();
    record_decision(&mut r, &facts(1), &[Move::Take { slot: 0 }, Move::EndTurn], &[Move::EndTurn, Move::Take { slot: 0 }]);
    record_decision(&mut r, &facts(2), &[farm, Move::Pop, Move::EndTurn], &[farm, Move::EndTurn, Move::Pop]);
    assert_eq!(r.decisions, 2);
    assert_eq!((r.top_kind.end_turn, r.top_kind.build_farm), (1, 1));
    assert_eq!((r.farm_legal, r.farm_illegal, r.farm_illegal_reason.no_such_card_in_play), (1, 1, 1));
    assert_eq!((r.pop_legal, r.pop_illegal, r.pop_illegal_reason.round1_take_only), (1, 1, 1));
    assert_eq!(r.pop_rank, vec![3]);
    assert_eq!(r.pop_legal_not_chosen_top_kind.build_farm, 1);
    assert_eq!((r.develop_legal, r.develop_illegal), (0, 2));
    assert_eq!(r.develop_illegal_reason.round1_take_only, 1);
    assert_eq!(r.develop_illegal_reason.no_eligible_card, 1);
    assert_eq!(r.build_rank.get(BuildKind::Farm), &[1]);
    assert_eq!(r.build_presence.counts(BuildKind::Farm), (1, 1));
}

#[test]
fn report_merge_sums_counters_and_appends_samples() {
    let mut a = Report::default();
    record_decision(&mut a, &facts(1), &[Move::EndTurn], &[Move::EndTurn]);
    let mut b = Report::default();
    record_decision(&mut b, &facts(2), &[Move::Pop, Move::EndTurn], &[Move::Pop, Move::EndTurn]);
    a.merge(b);
    assert_eq!(a.decisions, 2);
    assert_eq!((a.pop_legal, a.pop_illegal), (1, 1));
    assert_eq!(a.pop_rank, vec![1]);
    assert_eq!(a.top_kind.total(), 2);
}

#[test]
fn card_helpers_name_and_classify_card_types() {
    assert_eq!(build_kind(CardType::Cavalry), "Military");
    assert_eq!(build_kind(CardType::Wonder), "WonderStage");
    assert_eq!(build_kind(CardType::Leader), "Other");
    assert_eq!(build_kind(CardType::Lab), "Lab");
    let labels: Vec<&str> = all_build_kinds().iter().map(|k| build_kind_label(*k)).collect();
    assert_eq!(labels.len(), 5);
    assert!(labels.iter().all(|l| !l.is_empty()));
    assert!(is_wonder(CardType::Wonder) && !is_wonder(CardType::Farm));
    assert!(is_tactic(CardType::Tactic) && is_aggression(CardType::Aggression) && is_war(CardType::War));
    assert!(is_pact(CardType::Pact) && is_event(CardType::Event) && is_territory(CardType::Territory));
    let c = Card { id: 3, kind: CardType::Leader };
    assert_eq!(played_civil_card(Move::PlayLeader { card: c }), Some(c));
    assert_eq!(played_civil_card(Move::Build { card: c }), None);
    assert_eq!(played_civil_card(Move::EndTurn), None);
}

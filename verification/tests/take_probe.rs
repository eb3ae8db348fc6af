use lib::take_probe::{
    build_illegal_reason_idx, build_illegal_reasons, classify_build_illegal, AdoptStats,
    BuildFacts, BuildIllegalReason, BuildIllegalStats, KeyAdoptStats, SensStats, SENS_KEYS,
    SWEEP_STEPS,
};

#[test]
fn sens_stats_start_at_zero_with_one_cell_per_key_and_multiplier() {
    let s = SensStats::new();
    assert_eq!(s.per_key.len(), SENS_KEYS);
    assert!(s.per_key.iter().all(|row| row.len() == SWEEP_STEPS && row.iter().all(|c| *c == (0, 0, 0))));
    assert_eq!(s.joint_clamp, (0, 0, 0));
}

#[test]
fn sens_stats_merge_adds_cell_by_cell() {
    let mut a = SensStats::new();
    let mut b = SensStats::new();
    a.per_key[2][5] = (3, 1, 2);
    b.per_key[2][5] = (4, 2, 2);
    b.per_key[0][0] = (1, 0, 1);
    b.joint_clamp = (5, 4, 3);
    a.merge(&b);
    assert_eq!(a.per_key[2][5], (7, 3, 4));
    assert_eq!(a.per_key[0][0], (1, 0, 1));
    assert_eq!(a.per_key[17][23], (0, 0, 0));
    assert_eq!(a.joint_clamp, (5, 4, 3));
}

#[test]
fn key_adopt_stats_merge_over_the_shared_keys() {
    let mut a = KeyAdoptStats::new(3);
    a.per_key[0] = (2, 1);
    a.per_key[2] = (9, 9);
    let b = KeyAdoptStats { per_key: vec![(1, 1), (4, 0)] };
    a.merge(&b);
    assert_eq!(a.per_key, vec![(3, 2), (4, 0), (9, 9)]);
}

#[test]
fn adopt_stats_merge_both_sides() {
    let mut a = AdoptStats::new(2);
    let mut b = AdoptStats::new(2);
    b.adopt.per_key[1] = (5, 2);
    b.delete.per_key[0] = (6, 3);
    a.merge(&b);
    assert_eq!(a.adopt.per_key, vec![(0, 0), (5, 2)]);
    assert_eq!(a.delete.per_key, vec![(6, 3), (0, 0)]);
}

#[test]
fn reasons_have_fixed_distinct_slots() {
    let rs = build_illegal_reasons();
    for (i, r) in rs.iter().enumerate() {
        assert_eq!(build_illegal_reason_idx(*r), i);
    }
    assert_eq!(build_illegal_reason_idx(BuildIllegalReason::NoCivilAction), 3);
}

fn facts() -> BuildFacts {
    BuildFacts {
        workers_free: 1,
        build_cost: Some(3),
        resources: 1,
        trade_remaining: 0,
        food: 5,
        civil_actions: 1,
        build_ca_exempt: false,
    }
}

#[test]
fn classify_build_illegal_walks_the_checks_in_order() {
    let mut f = facts();
    f.workers_free = 0;
    assert_eq!(classify_build_illegal(&f), BuildIllegalReason::NoFreeWorker);
    let mut f = facts();
    f.build_cost = None;
    assert_eq!(classify_build_illegal(&f), BuildIllegalReason::NoCostPrinted);
    assert_eq!(classify_build_illegal(&facts()), BuildIllegalReason::CannotPayResources);
    let mut f = facts();
    f.trade_remaining = 2;
    f.civil_actions = 0;
    assert_eq!(classify_build_illegal(&f), BuildIllegalReason::NoCivilAction);
    f.build_ca_exempt = true;
    assert_eq!(classify_build_illegal(&f), BuildIllegalReason::Other);
}

#[test]
fn trade_fill_is_capped_by_food() {
    let mut f = facts();
    f.trade_remaining = 9;
    f.food = 1;
    assert_eq!(classify_build_illegal(&f), BuildIllegalReason::CannotPayResources);
    f.food = 2;
    assert_eq!(classify_build_illegal(&f), BuildIllegalReason::Other);
}

#[test]
fn build_illegal_stats_record_by_round_and_in_total() {
    let mut s = BuildIllegalStats::new();
    s.record(2, BuildIllegalReason::NoFreeWorker);
    s.record(2, BuildIllegalReason::NoFreeWorker);
    s.record(5, BuildIllegalReason::Other);
    assert_eq!(s.total, [2, 0, 0, 0, 1]);
    assert_eq!(s.by_round.get(&2), Some(&[2, 0, 0, 0, 0]));
    assert_eq!(s.by_round.get(&5), Some(&[0, 0, 0, 0, 1]));
    assert_eq!(s.by_round.len(), 2);
}

#[test]
fn build_illegal_stats_merge_sums_rounds_and_totals() {
    let mut a = BuildIllegalStats::new();
    a.record(1, BuildIllegalReason::CannotPayResources);
    a.record(2, BuildIllegalReason::NoFreeWorker);
    let mut b = BuildIllegalStats::new();
    b.record(2, BuildIllegalReason::NoFreeWorker);
    b.record(3, BuildIllegalReason::NoCivilAction);
    a.merge(&b);
    assert_eq!(a.total, [2, 0, 1, 1, 0]);
    assert_eq!(a.by_round.get(&1), Some(&[0, 0, 1, 0, 0]));
    assert_eq!(a.by_round.get(&2), Some(&[2, 0, 0, 0, 0]));
    assert_eq!(a.by_round.get(&3), Some(&[0, 0, 0, 1, 0]));
    assert_eq!(a.by_round.len(), 3);
}

use lib::rank_data::{Health, Recorded, ValueSource};

/// The share the report prints: four decimals.
fn share(h: &Health) -> String {
    match h.overruled {
        Some(n) if h.sampled > 0 => format!("{:.4}", n as f64 / h.sampled as f64),
        _ => String::new(),
    }
}

#[test]
fn the_disagree_rate_is_na_when_there_was_no_net_to_compare_against() {
    let h = Health { sampled: 100, overruled: None, ..Health::default() };
    assert_eq!(h.disagree_rate(&share(&h)), "NA");
}

#[test]
fn the_disagree_rate_is_na_when_nothing_was_sampled() {
    let h = Health { sampled: 0, overruled: Some(0), ..Health::default() };
    assert_eq!(h.disagree_rate(&share(&h)), "NA");
}

#[test]
fn the_disagree_rate_is_the_overruled_share_of_sampled_decisions() {
    let h = Health { sampled: 200, overruled: Some(113), ..Health::default() };
    assert_eq!(h.disagree_rate(&share(&h)), "0.5650");
}

#[test]
fn any_game_reporting_search_leaves_makes_the_run_report_search_leaves() {
    let mut h = Health::default();
    h.fold(&Recorded { values_from: ValueSource::PreMoveState, sampled: 3, overruled: Some(1) });
    h.fold(&Recorded { values_from: ValueSource::SearchLeaves, sampled: 5, overruled: Some(2) });
    assert_eq!(h.values_from, ValueSource::SearchLeaves);
    assert_eq!(h.sampled, 8);
    assert_eq!(h.overruled, Some(3));
}

#[test]
fn a_game_without_a_net_leaves_the_overrule_count_alone() {
    let mut h = Health::default();
    h.fold(&Recorded { values_from: ValueSource::PreMoveState, sampled: 4, overruled: None });
    assert_eq!(h.overruled, None);
    h.fold(&Recorded { values_from: ValueSource::SearchLeaves, sampled: 1, overruled: Some(1) });
    h.fold(&Recorded { values_from: ValueSource::PreMoveState, sampled: 2, overruled: None });
    assert_eq!((h.sampled, h.overruled, h.values_from), (7, Some(1), ValueSource::SearchLeaves));
}

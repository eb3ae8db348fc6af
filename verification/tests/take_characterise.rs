use lib::cards::Move;
use lib::take_characterise::{reject_name, uncounted_take_slot, Decision, TakeRejection};

#[test]
fn reject_name_names_each_check() {
    assert_eq!(reject_name(None), "LEGAL (no rejection)");
    assert_eq!(reject_name(Some(TakeRejection::EmptySlot)), "EmptySlot");
    assert_eq!(reject_name(Some(TakeRejection::HandFull)), "HandFull");
    assert_eq!(reject_name(Some(TakeRejection::DuplicateCard)), "DuplicateCard");
}

#[test]
fn an_illegal_take_reports_its_slot() {
    let d = Decision { human_move: Move::Take { slot: 4 }, legal_moves: vec![Move::Take { slot: 1 }, Move::EndTurn] };
    assert_eq!(uncounted_take_slot(&d), Some(4));
}

#[test]
fn a_legal_take_or_another_move_reports_nothing() {
    let d = Decision { human_move: Move::Take { slot: 1 }, legal_moves: vec![Move::Take { slot: 1 }] };
    assert_eq!(uncounted_take_slot(&d), None);
    let d = Decision { human_move: Move::EndTurn, legal_moves: vec![] };
    assert_eq!(uncounted_take_slot(&d), None);
}

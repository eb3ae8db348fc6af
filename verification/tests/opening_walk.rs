use lib::cards::{Card, CardType, Move};
use lib::opening_walk::{opening_line, ProductionCurve, SeatOpening, TurnWatch};

fn card(id: u16, kind: CardType) -> Card {
    Card { id, kind }
}

#[test]
fn an_opening_keeps_the_first_take_and_build_of_rounds_one_to_three() {
    let mut o = SeatOpening::new();
    o.record(1, Move::Take { slot: 2 }, None, "", 0);
    o.record(1, Move::Take { slot: 3 }, Some(("Hanging Gardens".to_string(), 3)), "", 0);
    o.record(2, Move::Take { slot: 1 }, Some(("Moses".to_string(), 1)), "", 0);
    o.record(2, Move::Upgrade { to: card(5, CardType::Mine) }, None, "Bronze", 0);
    o.record(2, Move::Build { card: card(6, CardType::Temple) }, None, "Religion", 0);
    o.record(3, Move::EndTurn, None, "", 2);
    o.record(3, Move::PopFree, None, "", 0);
    o.record(4, Move::PlayLeader { card: card(7, CardType::Leader) }, None, "Caesar", 0);
    o.record(4, Move::EndTurn, None, "", 4);
    o.record(5, Move::WonderStep { steps: 1 }, None, "", 0);
    o.record(6, Move::WonderStep { steps: 1 }, None, "", 0);
    assert_eq!(o.first_take, Some(("Hanging Gardens".to_string(), 3)));
    assert_eq!(o.first_build, Some(("Mine".to_string(), "Bronze".to_string())));
    assert!(o.increased_pop && !o.took_leader);
    assert_eq!(o.ca_unused, 2);
    assert_eq!(o.first_wonder_round, Some(5));
    assert_eq!(opening_line("7520001", 2, &o, "win"), "7520001\t2\tHanging Gardens\t3\tMine\tBronze\tfalse\ttrue\t2\twin");
}

#[test]
fn an_empty_opening_prints_none_and_minus_one() {
    let o = SeatOpening::new();
    assert_eq!(opening_line("g", 0, &o, "unknown"), "g\t0\tnone\t-1\tnone\tnone\tfalse\tfalse\t0\tunknown");
}

#[test]
fn a_turn_starts_at_a_change_of_player() {
    let mut w = TurnWatch::new();
    let starts: Vec<bool> = [0u8, 0, 1, 1, 2, 0].iter().map(|&a| w.starts_turn(a)).collect();
    assert_eq!(starts, vec![true, false, true, false, true, true]);
}

#[test]
fn production_is_summed_per_round() {
    let mut c = ProductionCurve::new();
    c.record(1, 2, 3);
    c.record(1, 4, 1);
    c.record(2, 1, 1);
    assert_eq!(c.by_round.get(&1), Some(&(6, 4, 2)));
    assert_eq!(c.by_round.get(&2), Some(&(1, 1, 1)));
}

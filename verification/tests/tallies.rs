use lib::tallies::{in_scope, Category, DecisionTally, GoalTally};

#[test]
fn in_scope_accepts_only_take_card_and_increase_population() {
    assert!(in_scope(Category::TakeCard));
    assert!(in_scope(Category::IncreasePopulation));
    assert!(!in_scope(Category::Build));
    assert!(!in_scope(Category::EndTurn));
    assert!(!in_scope(Category::Other));
}

#[test]
fn goal_tally_adds_each_game() {
    let mut g = GoalTally::default();
    g.add(true, 3, 1);
    g.add(false, 2, 0);
    g.add(true, 0, 4);
    assert_eq!((g.achieved, g.forced, g.fallthrough), (2, 5, 5));
}

#[test]
fn decision_tally_sums_every_counter() {
    let mut t = DecisionTally { decisions: 10, permuted: 4, different: 2, capped: 1 };
    t.add(&DecisionTally { decisions: 5, permuted: 1, different: 0, capped: 3 });
    assert_eq!((t.decisions, t.permuted, t.different, t.capped), (15, 5, 2, 4));
}

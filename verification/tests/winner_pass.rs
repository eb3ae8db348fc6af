use lib::journal::{ActionClass, Age, Color};
use lib::winner_pass::{columns_of, line_fields, ActionFacts, GameAgg, LineFacts, LineFields};

fn fields(colour: Option<Color>, age: Option<Age>, round: u32, text: &str) -> LineFields {
    LineFields { colour, age, round, text: text.to_string() }
}

fn no_facts() -> LineFacts {
    LineFacts { winner_ranks: Vec::new(), strength_scores: Vec::new(), action: None }
}

fn act(class: ActionClass) -> ActionFacts {
    ActionFacts { class, card: None, actor: None, war_target: None, aggression_target: None }
}

#[test]
fn columns_split_at_the_first_four_tabs() {
    let c = columns_of("2026-01-01\tOrange\tII\t8\tOrange builds\tFoo").unwrap();
    assert_eq!((c.colour.as_str(), c.age.as_str(), c.round.as_str(), c.text.as_str()), ("Orange", "II", "8", "Orange builds\tFoo"));
    assert!(columns_of("a\tb\tc\td").is_none());
    assert!(columns_of("").is_none());
}

#[test]
fn line_fields_skip_the_header_and_short_lines_and_read_the_columns() {
    assert!(line_fields(0, "d\tOrange\tI\t1\ttext").is_none());
    assert!(line_fields(3, "only\ttwo").is_none());
    let f = line_fields(4, "d\tPurple\tIV\tq\ttext").unwrap();
    assert_eq!((f.colour, f.age, f.round, f.text.as_str()), (Some(Color::Purple), Some(Age::IV), 0, "text"));
    let g = line_fields(5, "d\tnobody\tV\t12\t").unwrap();
    assert_eq!((g.colour, g.age, g.round, g.text.as_str()), (None, None, 12, ""));
}

#[test]
fn the_first_winner_line_that_parses_sets_ranks_and_scores() {
    let mut g = GameAgg::new(2);
    let text = "THE WINNER IS ALICE AS PURPLE";
    g.record_line(&fields(None, Some(Age::IV), 20, text), LineFacts { winner_ranks: vec![], ..no_facts() });
    assert!(!g.winner_parsed);
    let ranks = vec![(1, Color::Purple, 120), (2, Color::Orange, 98), (3, Color::Green, 50)];
    g.record_line(&fields(None, Some(Age::IV), 20, text), LineFacts { winner_ranks: ranks, ..no_facts() });
    assert!(g.winner_parsed);
    assert_eq!((g.seats[0].rank, g.seats[0].score), (2, 98));
    assert_eq!((g.seats[1].rank, g.seats[1].score), (1, 120));
    g.record_line(&fields(None, None, 0, text), LineFacts { winner_ranks: vec![(1, Color::Orange, 1)], ..no_facts() });
    assert_eq!(g.seats[0].rank, 2);
    let mut h = GameAgg::new(2);
    h.record_line(&fields(None, None, 0, "no marker here"), LineFacts { winner_ranks: vec![(1, Color::Orange, 1)], ..no_facts() });
    assert!(!h.winner_parsed);
}

#[test]
fn the_strength_line_gives_every_seat_zero_unless_its_marker_scores() {
    let mut g = GameAgg::new(3);
    let text = "Impact of Strength: Orange scores 4, Green scores 2";
    g.record_line(&fields(None, Some(Age::IV), 20, text), LineFacts { strength_scores: vec![Some(4), None, Some(2)], ..no_facts() });
    assert!(g.has_strength_line);
    assert_eq!((g.seats[0].strength_score, g.seats[1].strength_score, g.seats[2].strength_score), (Some(4), Some(0), Some(2)));
    let mut h = GameAgg::new(2);
    h.record_line(&fields(None, None, 0, "Impact of Progress: Orange scores 4"), LineFacts { strength_scores: vec![Some(4), None], ..no_facts() });
    assert!(!h.has_strength_line);
    assert_eq!(h.seats[0].strength_score, None);
}

#[test]
fn actions_are_counted_for_their_actor_with_their_effects() {
    let mut g = GameAgg::new(2);
    let end = LineFacts { action: Some(act(ActionClass::EndTurn)), ..no_facts() };
    g.record_line(&fields(Some(Color::Orange), Some(Age::II), 7, "End turn: 3 culture (now 17), 2 science (now 9)"), end);
    let wonder = ActionFacts { card: Some(5), ..act(ActionClass::BuildWonderStage) };
    g.record_line(
        &fields(Some(Color::Purple), Some(Age::I), 4, "Purple builds a stage; Wonder completed"),
        LineFacts { action: Some(wonder), ..no_facts() },
    );
    let war = ActionFacts { actor: Some(Color::Purple), war_target: Some(Color::Orange), ..act(ActionClass::DeclareWar) };
    g.record_line(&fields(Some(Color::Orange), Some(Age::III), 9, "declares war on Orange"), LineFacts { action: Some(war), ..no_facts() });
    g.record_line(&fields(None, Some(Age::III), 9, "who?"), LineFacts { action: Some(act(ActionClass::Pass)), ..no_facts() });
    g.record_line(&fields(Some(Color::Grey), Some(Age::III), 9, "grey"), LineFacts { action: Some(act(ActionClass::Pass)), ..no_facts() });
    let o = &g.seats[0];
    assert_eq!((o.age_culture[2], o.age_science[2], o.age_round[2]), (Some(17), Some(9), Some(7)));
    assert_eq!(o.count(ActionClass::EndTurn), 1);
    let p = &g.seats[1];
    assert_eq!(p.wonders, vec![(Age::I, 5)]);
    assert_eq!(p.war_declares, vec![(Age::III, Color::Orange)]);
    assert_eq!((p.count(ActionClass::BuildWonderStage), p.count(ActionClass::DeclareWar), p.count(ActionClass::Pass)), (1, 1, 0));
}

#[test]
fn culture_ranks_put_the_most_first_and_break_ties_by_seat() {
    let mut g = GameAgg::new(3);
    for (colour, now) in [(Color::Orange, 17), (Color::Purple, 17), (Color::Green, 20)] {
        let text = format!("End turn: culture (now {now})");
        g.record_line(&fields(Some(colour), Some(Age::II), 8, &text), LineFacts { action: Some(act(ActionClass::EndTurn)), ..no_facts() });
    }
    g.rank_culture();
    let ranks: Vec<Option<u8>> = g.seats.iter().map(|p| p.age_culture_rank[2]).collect();
    assert_eq!(ranks, vec![Some(2), Some(3), Some(1)]);
    assert_eq!(g.seats[0].age_culture_rank[1], None);
}

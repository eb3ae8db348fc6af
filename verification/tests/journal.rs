use lib::journal::{age_idx, color_for_seat, parse_age, Age, Color};
use lib::replay_stats::action_class_bucket_key;
use lib::text::string_from_chars;

#[test]
fn seats_map_to_the_fixed_colours() {
    assert_eq!(color_for_seat(0), Color::Orange);
    assert_eq!(color_for_seat(1), Color::Purple);
    assert_eq!(color_for_seat(2), Color::Green);
    assert_eq!(color_for_seat(3), Color::Grey);
    assert_eq!(color_for_seat(9), Color::Grey);
    assert_eq!(Color::from_seat(4), None);
    assert_eq!(Color::parse("Green"), Some(Color::Green));
    assert_eq!(Color::parse("green"), None);
    assert_eq!(Color::Purple.as_str(), "Purple");
}

#[test]
fn ages_parse_and_index_in_order() {
    let ages = ["A", "I", "II", "III", "IV"];
    for (i, name) in ages.iter().enumerate() {
        let a = parse_age(name).unwrap();
        assert_eq!(age_idx(a), i);
    }
    assert_eq!(parse_age("V"), None);
    assert_eq!(age_idx(Age::III), 3);
}

#[test]
fn action_class_bucket_key_has_a_bucket_for_no_action() {
    assert_eq!(action_class_bucket_key(None), "(no prior classified action this game)");
}

#[test]
fn string_from_chars_keeps_every_character() {
    assert_eq!(string_from_chars(&['a', 'é', '#']), "aé#");
}

use lib::harness_args::{parse_args, parse_fields_args, Args, USAGE};

fn argv(words: &[&str]) -> Vec<String> {
    words.iter().map(|w| w.to_string()).collect()
}

fn settings(words: &[&str]) -> Args {
    parse_args(&argv(words)).args.unwrap().unwrap()
}

fn error(words: &[&str]) -> String {
    match parse_args(&argv(words)).args {
        Err(e) => e,
        Ok(_) => panic!("expected an error"),
    }
}

#[test]
fn harness_defaults_seat_the_operator_first_at_a_hard_three_player_table() {
    let a = settings(&[]);
    assert_eq!((a.players, a.seat, a.seed), (3, 0, 0));
    assert_eq!(a.difficulty, "hard");
    assert!(!a.free);
    assert_eq!(a.dlc, None);
    assert!(a.personalities.is_empty());
    assert_eq!((a.weights, a.id, a.log, a.load), (None, None, None, None));
}

#[test]
fn harness_reads_every_flag() {
    let a = settings(&[
        "--players", "4", "--seat", "3", "--seed", "12", "--weights", "w.json", "--difficulty", "easy", "--free",
        "--app-version", "2.4.1", "--operator", "kim", "--personality", "Caesar", "--personality", "Cleopatra",
        "--id", "g1", "--log", "games/g1.jsonl", "--load", "snap.json",
    ]);
    assert_eq!((a.players, a.seat, a.seed), (4, 3, 12));
    assert_eq!(a.weights.as_deref(), Some("w.json"));
    assert_eq!(a.difficulty, "easy");
    assert!(a.free);
    assert_eq!((a.app_version.as_str(), a.operator.as_str()), ("2.4.1", "kim"));
    assert_eq!(a.personalities, vec!["Caesar".to_string(), "Cleopatra".to_string()]);
    assert_eq!(a.id.as_deref(), Some("g1"));
    assert_eq!(a.log.as_deref(), Some("games/g1.jsonl"));
    assert_eq!(a.load.as_deref(), Some("snap.json"));
}

#[test]
fn harness_dlc_is_on_for_one_true_or_yes_in_any_case() {
    for v in ["1", "true", "TRUE", "Yes", "yEs"] {
        assert_eq!(settings(&["--dlc", v]).dlc, Some(true), "{v}");
    }
    for v in ["0", "false", "no", "on", ""] {
        assert_eq!(settings(&["--dlc", v]).dlc, Some(false), "{v}");
    }
}

#[test]
fn harness_lists_every_difficulty_named_before_the_stop() {
    let p = parse_args(&argv(&["--difficulty", "medium", "--difficulty", "nightmare", "--bogus"]));
    assert_eq!(p.difficulties_read, vec!["medium".to_string(), "nightmare".to_string()]);
    assert!(p.args.is_err());
    let q = parse_args(&argv(&["--difficulty", "easy"]));
    assert_eq!(q.difficulties_read, vec!["easy".to_string()]);
    assert_eq!(q.args.unwrap().unwrap().difficulty, "easy");
}

#[test]
fn harness_messages() {
    assert_eq!(error(&["--players", "5"]), "--players must be 2, 3 or 4, got 5");
    assert_eq!(error(&["--players", "2", "--seat", "2"]), "--seat must be 0..1, got 2");
    assert_eq!(error(&["--seat"]), "--seat needs a value");
    assert_eq!(error(&["--seed", "x"]), "--seed: \"x\" is not a number");
    assert_eq!(error(&["--bogus"]), format!("unknown flag --bogus\n\n{USAGE}"));
    assert!(matches!(parse_args(&argv(&["--free", "-h", "--bogus"])).args, Ok(None)));
}

#[test]
fn harness_fields_reads_players_and_seat_without_a_range_check() {
    assert_eq!(parse_fields_args(&[]).unwrap(), Some((3, 0)));
    assert_eq!(parse_fields_args(&argv(&["--players", "4", "--seat", "2"])).unwrap(), Some((4, 2)));
    assert_eq!(parse_fields_args(&argv(&["--seat", "9"])).unwrap(), Some((3, 9)));
    assert_eq!(parse_fields_args(&argv(&["--help"])).unwrap(), None);
    assert_eq!(parse_fields_args(&argv(&["--players"])).err().unwrap(), "--players needs a value");
    assert_eq!(parse_fields_args(&argv(&["--seat", "x"])).err().unwrap(), "--seat: \"x\" is not a number");
    assert_eq!(parse_fields_args(&argv(&["--free"])).err().unwrap(), "unknown flag --free");
}

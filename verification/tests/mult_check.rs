use lib::mult_check::{parse_args, USAGE};

#[test]
fn parse_args_rejects_wrong_argument_count() {
    assert!(parse_args(&["1".to_string(), "2".to_string()]).is_err());
}

#[test]
fn parse_args_rejects_zero_games() {
    let argv = vec!["0".to_string(), "1".to_string(), "1".to_string(), "champ.json".to_string(), "3".to_string()];
    assert!(parse_args(&argv).is_err());
}

#[test]
fn parse_args_rejects_zero_threads() {
    let argv = vec!["1".to_string(), "1".to_string(), "0".to_string(), "champ.json".to_string(), "3".to_string()];
    assert!(parse_args(&argv).is_err());
}

#[test]
fn parse_args_rejects_out_of_range_players() {
    let argv = vec!["1".to_string(), "1".to_string(), "1".to_string(), "champ.json".to_string(), "5".to_string()];
    assert!(parse_args(&argv).is_err());
}

#[test]
fn parse_args_reads_positional_fields() {
    let argv = vec![
        "10".to_string(),
        "1001".to_string(),
        "5".to_string(),
        "champ3p.json".to_string(),
        "3".to_string(),
    ];
    let a = parse_args(&argv).expect("valid args");
    assert_eq!(a.games, 10);
    assert_eq!(a.seed, 1001);
    assert_eq!(a.threads, 5);
    assert_eq!(a.champion_path, "champ3p.json");
    assert_eq!(a.players, 3);
}

#[test]
fn parse_args_messages_name_the_bad_value() {
    let count = parse_args(&["1".to_string()]).err().unwrap();
    assert_eq!(count, format!("{USAGE}\ngot 1 argument(s), expected 5"));
    let argv = vec!["ten".to_string(), "1".to_string(), "1".to_string(), "c".to_string(), "3".to_string()];
    assert_eq!(parse_args(&argv).err().unwrap(), "games: \"ten\" is not a number");
    let argv = vec!["1".to_string(), "1".to_string(), "1".to_string(), "c".to_string(), "300".to_string()];
    assert_eq!(parse_args(&argv).err().unwrap(), "players: \"300\" is not a number");
    let argv = vec!["1".to_string(), "1".to_string(), "1".to_string(), "c".to_string(), "1".to_string()];
    assert_eq!(parse_args(&argv).err().unwrap(), "players must be 2, 3, or 4, got 1");
}

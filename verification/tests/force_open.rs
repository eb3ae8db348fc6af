use lib::force_open::{parse_args, parse_policy, OpeningPolicy, DEFAULT_CHAMPION, USAGE};

fn argv(words: &[&str]) -> Vec<String> {
    words.iter().map(|w| w.to_string()).collect()
}

#[test]
fn games_round_down_to_a_whole_number_of_deals() {
    let parsed = parse_args(&["--policy".into(), "mine-first".into(), "--games".into(), "7".into()])
        .unwrap()
        .unwrap();
    assert_eq!(parsed.games, 6);
}

#[test]
fn a_run_with_no_policy_flag_is_rejected() {
    assert!(parse_args(&["--games".into(), "300".into()]).is_err());
}

#[test]
fn an_unknown_policy_name_is_rejected() {
    assert!(parse_policy("wonder-first").is_err());
}

#[test]
fn every_documented_policy_name_parses() {
    for name in ["unforced", "mine-first", "leader-by-round-three", "mine-first-and-leader", "military-first"] {
        assert!(parse_policy(name).is_ok(), "{name} should parse");
    }
}

#[test]
fn each_policy_name_reads_as_its_own_policy() {
    assert_eq!(parse_policy("unforced"), Ok(OpeningPolicy::Unforced));
    assert_eq!(parse_policy("mine-first"), Ok(OpeningPolicy::MineFirst));
    assert_eq!(parse_policy("leader-by-round-three"), Ok(OpeningPolicy::LeaderByRoundThree));
    assert_eq!(parse_policy("mine-first-and-leader"), Ok(OpeningPolicy::MineFirstAndLeader));
    assert_eq!(parse_policy("military-first"), Ok(OpeningPolicy::MilitaryFirst));
}

#[test]
fn an_unknown_policy_message_quotes_the_name_and_lists_the_choices() {
    assert_eq!(
        parse_policy("wonder-first"),
        Err("unknown --policy \"wonder-first\", want one of: unforced, mine-first, leader-by-round-three, mine-first-and-leader, military-first".to_string())
    );
}

#[test]
fn defaults_fill_every_flag_not_given() {
    let a = parse_args(&argv(&["--policy", "unforced"])).unwrap().unwrap();
    assert_eq!(a.policy, OpeningPolicy::Unforced);
    assert_eq!(a.games, 300);
    assert_eq!(a.seed, 0);
    assert_eq!(a.threads, 1);
    assert_eq!(a.champion, DEFAULT_CHAMPION);
}

#[test]
fn every_flag_is_read() {
    let a = parse_args(&argv(&[
        "--seed", "9", "--threads", "4", "--champion", "c.json", "--policy", "military-first", "--games", "10",
    ]))
    .unwrap()
    .unwrap();
    assert_eq!((a.policy, a.games, a.seed, a.threads), (OpeningPolicy::MilitaryFirst, 10, 9, 4));
    assert_eq!(a.champion, "c.json");
}

#[test]
fn help_stops_reading_before_any_check() {
    assert!(parse_args(&argv(&["--help"])).unwrap().is_none());
    assert!(parse_args(&argv(&["-h", "--bogus"])).unwrap().is_none());
}

#[test]
fn each_error_names_what_went_wrong() {
    assert_eq!(parse_args(&argv(&["--games"])).err().unwrap(), "--games needs a value");
    assert_eq!(parse_args(&argv(&["--games", "x"])).err().unwrap(), "bad --games");
    assert_eq!(parse_args(&argv(&["--seed", "-1"])).err().unwrap(), "bad --seed");
    assert_eq!(parse_args(&argv(&["--threads", ""])).err().unwrap(), "bad --threads");
    assert_eq!(
        parse_args(&argv(&["--policy", "mine-first", "--games", "1"])).err().unwrap(),
        "--games must be at least 2 (a whole 2p deal)"
    );
    assert_eq!(
        parse_args(&argv(&["--policy", "mine-first", "--threads", "0"])).err().unwrap(),
        "--threads must be at least 1"
    );
    assert_eq!(parse_args(&argv(&[])).err().unwrap(), format!("--policy is required\n\n{USAGE}"));
    assert_eq!(parse_args(&argv(&["--x"])).err().unwrap(), format!("unknown flag --x\n\n{USAGE}"));
}

use lib::order_probe::{parse_args, DEFAULT_MAX_NODES};

fn argv(words: &[&str]) -> Vec<String> {
    words.iter().map(|w| w.to_string()).collect()
}

#[test]
fn parse_args_requires_a_policy_checkpoint() {
    let argv = vec!["--max-nodes".to_string(), "60".to_string()];
    assert!(parse_args(&argv).is_err(), "no --policy-checkpoint was given");
}

#[test]
fn parse_args_reads_max_nodes_and_checkpoint() {
    let argv = vec![
        "--policy-checkpoint".to_string(),
        "foo.ckpt".to_string(),
        "--max-nodes".to_string(),
        "60".to_string(),
    ];
    let args = parse_args(&argv).unwrap().unwrap();
    assert_eq!(args.max_nodes, 60);
    assert_eq!(args.policy_checkpoint, "foo.ckpt");
}

#[test]
fn parse_args_rejects_a_nonpositive_max_nodes() {
    let argv =
        vec!["--policy-checkpoint".to_string(), "foo.ckpt".to_string(), "--max-nodes".to_string(), "0".to_string()];
    assert!(parse_args(&argv).is_err(), "a zero node budget can never run a search");
}

#[test]
fn parse_args_defaults_and_rounds_games_to_whole_deals() {
    let a = parse_args(&argv(&["--policy-checkpoint", "p", "--players", "3", "--games", "10"])).unwrap().unwrap();
    assert_eq!(a.max_nodes, DEFAULT_MAX_NODES);
    assert_eq!(a.games, 9);
    assert_eq!(a.players, 3);
    assert_eq!(a.seed, 0);
    assert_eq!(a.threads, 1);
}

#[test]
fn parse_args_messages() {
    assert_eq!(
        parse_args(&argv(&["--policy-checkpoint", "p", "--max-nodes", "-5"])).err().unwrap(),
        "--max-nodes must be positive, got -5"
    );
    assert_eq!(
        parse_args(&argv(&["--policy-checkpoint", "p", "--players", "5"])).err().unwrap(),
        "--players must be 2, 3 or 4, got 5"
    );
    assert_eq!(
        parse_args(&argv(&["--policy-checkpoint", "p", "--players", "4", "--games", "3"])).err().unwrap(),
        "--games must be at least 4 at 4p"
    );
    assert_eq!(parse_args(&argv(&["--seed", "x"])).err().unwrap(), "--seed: \"x\" is not a number");
    assert_eq!(parse_args(&argv(&["--threads"])).err().unwrap(), "--threads needs a value");
    assert!(parse_args(&argv(&["--help"])).unwrap().is_none());
}

#[test]
fn accepted_settings_are_whole_deals_at_every_player_count() {
    for (players, games, want) in [("2", "7", 6usize), ("3", "11", 9), ("4", "13", 12), ("4", "4", 4)] {
        let a = parse_args(&argv(&["--policy-checkpoint", "p", "--players", players, "--games", games]))
            .unwrap()
            .unwrap();
        assert_eq!(a.games, want);
        assert_eq!(a.games % a.players as usize, 0);
        assert!(a.threads >= 1 && a.max_nodes >= 1);
    }
}

use lib::self_play_args::{parse_args, Args, Parsed, Stop};

fn run(r: Result<Parsed, String>) -> Args {
    match r.unwrap() {
        Parsed::Run(a) => a,
        Parsed::Stopped(_) => panic!("expected settings to run with"),
    }
}

#[test]
fn selfplay_args_default_to_a_runnable_smoke_test() {
    let a = run(parse_args(&[]).outcome);
    assert_eq!(a.players, 3);
    assert!(a.games > 0);
    assert!(a.rotate);
}

#[test]
fn selfplay_flags_without_values_do_not_eat_the_next_flag() {
    let argv = ["--verbose".to_string(), "--games".to_string(), "7".to_string()];
    let a = run(parse_args(&argv).outcome);
    assert!(a.verbose);
    assert_eq!(a.games, 7);
}

#[test]
fn selfplay_player_counts_outside_the_base_game_are_rejected() {
    for n in ["1", "5"] {
        assert!(parse_args(&["--players".to_string(), n.to_string()]).outcome.is_err());
    }
}

fn argv(words: &[&str]) -> Vec<String> {
    words.iter().map(|w| w.to_string()).collect()
}

#[test]
fn selfplay_reads_every_flag() {
    let a = run(parse_args(&argv(&[
        "--games", "9", "--players", "4", "--bots", "greedy,weighted", "--seed", "77", "--weights", "champ.json",
        "--threads", "2", "--no-rotate", "-v",
    ]))
    .outcome);
    assert_eq!((a.games, a.players, a.seed, a.threads), (9, 4, 77, 2));
    assert_eq!(a.bots, "greedy,weighted");
    assert_eq!(a.weights_path.as_deref(), Some("champ.json"));
    assert!(!a.rotate && a.verbose);
    let d = run(parse_args(&[]).outcome);
    assert_eq!((d.games, d.seed, d.threads, d.bots.as_str(), d.weights_path), (20, 1, 1, "weighted", None));
    assert!(!d.verbose);
}

#[test]
fn selfplay_stops_for_help_and_for_the_bot_list() {
    assert!(matches!(parse_args(&argv(&["--help"])).outcome, Ok(Parsed::Stopped(Stop::Help))));
    assert!(matches!(parse_args(&argv(&["-h", "--frob"])).outcome, Ok(Parsed::Stopped(Stop::Help))));
    assert!(matches!(parse_args(&argv(&["--list-bots", "--players", "9"])).outcome, Ok(Parsed::Stopped(Stop::ListBots))));
}

#[test]
fn selfplay_messages() {
    let e = |w: &[&str]| match parse_args(&argv(w)).outcome {
        Err(e) => e,
        Ok(_) => panic!("expected an error"),
    };
    assert_eq!(e(&["--players", "5"]), "--players must be 2, 3 or 4, got 5");
    assert_eq!(e(&["--games", "0"]), "--games must be at least 1");
    assert_eq!(e(&["--threads", "0"]), "--threads must be at least 1");
    assert_eq!(e(&["--seed"]), "--seed needs a value");
    assert_eq!(e(&["--games", "many"]), "--games: \"many\" is not a number");
    assert_eq!(e(&["--players", "300"]), "--players: \"300\" is not a number");
    assert!(e(&["--frob"]).starts_with("unknown flag --frob\n\nusage: selfplay [options]"));
}

#[test]
fn selfplay_lists_every_weights_file_named_before_the_stop() {
    let r = parse_args(&argv(&["--weights", "a.json", "--games", "3", "--weights", "b.json", "--frob", "--weights", "c.json"]));
    assert_eq!(r.weights_read, vec!["a.json".to_string(), "b.json".to_string()]);
    assert!(r.outcome.is_err());
    let ok = parse_args(&argv(&["--weights", "a.json", "--weights", "b.json"]));
    assert_eq!(ok.weights_read.len(), 2);
    assert_eq!(run(ok.outcome).weights_path.as_deref(), Some("b.json"));
}

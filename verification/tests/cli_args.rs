use lib::{opener_args, phi_dump, strength_relab, take_probe_args};

fn argv(words: &[&str]) -> Vec<String> {
    words.iter().map(|w| w.to_string()).collect()
}

#[test]
fn opener_probe_needs_weights_and_reads_zero_threads_as_one() {
    assert_eq!(opener_args::parse_args(&argv(&[])).err().unwrap(), "--weights is required");
    let a = opener_args::parse_args(&argv(&["--weights", "w.json", "--threads", "0"])).unwrap().unwrap();
    assert_eq!((a.games, a.players, a.seed, a.threads), (20, 3, 1, 1));
    assert_eq!(a.weights_path, "w.json");
}

#[test]
fn opener_probe_rejects_bad_values() {
    assert_eq!(opener_args::parse_args(&argv(&["--games", "x"])).err().unwrap(), "bad --games");
    assert_eq!(
        opener_args::parse_args(&argv(&["--weights", "w", "--players", "1"])).err().unwrap(),
        "--players must be 2, 3 or 4, got 1"
    );
    assert_eq!(
        opener_args::parse_args(&argv(&["--weights", "w", "--games", "0"])).err().unwrap(),
        "--games must be at least 1"
    );
    assert!(opener_args::parse_args(&argv(&["-h"])).unwrap().is_none());
}

#[test]
fn take_probe_reads_its_switches() {
    let a = take_probe_args::parse_args(&argv(&["--weights", "w", "--sensitivity", "--interpolate", "h.json", "--normalize"]))
        .unwrap()
        .unwrap();
    assert!(a.sensitivity && a.normalize && !a.build);
    assert_eq!(a.interpolate_path.as_deref(), Some("h.json"));
    assert_eq!(a.games, 200);
}

#[test]
fn take_probe_rejects_incompatible_switches() {
    assert_eq!(
        take_probe_args::parse_args(&argv(&["--weights", "w", "--normalize"])).err().unwrap(),
        "--normalize requires --interpolate PATH"
    );
    assert_eq!(
        take_probe_args::parse_args(&argv(&["--weights", "w", "--build", "--sensitivity"])).err().unwrap(),
        "--build is mutually exclusive with --sensitivity/--interpolate/--normalize"
    );
    let b = take_probe_args::parse_args(&argv(&["--build", "--weights", "w"])).unwrap().unwrap();
    assert!(b.build);
}

#[test]
fn strength_relab_rounds_games_and_reads_the_opponent() {
    let a = strength_relab::parse_args(&argv(&["--weights", "w", "--players", "3", "--games", "10", "--opponent", "roundgated"]))
        .unwrap()
        .unwrap();
    assert_eq!(a.games, 9);
    assert_eq!(a.opponent, strength_relab::Opponent::RoundGated);
    let d = strength_relab::parse_args(&argv(&["--weights", "w"])).unwrap().unwrap();
    assert_eq!((d.games, d.players, d.seed, d.threads, d.opponent), (1000, 2, 0, 1, strength_relab::Opponent::Legacy));
}

#[test]
fn strength_relab_messages() {
    assert_eq!(
        strength_relab::parse_args(&argv(&["--opponent", "new"])).err().unwrap(),
        "bad --opponent new (want legacy or roundgated)"
    );
    assert_eq!(
        strength_relab::parse_args(&argv(&["--weights", "w", "--players", "4", "--games", "3"])).err().unwrap(),
        "games must be at least 4 at 4p"
    );
}

#[test]
fn phi_dump_requires_weights_and_keeps_the_default_out() {
    let e = phi_dump::parse_args(&argv(&["--games", "3"])).err().unwrap();
    assert_eq!(e, format!("--weights is required\n\n{}", phi_dump::USAGE));
    let a = phi_dump::parse_args(&argv(&["--weights", "frozen.json"])).unwrap().unwrap();
    assert_eq!((a.games, a.players, a.seed, a.threads), (32, 2, 1, 1));
    assert_eq!(a.out, phi_dump::DEFAULT_OUT);
    assert_eq!(a.weights.as_deref(), Some("frozen.json"));
}

#[test]
fn phi_dump_messages() {
    let e = phi_dump::parse_args(&argv(&["--out"])).err().unwrap();
    assert_eq!(e, format!("--out needs a value\n\n{}", phi_dump::USAGE));
    assert_eq!(
        phi_dump::parse_args(&argv(&["--games", "many"])).err().unwrap(),
        "--games: \"many\" is not a number"
    );
    assert_eq!(
        phi_dump::parse_args(&argv(&["--weights", "w", "--threads", "0"])).err().unwrap(),
        "--threads must be at least 1"
    );
}

#[test]
fn every_driver_has_the_documented_defaults() {
    let o = opener_args::Args::default();
    assert_eq!((o.games, o.players, o.seed, o.threads), (20, 3, 1, 1));
    assert!(o.weights_path.is_empty());
    let t = take_probe_args::Args::default();
    assert_eq!((t.games, t.players, t.seed, t.threads), (200, 3, 1, 1));
    assert!(!t.sensitivity && !t.normalize && !t.build && t.interpolate_path.is_none());
    let s = strength_relab::Args::default();
    assert_eq!((s.games, s.players, s.seed, s.threads), (1000, 2, 0, 1));
    let p = phi_dump::Args::default();
    assert_eq!((p.games, p.players, p.seed, p.threads), (32, 2, 1, 1));
    assert_eq!(p.out, "phi_dump.bin");
    let f = lib::force_open::Args::default();
    assert_eq!((f.games, f.seed, f.threads), (300, 0, 1));
    let r = lib::order_probe::Args::default();
    assert_eq!((r.max_nodes, r.games, r.players, r.seed, r.threads), (4000, 12, 2, 0, 1));
}

#[test]
fn phi_dump_margins_are_against_the_best_other_seat() {
    assert_eq!(phi_dump::score_margins(&[10, 14, 14]), vec![-4, 0, 0]);
    assert_eq!(phi_dump::score_margins(&[30, 12]), vec![18, -18]);
    assert_eq!(phi_dump::score_margins(&[7]), vec![7]);
    assert_eq!(phi_dump::score_margins(&[-3, -5, -1, -9]), vec![-2, -4, 2, -8]);
}

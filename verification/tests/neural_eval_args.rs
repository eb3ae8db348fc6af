use lib::neural_eval_args::{parse_args, USAGE};

fn argv(words: &[&str]) -> Vec<String> {
    words.iter().map(|w| w.to_string()).collect()
}

#[test]
fn defaults_are_a_runnable_two_player_mirror() {
    let a = parse_args(&[]).unwrap().unwrap();
    assert_eq!(a.players, 2);
    assert_eq!(a.a, a.b);
}

#[test]
fn neuraleval_flags_without_values_do_not_eat_the_next_flag() {
    let argv = ["--games".to_string(), "40".to_string(), "--threads".to_string(), "3".to_string()];
    let a = parse_args(&argv).unwrap().unwrap();
    assert_eq!(a.games, 40);
    assert_eq!(a.threads, 3);
}

#[test]
fn an_unknown_flag_is_rejected() {
    assert!(parse_args(&["--device".into(), "cuda".into()]).is_err());
}

#[test]
fn neuraleval_reads_both_specs_and_the_numbers() {
    let a = parse_args(&argv(&[
        "--a", "nplan:cand.ckpt,width=8", "--b", "plan:champ.json", "--games", "12", "--players", "3", "--seed", "5",
    ]))
    .unwrap()
    .unwrap();
    assert_eq!(a.a, "nplan:cand.ckpt,width=8");
    assert_eq!(a.b, "plan:champ.json");
    assert_eq!((a.games, a.players, a.seed, a.threads), (12, 3, 5, 1));
    let d = parse_args(&[]).unwrap().unwrap();
    assert_eq!((d.a.as_str(), d.games, d.seed), ("weighted", 200, 0));
}

#[test]
fn neuraleval_messages() {
    assert_eq!(parse_args(&argv(&["--a"])).err().unwrap(), "--a needs a value");
    assert_eq!(parse_args(&argv(&["--seed", "-1"])).err().unwrap(), "--seed: \"-1\" is not a number");
    assert_eq!(
        parse_args(&argv(&["--device", "cuda"])).err().unwrap(),
        format!("unknown flag --device\n\n{USAGE}")
    );
    assert!(parse_args(&argv(&["--help", "--device"])).unwrap().is_none());
}

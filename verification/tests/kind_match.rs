use lib::kind_match_args::{scan_args, settle, Args, KindClass};
use lib::order_probe::DEFAULT_MAX_NODES;

/// The class of a bot kind named on the command line, for the kinds these
/// tests name.
fn class_of(kind: &str) -> KindClass {
    match kind {
        "human" => KindClass::Human,
        "plan" => KindClass::Plan,
        _ => KindClass::Other,
    }
}

/// Reads a whole command line: the flags, then the checks against the two
/// final kinds.
fn parse_args(argv: &[String]) -> Result<Option<Args>, String> {
    let scanned = scan_args(argv);
    match scanned.flags {
        Ok(Some(f)) => {
            let (a, b) = (class_of(&f.a_kind), class_of(&f.b_kind));
            settle(f, a, b).map(Some)
        }
        Ok(None) => Ok(None),
        Err(e) => Err(e),
    }
}

fn argv(words: &[&str]) -> Vec<String> {
    words.iter().map(|w| w.to_string()).collect()
}

#[test]
fn policy_checkpoint_and_a_policy_parse_into_the_matching_args_fields() {
    let argv = vec![
        "--a".to_string(),
        "plan".to_string(),
        "--b".to_string(),
        "plan".to_string(),
        "--policy-checkpoint".to_string(),
        "control.ckpt".to_string(),
        "--a-policy".to_string(),
    ];
    let args = parse_args(&argv).unwrap().unwrap();
    assert_eq!(args.flags.policy_checkpoint.as_deref(), Some("control.ckpt"));
    assert!(args.flags.a_policy, "--a-policy should have set a_policy");
    assert!(!args.flags.b_policy, "--b-policy was never passed, so b_policy must stay off");
}

#[test]
fn omitting_every_policy_flag_leaves_the_prior_off_by_default() {
    let args = parse_args(&["--a".to_string(), "plan".to_string(), "--b".to_string(), "plan".to_string()])
        .unwrap()
        .unwrap();
    assert_eq!(args.flags.policy_checkpoint, None);
    assert!(!args.flags.a_policy);
    assert!(!args.flags.b_policy);
}

#[test]
fn a_policy_is_rejected_when_a_is_not_plan() {
    let argv = vec![
        "--a".to_string(),
        "weighted".to_string(),
        "--a-policy".to_string(),
        "--policy-checkpoint".to_string(),
        "control.ckpt".to_string(),
    ];
    assert!(parse_args(&argv).is_err());
}

#[test]
fn a_policy_without_a_policy_checkpoint_is_rejected() {
    let argv = vec!["--a".to_string(), "plan".to_string(), "--a-policy".to_string()];
    assert!(parse_args(&argv).is_err());
}

#[test]
fn policy_checkpoint_given_with_no_side_enabled_is_rejected() {
    let argv = vec!["--policy-checkpoint".to_string(), "control.ckpt".to_string()];
    assert!(parse_args(&argv).is_err());
}

#[test]
fn max_nodes_flag_parses_into_the_matching_args_field() {
    let argv = vec!["--max-nodes".to_string(), "400".to_string()];
    let args = parse_args(&argv).unwrap().unwrap();
    assert_eq!(args.flags.max_nodes, 400);
}

#[test]
fn max_nodes_rejects_a_nonpositive_value() {
    let argv = vec!["--max-nodes".to_string(), "0".to_string()];
    assert!(parse_args(&argv).is_err(), "a zero node budget can never run a search");
}

#[test]
fn kindmatch_defaults_are_a_three_player_weighted_mirror() {
    let a = parse_args(&[]).unwrap().unwrap();
    assert_eq!((a.flags.a_kind.as_str(), a.flags.b_kind.as_str()), ("weighted", "weighted"));
    assert_eq!((a.flags.games, a.flags.players, a.flags.seed, a.flags.threads), (60, 3, 0, 1));
    assert_eq!(a.flags.max_nodes, DEFAULT_MAX_NODES);
    assert_eq!((a.a_weights_file.clone(), a.b_weights_file.clone()), (None, None));
}

#[test]
fn kindmatch_sides_fall_back_to_the_shared_weights_file_unless_overridden() {
    let a = parse_args(&argv(&["--weights", "shared.json"])).unwrap().unwrap();
    assert_eq!(a.a_weights_file.as_deref(), Some("shared.json"));
    assert_eq!(a.b_weights_file.as_deref(), Some("shared.json"));
    let b = parse_args(&argv(&["--weights", "shared.json", "--a-weights", "a_only.json"])).unwrap().unwrap();
    assert_eq!(b.a_weights_file.as_deref(), Some("a_only.json"));
    assert_eq!(b.b_weights_file.as_deref(), Some("shared.json"));
    let c = parse_args(&argv(&["--b-weights", "b_only.json"])).unwrap().unwrap();
    assert_eq!(c.a_weights_file, None);
    assert_eq!(c.b_weights_file.as_deref(), Some("b_only.json"));
}

#[test]
fn kindmatch_rounds_games_down_to_whole_deals() {
    let a = parse_args(&argv(&["--games", "61", "--players", "4"])).unwrap().unwrap();
    assert_eq!(a.flags.games, 60);
    assert_eq!(
        parse_args(&argv(&["--games", "2", "--players", "3"])).err().unwrap(),
        "--games must be at least 3 at 3p"
    );
}

#[test]
fn kindmatch_messages_for_each_check() {
    assert_eq!(parse_args(&argv(&["--players", "5"])).err().unwrap(), "--players must be 2, 3 or 4, got 5");
    assert_eq!(parse_args(&argv(&["--threads", "0"])).err().unwrap(), "--threads must be at least 1");
    assert_eq!(
        parse_args(&argv(&["--a", "weighted", "--a-search"])).err().unwrap(),
        "--a-search is only legal when --a is human"
    );
    assert_eq!(
        parse_args(&argv(&["--b", "plan", "--b-search"])).err().unwrap(),
        "--b-search is only legal when --b is human"
    );
    assert!(parse_args(&argv(&["--a", "human", "--a-search"])).unwrap().unwrap().flags.a_search);
    assert_eq!(
        parse_args(&argv(&["--b-policy", "--policy-checkpoint", "c"])).err().unwrap(),
        "--b-policy is only legal when --b is plan"
    );
    assert_eq!(
        parse_args(&argv(&["--a", "plan", "--a-policy"])).err().unwrap(),
        "--a-policy/--b-policy need --policy-checkpoint"
    );
    assert_eq!(
        parse_args(&argv(&["--policy-checkpoint", "c"])).err().unwrap(),
        "--policy-checkpoint given but neither --a-policy nor --b-policy was set"
    );
    assert_eq!(
        parse_args(&argv(&["--a", "plan", "--b", "plan", "--b-policy", "--policy-checkpoint", "c", "--a-policy-invert"]))
            .err()
            .unwrap(),
        "--a-policy-invert is only legal alongside --a-policy"
    );
    assert_eq!(parse_args(&argv(&["--max-nodes", "-3"])).err().unwrap(), "--max-nodes must be positive, got -3");
}

#[test]
fn kindmatch_lists_every_kind_named_up_to_where_reading_stopped() {
    let s = scan_args(&argv(&["--a", "plan", "--b", "human", "--a", "weighted", "--frob", "--b", "x"]));
    assert_eq!(s.kinds_read, vec!["plan".to_string(), "human".to_string(), "weighted".to_string()]);
    assert!(s.flags.err().unwrap().starts_with("unknown flag --frob\n\nusage: kindmatch"));
    let h = scan_args(&argv(&["--b", "plan", "--help", "--a", "x"]));
    assert_eq!(h.kinds_read, vec!["plan".to_string()]);
    assert!(matches!(h.flags, Ok(None)));
    let m = scan_args(&argv(&["--a"]));
    assert!(m.kinds_read.is_empty());
    assert_eq!(m.flags.err().unwrap(), "--a needs a value");
}

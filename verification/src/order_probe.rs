//! The move-ordering probe's command line.
use vstd::prelude::*;
use crate::args::{not_a_number, parse_num, parse_signed_num};
use crate::num::{
    decimal_text, lemma_parse_unsigned_range, parse_signed_spec, parse_unsigned_spec, push_decimal,
    push_int,
};
use crate::text::str_eq;

verus! {

broadcast use vstd::string::group_string_axioms;

/// The usage text.
pub const USAGE: &'static str = "usage: orderprobe --policy-checkpoint PATH [options]

  --policy-checkpoint PATH  a TTAPOL01 policy checkpoint, loaded once
  --max-nodes N   plan::PlanConfig::max_nodes for every seat (default 4000)
  --games N       games; rounded down to a whole number of deals (default 12)
  --players N     2, 3 or 4 (default 2)
  --seed N        base deal seed (default 0)
  --threads N     games in parallel (default 1)
  --help
";

/// The search's node budget per seat unless `--max-nodes` gives another.
pub const DEFAULT_MAX_NODES: i64 = 4000;

/// The probe's settings.
pub struct Args {
    pub policy_checkpoint: String,
    pub max_nodes: i64,
    pub games: usize,
    pub players: u8,
    pub seed: u64,
    pub threads: usize,
}

/// The settings as plain values.
pub struct ArgsView {
    pub policy_checkpoint: Seq<char>,
    pub max_nodes: int,
    pub games: int,
    pub players: int,
    pub seed: int,
    pub threads: int,
}

impl Args {
    /// The settings as plain values.
    pub open spec fn view(&self) -> ArgsView {
        ArgsView {
            policy_checkpoint: self.policy_checkpoint@,
            max_nodes: self.max_nodes as int,
            games: self.games as int,
            players: self.players as int,
            seed: self.seed as int,
            threads: self.threads as int,
        }
    }
}

impl Default for Args {
    /// The settings before any flag is read.
    fn default() -> (a: Args)
        ensures
            a.view() == default_args(),
    {
        Args {
            policy_checkpoint: String::new(),
            max_nodes: DEFAULT_MAX_NODES,
            games: 12,
            players: 2,
            seed: 0,
            threads: 1,
        }
    }
}

/// The settings before any flag is read.
pub open spec fn default_args() -> ArgsView {
    ArgsView {
        policy_checkpoint: Seq::<char>::empty(),
        max_nodes: DEFAULT_MAX_NODES as int,
        games: 12,
        players: 2,
        seed: 0,
        threads: 1,
    }
}

/// What reading a command line comes to: settings to run with, `None` when
/// help was asked for, or an error message.
pub type Outcome = Result<Option<ArgsView>, Seq<char>>;

/// The checks made once every flag is read.
pub open spec fn finish(a: ArgsView) -> Outcome {
    let games = a.games - a.games % a.players;
    if a.policy_checkpoint.len() == 0 {
        Err("--policy-checkpoint is required\n\n"@ + USAGE@)
    } else if !(2 <= a.players <= 4) {
        Err("--players must be 2, 3 or 4, got "@ + decimal_text(a.players))
    } else if a.threads == 0 {
        Err("--threads must be at least 1"@)
    } else if a.max_nodes <= 0 {
        Err("--max-nodes must be positive, got "@ + decimal_text(a.max_nodes))
    } else if games == 0 {
        Err("--games must be at least "@ + decimal_text(a.players) + " at "@ + decimal_text(
            a.players,
        ) + "p"@)
    } else {
        Ok(Some(ArgsView { games, ..a }))
    }
}

/// Reads the flags `argv[i..]` into `a`.
pub open spec fn scan(argv: Seq<Seq<char>>, i: int, a: ArgsView) -> Outcome
    decreases argv.len() - i,
{
    if i < 0 || i >= argv.len() {
        finish(a)
    } else {
        let flag = argv[i];
        let has_value = i + 1 < argv.len();
        let value = argv[i + 1];
        let missing = flag + " needs a value"@;
        if flag == "--policy-checkpoint"@ {
            if !has_value {
                Err(missing)
            } else {
                scan(argv, i + 2, ArgsView { policy_checkpoint: value, ..a })
            }
        } else if flag == "--max-nodes"@ {
            if !has_value {
                Err(missing)
            } else {
                match parse_signed_spec(value, i64::MIN as int, i64::MAX as int) {
                    None => Err(not_a_number(flag, value)),
                    Some(n) => scan(argv, i + 2, ArgsView { max_nodes: n, ..a }),
                }
            }
        } else if flag == "--games"@ {
            if !has_value {
                Err(missing)
            } else {
                match parse_unsigned_spec(value, usize::MAX as int) {
                    None => Err(not_a_number(flag, value)),
                    Some(n) => scan(argv, i + 2, ArgsView { games: n, ..a }),
                }
            }
        } else if flag == "--players"@ {
            if !has_value {
                Err(missing)
            } else {
                match parse_unsigned_spec(value, u8::MAX as int) {
                    None => Err(not_a_number(flag, value)),
                    Some(n) => scan(argv, i + 2, ArgsView { players: n, ..a }),
                }
            }
        } else if flag == "--seed"@ {
            if !has_value {
                Err(missing)
            } else {
                match parse_unsigned_spec(value, u64::MAX as int) {
                    None => Err(not_a_number(flag, value)),
                    Some(n) => scan(argv, i + 2, ArgsView { seed: n, ..a }),
                }
            }
        } else if flag == "--threads"@ {
            if !has_value {
                Err(missing)
            } else {
                match parse_unsigned_spec(value, usize::MAX as int) {
                    None => Err(not_a_number(flag, value)),
                    Some(n) => scan(argv, i + 2, ArgsView { threads: n, ..a }),
                }
            }
        } else if flag == "--help"@ || flag == "-h"@ {
            Ok(None)
        } else {
            Err("unknown flag "@ + flag + "\n\n"@ + USAGE@)
        }
    }
}

/// What a command line comes to.
pub open spec fn parse_spec(argv: Seq<String>) -> Outcome {
    scan(argv.map_values(|s: String| s@), 0, default_args())
}

/// An outcome with the settings taken as plain values.
pub open spec fn outcome_view(r: Result<Option<Args>, String>) -> Outcome {
    match r {
        Ok(Some(a)) => Ok(Some(a.view())),
        Ok(None) => Ok(None),
        Err(e) => Err(e@),
    }
}

/// `s` followed by `tail`.
fn joined(s: &str, tail: &str) -> (out: String)
    ensures
        out@ == s@ + tail@,
{
    let mut out = String::from_str(s);
    out.append(tail);
    out
}

/// Reads the command line. `Ok(None)` means help was asked for, and the
/// caller shows [`USAGE`]. `--games` is rounded down to a whole number of
/// deals at the chosen player count.
pub fn parse_args(argv: &[String]) -> (r: Result<Option<Args>, String>)
    ensures
        outcome_view(r) == parse_spec(argv@),
{
    let ghost views = argv@.map_values(|s: String| s@);
    let mut policy_checkpoint = String::new();
    let mut max_nodes: i64 = DEFAULT_MAX_NODES;
    let mut games: usize = 12;
    let mut players: u8 = 2;
    let mut seed: u64 = 0;
    let mut threads: usize = 1;
    let n = argv.len();
    let mut i: usize = 0;
    while i < n
        invariant
            n == argv@.len(),
            views == argv@.map_values(|s: String| s@),
            i <= n,
            scan(views, i as int, ArgsView {
                policy_checkpoint: policy_checkpoint@,
                max_nodes: max_nodes as int,
                games: games as int,
                players: players as int,
                seed: seed as int,
                threads: threads as int,
            }) == parse_spec(argv@),
        decreases n - i,
    {
        let flag = argv[i].as_str();
        assert(flag@ == views[i as int]);
        let has_value = i + 1 < n;
        if has_value {
            assert(argv[i + 1 as int]@ == views[i + 1]);
        }
        if str_eq(flag, "--policy-checkpoint") {
            if !has_value {
                return Err(joined(flag, " needs a value"));
            }
            policy_checkpoint = argv[i + 1].clone();
        } else if str_eq(flag, "--max-nodes") {
            if !has_value {
                return Err(joined(flag, " needs a value"));
            }
            max_nodes = match parse_signed_num(argv[i + 1].as_str(), flag) {
                Ok(v) => v,
                Err(e) => return Err(e),
            };
        } else if str_eq(flag, "--games") {
            if !has_value {
                return Err(joined(flag, " needs a value"));
            }
            games = match parse_num(argv[i + 1].as_str(), flag, usize::MAX as u64) {
                Ok(v) => v as usize,
                Err(e) => return Err(e),
            };
        } else if str_eq(flag, "--players") {
            if !has_value {
                return Err(joined(flag, " needs a value"));
            }
            players = match parse_num(argv[i + 1].as_str(), flag, 255) {
                Ok(v) => v as u8,
                Err(e) => return Err(e),
            };
        } else if str_eq(flag, "--seed") {
            if !has_value {
                return Err(joined(flag, " needs a value"));
            }
            seed = match parse_num(argv[i + 1].as_str(), flag, u64::MAX) {
                Ok(v) => v,
                Err(e) => return Err(e),
            };
        } else if str_eq(flag, "--threads") {
            if !has_value {
                return Err(joined(flag, " needs a value"));
            }
            threads = match parse_num(argv[i + 1].as_str(), flag, usize::MAX as u64) {
                Ok(v) => v as usize,
                Err(e) => return Err(e),
            };
        } else if str_eq(flag, "--help") || str_eq(flag, "-h") {
            return Ok(None);
        } else {
            let mut e = String::from_str("unknown flag ");
            e.append(flag);
            e.append("\n\n");
            e.append(USAGE);
            return Err(e);
        }
        i = i + 2;
    }
    if policy_checkpoint.as_str().unicode_len() == 0 {
        let mut e = String::from_str("--policy-checkpoint is required\n\n");
        e.append(USAGE);
        return Err(e);
    }
    if !(2 <= players && players <= 4) {
        let mut e = String::from_str("--players must be 2, 3 or 4, got ");
        push_decimal(&mut e, players as u64);
        proof {
            assert(decimal_text(players as int) == crate::num::decimal_digits(players as nat));
        }
        return Err(e);
    }
    if threads == 0 {
        return Err(String::from_str("--threads must be at least 1"));
    }
    if max_nodes <= 0 {
        let mut e = String::from_str("--max-nodes must be positive, got ");
        push_int(&mut e, max_nodes);
        return Err(e);
    }
    let per_deal = players as usize;
    assert(games % per_deal <= games) by (nonlinear_arith)
        requires
            per_deal > 0,
    ;
    games = games - games % per_deal;
    if games == 0 {
        let mut e = String::from_str("--games must be at least ");
        push_decimal(&mut e, per_deal as u64);
        e.append(" at ");
        push_decimal(&mut e, players as u64);
        e.append("p");
        proof {
            assert(decimal_text(players as int) == crate::num::decimal_digits(players as nat));
        }
        return Err(e);
    }
    Ok(Some(Args { policy_checkpoint, max_nodes, games, players, seed, threads }))
}

/// Once every flag is read, settings that pass the checks hold a whole
/// number of deals at a supported player count.
proof fn lemma_finish_whole_deals(a: ArgsView)
    requires
        a.games >= 0,
        a.threads >= 0,
    ensures
        finish(a) matches Ok(Some(r)) ==> {
            &&& 2 <= r.players <= 4
            &&& r.games % r.players == 0
            &&& r.games >= r.players
            &&& r.threads >= 1
            &&& r.max_nodes >= 1
            &&& r.policy_checkpoint.len() > 0
        },
{
    if 2 <= a.players <= 4 {
        let p = a.players;
        let g = a.games - a.games % p;
        assert(g % p == 0 && g >= 0) by (nonlinear_arith)
            requires
                p > 0,
                a.games >= 0,
                g == a.games - a.games % p,
        ;
        assert(g != 0 ==> g >= p) by (nonlinear_arith)
            requires
                p > 0,
                g >= 0,
                g % p == 0,
        ;
    }
}

/// Flags read from `argv[i..]` onto settings with neither a count of games
/// nor threads negative end, when accepted, in a whole number of deals.
proof fn lemma_scan_whole_deals(argv: Seq<Seq<char>>, i: int, a: ArgsView)
    requires
        a.games >= 0,
        a.threads >= 0,
    ensures
        scan(argv, i, a) matches Ok(Some(r)) ==> {
            &&& 2 <= r.players <= 4
            &&& r.games % r.players == 0
            &&& r.games >= r.players
            &&& r.threads >= 1
            &&& r.max_nodes >= 1
            &&& r.policy_checkpoint.len() > 0
        },
    decreases argv.len() - i,
{
    if i < 0 || i >= argv.len() {
        lemma_finish_whole_deals(a);
    } else if i + 1 < argv.len() {
        let flag = argv[i];
        let value = argv[i + 1];
        if flag == "--policy-checkpoint"@ {
            lemma_scan_whole_deals(argv, i + 2, ArgsView { policy_checkpoint: value, ..a });
        } else if flag == "--max-nodes"@ {
            if let Some(n) = parse_signed_spec(value, i64::MIN as int, i64::MAX as int) {
                lemma_scan_whole_deals(argv, i + 2, ArgsView { max_nodes: n, ..a });
            }
        } else if flag == "--games"@ {
            lemma_parse_unsigned_range(value, usize::MAX as int);
            if let Some(n) = parse_unsigned_spec(value, usize::MAX as int) {
                lemma_scan_whole_deals(argv, i + 2, ArgsView { games: n, ..a });
            }
        } else if flag == "--players"@ {
            if let Some(n) = parse_unsigned_spec(value, u8::MAX as int) {
                lemma_scan_whole_deals(argv, i + 2, ArgsView { players: n, ..a });
            }
        } else if flag == "--seed"@ {
            if let Some(n) = parse_unsigned_spec(value, u64::MAX as int) {
                lemma_scan_whole_deals(argv, i + 2, ArgsView { seed: n, ..a });
            }
        } else if flag == "--threads"@ {
            lemma_parse_unsigned_range(value, usize::MAX as int);
            if let Some(n) = parse_unsigned_spec(value, usize::MAX as int) {
                lemma_scan_whole_deals(argv, i + 2, ArgsView { threads: n, ..a });
            }
        }
    }
}

/// Whatever the command line, settings that it is accepted with play a whole
/// number of deals (at least one) at 2, 3 or 4 players, on at least one
/// thread, with a positive node budget and a policy checkpoint named.
pub proof fn lemma_accepted_settings_are_whole_deals(argv: Seq<String>)
    ensures
        parse_spec(argv) matches Ok(Some(r)) ==> {
            &&& 2 <= r.players <= 4
            &&& r.games % r.players == 0
            &&& r.games >= r.players
            &&& r.threads >= 1
            &&& r.max_nodes >= 1
            &&& r.policy_checkpoint.len() > 0
        },
{
    lemma_scan_whole_deals(argv.map_values(|s: String| s@), 0, default_args());
}

} // verus!

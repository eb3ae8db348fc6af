//! The two-spec evaluation driver's command line.
//!
//! Reading the flags is this module's; both specs are checked against the
//! engine's spec grammar after, on the settings it returns, before any
//! checkpoint is read.
use vstd::prelude::*;
use crate::args::{not_a_number, parse_num};
use crate::num::parse_unsigned_spec;
use crate::text::str_eq;

verus! {

broadcast use vstd::string::group_string_axioms;

/// The usage text.
pub const USAGE: &'static str = "usage: neuraleval [options]

  --a SPEC        challenger, seated one per game and rotated through every
                  seat (default weighted)
  --b SPEC        defender, seated in every other chair (default weighted)
  --games N       games; rounded DOWN to a whole number of deals (default 200)
  --players N     2, 3 or 4 (default 2)
  --seed N        base deal seed (default 0)
  --threads N     games in parallel (default 1)
  --help

A SPEC is KIND[:PATH][,KEY=VALUE]...

  KIND    random, greedy, weighted, quiescent, plan  (PATH is a weights JSON)
          neural, nplan                              (PATH is a checkpoint)
  KEY     width=  beam width                 (plan, nplan)
          nodes=  apply-call cap per decision (nplan)
          det=    determinize at the root, 0/1 (plan, neural, nplan)
          etb=    end-turn score bias        (neural)
          war=    price a declared war       (plan, nplan)

A KEY the KIND does not read is an ERROR, not a no-op: a silently ignored
width= measures a different bot than the one you asked for.

  neuraleval --a nplan:cand.ckpt,width=8 --b nplan:best.ckpt,width=8 --games 200
  neuraleval --a nplan:cand.ckpt,width=8 --b plan:champion_2p.json,width=8

Exit status is 0 on a completed run whatever the result; it is non-zero only
if the run itself failed.  Read the SUMMARY line.
";

/// The driver's settings: the challenger's spec `a`, the defender's `b`.
pub struct Args {
    pub a: String,
    pub b: String,
    pub games: usize,
    pub players: u8,
    pub seed: u64,
    pub threads: usize,
}

/// The settings as plain values.
pub struct ArgsView {
    pub a: Seq<char>,
    pub b: Seq<char>,
    pub games: int,
    pub players: int,
    pub seed: int,
    pub threads: int,
}

impl Args {
    /// The settings as plain values.
    pub open spec fn view(&self) -> ArgsView {
        ArgsView {
            a: self.a@,
            b: self.b@,
            games: self.games as int,
            players: self.players as int,
            seed: self.seed as int,
            threads: self.threads as int,
        }
    }
}

impl Default for Args {
    /// The settings before any flag is read: a two-player mirror of the
    /// weighted bot.
    fn default() -> (a: Args)
        ensures
            a.view() == default_args(),
    {
        Args {
            a: String::from_str("weighted"),
            b: String::from_str("weighted"),
            games: 200,
            players: 2,
            seed: 0,
            threads: 1,
        }
    }
}

/// The settings before any flag is read.
pub open spec fn default_args() -> ArgsView {
    ArgsView { a: "weighted"@, b: "weighted"@, games: 200, players: 2, seed: 0, threads: 1 }
}

/// What reading a command line comes to: settings to run with, `None` when
/// help was asked for, or an error message.
pub type Outcome = Result<Option<ArgsView>, Seq<char>>;

/// Reads the flags `argv[i..]` into `a`.
pub open spec fn scan(argv: Seq<Seq<char>>, i: int, a: ArgsView) -> Outcome
    decreases argv.len() - i,
{
    if i < 0 || i >= argv.len() {
        Ok(Some(a))
    } else {
        let flag = argv[i];
        let has_value = i + 1 < argv.len();
        let value = argv[i + 1];
        let missing = flag + " needs a value"@;
        if flag == "--a"@ {
            if !has_value {
                Err(missing)
            } else {
                scan(argv, i + 2, ArgsView { a: value, ..a })
            }
        } else if flag == "--b"@ {
            if !has_value {
                Err(missing)
            } else {
                scan(argv, i + 2, ArgsView { b: value, ..a })
            }
        } else if flag == "--games"@ {
            if !has_value {
                Err(missing)
            } else {
                match parse_unsigned_spec(value, usize::MAX as int) {
                    None => Err(not_a_number(flag, value)),
                    Some(n) => scan(argv, i + 2, ArgsView { games: n, ..a }),
                }
            }
        } else if flag == "--players"@ {
            if !has_value {
                Err(missing)
            } else {
                match parse_unsigned_spec(value, u8::MAX as int) {
                    None => Err(not_a_number(flag, value)),
                    Some(n) => scan(argv, i + 2, ArgsView { players: n, ..a }),
                }
            }
        } else if flag == "--seed"@ {
            if !has_value {
                Err(missing)
            } else {
                match parse_unsigned_spec(value, u64::MAX as int) {
                    None => Err(not_a_number(flag, value)),
                    Some(n) => scan(argv, i + 2, ArgsView { seed: n, ..a }),
                }
            }
        } else if flag == "--threads"@ {
            if !has_value {
                Err(missing)
            } else {
                match parse_unsigned_spec(value, usize::MAX as int) {
                    None => Err(not_a_number(flag, value)),
                    Some(n) => scan(argv, i + 2, ArgsView { threads: n, ..a }),
                }
            }
        } else if flag == "--help"@ || flag == "-h"@ {
            Ok(None)
        } else {
            Err("unknown flag "@ + flag + "\n\n"@ + USAGE@)
        }
    }
}

/// What a command line comes to.
pub open spec fn parse_spec(argv: Seq<String>) -> Outcome {
    scan(argv.map_values(|s: String| s@), 0, default_args())
}

/// An outcome with the settings taken as plain values.
pub open spec fn outcome_view(r: Result<Option<Args>, String>) -> Outcome {
    match r {
        Ok(Some(a)) => Ok(Some(a.view())),
        Ok(None) => Ok(None),
        Err(e) => Err(e@),
    }
}

/// `s` followed by `tail`.
fn joined(s: &str, tail: &str) -> (out: String)
    ensures
        out@ == s@ + tail@,
{
    let mut out = String::from_str(s);
    out.append(tail);
    out
}

/// Reads the command line. `Ok(None)` means help was asked for, and the
/// caller shows [`USAGE`]. A flag that is not known, or a value missing or
/// not a number, is an error; every flag takes a value, so none swallows the
/// flag after it unread.
pub fn parse_args(argv: &[String]) -> (r: Result<Option<Args>, String>)
    ensures
        outcome_view(r) == parse_spec(argv@),
{
    let ghost views = argv@.map_values(|s: String| s@);
    let mut a = String::from_str("weighted");
    let mut b = String::from_str("weighted");
    let mut games: usize = 200;
    let mut players: u8 = 2;
    let mut seed: u64 = 0;
    let mut threads: usize = 1;
    let n = argv.len();
    let mut i: usize = 0;
    while i < n
        invariant
            n == argv@.len(),
            views == argv@.map_values(|s: String| s@),
            i <= n,
            scan(views, i as int, ArgsView {
                a: a@,
                b: b@,
                games: games as int,
                players: players as int,
                seed: seed as int,
                threads: threads as int,
            }) == parse_spec(argv@),
        decreases n - i,
    {
        let flag = argv[i].as_str();
        assert(flag@ == views[i as int]);
        let has_value = i + 1 < n;
        if has_value {
            assert(argv[i + 1 as int]@ == views[i + 1]);
        }
        if str_eq(flag, "--a") {
            if !has_value {
                return Err(joined(flag, " needs a value"));
            }
            a = argv[i + 1].clone();
        } else if str_eq(flag, "--b") {
            if !has_value {
                return Err(joined(flag, " needs a value"));
            }
            b = argv[i + 1].clone();
        } else if str_eq(flag, "--games") {
            if !has_value {
                return Err(joined(flag, " needs a value"));
            }
            games = match parse_num(argv[i + 1].as_str(), flag, usize::MAX as u64) {
                Ok(v) => v as usize,
                Err(e) => return Err(e),
            };
        } else if str_eq(flag, "--players") {
            if !has_value {
                return Err(joined(flag, " needs a value"));
            }
            players = match parse_num(argv[i + 1].as_str(), flag, 255) {
                Ok(v) => v as u8,
                Err(e) => return Err(e),
            };
        } else if str_eq(flag, "--seed") {
            if !has_value {
                return Err(joined(flag, " needs a value"));
            }
            seed = match parse_num(argv[i + 1].as_str(), flag, u64::MAX) {
                Ok(v) => v,
                Err(e) => return Err(e),
            };
        } else if str_eq(flag, "--threads") {
            if !has_value {
                return Err(joined(flag, " needs a value"));
            }
            threads = match parse_num(argv[i + 1].as_str(), flag, usize::MAX as u64) {
                Ok(v) => v as usize,
                Err(e) => return Err(e),
            };
        } else if str_eq(flag, "--help") || str_eq(flag, "-h") {
            return Ok(None);
        } else {
            let mut e = String::from_str("unknown flag ");
            e.append(flag);
            e.append("\n\n");
            e.append(USAGE);
            return Err(e);
        }
        i = i + 2;
    }
    Ok(Some(Args { a, b, games, players, seed, threads }))
}

} // verus!

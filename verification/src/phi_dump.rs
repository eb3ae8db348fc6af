//! The feature-dump driver's command line.
use vstd::prelude::*;
use crate::args::{not_a_number, parse_num};
use crate::num::{decimal_text, lemma_parse_unsigned_range, parse_unsigned_spec, push_decimal};
use crate::text::str_eq;

verus! {

broadcast use vstd::string::group_string_axioms;

/// The usage text.
pub const USAGE: &'static str = "usage: phidump --weights PATH [options]

  --games N      games to play (default 32)
  --players N    2, 3 or 4 (default 2)
  --seed N       base seed; game g uses seed+g (default 1)
  --threads N    games in parallel (default 1)
  --out PATH     dump file to write (default phi_dump.bin); a sidecar
                 <out>.keys lists the feature column names in order
  --weights PATH champion JSON every seat plays, and the freeze point the
                 features are priced at (required; must be a frozen COPY,
                 never the live experiments/ file climb rewrites)
  --help
";

/// The dump file written unless `--out` names another.
pub const DEFAULT_OUT: &'static str = "phi_dump.bin";

/// The driver's settings.
pub struct Args {
    pub games: usize,
    pub players: u8,
    pub seed: u64,
    pub threads: usize,
    pub out: String,
    pub weights: Option<String>,
}

/// The settings as plain values.
pub struct ArgsView {
    pub games: int,
    pub players: int,
    pub seed: int,
    pub threads: int,
    pub out: Seq<char>,
    pub weights: Option<Seq<char>>,
}

impl Args {
    /// The settings as plain values.
    pub open spec fn view(&self) -> ArgsView {
        ArgsView {
            games: self.games as int,
            players: self.players as int,
            seed: self.seed as int,
            threads: self.threads as int,
            out: self.out@,
            weights: match self.weights {
                Some(w) => Some(w@),
                None => None,
            },
        }
    }
}

impl Default for Args {
    /// The settings before any flag is read.
    fn default() -> (a: Args)
        ensures
            a.view() == default_args(),
    {
        Args {
            games: 32,
            players: 2,
            seed: 1,
            threads: 1,
            out: String::from_str(DEFAULT_OUT),
            weights: None,
        }
    }
}

/// The settings before any flag is read.
pub open spec fn default_args() -> ArgsView {
    ArgsView { games: 32, players: 2, seed: 1, threads: 1, out: DEFAULT_OUT@, weights: None }
}

/// What reading a command line comes to: settings to run with, `None` when
/// help was asked for, or an error message.
pub type Outcome = Result<Option<ArgsView>, Seq<char>>;

/// The checks made once every flag is read.
pub open spec fn finish(a: ArgsView) -> Outcome {
    if !(2 <= a.players <= 4) {
        Err("--players must be 2, 3 or 4, got "@ + decimal_text(a.players))
    } else if a.games == 0 {
        Err("--games must be at least 1"@)
    } else if a.threads == 0 {
        Err("--threads must be at least 1"@)
    } else if a.weights is None {
        Err("--weights is required\n\n"@ + USAGE@)
    } else {
        Ok(Some(a))
    }
}

/// Reads the flags `argv[i..]` into `a`.
pub open spec fn scan(argv: Seq<Seq<char>>, i: int, a: ArgsView) -> Outcome
    decreases argv.len() - i,
{
    if i < 0 || i >= argv.len() {
        finish(a)
    } else {
        let flag = argv[i];
        let has_value = i + 1 < argv.len();
        let value = argv[i + 1];
        let missing = flag + " needs a value\n\n"@ + USAGE@;
        if flag == "--games"@ {
            if !has_value {
                Err(missing)
            } else {
                match parse_unsigned_spec(value, usize::MAX as int) {
                    None => Err(not_a_number(flag, value)),
                    Some(n) => scan(argv, i + 2, ArgsView { games: n, ..a }),
                }
            }
        } else if flag == "--players"@ {
            if !has_value {
                Err(missing)
            } else {
                match parse_unsigned_spec(value, u8::MAX as int) {
                    None => Err(not_a_number(flag, value)),
                    Some(n) => scan(argv, i + 2, ArgsView { players: n, ..a }),
                }
            }
        } else if flag == "--seed"@ {
            if !has_value {
                Err(missing)
            } else {
                match parse_unsigned_spec(value, u64::MAX as int) {
                    None => Err(not_a_number(flag, value)),
                    Some(n) => scan(argv, i + 2, ArgsView { seed: n, ..a }),
                }
            }
        } else if flag == "--threads"@ {
            if !has_value {
                Err(missing)
            } else {
                match parse_unsigned_spec(value, usize::MAX as int) {
                    None => Err(not_a_number(flag, value)),
                    Some(n) => scan(argv, i + 2, ArgsView { threads: n, ..a }),
                }
            }
        } else if flag == "--out"@ {
            if !has_value {
                Err(missing)
            } else {
                scan(argv, i + 2, ArgsView { out: value, ..a })
            }
        } else if flag == "--weights"@ {
            if !has_value {
                Err(missing)
            } else {
                scan(argv, i + 2, ArgsView { weights: Some(value), ..a })
            }
        } else if flag == "--help"@ || flag == "-h"@ {
            Ok(None)
        } else {
            Err("unknown flag "@ + flag + "\n\n"@ + USAGE@)
        }
    }
}

/// What a command line comes to.
pub open spec fn parse_spec(argv: Seq<String>) -> Outcome {
    scan(argv.map_values(|s: String| s@), 0, default_args())
}

/// An outcome with the settings taken as plain values.
pub open spec fn outcome_view(r: Result<Option<Args>, String>) -> Outcome {
    match r {
        Ok(Some(a)) => Ok(Some(a.view())),
        Ok(None) => Ok(None),
        Err(e) => Err(e@),
    }
}

/// The message for a flag given without its value.
fn missing_value(flag: &str) -> (out: String)
    ensures
        out@ == flag@ + " needs a value\n\n"@ + USAGE@,
{
    let mut out = String::from_str(flag);
    out.append(" needs a value\n\n");
    out.append(USAGE);
    out
}

/// Reads the command line. `Ok(None)` means help was asked for, and the
/// caller shows [`USAGE`].
pub fn parse_args(argv: &[String]) -> (r: Result<Option<Args>, String>)
    ensures
        outcome_view(r) == parse_spec(argv@),
{
    let ghost views = argv@.map_values(|s: String| s@);
    let mut games: usize = 32;
    let mut players: u8 = 2;
    let mut seed: u64 = 1;
    let mut threads: usize = 1;
    let mut out = String::from_str(DEFAULT_OUT);
    let mut weights: Option<String> = None;
    let n = argv.len();
    let mut i: usize = 0;
    while i < n
        invariant
            n == argv@.len(),
            views == argv@.map_values(|s: String| s@),
            i <= n,
            scan(views, i as int, ArgsView {
                games: games as int,
                players: players as int,
                seed: seed as int,
                threads: threads as int,
                out: out@,
                weights: match weights {
                    Some(w) => Some(w@),
                    None => None,
                },
            }) == parse_spec(argv@),
        decreases n - i,
    {
        let flag = argv[i].as_str();
        assert(flag@ == views[i as int]);
        let has_value = i + 1 < n;
        if has_value {
            assert(argv[i + 1 as int]@ == views[i + 1]);
        }
        if str_eq(flag, "--games") {
            if !has_value {
                return Err(missing_value(flag));
            }
            games = match parse_num(argv[i + 1].as_str(), flag, usize::MAX as u64) {
                Ok(v) => v as usize,
                Err(e) => return Err(e),
            };
        } else if str_eq(flag, "--players") {
            if !has_value {
                return Err(missing_value(flag));
            }
            players = match parse_num(argv[i + 1].as_str(), flag, 255) {
                Ok(v) => v as u8,
                Err(e) => return Err(e),
            };
        } else if str_eq(flag, "--seed") {
            if !has_value {
                return Err(missing_value(flag));
            }
            seed = match parse_num(argv[i + 1].as_str(), flag, u64::MAX) {
                Ok(v) => v,
                Err(e) => return Err(e),
            };
        } else if str_eq(flag, "--threads") {
            if !has_value {
                return Err(missing_value(flag));
            }
            threads = match parse_num(argv[i + 1].as_str(), flag, usize::MAX as u64) {
                Ok(v) => v as usize,
                Err(e) => return Err(e),
            };
        } else if str_eq(flag, "--out") {
            if !has_value {
                return Err(missing_value(flag));
            }
            out = argv[i + 1].clone();
        } else if str_eq(flag, "--weights") {
            if !has_value {
                return Err(missing_value(flag));
            }
            weights = Some(argv[i + 1].clone());
        } else if str_eq(flag, "--help") || str_eq(flag, "-h") {
            return Ok(None);
        } else {
            let mut e = String::from_str("unknown flag ");
            e.append(flag);
            e.append("\n\n");
            e.append(USAGE);
            return Err(e);
        }
        i = i + 2;
    }
    if !(2 <= players && players <= 4) {
        let mut e = String::from_str("--players must be 2, 3 or 4, got ");
        push_decimal(&mut e, players as u64);
        proof {
            assert(decimal_text(players as int) == crate::num::decimal_digits(players as nat));
        }
        return Err(e);
    }
    if games == 0 {
        return Err(String::from_str("--games must be at least 1"));
    }
    if threads == 0 {
        return Err(String::from_str("--threads must be at least 1"));
    }
    if weights.is_none() {
        let mut e = String::from_str("--weights is required\n\n");
        e.append(USAGE);
        return Err(e);
    }
    Ok(Some(Args { games, players, seed, threads, out, weights }))
}

/// Flags read from `argv[i..]` onto settings with neither a count of games
/// nor threads negative end, when accepted, in settings that can be run.
proof fn lemma_scan_can_run(argv: Seq<Seq<char>>, i: int, a: ArgsView)
    requires
        a.games >= 0,
        a.threads >= 0,
    ensures
        scan(argv, i, a) matches Ok(Some(r)) ==> {
            &&& 2 <= r.players <= 4
            &&& r.games >= 1
            &&& r.threads >= 1
            &&& r.weights is Some
        },
    decreases argv.len() - i,
{
    if 0 <= i < argv.len() {
        let flag = argv[i];
        let has_value = i + 1 < argv.len();
        let value = argv[i + 1];
        if flag == "--games"@ {
            lemma_parse_unsigned_range(value, usize::MAX as int);
            if has_value && parse_unsigned_spec(value, usize::MAX as int) is Some {
                let n = parse_unsigned_spec(value, usize::MAX as int)->0;
                lemma_scan_can_run(argv, i + 2, ArgsView { games: n, ..a });
            }
        } else if flag == "--players"@ {
            if has_value && parse_unsigned_spec(value, u8::MAX as int) is Some {
                let n = parse_unsigned_spec(value, u8::MAX as int)->0;
                lemma_scan_can_run(argv, i + 2, ArgsView { players: n, ..a });
            }
        } else if flag == "--seed"@ {
            if has_value && parse_unsigned_spec(value, u64::MAX as int) is Some {
                let n = parse_unsigned_spec(value, u64::MAX as int)->0;
                lemma_scan_can_run(argv, i + 2, ArgsView { seed: n, ..a });
            }
        } else if flag == "--threads"@ {
            lemma_parse_unsigned_range(value, usize::MAX as int);
            if has_value && parse_unsigned_spec(value, usize::MAX as int) is Some {
                let n = parse_unsigned_spec(value, usize::MAX as int)->0;
                lemma_scan_can_run(argv, i + 2, ArgsView { threads: n, ..a });
            }
        } else if flag == "--out"@ {
            if has_value {
                lemma_scan_can_run(argv, i + 2, ArgsView { out: value, ..a });
            }
        } else if flag == "--weights"@ {
            if has_value {
                lemma_scan_can_run(argv, i + 2, ArgsView { weights: Some(value), ..a });
            }
        }
    }
}

/// Whatever the command line, settings that it is accepted with play at
/// least one game at 2, 3 or 4 players on at least one thread, with a
/// weights file named.
pub proof fn lemma_accepted_settings_can_run(argv: Seq<String>)
    ensures
        parse_spec(argv) matches Ok(Some(r)) ==> {
            &&& 2 <= r.players <= 4
            &&& r.games >= 1
            &&& r.threads >= 1
            &&& r.weights is Some
        },
{
    lemma_scan_can_run(argv.map_values(|s: String| s@), 0, default_args());
}

/// The best final score among the first `k` seats other than seat `i`, or
/// `None` when there is none.
pub open spec fn best_other_upto(scores: Seq<i32>, i: int, k: int) -> Option<int>
    decreases k,
{
    if k <= 0 {
        None
    } else {
        let rest = best_other_upto(scores, i, k - 1);
        if k - 1 == i {
            rest
        } else {
            match rest {
                Some(b) => if scores[k - 1] > b {
                    Some(scores[k - 1] as int)
                } else {
                    Some(b)
                },
                None => Some(scores[k - 1] as int),
            }
        }
    }
}

/// Seat `i`'s margin: its final score minus the best other seat's (0 for
/// the other seat when it plays alone), so a tied lead is 0 for both.
pub open spec fn margin(scores: Seq<i32>, i: int) -> int {
    scores[i] - match best_other_upto(scores, i, scores.len() as int) {
        Some(b) => b,
        None => 0,
    }
}

/// Each seat's margin over the best other seat, the label every row of a
/// seat is written with. Every margin fits in `i32`.
pub fn score_margins(scores: &[i32]) -> (r: Vec<i32>)
    requires
        forall|i: int| 0 <= i < scores@.len() ==> i32::MIN <= #[trigger] margin(scores@, i) <= i32::MAX,
    ensures
        r@.len() == scores@.len(),
        forall|i: int| 0 <= i < scores@.len() ==> #[trigger] r@[i] == margin(scores@, i),
{
    let n = scores.len();
    let mut r: Vec<i32> = Vec::new();
    let mut i: usize = 0;
    while i < n
        invariant
            n == scores@.len(),
            i <= n,
            r@.len() == i,
            forall|j: int| 0 <= j < i ==> #[trigger] r@[j] == margin(scores@, j),
            forall|j: int| 0 <= j < n ==> i32::MIN <= #[trigger] margin(scores@, j) <= i32::MAX,
        decreases n - i,
    {
        let mut best: Option<i32> = None;
        let mut k: usize = 0;
        while k < n
            invariant
                n == scores@.len(),
                i < n,
                k <= n,
                match best {
                    Some(b) => best_other_upto(scores@, i as int, k as int) == Some(b as int),
                    None => best_other_upto(scores@, i as int, k as int) is None,
                },
            decreases n - k,
        {
            if k != i {
                best = match best {
                    Some(b) => if scores[k] > b {
                        Some(scores[k])
                    } else {
                        Some(b)
                    },
                    None => Some(scores[k]),
                };
            }
            k = k + 1;
        }
        assert(i32::MIN <= margin(scores@, i as int) <= i32::MAX);
        let other: i32 = match best {
            Some(b) => b,
            None => 0,
        };
        let m = scores[i] as i64 - other as i64;
        r.push(m as i32);
        i = i + 1;
    }
    r
}

} // verus!

//! The self-play driver's command line.
//!
//! Reading the flags is this module's. Loading each `--weights` file named,
//! in order, and checking the bot spec against the engine's bot registry
//! happen after, on what it returns.
use vstd::prelude::*;
use crate::args::{not_a_number, parse_num};
use crate::num::{decimal_text, parse_unsigned_spec, push_decimal};
use crate::text::str_eq;

verus! {

broadcast use vstd::string::group_string_axioms;

/// The usage text.
pub const USAGE: &'static str = "usage: selfplay [options]

  --games N       games to play (default 20)
  --players N     2, 3 or 4 (default 3)
  --bots SPEC     comma-separated bot kinds, cycled over seats (default weighted)
  --seed N        base seed; game g uses seed+g (default 1)
  --weights PATH  champion JSON every evaluator seat plays (default: the
                  built-in defaults)
  --threads N     games in parallel (default 1)
  --no-rotate     pin the spec to seats instead of rotating it per game
  --verbose       print a line per game
  --list-bots     print the known bot kinds and exit
  --help
";

/// The driver's settings. `weights_path` is the file every evaluator seat's
/// vector is read from, `None` for the built-in defaults.
pub struct Args {
    pub games: usize,
    pub players: u8,
    pub bots: String,
    pub seed: u64,
    pub threads: usize,
    pub rotate: bool,
    pub verbose: bool,
    pub weights_path: Option<String>,
}

/// The settings as plain values.
pub struct ArgsView {
    pub games: int,
    pub players: int,
    pub bots: Seq<char>,
    pub seed: int,
    pub threads: int,
    pub rotate: bool,
    pub verbose: bool,
    pub weights_path: Option<Seq<char>>,
}

impl Args {
    /// The settings as plain values.
    pub open spec fn view(&self) -> ArgsView {
        ArgsView {
            games: self.games as int,
            players: self.players as int,
            bots: self.bots@,
            seed: self.seed as int,
            threads: self.threads as int,
            rotate: self.rotate,
            verbose: self.verbose,
            weights_path: match self.weights_path {
                Some(p) => Some(p@),
                None => None,
            },
        }
    }
}

impl Default for Args {
    /// The settings before any flag is read: with no flag at all the driver
    /// runs a small smoke test.
    fn default() -> (a: Args)
        ensures
            a.view() == default_args(),
    {
        Args {
            games: 20,
            players: 3,
            bots: String::from_str("weighted"),
            seed: 1,
            threads: 1,
            rotate: true,
            verbose: false,
            weights_path: None,
        }
    }
}

/// The settings before any flag is read.
pub open spec fn default_args() -> ArgsView {
    ArgsView {
        games: 20,
        players: 3,
        bots: "weighted"@,
        seed: 1,
        threads: 1,
        rotate: true,
        verbose: false,
        weights_path: None,
    }
}

/// Where reading a command line stops short of a run.
pub enum Stop {
    /// `--help` or `-h`: show [`USAGE`].
    Help,
    /// `--list-bots`: list the known bot kinds.
    ListBots,
}

/// What reading a command line comes to.
pub enum Parsed {
    /// Settings to run with.
    Run(Args),
    /// No run; something to show instead.
    Stopped(Stop),
}

/// What reading a command line comes to, as plain values.
pub enum ParsedView {
    Run(ArgsView),
    Help,
    ListBots,
}

/// What reading a command line comes to: settings or a stop, or an error
/// message.
pub type Outcome = Result<ParsedView, Seq<char>>;

/// The checks made once every flag is read.
pub open spec fn finish(a: ArgsView) -> Outcome {
    if !(2 <= a.players <= 4) {
        Err("--players must be 2, 3 or 4, got "@ + decimal_text(a.players))
    } else if a.games == 0 {
        Err("--games must be at least 1"@)
    } else if a.threads == 0 {
        Err("--threads must be at least 1"@)
    } else {
        Ok(ParsedView::Run(a))
    }
}

/// What reading a command line comes to, with every weight file named up to
/// where the reading stopped, in order.
pub struct ReadingView {
    pub weights_read: Seq<Seq<char>>,
    pub outcome: Outcome,
}

/// Reads the flags `argv[i..]` into `a`, `ws` being the weight files named
/// so far. A switch takes no value, so it never swallows the flag after it.
pub open spec fn scan(argv: Seq<Seq<char>>, i: int, a: ArgsView, ws: Seq<Seq<char>>) -> ReadingView
    decreases argv.len() - i,
{
    if i < 0 || i >= argv.len() {
        ReadingView { weights_read: ws, outcome: finish(a) }
    } else {
        let flag = argv[i];
        let has_value = i + 1 < argv.len();
        let value = argv[i + 1];
        let missing = flag + " needs a value"@;
        let stop = |o: Outcome| ReadingView { weights_read: ws, outcome: o };
        if flag == "--games"@ {
            if !has_value {
                stop(Err(missing))
            } else {
                match parse_unsigned_spec(value, usize::MAX as int) {
                    None => stop(Err(not_a_number(flag, value))),
                    Some(n) => scan(argv, i + 2, ArgsView { games: n, ..a }, ws),
                }
            }
        } else if flag == "--players"@ {
            if !has_value {
                stop(Err(missing))
            } else {
                match parse_unsigned_spec(value, u8::MAX as int) {
                    None => stop(Err(not_a_number(flag, value))),
                    Some(n) => scan(argv, i + 2, ArgsView { players: n, ..a }, ws),
                }
            }
        } else if flag == "--bots"@ {
            if !has_value {
                stop(Err(missing))
            } else {
                scan(argv, i + 2, ArgsView { bots: value, ..a }, ws)
            }
        } else if flag == "--seed"@ {
            if !has_value {
                stop(Err(missing))
            } else {
                match parse_unsigned_spec(value, u64::MAX as int) {
                    None => stop(Err(not_a_number(flag, value))),
                    Some(n) => scan(argv, i + 2, ArgsView { seed: n, ..a }, ws),
                }
            }
        } else if flag == "--weights"@ {
            if !has_value {
                stop(Err(missing))
            } else {
                scan(argv, i + 2, ArgsView { weights_path: Some(value), ..a }, ws.push(value))
            }
        } else if flag == "--threads"@ {
            if !has_value {
                stop(Err(missing))
            } else {
                match parse_unsigned_spec(value, usize::MAX as int) {
                    None => stop(Err(not_a_number(flag, value))),
                    Some(n) => scan(argv, i + 2, ArgsView { threads: n, ..a }, ws),
                }
            }
        } else if flag == "--no-rotate"@ {
            scan(argv, i + 1, ArgsView { rotate: false, ..a }, ws)
        } else if flag == "--verbose"@ || flag == "-v"@ {
            scan(argv, i + 1, ArgsView { verbose: true, ..a }, ws)
        } else if flag == "--list-bots"@ {
            stop(Ok(ParsedView::ListBots))
        } else if flag == "--help"@ || flag == "-h"@ {
            stop(Ok(ParsedView::Help))
        } else {
            stop(Err("unknown flag "@ + flag + "\n\n"@ + USAGE@))
        }
    }
}

/// What a command line comes to.
pub open spec fn parse_spec(argv: Seq<String>) -> ReadingView {
    scan(views(argv), 0, default_args(), Seq::empty())
}

/// Strings taken as plain characters.
pub open spec fn views(v: Seq<String>) -> Seq<Seq<char>> {
    v.map_values(|s: String| s@)
}

/// What reading a command line comes to: every `--weights` file named up to
/// where the reading stopped, in order (each is read as it is named, so the
/// caller loads them in this order and stops at the first that fails), and
/// the outcome.
pub struct Reading {
    pub weights_read: Vec<String>,
    pub outcome: Result<Parsed, String>,
}

/// A reading taken as plain values.
pub open spec fn reading_view(r: Reading) -> ReadingView {
    ReadingView { weights_read: views(r.weights_read@), outcome: outcome_view(r.outcome) }
}

/// An outcome with the settings taken as plain values.
pub open spec fn outcome_view(r: Result<Parsed, String>) -> Outcome {
    match r {
        Ok(Parsed::Run(a)) => Ok(ParsedView::Run(a.view())),
        Ok(Parsed::Stopped(Stop::Help)) => Ok(ParsedView::Help),
        Ok(Parsed::Stopped(Stop::ListBots)) => Ok(ParsedView::ListBots),
        Err(e) => Err(e@),
    }
}

/// `s` followed by `tail`.
fn joined(s: &str, tail: &str) -> (out: String)
    ensures
        out@ == s@ + tail@,
{
    let mut out = String::from_str(s);
    out.append(tail);
    out
}

/// Reads the command line. A flag that is not known, a value missing or not
/// a number, a player count outside 2..=4, zero games or zero threads is an
/// error; `--help` and `--list-bots` stop the reading where they stand.
/// Every `--weights` file named before the stop is listed, in order.
pub fn parse_args(argv: &[String]) -> (r: Reading)
    ensures
        reading_view(r) == parse_spec(argv@),
{
    let ghost all = views(argv@);
    let mut ws: Vec<String> = Vec::new();
    assert(views(ws@) == Seq::<Seq<char>>::empty());
    let mut games: usize = 20;
    let mut players: u8 = 3;
    let mut bots = String::from_str("weighted");
    let mut seed: u64 = 1;
    let mut threads: usize = 1;
    let mut rotate = true;
    let mut verbose = false;
    let mut weights_path: Option<String> = None;
    let n = argv.len();
    let mut i: usize = 0;
    while i < n
        invariant
            n == argv@.len(),
            all == views(argv@),
            i <= n,
            scan(all, i as int, ArgsView {
                games: games as int,
                players: players as int,
                bots: bots@,
                seed: seed as int,
                threads: threads as int,
                rotate,
                verbose,
                weights_path: match weights_path {
                    Some(p) => Some(p@),
                    None => None,
                },
            }, views(ws@)) == parse_spec(argv@),
        decreases n - i,
    {
        let flag = argv[i].as_str();
        assert(flag@ == all[i as int]);
        let has_value = i + 1 < n;
        if has_value {
            assert(argv[i + 1 as int]@ == all[i + 1]);
        }
        if str_eq(flag, "--games") {
            if !has_value {
                return Reading { weights_read: ws, outcome: Err(joined(flag, " needs a value")) };
            }
            games = match parse_num(argv[i + 1].as_str(), flag, usize::MAX as u64) {
                Ok(v) => v as usize,
                Err(e) => return Reading { weights_read: ws, outcome: Err(e) },
            };
            i = i + 2;
        } else if str_eq(flag, "--players") {
            if !has_value {
                return Reading { weights_read: ws, outcome: Err(joined(flag, " needs a value")) };
            }
            players = match parse_num(argv[i + 1].as_str(), flag, 255) {
                Ok(v) => v as u8,
                Err(e) => return Reading { weights_read: ws, outcome: Err(e) },
            };
            i = i + 2;
        } else if str_eq(flag, "--bots") {
            if !has_value {
                return Reading { weights_read: ws, outcome: Err(joined(flag, " needs a value")) };
            }
            bots = argv[i + 1].clone();
            i = i + 2;
        } else if str_eq(flag, "--seed") {
            if !has_value {
                return Reading { weights_read: ws, outcome: Err(joined(flag, " needs a value")) };
            }
            seed = match parse_num(argv[i + 1].as_str(), flag, u64::MAX) {
                Ok(v) => v,
                Err(e) => return Reading { weights_read: ws, outcome: Err(e) },
            };
            i = i + 2;
        } else if str_eq(flag, "--weights") {
            if !has_value {
                return Reading { weights_read: ws, outcome: Err(joined(flag, " needs a value")) };
            }
            let ghost before = ws@;
            ws.push(argv[i + 1].clone());
            assert(views(ws@) == views(before).push(all[i + 1]));
            weights_path = Some(argv[i + 1].clone());
            i = i + 2;
        } else if str_eq(flag, "--threads") {
            if !has_value {
                return Reading { weights_read: ws, outcome: Err(joined(flag, " needs a value")) };
            }
            threads = match parse_num(argv[i + 1].as_str(), flag, usize::MAX as u64) {
                Ok(v) => v as usize,
                Err(e) => return Reading { weights_read: ws, outcome: Err(e) },
            };
            i = i + 2;
        } else if str_eq(flag, "--no-rotate") {
            rotate = false;
            i = i + 1;
        } else if str_eq(flag, "--verbose") || str_eq(flag, "-v") {
            verbose = true;
            i = i + 1;
        } else if str_eq(flag, "--list-bots") {
            return Reading { weights_read: ws, outcome: Ok(Parsed::Stopped(Stop::ListBots)) };
        } else if str_eq(flag, "--help") || str_eq(flag, "-h") {
            return Reading { weights_read: ws, outcome: Ok(Parsed::Stopped(Stop::Help)) };
        } else {
            let mut e = String::from_str("unknown flag ");
            e.append(flag);
            e.append("\n\n");
            e.append(USAGE);
            return Reading { weights_read: ws, outcome: Err(e) };
        }
    }
    if !(2 <= players && players <= 4) {
        let mut e = String::from_str("--players must be 2, 3 or 4, got ");
        push_decimal(&mut e, players as u64);
        proof {
            assert(decimal_text(players as int) == crate::num::decimal_digits(players as nat));
        }
        return Reading { weights_read: ws, outcome: Err(e) };
    }
    if games == 0 {
        return Reading { weights_read: ws, outcome: Err(String::from_str("--games must be at least 1")) };
    }
    if threads == 0 {
        return Reading { weights_read: ws, outcome: Err(String::from_str("--threads must be at least 1")) };
    }
    Reading {
        weights_read: ws,
        outcome: Ok(Parsed::Run(Args { games, players, bots, seed, threads, rotate, verbose, weights_path })),
    }
}

} // verus!

//! The opening probe's command line.
use vstd::prelude::*;
use crate::num::{
    decimal_text, lemma_parse_unsigned_range, parse_unsigned, parse_unsigned_spec, push_decimal,
};
use crate::text::str_eq;

verus! {

broadcast use vstd::string::group_string_axioms;

/// The usage text.
pub const USAGE: &'static str = "usage: openerprobe --weights PATH [options]

  --games N       games to play (default 20)
  --players N     2, 3 or 4 (default 3)
  --weights PATH  champion JSON every seat plays (required)
  --seed N        base seed; game g uses seed+g (default 1)
  --threads N     games in parallel (default 1)
  --help
";

/// The probe's settings.
pub struct Args {
    pub games: usize,
    pub players: u8,
    pub weights_path: String,
    pub seed: u64,
    pub threads: usize,
}

/// The settings as plain values.
pub struct ArgsView {
    pub games: int,
    pub players: int,
    pub weights_path: Seq<char>,
    pub seed: int,
    pub threads: int,
}

impl Args {
    /// The settings as plain values.
    pub open spec fn view(&self) -> ArgsView {
        ArgsView {
            games: self.games as int,
            players: self.players as int,
            weights_path: self.weights_path@,
            seed: self.seed as int,
            threads: self.threads as int,
        }
    }
}

impl Default for Args {
    /// The settings before any flag is read.
    fn default() -> (a: Args)
        ensures
            a.view() == default_args(),
    {
        Args { games: 20, players: 3, weights_path: String::new(), seed: 1, threads: 1 }
    }
}

/// The settings before any flag is read.
pub open spec fn default_args() -> ArgsView {
    ArgsView { games: 20, players: 3, weights_path: Seq::<char>::empty(), seed: 1, threads: 1 }
}

/// What reading a command line comes to: settings to run with, `None` when
/// help was asked for, or an error message.
pub type Outcome = Result<Option<ArgsView>, Seq<char>>;

/// The checks made once every flag is read; zero threads means one.
pub open spec fn finish(a: ArgsView) -> Outcome {
    if !(2 <= a.players <= 4) {
        Err("--players must be 2, 3 or 4, got "@ + decimal_text(a.players))
    } else if a.weights_path.len() == 0 {
        Err("--weights is required"@)
    } else if a.games == 0 {
        Err("--games must be at least 1"@)
    } else if a.threads == 0 {
        Ok(Some(ArgsView { threads: 1, ..a }))
    } else {
        Ok(Some(a))
    }
}

/// Reads the flags `argv[i..]` into `a`.
pub open spec fn scan(argv: Seq<Seq<char>>, i: int, a: ArgsView) -> Outcome
    decreases argv.len() - i,
{
    if i < 0 || i >= argv.len() {
        finish(a)
    } else {
        let flag = argv[i];
        let has_value = i + 1 < argv.len();
        let value = argv[i + 1];
        let missing = flag + " needs a value"@;
        if flag == "--games"@ {
            if !has_value {
                Err(missing)
            } else {
                match parse_unsigned_spec(value, usize::MAX as int) {
                    None => Err("bad --games"@),
                    Some(n) => scan(argv, i + 2, ArgsView { games: n, ..a }),
                }
            }
        } else if flag == "--players"@ {
            if !has_value {
                Err(missing)
            } else {
                match parse_unsigned_spec(value, u8::MAX as int) {
                    None => Err("bad --players"@),
                    Some(n) => scan(argv, i + 2, ArgsView { players: n, ..a }),
                }
            }
        } else if flag == "--weights"@ {
            if !has_value {
                Err(missing)
            } else {
                scan(argv, i + 2, ArgsView { weights_path: value, ..a })
            }
        } else if flag == "--seed"@ {
            if !has_value {
                Err(missing)
            } else {
                match parse_unsigned_spec(value, u64::MAX as int) {
                    None => Err("bad --seed"@),
                    Some(n) => scan(argv, i + 2, ArgsView { seed: n, ..a }),
                }
            }
        } else if flag == "--threads"@ {
            if !has_value {
                Err(missing)
            } else {
                match parse_unsigned_spec(value, usize::MAX as int) {
                    None => Err("bad --threads"@),
                    Some(n) => scan(argv, i + 2, ArgsView { threads: n, ..a }),
                }
            }
        } else if flag == "--help"@ || flag == "-h"@ {
            Ok(None)
        } else {
            Err("unknown flag "@ + flag + "\n\n"@ + USAGE@)
        }
    }
}

/// What a command line comes to.
pub open spec fn parse_spec(argv: Seq<String>) -> Outcome {
    scan(argv.map_values(|s: String| s@), 0, default_args())
}

/// An outcome with the settings taken as plain values.
pub open spec fn outcome_view(r: Result<Option<Args>, String>) -> Outcome {
    match r {
        Ok(Some(a)) => Ok(Some(a.view())),
        Ok(None) => Ok(None),
        Err(e) => Err(e@),
    }
}

/// `s` followed by `tail`.
fn joined(s: &str, tail: &str) -> (out: String)
    ensures
        out@ == s@ + tail@,
{
    let mut out = String::from_str(s);
    out.append(tail);
    out
}

/// Reads the command line. `Ok(None)` means help was asked for, and the
/// caller shows [`USAGE`]. Zero threads is read as one.
pub fn parse_args(argv: &[String]) -> (r: Result<Option<Args>, String>)
    ensures
        outcome_view(r) == parse_spec(argv@),
{
    let ghost views = argv@.map_values(|s: String| s@);
    let mut games: usize = 20;
    let mut players: u8 = 3;
    let mut weights_path = String::new();
    let mut seed: u64 = 1;
    let mut threads: usize = 1;
    let n = argv.len();
    let mut i: usize = 0;
    while i < n
        invariant
            n == argv@.len(),
            views == argv@.map_values(|s: String| s@),
            i <= n,
            scan(views, i as int, ArgsView {
                games: games as int,
                players: players as int,
                weights_path: weights_path@,
                seed: seed as int,
                threads: threads as int,
            }) == parse_spec(argv@),
        decreases n - i,
    {
        let flag = argv[i].as_str();
        assert(flag@ == views[i as int]);
        let has_value = i + 1 < n;
        if has_value {
            assert(argv[i + 1 as int]@ == views[i + 1]);
        }
        if str_eq(flag, "--games") {
            if !has_value {
                return Err(joined(flag, " needs a value"));
            }
            match parse_unsigned(argv[i + 1].as_str(), usize::MAX as u64) {
                Some(v) => games = v as usize,
                None => return Err(String::from_str("bad --games")),
            }
        } else if str_eq(flag, "--players") {
            if !has_value {
                return Err(joined(flag, " needs a value"));
            }
            match parse_unsigned(argv[i + 1].as_str(), 255) {
                Some(v) => players = v as u8,
                None => return Err(String::from_str("bad --players")),
            }
        } else if str_eq(flag, "--weights") {
            if !has_value {
                return Err(joined(flag, " needs a value"));
            }
            weights_path = argv[i + 1].clone();
        } else if str_eq(flag, "--seed") {
            if !has_value {
                return Err(joined(flag, " needs a value"));
            }
            match parse_unsigned(argv[i + 1].as_str(), u64::MAX) {
                Some(v) => seed = v,
                None => return Err(String::from_str("bad --seed")),
            }
        } else if str_eq(flag, "--threads") {
            if !has_value {
                return Err(joined(flag, " needs a value"));
            }
            match parse_unsigned(argv[i + 1].as_str(), usize::MAX as u64) {
                Some(v) => threads = v as usize,
                None => return Err(String::from_str("bad --threads")),
            }
        } else if str_eq(flag, "--help") || str_eq(flag, "-h") {
            return Ok(None);
        } else {
            let mut e = String::from_str("unknown flag ");
            e.append(flag);
            e.append("\n\n");
            e.append(USAGE);
            return Err(e);
        }
        i = i + 2;
    }
    if !(2 <= players && players <= 4) {
        let mut e = String::from_str("--players must be 2, 3 or 4, got ");
        push_decimal(&mut e, players as u64);
        proof {
            assert(decimal_text(players as int) == crate::num::decimal_digits(players as nat));
        }
        return Err(e);
    }
    if weights_path.as_str().unicode_len() == 0 {
        return Err(String::from_str("--weights is required"));
    }
    if games == 0 {
        return Err(String::from_str("--games must be at least 1"));
    }
    if threads == 0 {
        threads = 1;
    }
    Ok(Some(Args { games, players, weights_path, seed, threads }))
}

/// Flags read from `argv[i..]` onto settings with neither a count of games
/// nor threads negative end, when accepted, in settings that can be run.
proof fn lemma_scan_can_run(argv: Seq<Seq<char>>, i: int, a: ArgsView)
    requires
        a.games >= 0,
        a.threads >= 0,
    ensures
        scan(argv, i, a) matches Ok(Some(r)) ==> {
            &&& 2 <= r.players <= 4
            &&& r.games >= 1
            &&& r.threads >= 1
            &&& r.weights_path.len() > 0
        },
    decreases argv.len() - i,
{
    if 0 <= i < argv.len() {
        let flag = argv[i];
        let has_value = i + 1 < argv.len();
        let value = argv[i + 1];
        if flag == "--games"@ {
            lemma_parse_unsigned_range(value, usize::MAX as int);
            if has_value && parse_unsigned_spec(value, usize::MAX as int) is Some {
                let n = parse_unsigned_spec(value, usize::MAX as int)->0;
                lemma_scan_can_run(argv, i + 2, ArgsView { games: n, ..a });
            }
        } else if flag == "--players"@ {
            if has_value && parse_unsigned_spec(value, u8::MAX as int) is Some {
                let n = parse_unsigned_spec(value, u8::MAX as int)->0;
                lemma_scan_can_run(argv, i + 2, ArgsView { players: n, ..a });
            }
        } else if flag == "--weights"@ {
            if has_value {
                lemma_scan_can_run(argv, i + 2, ArgsView { weights_path: value, ..a });
            }
        } else if flag == "--seed"@ {
            if has_value && parse_unsigned_spec(value, u64::MAX as int) is Some {
                let n = parse_unsigned_spec(value, u64::MAX as int)->0;
                lemma_scan_can_run(argv, i + 2, ArgsView { seed: n, ..a });
            }
        } else if flag == "--threads"@ {
            lemma_parse_unsigned_range(value, usize::MAX as int);
            if has_value && parse_unsigned_spec(value, usize::MAX as int) is Some {
                let n = parse_unsigned_spec(value, usize::MAX as int)->0;
                lemma_scan_can_run(argv, i + 2, ArgsView { threads: n, ..a });
            }
        }
    }
}

/// Whatever the command line, settings that it is accepted with play at
/// least one game at 2, 3 or 4 players on at least one thread, with a
/// weights file named.
pub proof fn lemma_accepted_settings_can_run(argv: Seq<String>)
    ensures
        parse_spec(argv) matches Ok(Some(r)) ==> {
            &&& 2 <= r.players <= 4
            &&& r.games >= 1
            &&& r.threads >= 1
            &&& r.weights_path.len() > 0
        },
{
    lemma_scan_can_run(argv.map_values(|s: String| s@), 0, default_args());
}

} // verus!

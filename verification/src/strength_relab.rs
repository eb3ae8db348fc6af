//! The strength-relabelling experiment's command line.
use vstd::prelude::*;
use crate::num::{
    decimal_text, lemma_parse_unsigned_range, parse_unsigned, parse_unsigned_spec, push_decimal,
};
use crate::text::str_eq;

verus! {

broadcast use vstd::string::group_string_axioms;

/// The usage text.
pub const USAGE: &'static str = "usage: strengthrelab --weights PATH [options]

  --games N       games; rounded DOWN to a whole number of deals (default 1000)
  --players N     2, 3 or 4 (default 2)
  --weights PATH  champion JSON both sides play (required)
  --seed N        base deal seed (default 0)
  --threads N     games in parallel (default 1)
  --opponent K    legacy (pre-fix, default) or roundgated (commit 578ee9e's
                  own state.round<=3 gate, STRGATE.txt's comparison point)
  --help
";

/// Which strength formula the opponent plays.
#[derive(Clone, Copy, Debug, PartialEq, Eq, Structural)]
pub enum Opponent {
    /// The always-on base formula.
    Legacy,
    /// The phase-blended formula gated on the round number.
    RoundGated,
}

/// The probe's settings.
pub struct Args {
    pub games: usize,
    pub players: u8,
    pub weights_path: String,
    pub seed: u64,
    pub threads: usize,
    pub opponent: Opponent,
}

/// The settings as plain values.
pub struct ArgsView {
    pub games: int,
    pub players: int,
    pub weights_path: Seq<char>,
    pub seed: int,
    pub threads: int,
    pub opponent: Opponent,
}

impl Args {
    /// The settings as plain values.
    pub open spec fn view(&self) -> ArgsView {
        ArgsView {
            games: self.games as int,
            players: self.players as int,
            weights_path: self.weights_path@,
            seed: self.seed as int,
            threads: self.threads as int,
            opponent: self.opponent,
        }
    }
}

impl Default for Args {
    /// The settings before any flag is read.
    fn default() -> (a: Args)
        ensures
            a.view() == default_args(),
    {
        Args {
            games: 1000,
            players: 2,
            weights_path: String::new(),
            seed: 0,
            threads: 1,
            opponent: Opponent::Legacy,
        }
    }
}

/// The settings before any flag is read.
pub open spec fn default_args() -> ArgsView {
    ArgsView {
        games: 1000,
        players: 2,
        weights_path: Seq::<char>::empty(),
        seed: 0,
        threads: 1,
        opponent: Opponent::Legacy,
    }
}

/// What reading a command line comes to: settings to run with, `None` when
/// help was asked for, or an error message.
pub type Outcome = Result<Option<ArgsView>, Seq<char>>;

/// The checks made once every flag is read; zero threads means one, and
/// the games are rounded down to whole deals.
pub open spec fn finish(a: ArgsView) -> Outcome {
    let threads = if a.threads == 0 {
        1
    } else {
        a.threads
    };
    let games = a.games - a.games % a.players;
    if !(2 <= a.players <= 4) {
        Err("--players must be 2, 3 or 4, got "@ + decimal_text(a.players))
    } else if a.weights_path.len() == 0 {
        Err("--weights is required"@)
    } else if games == 0 {
        Err("games must be at least "@ + decimal_text(a.players) + " at "@ + decimal_text(
            a.players,
        ) + "p"@)
    } else {
        Ok(Some(ArgsView { threads, games, ..a }))
    }
}

/// The opponent an `--opponent` value names.
pub open spec fn opponent_named(s: Seq<char>) -> Option<Opponent> {
    if s == "legacy"@ {
        Some(Opponent::Legacy)
    } else if s == "roundgated"@ {
        Some(Opponent::RoundGated)
    } else {
        None
    }
}

/// Reads the flags `argv[i..]` into `a`.
pub open spec fn scan(argv: Seq<Seq<char>>, i: int, a: ArgsView) -> Outcome
    decreases argv.len() - i,
{
    if i < 0 || i >= argv.len() {
        finish(a)
    } else {
        let flag = argv[i];
        let has_value = i + 1 < argv.len();
        let value = argv[i + 1];
        let missing = flag + " needs a value"@;
        if flag == "--games"@ {
            if !has_value {
                Err(missing)
            } else {
                match parse_unsigned_spec(value, usize::MAX as int) {
                    None => Err("bad --games"@),
                    Some(n) => scan(argv, i + 2, ArgsView { games: n, ..a }),
                }
            }
        } else if flag == "--players"@ {
            if !has_value {
                Err(missing)
            } else {
                match parse_unsigned_spec(value, u8::MAX as int) {
                    None => Err("bad --players"@),
                    Some(n) => scan(argv, i + 2, ArgsView { players: n, ..a }),
                }
            }
        } else if flag == "--weights"@ {
            if !has_value {
                Err(missing)
            } else {
                scan(argv, i + 2, ArgsView { weights_path: value, ..a })
            }
        } else if flag == "--seed"@ {
            if !has_value {
                Err(missing)
            } else {
                match parse_unsigned_spec(value, u64::MAX as int) {
                    None => Err("bad --seed"@),
                    Some(n) => scan(argv, i + 2, ArgsView { seed: n, ..a }),
                }
            }
        } else if flag == "--threads"@ {
            if !has_value {
                Err(missing)
            } else {
                match parse_unsigned_spec(value, usize::MAX as int) {
                    None => Err("bad --threads"@),
                    Some(n) => scan(argv, i + 2, ArgsView { threads: n, ..a }),
                }
            }
        } else if flag == "--opponent"@ {
            if !has_value {
                Err(missing)
            } else {
                match opponent_named(value) {
                    None => Err("bad --opponent "@ + value + " (want legacy or roundgated)"@),
                    Some(o) => scan(argv, i + 2, ArgsView { opponent: o, ..a }),
                }
            }
        } else if flag == "--help"@ || flag == "-h"@ {
            Ok(None)
        } else {
            Err("unknown flag "@ + flag + "\n\n"@ + USAGE@)
        }
    }
}

/// What a command line comes to.
pub open spec fn parse_spec(argv: Seq<String>) -> Outcome {
    scan(argv.map_values(|s: String| s@), 0, default_args())
}

/// An outcome with the settings taken as plain values.
pub open spec fn outcome_view(r: Result<Option<Args>, String>) -> Outcome {
    match r {
        Ok(Some(a)) => Ok(Some(a.view())),
        Ok(None) => Ok(None),
        Err(e) => Err(e@),
    }
}

/// `s` followed by `tail`.
fn joined(s: &str, tail: &str) -> (out: String)
    ensures
        out@ == s@ + tail@,
{
    let mut out = String::from_str(s);
    out.append(tail);
    out
}

/// Reads the command line. `Ok(None)` means help was asked for, and the
/// caller shows [`USAGE`]. Zero threads is read as one, and `--games` is
/// rounded down to a whole number of deals.
pub fn parse_args(argv: &[String]) -> (r: Result<Option<Args>, String>)
    ensures
        outcome_view(r) == parse_spec(argv@),
{
    let ghost views = argv@.map_values(|s: String| s@);
    let mut games: usize = 1000;
    let mut players: u8 = 2;
    let mut weights_path = String::new();
    let mut seed: u64 = 0;
    let mut threads: usize = 1;
    let mut opponent = Opponent::Legacy;
    let n = argv.len();
    let mut i: usize = 0;
    while i < n
        invariant
            n == argv@.len(),
            views == argv@.map_values(|s: String| s@),
            i <= n,
            scan(views, i as int, ArgsView {
                games: games as int,
                players: players as int,
                weights_path: weights_path@,
                seed: seed as int,
                threads: threads as int,
                opponent,
            }) == parse_spec(argv@),
        decreases n - i,
    {
        let flag = argv[i].as_str();
        assert(flag@ == views[i as int]);
        let has_value = i + 1 < n;
        if has_value {
            assert(argv[i + 1 as int]@ == views[i + 1]);
        }
        if str_eq(flag, "--games") {
            if !has_value {
                return Err(joined(flag, " needs a value"));
            }
            match parse_unsigned(argv[i + 1].as_str(), usize::MAX as u64) {
                Some(v) => games = v as usize,
                None => return Err(String::from_str("bad --games")),
            }
        } else if str_eq(flag, "--players") {
            if !has_value {
                return Err(joined(flag, " needs a value"));
            }
            match parse_unsigned(argv[i + 1].as_str(), 255) {
                Some(v) => players = v as u8,
                None => return Err(String::from_str("bad --players")),
            }
        } else if str_eq(flag, "--weights") {
            if !has_value {
                return Err(joined(flag, " needs a value"));
            }
            weights_path = argv[i + 1].clone();
        } else if str_eq(flag, "--seed") {
            if !has_value {
                return Err(joined(flag, " needs a value"));
            }
            match parse_unsigned(argv[i + 1].as_str(), u64::MAX) {
                Some(v) => seed = v,
                None => return Err(String::from_str("bad --seed")),
            }
        } else if str_eq(flag, "--threads") {
            if !has_value {
                return Err(joined(flag, " needs a value"));
            }
            match parse_unsigned(argv[i + 1].as_str(), usize::MAX as u64) {
                Some(v) => threads = v as usize,
                None => return Err(String::from_str("bad --threads")),
            }
        } else if str_eq(flag, "--opponent") {
            if !has_value {
                return Err(joined(flag, " needs a value"));
            }
            let v = argv[i + 1].as_str();
            if str_eq(v, "legacy") {
                opponent = Opponent::Legacy;
            } else if str_eq(v, "roundgated") {
                opponent = Opponent::RoundGated;
            } else {
                let mut e = String::from_str("bad --opponent ");
                e.append(v);
                e.append(" (want legacy or roundgated)");
                return Err(e);
            }
        } else if str_eq(flag, "--help") || str_eq(flag, "-h") {
            return Ok(None);
        } else {
            let mut e = String::from_str("unknown flag ");
            e.append(flag);
            e.append("\n\n");
            e.append(USAGE);
            return Err(e);
        }
        i = i + 2;
    }
    if !(2 <= players && players <= 4) {
        let mut e = String::from_str("--players must be 2, 3 or 4, got ");
        push_decimal(&mut e, players as u64);
        proof {
            assert(decimal_text(players as int) == crate::num::decimal_digits(players as nat));
        }
        return Err(e);
    }
    if weights_path.as_str().unicode_len() == 0 {
        return Err(String::from_str("--weights is required"));
    }
    if threads == 0 {
        threads = 1;
    }
    let per_deal = players as usize;
    assert(games % per_deal <= games) by (nonlinear_arith)
        requires
            per_deal > 0,
    ;
    games = games - games % per_deal;
    if games == 0 {
        let mut e = String::from_str("games must be at least ");
        push_decimal(&mut e, per_deal as u64);
        e.append(" at ");
        push_decimal(&mut e, players as u64);
        e.append("p");
        proof {
            assert(decimal_text(players as int) == crate::num::decimal_digits(players as nat));
        }
        return Err(e);
    }
    Ok(Some(Args { games, players, weights_path, seed, threads, opponent }))
}

/// Once every flag is read, settings that pass the checks hold a whole
/// number of deals, and a thread count of 0 has become 1.
proof fn lemma_finish_whole_deals(a: ArgsView)
    requires
        a.games >= 0,
        a.threads >= 0,
    ensures
        finish(a) matches Ok(Some(r)) ==> {
            &&& 2 <= r.players <= 4
            &&& r.games % r.players == 0
            &&& r.games >= r.players
            &&& r.threads >= 1
            &&& r.weights_path.len() > 0
        },
{
    if 2 <= a.players <= 4 {
        let p = a.players;
        let g = a.games - a.games % p;
        assert(g % p == 0 && g >= 0) by (nonlinear_arith)
            requires
                p > 0,
                a.games >= 0,
                g == a.games - a.games % p,
        ;
        assert(g != 0 ==> g >= p) by (nonlinear_arith)
            requires
                p > 0,
                g >= 0,
                g % p == 0,
        ;
    }
}

/// Flags read from `argv[i..]` onto settings with neither a count of games
/// nor threads negative end, when accepted, in a whole number of deals.
proof fn lemma_scan_whole_deals(argv: Seq<Seq<char>>, i: int, a: ArgsView)
    requires
        a.games >= 0,
        a.threads >= 0,
    ensures
        scan(argv, i, a) matches Ok(Some(r)) ==> {
            &&& 2 <= r.players <= 4
            &&& r.games % r.players == 0
            &&& r.games >= r.players
            &&& r.threads >= 1
            &&& r.weights_path.len() > 0
        },
    decreases argv.len() - i,
{
    if i < 0 || i >= argv.len() {
        lemma_finish_whole_deals(a);
    } else if i + 1 < argv.len() {
        let flag = argv[i];
        let value = argv[i + 1];
        if flag == "--games"@ {
            lemma_parse_unsigned_range(value, usize::MAX as int);
            if let Some(n) = parse_unsigned_spec(value, usize::MAX as int) {
                lemma_scan_whole_deals(argv, i + 2, ArgsView { games: n, ..a });
            }
        } else if flag == "--players"@ {
            if let Some(n) = parse_unsigned_spec(value, u8::MAX as int) {
                lemma_scan_whole_deals(argv, i + 2, ArgsView { players: n, ..a });
            }
        } else if flag == "--weights"@ {
            lemma_scan_whole_deals(argv, i + 2, ArgsView { weights_path: value, ..a });
        } else if flag == "--seed"@ {
            if let Some(n) = parse_unsigned_spec(value, u64::MAX as int) {
                lemma_scan_whole_deals(argv, i + 2, ArgsView { seed: n, ..a });
            }
        } else if flag == "--threads"@ {
            lemma_parse_unsigned_range(value, usize::MAX as int);
            if let Some(n) = parse_unsigned_spec(value, usize::MAX as int) {
                lemma_scan_whole_deals(argv, i + 2, ArgsView { threads: n, ..a });
            }
        } else if flag == "--opponent"@ {
            if let Some(o) = opponent_named(value) {
                lemma_scan_whole_deals(argv, i + 2, ArgsView { opponent: o, ..a });
            }
        }
    }
}

/// Whatever the command line, settings that it is accepted with play a whole
/// number of deals (at least one) at 2, 3 or 4 players, on at least one
/// thread, with a weights file named.
pub proof fn lemma_accepted_settings_are_whole_deals(argv: Seq<String>)
    ensures
        parse_spec(argv) matches Ok(Some(r)) ==> {
            &&& 2 <= r.players <= 4
            &&& r.games % r.players == 0
            &&& r.games >= r.players
            &&& r.threads >= 1
            &&& r.weights_path.len() > 0
        },
{
    lemma_scan_whole_deals(argv.map_values(|s: String| s@), 0, default_args());
}

} // verus!

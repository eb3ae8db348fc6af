//! The forced-opening experiment's command line: which opening policy seat A
//! is forced under, and how many games to play.
use vstd::prelude::*;
use crate::args::{debug_quoted, debug_text};
use crate::num::{lemma_parse_unsigned_range, parse_unsigned, parse_unsigned_spec};
use crate::text::str_eq;

verus! {

broadcast use vstd::string::group_string_axioms;

/// The opening goal seat A is forced toward.
#[derive(Clone, Copy, Debug, PartialEq, Eq, Structural)]
pub enum OpeningPolicy {
    Unforced,
    MineFirst,
    LeaderByRoundThree,
    MineFirstAndLeader,
    MilitaryFirst,
}

/// The policy a `--policy` value names.
pub open spec fn policy_named(s: Seq<char>) -> Option<OpeningPolicy> {
    if s == "unforced"@ {
        Some(OpeningPolicy::Unforced)
    } else if s == "mine-first"@ {
        Some(OpeningPolicy::MineFirst)
    } else if s == "leader-by-round-three"@ {
        Some(OpeningPolicy::LeaderByRoundThree)
    } else if s == "mine-first-and-leader"@ {
        Some(OpeningPolicy::MineFirstAndLeader)
    } else if s == "military-first"@ {
        Some(OpeningPolicy::MilitaryFirst)
    } else {
        None
    }
}

/// The message for a `--policy` value that names no policy.
pub open spec fn unknown_policy(s: Seq<char>) -> Seq<char> {
    "unknown --policy "@ + debug_text(s)
        + ", want one of: unforced, mine-first, leader-by-round-three, mine-first-and-leader, military-first"@
}

/// Reads a `--policy` value.
pub fn parse_policy(s: &str) -> (r: Result<OpeningPolicy, String>)
    ensures
        match r {
            Ok(p) => policy_named(s@) == Some(p),
            Err(e) => policy_named(s@) is None && e@ == unknown_policy(s@),
        },
{
    if str_eq(s, "unforced") {
        Ok(OpeningPolicy::Unforced)
    } else if str_eq(s, "mine-first") {
        Ok(OpeningPolicy::MineFirst)
    } else if str_eq(s, "leader-by-round-three") {
        Ok(OpeningPolicy::LeaderByRoundThree)
    } else if str_eq(s, "mine-first-and-leader") {
        Ok(OpeningPolicy::MineFirstAndLeader)
    } else if str_eq(s, "military-first") {
        Ok(OpeningPolicy::MilitaryFirst)
    } else {
        let mut e = String::from_str("unknown --policy ");
        let q = debug_quoted(s);
        e.append(q.as_str());
        e.append(
            ", want one of: unforced, mine-first, leader-by-round-three, mine-first-and-leader, military-first",
        );
        Err(e)
    }
}

/// The weight vector both seats play unless `--champion` names another.
pub const DEFAULT_CHAMPION: &'static str = "/private/tmp/rowdig/frozen_champion_2p.json";

/// The usage text.
pub const USAGE: &'static str = "usage: forceopen --policy POLICY [options]

  --policy POLICY   unforced | mine-first | leader-by-round-three |
                     mine-first-and-leader | military-first  (required)
  --games N         games; rounded DOWN to a whole number of 2p deals (default 300)
  --seed N          base deal seed (default 0)
  --threads N       games in parallel (default 1)
  --champion PATH   weight vector BOTH seats play (default the frozen 2p champion)
  --help

Seat A (rotated through every seat, same as `arena`) is forced under
--policy; every other seat plays the SAME vector's ordinary unconstrained
choice. 2-player only -- see this file's own doc comment.
";

/// The experiment's settings.
pub struct Args {
    pub policy: OpeningPolicy,
    pub games: usize,
    pub seed: u64,
    pub threads: usize,
    pub champion: String,
}

/// The settings as plain values.
pub struct ArgsView {
    pub policy: OpeningPolicy,
    pub games: int,
    pub seed: int,
    pub threads: int,
    pub champion: Seq<char>,
}

impl Args {
    /// The settings as plain values.
    pub open spec fn view(&self) -> ArgsView {
        ArgsView {
            policy: self.policy,
            games: self.games as int,
            seed: self.seed as int,
            threads: self.threads as int,
            champion: self.champion@,
        }
    }
}

impl Default for Args {
    /// The settings before any flag is read.
    fn default() -> (a: Args)
        ensures
            a.view() == default_args(),
    {
        Args {
            policy: OpeningPolicy::MineFirst,
            games: 300,
            seed: 0,
            threads: 1,
            champion: String::from_str(DEFAULT_CHAMPION),
        }
    }
}

/// The settings before any flag is read.
pub open spec fn default_args() -> ArgsView {
    ArgsView {
        policy: OpeningPolicy::MineFirst,
        games: 300,
        seed: 0,
        threads: 1,
        champion: DEFAULT_CHAMPION@,
    }
}

/// What reading a command line comes to: settings to run with, `None` when
/// help was asked for, or an error message.
pub type Outcome = Result<Option<ArgsView>, Seq<char>>;

/// The checks made once every flag is read.
pub open spec fn finish(a: ArgsView, policy_given: bool) -> Outcome {
    let games = a.games - a.games % 2;
    if !policy_given {
        Err("--policy is required\n\n"@ + USAGE@)
    } else if games == 0 {
        Err("--games must be at least 2 (a whole 2p deal)"@)
    } else if a.threads == 0 {
        Err("--threads must be at least 1"@)
    } else {
        Ok(Some(ArgsView { games, ..a }))
    }
}

/// Reads the flags `argv[i..]` into `a`.
pub open spec fn scan(argv: Seq<Seq<char>>, i: int, a: ArgsView, policy_given: bool) -> Outcome
    decreases argv.len() - i,
{
    if i < 0 || i >= argv.len() {
        finish(a, policy_given)
    } else {
        let flag = argv[i];
        let has_value = i + 1 < argv.len();
        let value = argv[i + 1];
        let missing = flag + " needs a value"@;
        if flag == "--policy"@ {
            if !has_value {
                Err(missing)
            } else {
                match policy_named(value) {
                    None => Err(unknown_policy(value)),
                    Some(p) => scan(argv, i + 2, ArgsView { policy: p, ..a }, true),
                }
            }
        } else if flag == "--games"@ {
            if !has_value {
                Err(missing)
            } else {
                match parse_unsigned_spec(value, usize::MAX as int) {
                    None => Err("bad --games"@),
                    Some(n) => scan(argv, i + 2, ArgsView { games: n, ..a }, policy_given),
                }
            }
        } else if flag == "--seed"@ {
            if !has_value {
                Err(missing)
            } else {
                match parse_unsigned_spec(value, u64::MAX as int) {
                    None => Err("bad --seed"@),
                    Some(n) => scan(argv, i + 2, ArgsView { seed: n, ..a }, policy_given),
                }
            }
        } else if flag == "--threads"@ {
            if !has_value {
                Err(missing)
            } else {
                match parse_unsigned_spec(value, usize::MAX as int) {
                    None => Err("bad --threads"@),
                    Some(n) => scan(argv, i + 2, ArgsView { threads: n, ..a }, policy_given),
                }
            }
        } else if flag == "--champion"@ {
            if !has_value {
                Err(missing)
            } else {
                scan(argv, i + 2, ArgsView { champion: value, ..a }, policy_given)
            }
        } else if flag == "--help"@ || flag == "-h"@ {
            Ok(None)
        } else {
            Err("unknown flag "@ + flag + "\n\n"@ + USAGE@)
        }
    }
}

/// The views of a list of strings.
pub open spec fn string_views(argv: Seq<String>) -> Seq<Seq<char>> {
    argv.map_values(|s: String| s@)
}

/// What a command line comes to.
pub open spec fn parse_spec(argv: Seq<String>) -> Outcome {
    scan(string_views(argv), 0, default_args(), false)
}

/// An outcome with the settings taken as plain values.
pub open spec fn outcome_view(r: Result<Option<Args>, String>) -> Outcome {
    match r {
        Ok(Some(a)) => Ok(Some(a.view())),
        Ok(None) => Ok(None),
        Err(e) => Err(e@),
    }
}

/// `s` followed by `tail`.
fn joined(s: &str, tail: &str) -> (out: String)
    ensures
        out@ == s@ + tail@,
{
    let mut out = String::from_str(s);
    out.append(tail);
    out
}

/// Reads the command line. `Ok(None)` means help was asked for, and the
/// caller shows [`USAGE`]. `--games` is rounded down to a whole number of
/// two-player deals.
pub fn parse_args(argv: &[String]) -> (r: Result<Option<Args>, String>)
    ensures
        outcome_view(r) == parse_spec(argv@),
{
    let ghost views = string_views(argv@);
    let mut policy = OpeningPolicy::MineFirst;
    let mut games: usize = 300;
    let mut seed: u64 = 0;
    let mut threads: usize = 1;
    let mut champion = String::from_str(DEFAULT_CHAMPION);
    let mut policy_given = false;
    let n = argv.len();
    let mut i: usize = 0;
    while i < n
        invariant
            n == argv@.len(),
            views == string_views(argv@),
            i <= n,
            scan(views, i as int, ArgsView {
                policy,
                games: games as int,
                seed: seed as int,
                threads: threads as int,
                champion: champion@,
            }, policy_given) == parse_spec(argv@),
        decreases n - i,
    {
        let flag = argv[i].as_str();
        assert(flag@ == views[i as int]);
        let has_value = i + 1 < n;
        if has_value {
            assert(argv[i + 1 as int]@ == views[i + 1]);
        }
        if str_eq(flag, "--policy") {
            if !has_value {
                return Err(joined(flag, " needs a value"));
            }
            match parse_policy(argv[i + 1].as_str()) {
                Ok(p) => {
                    policy = p;
                    policy_given = true;
                },
                Err(e) => return Err(e),
            }
        } else if str_eq(flag, "--games") {
            if !has_value {
                return Err(joined(flag, " needs a value"));
            }
            match parse_unsigned(argv[i + 1].as_str(), usize::MAX as u64) {
                Some(v) => games = v as usize,
                None => return Err(String::from_str("bad --games")),
            }
        } else if str_eq(flag, "--seed") {
            if !has_value {
                return Err(joined(flag, " needs a value"));
            }
            match parse_unsigned(argv[i + 1].as_str(), u64::MAX) {
                Some(v) => seed = v,
                None => return Err(String::from_str("bad --seed")),
            }
        } else if str_eq(flag, "--threads") {
            if !has_value {
                return Err(joined(flag, " needs a value"));
            }
            match parse_unsigned(argv[i + 1].as_str(), usize::MAX as u64) {
                Some(v) => threads = v as usize,
                None => return Err(String::from_str("bad --threads")),
            }
        } else if str_eq(flag, "--champion") {
            if !has_value {
                return Err(joined(flag, " needs a value"));
            }
            champion = argv[i + 1].clone();
        } else if str_eq(flag, "--help") || str_eq(flag, "-h") {
            return Ok(None);
        } else {
            let mut e = String::from_str("unknown flag ");
            e.append(flag);
            e.append("\n\n");
            e.append(USAGE);
            return Err(e);
        }
        i = i + 2;
    }
    if !policy_given {
        let mut e = String::from_str("--policy is required\n\n");
        e.append(USAGE);
        return Err(e);
    }
    games = games - games % 2;
    if games == 0 {
        return Err(String::from_str("--games must be at least 2 (a whole 2p deal)"));
    }
    if threads == 0 {
        return Err(String::from_str("--threads must be at least 1"));
    }
    let a = Args { policy, games, seed, threads, champion };
    Ok(Some(a))
}

proof fn lemma_scan_whole_deals(
    argv: Seq<Seq<char>>,
    i: int,
    a: ArgsView,
    policy_given: bool,
)
    requires
        a.games >= 0,
        a.threads >= 0,
    ensures
        scan(argv, i, a, policy_given) matches Ok(Some(r)) ==> {
            &&& r.games % 2 == 0
            &&& r.games >= 2
            &&& r.threads >= 1
        },
    decreases argv.len() - i,
{
    if 0 <= i < argv.len() && i + 1 < argv.len() {
        let flag = argv[i];
        let value = argv[i + 1];
        if flag == "--policy"@ {
            if let Some(p) = policy_named(value) {
                lemma_scan_whole_deals(argv, i + 2, ArgsView { policy: p, ..a }, true);
            }
        } else if flag == "--games"@ {
            lemma_parse_unsigned_range(value, usize::MAX as int);
            if let Some(n) = parse_unsigned_spec(value, usize::MAX as int) {
                lemma_scan_whole_deals(argv, i + 2, ArgsView { games: n, ..a }, policy_given);
            }
        } else if flag == "--seed"@ {
            if let Some(n) = parse_unsigned_spec(value, u64::MAX as int) {
                lemma_scan_whole_deals(argv, i + 2, ArgsView { seed: n, ..a }, policy_given);
            }
        } else if flag == "--threads"@ {
            lemma_parse_unsigned_range(value, usize::MAX as int);
            if let Some(n) = parse_unsigned_spec(value, usize::MAX as int) {
                lemma_scan_whole_deals(argv, i + 2, ArgsView { threads: n, ..a }, policy_given);
            }
        } else if flag == "--champion"@ {
            lemma_scan_whole_deals(argv, i + 2, ArgsView { champion: value, ..a }, policy_given);
        }
    }
}

/// Whatever the command line, settings it is accepted with describe a
/// runnable experiment: a whole, positive number of two-player deals and at
/// least one thread.
pub proof fn lemma_accepted_settings_are_whole_deals(argv: Seq<String>)
    ensures
        parse_spec(argv) matches Ok(Some(r)) ==> {
            &&& r.games % 2 == 0
            &&& r.games >= 2
            &&& r.threads >= 1
        },
{
    lemma_scan_whole_deals(string_views(argv), 0, default_args(), false);
}

} // verus!

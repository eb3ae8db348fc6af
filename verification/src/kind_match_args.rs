//! The kind-against-kind duel's command line.
//!
//! Reading it takes two steps around the engine's bot registry. [`scan_args`]
//! reads the flags, listing every bot kind named on the way; the caller
//! resolves those names against the registry, in order, stopping at the
//! first it does not know. [`settle`] then checks the flags against what the
//! two final kinds are, rounds the games to whole deals and says which
//! weight file each side reads.
use vstd::prelude::*;
use crate::args::{not_a_number, parse_num, parse_signed_num};
use crate::num::{
    decimal_text, parse_signed_spec, parse_unsigned_spec,
    push_decimal, push_int,
};
use crate::order_probe::DEFAULT_MAX_NODES;
use crate::text::str_eq;

verus! {

broadcast use vstd::string::group_string_axioms;

/// The usage text.
pub const USAGE: &'static str = "usage: kindmatch --a KIND --b KIND [options]

  --a KIND          challenger bot kind, seated one per game
  --b KIND          defender bot kind, seated in every other chair
  --weights PATH    weight vector BOTH sides play, absent a per-side
                     override below (default: built-in defaults)
  --a-weights PATH  weight file for the --a side only (default: --weights)
  --b-weights PATH  weight file for the --b side only (default: --weights)
  --a-search        give --a real lookahead (only legal with --a human)
  --b-search        give --b real lookahead (only legal with --b human)
  --policy-checkpoint PATH  a TTAPOL01 policy checkpoint, loaded once
  --a-policy        order --a's beam with the policy prior (needs --a plan
                     and --policy-checkpoint)
  --b-policy        order --b's beam with the policy prior (needs --b plan
                     and --policy-checkpoint)
  --a-policy-invert order --a's beam WORST-first instead (needs --a-policy;
                     a falsification probe, see PolicyOrder::set_invert)
  --max-nodes N   plan::PlanConfig::max_nodes for EVERY seat, both sides
                     (default 4000)
  --games N       games; rounded down to a whole number of deals (default 60)
  --players N     2, 3 or 4 (default 3)
  --seed N        base deal seed (default 0)
  --threads N     games in parallel (default 1)
  --help
";

/// What the checks read of a bot kind: whether it is the human-imitation
/// kind, the planning kind, or another.
#[derive(PartialEq, Eq, Structural, Clone, Copy, Debug)]
pub enum KindClass {
    Human,
    Plan,
    Other,
}

/// The flags as read, before the kinds are known.
pub struct Flags {
    /// The name given to `--a`; `weighted` unless the flag is given.
    pub a_kind: String,
    /// The name given to `--b`; `weighted` unless the flag is given.
    pub b_kind: String,
    pub weights_path: Option<String>,
    pub a_weights_path: Option<String>,
    pub b_weights_path: Option<String>,
    pub a_search: bool,
    pub b_search: bool,
    pub policy_checkpoint: Option<String>,
    pub a_policy: bool,
    pub b_policy: bool,
    pub a_policy_invert: bool,
    pub max_nodes: i64,
    pub games: usize,
    pub players: u8,
    pub seed: u64,
    pub threads: usize,
}

/// What reading the flags comes to: every bot kind named up to where the
/// reading stopped, in order, and the flags, `None` when help was asked
/// for, or the message of the error that stopped it.
pub struct Scanned {
    pub kinds_read: Vec<String>,
    pub flags: Result<Option<Flags>, String>,
}

/// The settings a duel runs with.
pub struct Args {
    pub flags: Flags,
    pub a_class: KindClass,
    pub b_class: KindClass,
    /// The weight file the `--a` side reads: its own override, else the
    /// shared file, else none (the built-in defaults).
    pub a_weights_file: Option<String>,
    /// The weight file the `--b` side reads, chosen the same way.
    pub b_weights_file: Option<String>,
}

/// An optional string taken as plain characters.
pub open spec fn opt_view(o: Option<String>) -> Option<Seq<char>> {
    match o {
        Some(s) => Some(s@),
        None => None,
    }
}

/// The flags as plain values.
pub struct FlagsView {
    pub a_kind: Seq<char>,
    pub b_kind: Seq<char>,
    pub weights_path: Option<Seq<char>>,
    pub a_weights_path: Option<Seq<char>>,
    pub b_weights_path: Option<Seq<char>>,
    pub a_search: bool,
    pub b_search: bool,
    pub policy_checkpoint: Option<Seq<char>>,
    pub a_policy: bool,
    pub b_policy: bool,
    pub a_policy_invert: bool,
    pub max_nodes: int,
    pub games: int,
    pub players: int,
    pub seed: int,
    pub threads: int,
}

impl Flags {
    /// The flags as plain values.
    pub open spec fn view(&self) -> FlagsView {
        FlagsView {
            a_kind: self.a_kind@,
            b_kind: self.b_kind@,
            weights_path: opt_view(self.weights_path),
            a_weights_path: opt_view(self.a_weights_path),
            b_weights_path: opt_view(self.b_weights_path),
            a_search: self.a_search,
            b_search: self.b_search,
            policy_checkpoint: opt_view(self.policy_checkpoint),
            a_policy: self.a_policy,
            b_policy: self.b_policy,
            a_policy_invert: self.a_policy_invert,
            max_nodes: self.max_nodes as int,
            games: self.games as int,
            players: self.players as int,
            seed: self.seed as int,
            threads: self.threads as int,
        }
    }
}

/// The flags before any is read.
pub open spec fn default_flags() -> FlagsView {
    FlagsView {
        a_kind: "weighted"@,
        b_kind: "weighted"@,
        weights_path: None,
        a_weights_path: None,
        b_weights_path: None,
        a_search: false,
        b_search: false,
        policy_checkpoint: None,
        a_policy: false,
        b_policy: false,
        a_policy_invert: false,
        max_nodes: DEFAULT_MAX_NODES as int,
        games: 60,
        players: 3,
        seed: 0,
        threads: 1,
    }
}

/// What reading the flags comes to, as plain values.
pub struct ScanView {
    pub kinds_read: Seq<Seq<char>>,
    pub flags: Result<Option<FlagsView>, Seq<char>>,
}

/// Reads the flags `argv[i..]` into `f`, `kinds` being the bot kinds named
/// so far.
pub open spec fn scan(argv: Seq<Seq<char>>, i: int, f: FlagsView, kinds: Seq<Seq<char>>) -> ScanView
    decreases argv.len() - i,
{
    if i < 0 || i >= argv.len() {
        ScanView { kinds_read: kinds, flags: Ok(Some(f)) }
    } else {
        let flag = argv[i];
        let has_value = i + 1 < argv.len();
        let value = argv[i + 1];
        let missing = ScanView { kinds_read: kinds, flags: Err(flag + " needs a value"@) };
        if flag == "--a"@ {
            if !has_value {
                missing
            } else {
                scan(argv, i + 2, FlagsView { a_kind: value, ..f }, kinds.push(value))
            }
        } else if flag == "--b"@ {
            if !has_value {
                missing
            } else {
                scan(argv, i + 2, FlagsView { b_kind: value, ..f }, kinds.push(value))
            }
        } else if flag == "--weights"@ {
            if !has_value {
                missing
            } else {
                scan(argv, i + 2, FlagsView { weights_path: Some(value), ..f }, kinds)
            }
        } else if flag == "--a-weights"@ {
            if !has_value {
                missing
            } else {
                scan(argv, i + 2, FlagsView { a_weights_path: Some(value), ..f }, kinds)
            }
        } else if flag == "--b-weights"@ {
            if !has_value {
                missing
            } else {
                scan(argv, i + 2, FlagsView { b_weights_path: Some(value), ..f }, kinds)
            }
        } else if flag == "--a-search"@ {
            scan(argv, i + 1, FlagsView { a_search: true, ..f }, kinds)
        } else if flag == "--b-search"@ {
            scan(argv, i + 1, FlagsView { b_search: true, ..f }, kinds)
        } else if flag == "--policy-checkpoint"@ {
            if !has_value {
                missing
            } else {
                scan(argv, i + 2, FlagsView { policy_checkpoint: Some(value), ..f }, kinds)
            }
        } else if flag == "--a-policy"@ {
            scan(argv, i + 1, FlagsView { a_policy: true, ..f }, kinds)
        } else if flag == "--b-policy"@ {
            scan(argv, i + 1, FlagsView { b_policy: true, ..f }, kinds)
        } else if flag == "--a-policy-invert"@ {
            scan(argv, i + 1, FlagsView { a_policy_invert: true, ..f }, kinds)
        } else if flag == "--max-nodes"@ {
            if !has_value {
                missing
            } else {
                match parse_signed_spec(value, i64::MIN as int, i64::MAX as int) {
                    None => ScanView { kinds_read: kinds, flags: Err(not_a_number(flag, value)) },
                    Some(n) => scan(argv, i + 2, FlagsView { max_nodes: n, ..f }, kinds),
                }
            }
        } else if flag == "--games"@ {
            if !has_value {
                missing
            } else {
                match parse_unsigned_spec(value, usize::MAX as int) {
                    None => ScanView { kinds_read: kinds, flags: Err(not_a_number(flag, value)) },
                    Some(n) => scan(argv, i + 2, FlagsView { games: n, ..f }, kinds),
                }
            }
        } else if flag == "--players"@ {
            if !has_value {
                missing
            } else {
                match parse_unsigned_spec(value, u8::MAX as int) {
                    None => ScanView { kinds_read: kinds, flags: Err(not_a_number(flag, value)) },
                    Some(n) => scan(argv, i + 2, FlagsView { players: n, ..f }, kinds),
                }
            }
        } else if flag == "--seed"@ {
            if !has_value {
                missing
            } else {
                match parse_unsigned_spec(value, u64::MAX as int) {
                    None => ScanView { kinds_read: kinds, flags: Err(not_a_number(flag, value)) },
                    Some(n) => scan(argv, i + 2, FlagsView { seed: n, ..f }, kinds),
                }
            }
        } else if flag == "--threads"@ {
            if !has_value {
                missing
            } else {
                match parse_unsigned_spec(value, usize::MAX as int) {
                    None => ScanView { kinds_read: kinds, flags: Err(not_a_number(flag, value)) },
                    Some(n) => scan(argv, i + 2, FlagsView { threads: n, ..f }, kinds),
                }
            }
        } else if flag == "--help"@ || flag == "-h"@ {
            ScanView { kinds_read: kinds, flags: Ok(None) }
        } else {
            ScanView { kinds_read: kinds, flags: Err("unknown flag "@ + flag + "\n\n"@ + USAGE@) }
        }
    }
}

/// What reading a command line's flags comes to.
pub open spec fn scan_spec(argv: Seq<String>) -> ScanView {
    scan(argv.map_values(|s: String| s@), 0, default_flags(), Seq::empty())
}

/// Strings taken as plain characters.
pub open spec fn views(v: Seq<String>) -> Seq<Seq<char>> {
    v.map_values(|s: String| s@)
}

/// A reading of the flags taken as plain values.
pub open spec fn scanned_view(s: Scanned) -> ScanView {
    ScanView {
        kinds_read: views(s.kinds_read@),
        flags: match s.flags {
            Ok(Some(f)) => Ok(Some(f.view())),
            Ok(None) => Ok(None),
            Err(e) => Err(e@),
        },
    }
}

/// `s` followed by `tail`.
fn joined(s: &str, tail: &str) -> (out: String)
    ensures
        out@ == s@ + tail@,
{
    let mut out = String::from_str(s);
    out.append(tail);
    out
}

/// Reads the flags of the command line. A flag that is not known, or a
/// value missing or not a number, stops the reading with its message;
/// `--help` stops it with `None`. Every name given to `--a` or `--b` before
/// the stop is listed, in order, for the caller to resolve.
pub fn scan_args(argv: &[String]) -> (r: Scanned)
    ensures
        scanned_view(r) == scan_spec(argv@),
{
    let ghost all = views(argv@);
    let mut f = Flags {
        a_kind: String::from_str("weighted"),
        b_kind: String::from_str("weighted"),
        weights_path: None,
        a_weights_path: None,
        b_weights_path: None,
        a_search: false,
        b_search: false,
        policy_checkpoint: None,
        a_policy: false,
        b_policy: false,
        a_policy_invert: false,
        max_nodes: DEFAULT_MAX_NODES,
        games: 60,
        players: 3,
        seed: 0,
        threads: 1,
    };
    let mut kinds: Vec<String> = Vec::new();
    let n = argv.len();
    let mut i: usize = 0;
    assert(views(kinds@) == Seq::<Seq<char>>::empty());
    while i < n
        invariant
            n == argv@.len(),
            all == views(argv@),
            i <= n,
            scan(all, i as int, f.view(), views(kinds@)) == scan_spec(argv@),
        decreases n - i,
    {
        let flag = argv[i].as_str();
        assert(flag@ == all[i as int]);
        let has_value = i + 1 < n;
        if has_value {
            assert(argv[i + 1 as int]@ == all[i + 1]);
        }
        if str_eq(flag, "--a") {
            if !has_value {
                return Scanned { kinds_read: kinds, flags: Err(joined(flag, " needs a value")) };
            }
            let ghost before = kinds@;
            kinds.push(argv[i + 1].clone());
            assert(views(kinds@) == views(before).push(all[i + 1]));
            f.a_kind = argv[i + 1].clone();
            i = i + 2;
        } else if str_eq(flag, "--b") {
            if !has_value {
                return Scanned { kinds_read: kinds, flags: Err(joined(flag, " needs a value")) };
            }
            let ghost before = kinds@;
            kinds.push(argv[i + 1].clone());
            assert(views(kinds@) == views(before).push(all[i + 1]));
            f.b_kind = argv[i + 1].clone();
            i = i + 2;
        } else if str_eq(flag, "--weights") {
            if !has_value {
                return Scanned { kinds_read: kinds, flags: Err(joined(flag, " needs a value")) };
            }
            f.weights_path = Some(argv[i + 1].clone());
            i = i + 2;
        } else if str_eq(flag, "--a-weights") {
            if !has_value {
                return Scanned { kinds_read: kinds, flags: Err(joined(flag, " needs a value")) };
            }
            f.a_weights_path = Some(argv[i + 1].clone());
            i = i + 2;
        } else if str_eq(flag, "--b-weights") {
            if !has_value {
                return Scanned { kinds_read: kinds, flags: Err(joined(flag, " needs a value")) };
            }
            f.b_weights_path = Some(argv[i + 1].clone());
            i = i + 2;
        } else if str_eq(flag, "--a-search") {
            f.a_search = true;
            i = i + 1;
        } else if str_eq(flag, "--b-search") {
            f.b_search = true;
            i = i + 1;
        } else if str_eq(flag, "--policy-checkpoint") {
            if !has_value {
                return Scanned { kinds_read: kinds, flags: Err(joined(flag, " needs a value")) };
            }
            f.policy_checkpoint = Some(argv[i + 1].clone());
            i = i + 2;
        } else if str_eq(flag, "--a-policy") {
            f.a_policy = true;
            i = i + 1;
        } else if str_eq(flag, "--b-policy") {
            f.b_policy = true;
            i = i + 1;
        } else if str_eq(flag, "--a-policy-invert") {
            f.a_policy_invert = true;
            i = i + 1;
        } else if str_eq(flag, "--max-nodes") {
            if !has_value {
                return Scanned { kinds_read: kinds, flags: Err(joined(flag, " needs a value")) };
            }
            match parse_signed_num(argv[i + 1].as_str(), flag) {
                Ok(v) => f.max_nodes = v,
                Err(e) => return Scanned { kinds_read: kinds, flags: Err(e) },
            }
            i = i + 2;
        } else if str_eq(flag, "--games") {
            if !has_value {
                return Scanned { kinds_read: kinds, flags: Err(joined(flag, " needs a value")) };
            }
            match parse_num(argv[i + 1].as_str(), flag, usize::MAX as u64) {
                Ok(v) => f.games = v as usize,
                Err(e) => return Scanned { kinds_read: kinds, flags: Err(e) },
            }
            i = i + 2;
        } else if str_eq(flag, "--players") {
            if !has_value {
                return Scanned { kinds_read: kinds, flags: Err(joined(flag, " needs a value")) };
            }
            match parse_num(argv[i + 1].as_str(), flag, 255) {
                Ok(v) => f.players = v as u8,
                Err(e) => return Scanned { kinds_read: kinds, flags: Err(e) },
            }
            i = i + 2;
        } else if str_eq(flag, "--seed") {
            if !has_value {
                return Scanned { kinds_read: kinds, flags: Err(joined(flag, " needs a value")) };
            }
            match parse_num(argv[i + 1].as_str(), flag, u64::MAX) {
                Ok(v) => f.seed = v,
                Err(e) => return Scanned { kinds_read: kinds, flags: Err(e) },
            }
            i = i + 2;
        } else if str_eq(flag, "--threads") {
            if !has_value {
                return Scanned { kinds_read: kinds, flags: Err(joined(flag, " needs a value")) };
            }
            match parse_num(argv[i + 1].as_str(), flag, usize::MAX as u64) {
                Ok(v) => f.threads = v as usize,
                Err(e) => return Scanned { kinds_read: kinds, flags: Err(e) },
            }
            i = i + 2;
        } else if str_eq(flag, "--help") || str_eq(flag, "-h") {
            return Scanned { kinds_read: kinds, flags: Ok(None) };
        } else {
            let mut e = String::from_str("unknown flag ");
            e.append(flag);
            e.append("\n\n");
            e.append(USAGE);
            return Scanned { kinds_read: kinds, flags: Err(e) };
        }
    }
    Scanned { kinds_read: kinds, flags: Ok(Some(f)) }
}

/// The settings as plain values.
pub struct ArgsView {
    pub flags: FlagsView,
    pub a_class: KindClass,
    pub b_class: KindClass,
    pub a_weights_file: Option<Seq<char>>,
    pub b_weights_file: Option<Seq<char>>,
}

impl Args {
    /// The settings as plain values.
    pub open spec fn view(&self) -> ArgsView {
        ArgsView {
            flags: self.flags.view(),
            a_class: self.a_class,
            b_class: self.b_class,
            a_weights_file: opt_view(self.a_weights_file),
            b_weights_file: opt_view(self.b_weights_file),
        }
    }
}

/// `first` if it is there, else `fallback`.
pub open spec fn or_else(first: Option<Seq<char>>, fallback: Option<Seq<char>>) -> Option<Seq<char>> {
    match first {
        Some(p) => Some(p),
        None => fallback,
    }
}

/// What the flags `f` come to once `--a`'s kind is of class `a` and `--b`'s
/// of class `b`: the checks in order, the first that fails giving its
/// message; else the settings, with the games rounded down to whole deals
/// and each side's weight file chosen.
pub open spec fn settle_spec(f: FlagsView, a: KindClass, b: KindClass) -> Result<ArgsView, Seq<char>> {
    let games = f.games - f.games % f.players;
    if !(2 <= f.players <= 4) {
        Err("--players must be 2, 3 or 4, got "@ + decimal_text(f.players))
    } else if f.threads == 0 {
        Err("--threads must be at least 1"@)
    } else if f.a_search && a != KindClass::Human {
        Err("--a-search is only legal when --a is human"@)
    } else if f.b_search && b != KindClass::Human {
        Err("--b-search is only legal when --b is human"@)
    } else if f.a_policy && a != KindClass::Plan {
        Err("--a-policy is only legal when --a is plan"@)
    } else if f.b_policy && b != KindClass::Plan {
        Err("--b-policy is only legal when --b is plan"@)
    } else if (f.a_policy || f.b_policy) && f.policy_checkpoint is None {
        Err("--a-policy/--b-policy need --policy-checkpoint"@)
    } else if f.policy_checkpoint is Some && !f.a_policy && !f.b_policy {
        Err("--policy-checkpoint given but neither --a-policy nor --b-policy was set"@)
    } else if f.a_policy_invert && !f.a_policy {
        Err("--a-policy-invert is only legal alongside --a-policy"@)
    } else if f.max_nodes <= 0 {
        Err("--max-nodes must be positive, got "@ + decimal_text(f.max_nodes))
    } else if games == 0 {
        Err("--games must be at least "@ + decimal_text(f.players) + " at "@ + decimal_text(
            f.players,
        ) + "p"@)
    } else {
        Ok(
            ArgsView {
                flags: FlagsView { games, ..f },
                a_class: a,
                b_class: b,
                a_weights_file: or_else(f.a_weights_path, f.weights_path),
                b_weights_file: or_else(f.b_weights_path, f.weights_path),
            },
        )
    }
}

/// A copy of an optional string.
fn clone_opt(o: &Option<String>) -> (r: Option<String>)
    ensures
        opt_view(r) == opt_view(*o),
{
    match o {
        Some(s) => Some(s.clone()),
        None => None,
    }
}

/// The file a side reads: its own, else the shared one.
fn weights_file(own: &Option<String>, shared: &Option<String>) -> (r: Option<String>)
    ensures
        opt_view(r) == or_else(opt_view(*own), opt_view(*shared)),
{
    match own {
        Some(p) => Some(p.clone()),
        None => clone_opt(shared),
    }
}

/// Checks the flags against the classes of the two final kinds, `a` for
/// `--a` and `b` for `--b`. Search is for the human kind only, the policy
/// prior for the planning kind only and only with a checkpoint, and a
/// checkpoint only with a side to use it; the node budget is positive and
/// the games, rounded down to whole deals, at least one deal.
pub fn settle(f: Flags, a: KindClass, b: KindClass) -> (r: Result<Args, String>)
    ensures
        match r {
            Ok(x) => settle_spec(f.view(), a, b) == Ok::<ArgsView, Seq<char>>(x.view()),
            Err(e) => settle_spec(f.view(), a, b) == Err::<ArgsView, Seq<char>>(e@),
        },
{
    if !(2 <= f.players && f.players <= 4) {
        let mut e = String::from_str("--players must be 2, 3 or 4, got ");
        push_decimal(&mut e, f.players as u64);
        proof {
            assert(decimal_text(f.players as int) == crate::num::decimal_digits(f.players as nat));
        }
        return Err(e);
    }
    if f.threads == 0 {
        return Err(String::from_str("--threads must be at least 1"));
    }
    if f.a_search && a != KindClass::Human {
        return Err(String::from_str("--a-search is only legal when --a is human"));
    }
    if f.b_search && b != KindClass::Human {
        return Err(String::from_str("--b-search is only legal when --b is human"));
    }
    if f.a_policy && a != KindClass::Plan {
        return Err(String::from_str("--a-policy is only legal when --a is plan"));
    }
    if f.b_policy && b != KindClass::Plan {
        return Err(String::from_str("--b-policy is only legal when --b is plan"));
    }
    if (f.a_policy || f.b_policy) && f.policy_checkpoint.is_none() {
        return Err(String::from_str("--a-policy/--b-policy need --policy-checkpoint"));
    }
    if f.policy_checkpoint.is_some() && !f.a_policy && !f.b_policy {
        return Err(
            String::from_str(
                "--policy-checkpoint given but neither --a-policy nor --b-policy was set",
            ),
        );
    }
    if f.a_policy_invert && !f.a_policy {
        return Err(String::from_str("--a-policy-invert is only legal alongside --a-policy"));
    }
    if f.max_nodes <= 0 {
        let mut e = String::from_str("--max-nodes must be positive, got ");
        push_int(&mut e, f.max_nodes);
        return Err(e);
    }
    let per_deal = f.players as usize;
    assert(f.games % per_deal <= f.games) by (nonlinear_arith)
        requires
            per_deal > 0,
    ;
    let games = f.games - f.games % per_deal;
    if games == 0 {
        let mut e = String::from_str("--games must be at least ");
        push_decimal(&mut e, per_deal as u64);
        e.append(" at ");
        push_decimal(&mut e, f.players as u64);
        e.append("p");
        proof {
            assert(decimal_text(f.players as int) == crate::num::decimal_digits(f.players as nat));
        }
        return Err(e);
    }
    let a_weights_file = weights_file(&f.a_weights_path, &f.weights_path);
    let b_weights_file = weights_file(&f.b_weights_path, &f.weights_path);
    let mut flags = f;
    flags.games = games;
    Ok(Args { flags, a_class: a, b_class: b, a_weights_file, b_weights_file })
}

/// Whatever the flags and kinds, a duel that is settled is one that can be
/// run as asked: search only on a human side, the policy prior only on a
/// planning side and never without a checkpoint, a checkpoint only with a
/// side to use it, inverted ordering only with the prior on, a positive node
/// budget, at least one thread, and a whole, positive number of deals at 2,
/// 3 or 4 players.
pub proof fn lemma_settled_duels_are_consistent(f: Flags, a: KindClass, b: KindClass)
    ensures
        settle_spec(f.view(), a, b) matches Ok(r) ==> {
            &&& r.flags.a_search ==> r.a_class == KindClass::Human
            &&& r.flags.b_search ==> r.b_class == KindClass::Human
            &&& r.flags.a_policy ==> r.a_class == KindClass::Plan
            &&& r.flags.b_policy ==> r.b_class == KindClass::Plan
            &&& (r.flags.a_policy || r.flags.b_policy) <==> r.flags.policy_checkpoint is Some
            &&& r.flags.a_policy_invert ==> r.flags.a_policy
            &&& r.flags.max_nodes >= 1
            &&& r.flags.threads >= 1
            &&& 2 <= r.flags.players <= 4
            &&& r.flags.games % r.flags.players == 0
            &&& r.flags.games >= r.flags.players
        },
{
    let v = f.view();
    if 2 <= v.players <= 4 {
        let p = v.players;
        let g = v.games - v.games % p;
        assert(g % p == 0 && g >= 0) by (nonlinear_arith)
            requires
                p > 0,
                v.games >= 0,
                g == v.games - v.games % p,
        ;
        assert(g != 0 ==> g >= p) by (nonlinear_arith)
            requires
                p > 0,
                g >= 0,
                g % p == 0,
        ;
    }
}

} // verus!

//! The play harness's command line: the session's flags, and the `fields`
//! subcommand's.
//!
//! A `--difficulty` value is resolved against the engine's difficulty names
//! by the caller: reading lists every value given, in order, and the caller
//! stops at the first it does not know before looking at the rest of the
//! outcome.
use vstd::prelude::*;
use crate::args::{not_a_number, parse_num};
use crate::num::{decimal_text, lemma_parse_unsigned_range, parse_unsigned_spec, push_decimal};
use crate::text::str_eq;

verus! {

broadcast use vstd::string::group_string_axioms;

/// The usage text.
pub const USAGE: &'static str = "usage: harness [options]
       harness fields [--players N] [--seat N]

  --players N       2, 3 or 4 (default 3)
  --seat N          your seat, 0 = start player (default 0)
  --seed N          deal seed, only used for a fresh game (default 0)
  --weights PATH    bot weight JSON (default: built-in champion/defaults)
  --difficulty D    training | easy | medium | hard (default hard)
  --free            free mode: you play, the bot only watches
  --dlc BOOL         New Leaders & Wonders on? MUST be off (asked if omitted)
  --app-version V   CGE app version, recorded in the log
  --operator NAME   who is playing, recorded in the log
  --personality P   a 'world leader' AI personality (repeatable; labels the
                     game as a different experiment)
  --id ID           game id (default: a timestamp)
  --log PATH        where to write the JSONL record (default games/<id>.jsonl)
  --load PATH       resume from a snapshot file instead of dealing fresh
  --help

`fields` subcommand prints the derived field list and exits; no game is
played.
";

/// The `fields` subcommand's usage line.
pub const FIELDS_USAGE: &'static str = "usage: harness fields [--players N] [--seat N]";

/// The name for what `str::to_lowercase` gives: each character replaced by
/// its Unicode lowercase mapping. A function of the string alone.
pub uninterp spec fn lowercase_text(s: Seq<char>) -> Seq<char>;

/// ASCII lowercase of one character.
pub open spec fn ascii_lower(c: char) -> char {
    if 'A' <= c && c <= 'Z' {
        ((c as u32) + 32) as char
    } else {
        c
    }
}

/// `str::to_lowercase`. The contract names its result and states what the
/// Unicode lowercase mapping gives on ASCII text: the same length, each
/// capital letter replaced by its small letter and every other character
/// kept. What it gives beyond ASCII is left to the name.
#[verifier::external_body]
fn to_lowercase(s: &str) -> (r: String)
    ensures
        r@ == lowercase_text(s@),
        (forall|i: int| 0 <= i < s@.len() ==> (s@[i] as u32) < 128) ==> {
            &&& r@.len() == s@.len()
            &&& forall|i: int| 0 <= i < s@.len() ==> r@[i] == ascii_lower(s@[i])
        },
{
    s.to_lowercase()
}

/// Whether a `--dlc` value means on: `1`, `true` or `yes` in any case.
pub open spec fn dlc_on(v: Seq<char>) -> bool {
    let l = lowercase_text(v);
    l == "1"@ || l == "true"@ || l == "yes"@
}

/// The harness's settings. `difficulty` is the difficulty's name as given;
/// the paths and the game id are `None` when not given.
pub struct Args {
    pub players: u8,
    pub seat: u8,
    pub seed: u64,
    pub weights: Option<String>,
    pub difficulty: String,
    pub free: bool,
    pub dlc: Option<bool>,
    pub app_version: String,
    pub operator: String,
    pub personalities: Vec<String>,
    pub id: Option<String>,
    pub log: Option<String>,
    pub load: Option<String>,
}

/// An optional string taken as plain characters.
pub open spec fn opt_view(o: Option<String>) -> Option<Seq<char>> {
    match o {
        Some(s) => Some(s@),
        None => None,
    }
}

/// Strings taken as plain characters.
pub open spec fn views(v: Seq<String>) -> Seq<Seq<char>> {
    v.map_values(|s: String| s@)
}

/// The settings as plain values.
pub struct ArgsView {
    pub players: int,
    pub seat: int,
    pub seed: int,
    pub weights: Option<Seq<char>>,
    pub difficulty: Seq<char>,
    pub free: bool,
    pub dlc: Option<bool>,
    pub app_version: Seq<char>,
    pub operator: Seq<char>,
    pub personalities: Seq<Seq<char>>,
    pub id: Option<Seq<char>>,
    pub log: Option<Seq<char>>,
    pub load: Option<Seq<char>>,
}

impl Args {
    /// The settings as plain values.
    pub open spec fn view(&self) -> ArgsView {
        ArgsView {
            players: self.players as int,
            seat: self.seat as int,
            seed: self.seed as int,
            weights: opt_view(self.weights),
            difficulty: self.difficulty@,
            free: self.free,
            dlc: self.dlc,
            app_version: self.app_version@,
            operator: self.operator@,
            personalities: views(self.personalities@),
            id: opt_view(self.id),
            log: opt_view(self.log),
            load: opt_view(self.load),
        }
    }
}

/// The settings before any flag is read.
pub open spec fn default_args() -> ArgsView {
    ArgsView {
        players: 3,
        seat: 0,
        seed: 0,
        weights: None,
        difficulty: "hard"@,
        free: false,
        dlc: None,
        app_version: Seq::empty(),
        operator: Seq::empty(),
        personalities: Seq::empty(),
        id: None,
        log: None,
        load: None,
    }
}

/// What reading a command line comes to: every difficulty named up to where
/// the reading stopped, in order, and the settings, `None` when help was
/// asked for, or an error message.
pub struct Parsed {
    pub difficulties_read: Vec<String>,
    pub args: Result<Option<Args>, String>,
}

/// What reading a command line comes to, as plain values.
pub struct ParsedView {
    pub difficulties_read: Seq<Seq<char>>,
    pub args: Result<Option<ArgsView>, Seq<char>>,
}

/// The checks made once every flag is read.
pub open spec fn finish(a: ArgsView) -> Result<Option<ArgsView>, Seq<char>> {
    if !(2 <= a.players <= 4) {
        Err("--players must be 2, 3 or 4, got "@ + decimal_text(a.players))
    } else if a.seat >= a.players {
        Err("--seat must be 0.."@ + decimal_text(a.players - 1) + ", got "@ + decimal_text(a.seat))
    } else {
        Ok(Some(a))
    }
}

/// Reads the flags `argv[i..]` into `a`, `ds` being the difficulties named
/// so far.
pub open spec fn scan(argv: Seq<Seq<char>>, i: int, a: ArgsView, ds: Seq<Seq<char>>) -> ParsedView
    decreases argv.len() - i,
{
    if i < 0 || i >= argv.len() {
        ParsedView { difficulties_read: ds, args: finish(a) }
    } else {
        let flag = argv[i];
        let has_value = i + 1 < argv.len();
        let value = argv[i + 1];
        let stop = |r: Result<Option<ArgsView>, Seq<char>>| ParsedView { difficulties_read: ds, args: r };
        if flag == "--free"@ {
            scan(argv, i + 1, ArgsView { free: true, ..a }, ds)
        } else if flag == "--help"@ || flag == "-h"@ {
            stop(Ok(None))
        } else if flag != "--players"@ && flag != "--seat"@ && flag != "--seed"@ && flag
            != "--weights"@ && flag != "--difficulty"@ && flag != "--dlc"@ && flag
            != "--app-version"@ && flag != "--operator"@ && flag != "--personality"@ && flag
            != "--id"@ && flag != "--log"@ && flag != "--load"@ {
            stop(Err("unknown flag "@ + flag + "\n\n"@ + USAGE@))
        } else if !has_value {
            stop(Err(flag + " needs a value"@))
        } else if flag == "--players"@ {
            match parse_unsigned_spec(value, u8::MAX as int) {
                None => stop(Err(not_a_number(flag, value))),
                Some(n) => scan(argv, i + 2, ArgsView { players: n, ..a }, ds),
            }
        } else if flag == "--seat"@ {
            match parse_unsigned_spec(value, u8::MAX as int) {
                None => stop(Err(not_a_number(flag, value))),
                Some(n) => scan(argv, i + 2, ArgsView { seat: n, ..a }, ds),
            }
        } else if flag == "--seed"@ {
            match parse_unsigned_spec(value, u64::MAX as int) {
                None => stop(Err(not_a_number(flag, value))),
                Some(n) => scan(argv, i + 2, ArgsView { seed: n, ..a }, ds),
            }
        } else if flag == "--weights"@ {
            scan(argv, i + 2, ArgsView { weights: Some(value), ..a }, ds)
        } else if flag == "--difficulty"@ {
            scan(argv, i + 2, ArgsView { difficulty: value, ..a }, ds.push(value))
        } else if flag == "--dlc"@ {
            scan(argv, i + 2, ArgsView { dlc: Some(dlc_on(value)), ..a }, ds)
        } else if flag == "--app-version"@ {
            scan(argv, i + 2, ArgsView { app_version: value, ..a }, ds)
        } else if flag == "--operator"@ {
            scan(argv, i + 2, ArgsView { operator: value, ..a }, ds)
        } else if flag == "--personality"@ {
            scan(argv, i + 2, ArgsView { personalities: a.personalities.push(value), ..a }, ds)
        } else if flag == "--id"@ {
            scan(argv, i + 2, ArgsView { id: Some(value), ..a }, ds)
        } else if flag == "--log"@ {
            scan(argv, i + 2, ArgsView { log: Some(value), ..a }, ds)
        } else {
            scan(argv, i + 2, ArgsView { load: Some(value), ..a }, ds)
        }
    }
}

/// What a command line comes to.
pub open spec fn parse_spec(argv: Seq<String>) -> ParsedView {
    scan(views(argv), 0, default_args(), Seq::empty())
}

/// A reading taken as plain values.
pub open spec fn parsed_view(p: Parsed) -> ParsedView {
    ParsedView {
        difficulties_read: views(p.difficulties_read@),
        args: match p.args {
            Ok(Some(a)) => Ok(Some(a.view())),
            Ok(None) => Ok(None),
            Err(e) => Err(e@),
        },
    }
}

/// `s` followed by `tail`.
fn joined(s: &str, tail: &str) -> (out: String)
    ensures
        out@ == s@ + tail@,
{
    let mut out = String::from_str(s);
    out.append(tail);
    out
}

/// Whether `flag` is one of the flags that take a value.
fn takes_value(flag: &str) -> (r: bool)
    ensures
        r == (flag@ == "--players"@ || flag@ == "--seat"@ || flag@ == "--seed"@ || flag@
            == "--weights"@ || flag@ == "--difficulty"@ || flag@ == "--dlc"@ || flag@
            == "--app-version"@ || flag@ == "--operator"@ || flag@ == "--personality"@ || flag@
            == "--id"@ || flag@ == "--log"@ || flag@ == "--load"@),
{
    str_eq(flag, "--players") || str_eq(flag, "--seat") || str_eq(flag, "--seed") || str_eq(
        flag,
        "--weights",
    ) || str_eq(flag, "--difficulty") || str_eq(flag, "--dlc") || str_eq(flag, "--app-version")
        || str_eq(flag, "--operator") || str_eq(flag, "--personality") || str_eq(flag, "--id")
        || str_eq(flag, "--log") || str_eq(flag, "--load")
}

/// Reads the session's command line. A flag that is not known, or a value
/// missing or not a number, is an error; so is a player count outside
/// 2..=4 or a seat that is not one of the players'. `--dlc` is on for `1`,
/// `true` or `yes` in any case and off for anything else; `--personality`
/// adds one personality each time it is given.
pub fn parse_args(argv: &[String]) -> (r: Parsed)
    ensures
        parsed_view(r) == parse_spec(argv@),
{
    let ghost all = views(argv@);
    let mut a = Args {
        players: 3,
        seat: 0,
        seed: 0,
        weights: None,
        difficulty: String::from_str("hard"),
        free: false,
        dlc: None,
        app_version: String::new(),
        operator: String::new(),
        personalities: Vec::new(),
        id: None,
        log: None,
        load: None,
    };
    let mut ds: Vec<String> = Vec::new();
    proof {
        assert(views(a.personalities@) == Seq::<Seq<char>>::empty());
        assert(views(ds@) == Seq::<Seq<char>>::empty());
        assert(a.view() == default_args());
    }
    let n = argv.len();
    let mut i: usize = 0;
    while i < n
        invariant
            n == argv@.len(),
            all == views(argv@),
            i <= n,
            scan(all, i as int, a.view(), views(ds@)) == parse_spec(argv@),
        decreases n - i,
    {
        let flag = argv[i].as_str();
        assert(flag@ == all[i as int]);
        let has_value = i + 1 < n;
        if has_value {
            assert(argv[i + 1 as int]@ == all[i + 1]);
        }
        if str_eq(flag, "--free") {
            a.free = true;
            i = i + 1;
        } else if str_eq(flag, "--help") || str_eq(flag, "-h") {
            return Parsed { difficulties_read: ds, args: Ok(None) };
        } else if !takes_value(flag) {
            let mut e = String::from_str("unknown flag ");
            e.append(flag);
            e.append("\n\n");
            e.append(USAGE);
            return Parsed { difficulties_read: ds, args: Err(e) };
        } else if !has_value {
            return Parsed { difficulties_read: ds, args: Err(joined(flag, " needs a value")) };
        } else {
            let value = argv[i + 1].as_str();
            if str_eq(flag, "--players") {
                match parse_num(value, flag, 255) {
                    Ok(v) => a.players = v as u8,
                    Err(e) => return Parsed { difficulties_read: ds, args: Err(e) },
                }
            } else if str_eq(flag, "--seat") {
                match parse_num(value, flag, 255) {
                    Ok(v) => a.seat = v as u8,
                    Err(e) => return Parsed { difficulties_read: ds, args: Err(e) },
                }
            } else if str_eq(flag, "--seed") {
                match parse_num(value, flag, u64::MAX) {
                    Ok(v) => a.seed = v,
                    Err(e) => return Parsed { difficulties_read: ds, args: Err(e) },
                }
            } else if str_eq(flag, "--weights") {
                a.weights = Some(argv[i + 1].clone());
            } else if str_eq(flag, "--difficulty") {
                let ghost before = ds@;
                ds.push(argv[i + 1].clone());
                assert(views(ds@) == views(before).push(all[i + 1]));
                a.difficulty = argv[i + 1].clone();
            } else if str_eq(flag, "--dlc") {
                let l = to_lowercase(value);
                let on = str_eq(l.as_str(), "1") || str_eq(l.as_str(), "true") || str_eq(
                    l.as_str(),
                    "yes",
                );
                a.dlc = Some(on);
            } else if str_eq(flag, "--app-version") {
                a.app_version = argv[i + 1].clone();
            } else if str_eq(flag, "--operator") {
                a.operator = argv[i + 1].clone();
            } else if str_eq(flag, "--personality") {
                let ghost before = a.personalities@;
                a.personalities.push(argv[i + 1].clone());
                assert(views(a.personalities@) == views(before).push(all[i + 1]));
            } else if str_eq(flag, "--id") {
                a.id = Some(argv[i + 1].clone());
            } else if str_eq(flag, "--log") {
                a.log = Some(argv[i + 1].clone());
            } else {
                a.load = Some(argv[i + 1].clone());
            }
            i = i + 2;
        }
    }
    if !(2 <= a.players && a.players <= 4) {
        let mut e = String::from_str("--players must be 2, 3 or 4, got ");
        push_decimal(&mut e, a.players as u64);
        proof {
            assert(decimal_text(a.players as int) == crate::num::decimal_digits(a.players as nat));
        }
        return Parsed { difficulties_read: ds, args: Err(e) };
    }
    if a.seat >= a.players {
        let mut e = String::from_str("--seat must be 0..");
        push_decimal(&mut e, (a.players - 1) as u64);
        e.append(", got ");
        push_decimal(&mut e, a.seat as u64);
        proof {
            assert(decimal_text(a.players - 1) == crate::num::decimal_digits((a.players - 1) as nat));
            assert(decimal_text(a.seat as int) == crate::num::decimal_digits(a.seat as nat));
        }
        return Parsed { difficulties_read: ds, args: Err(e) };
    }
    Parsed { difficulties_read: ds, args: Ok(Some(a)) }
}

/// Reads the `fields` subcommand's flags `argv[i..]` onto the player count
/// `players` and seat `seat`.
pub open spec fn scan_fields(argv: Seq<Seq<char>>, i: int, players: int, seat: int) -> Result<Option<(int, int)>, Seq<char>>
    decreases argv.len() - i,
{
    if i < 0 || i >= argv.len() {
        Ok(Some((players, seat)))
    } else {
        let flag = argv[i];
        let value = argv[i + 1];
        if flag == "--players"@ || flag == "--seat"@ {
            if i + 1 >= argv.len() {
                Err(flag + " needs a value"@)
            } else {
                match parse_unsigned_spec(value, u8::MAX as int) {
                    None => Err(not_a_number(flag, value)),
                    Some(n) => if flag == "--players"@ {
                        scan_fields(argv, i + 2, n, seat)
                    } else {
                        scan_fields(argv, i + 2, players, n)
                    },
                }
            }
        } else if flag == "--help"@ || flag == "-h"@ {
            Ok(None)
        } else {
            Err("unknown flag "@ + flag)
        }
    }
}

/// Reads the `fields` subcommand's flags: the player count (3 unless given)
/// and the seat (0 unless given) the field table is for, with no range
/// check. `Ok(None)` means help was asked for, and the caller shows
/// [`FIELDS_USAGE`]. A flag that is not known, or a value missing or not a
/// number, is an error.
pub fn parse_fields_args(argv: &[String]) -> (r: Result<Option<(u8, u8)>, String>)
    ensures
        match r {
            Ok(Some((p, s))) => scan_fields(views(argv@), 0, 3, 0) == Ok::<Option<(int, int)>, Seq<char>>(
                Some((p as int, s as int)),
            ),
            Ok(None) => scan_fields(views(argv@), 0, 3, 0) == Ok::<Option<(int, int)>, Seq<char>>(
                None,
            ),
            Err(e) => scan_fields(views(argv@), 0, 3, 0) == Err::<Option<(int, int)>, Seq<char>>(e@),
        },
{
    let ghost all = views(argv@);
    let mut players: u8 = 3;
    let mut seat: u8 = 0;
    let n = argv.len();
    let mut i: usize = 0;
    while i < n
        invariant
            n == argv@.len(),
            all == views(argv@),
            i <= n,
            scan_fields(all, i as int, players as int, seat as int) == scan_fields(all, 0, 3, 0),
        decreases n - i,
    {
        let flag = argv[i].as_str();
        assert(flag@ == all[i as int]);
        if str_eq(flag, "--players") || str_eq(flag, "--seat") {
            if i + 1 >= n {
                return Err(joined(flag, " needs a value"));
            }
            assert(argv[i + 1 as int]@ == all[i + 1]);
            let v = match parse_num(argv[i + 1].as_str(), flag, 255) {
                Ok(v) => v as u8,
                Err(e) => return Err(e),
            };
            if str_eq(flag, "--players") {
                players = v;
            } else {
                seat = v;
            }
            i = i + 2;
        } else if str_eq(flag, "--help") || str_eq(flag, "-h") {
            return Ok(None);
        } else {
            let mut e = String::from_str("unknown flag ");
            e.append(flag);
            return Err(e);
        }
    }
    Ok(Some((players, seat)))
}

/// Flags read from `argv[i..]` onto settings whose seat is not negative,
/// when accepted, seat the operator at a table of 2, 3 or 4.
proof fn lemma_scan_seats_at_the_table(argv: Seq<Seq<char>>, i: int, a: ArgsView, ds: Seq<Seq<char>>)
    requires
        a.seat >= 0,
    ensures
        scan(argv, i, a, ds).args matches Ok(Some(r)) ==> 2 <= r.players <= 4 && 0 <= r.seat
            < r.players,
    decreases argv.len() - i,
{
    if 0 <= i < argv.len() {
        let flag = argv[i];
        let value = argv[i + 1];
        if flag == "--free"@ {
            lemma_scan_seats_at_the_table(argv, i + 1, ArgsView { free: true, ..a }, ds);
        } else if i + 1 < argv.len() {
            if flag == "--players"@ {
                if let Some(n) = parse_unsigned_spec(value, u8::MAX as int) {
                    lemma_scan_seats_at_the_table(argv, i + 2, ArgsView { players: n, ..a }, ds);
                }
            } else if flag == "--seat"@ {
                lemma_parse_unsigned_range(value, u8::MAX as int);
                if let Some(n) = parse_unsigned_spec(value, u8::MAX as int) {
                    lemma_scan_seats_at_the_table(argv, i + 2, ArgsView { seat: n, ..a }, ds);
                }
            } else if flag == "--seed"@ {
                if let Some(n) = parse_unsigned_spec(value, u64::MAX as int) {
                    lemma_scan_seats_at_the_table(argv, i + 2, ArgsView { seed: n, ..a }, ds);
                }
            } else if flag == "--weights"@ {
                lemma_scan_seats_at_the_table(argv, i + 2, ArgsView { weights: Some(value), ..a }, ds);
            } else if flag == "--difficulty"@ {
                lemma_scan_seats_at_the_table(argv, i + 2, ArgsView { difficulty: value, ..a }, ds.push(value));
            } else if flag == "--dlc"@ {
                lemma_scan_seats_at_the_table(argv, i + 2, ArgsView { dlc: Some(dlc_on(value)), ..a }, ds);
            } else if flag == "--app-version"@ {
                lemma_scan_seats_at_the_table(argv, i + 2, ArgsView { app_version: value, ..a }, ds);
            } else if flag == "--operator"@ {
                lemma_scan_seats_at_the_table(argv, i + 2, ArgsView { operator: value, ..a }, ds);
            } else if flag == "--personality"@ {
                lemma_scan_seats_at_the_table(
                    argv,
                    i + 2,
                    ArgsView { personalities: a.personalities.push(value), ..a },
                    ds,
                );
            } else if flag == "--id"@ {
                lemma_scan_seats_at_the_table(argv, i + 2, ArgsView { id: Some(value), ..a }, ds);
            } else if flag == "--log"@ {
                lemma_scan_seats_at_the_table(argv, i + 2, ArgsView { log: Some(value), ..a }, ds);
            } else {
                lemma_scan_seats_at_the_table(argv, i + 2, ArgsView { load: Some(value), ..a }, ds);
            }
        }
    }
}

/// Whatever the command line, a session it is accepted with seats the
/// operator at one of the seats of a table of 2, 3 or 4.
pub proof fn lemma_accepted_seat_is_at_the_table(argv: Seq<String>)
    ensures
        parse_spec(argv).args matches Ok(Some(r)) ==> 2 <= r.players <= 4 && 0 <= r.seat < r.players,
{
    lemma_scan_seats_at_the_table(views(argv), 0, default_args(), Seq::empty());
}

} // verus!

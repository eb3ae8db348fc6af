//! The multiplier check's command line: five positional values.
use vstd::prelude::*;
use crate::args::{debug_quoted, not_a_number};
use crate::num::{decimal_text, parse_unsigned, parse_unsigned_spec, push_decimal};

verus! {

broadcast use vstd::string::group_string_axioms;

/// The check's settings.
pub struct Args {
    pub games: usize,
    pub seed: u64,
    pub threads: usize,
    pub champion_path: String,
    pub players: u8,
}

/// The usage line.
pub const USAGE: &'static str = "usage: multcheck <games> <seed> <threads> <champion_json> <players 2|3|4>";

/// The message for a value of `name` that is not a number.
fn not_a_number_msg(name: &str, s: &String) -> (e: String)
    ensures
        e@ == not_a_number(name@, s@),
{
    let mut e = String::from_str(name);
    e.append(": ");
    let q = debug_quoted(s.as_str());
    e.append(q.as_str());
    e.append(" is not a number");
    e
}

/// What the five values come to: the settings, or the first error in the
/// order they are checked.
pub open spec fn parse_spec(argv: Seq<Seq<char>>) -> Result<
    (int, int, int, Seq<char>, int),
    Seq<char>,
> {
    if argv.len() != 5 {
        Err(USAGE@ + "\ngot "@ + decimal_text(argv.len() as int) + " argument(s), expected 5"@)
    } else {
        let games = parse_unsigned_spec(argv[0], usize::MAX as int);
        let seed = parse_unsigned_spec(argv[1], u64::MAX as int);
        let threads = parse_unsigned_spec(argv[2], usize::MAX as int);
        let players = parse_unsigned_spec(argv[4], u8::MAX as int);
        if games is None {
            Err(not_a_number("games"@, argv[0]))
        } else if seed is None {
            Err(not_a_number("seed"@, argv[1]))
        } else if threads is None {
            Err(not_a_number("threads"@, argv[2]))
        } else if players is None {
            Err(not_a_number("players"@, argv[4]))
        } else if games->0 == 0 {
            Err("games must be at least 1"@)
        } else if threads->0 == 0 {
            Err("threads must be at least 1"@)
        } else if !(2 <= players->0 <= 4) {
            Err("players must be 2, 3, or 4, got "@ + decimal_text(players->0))
        } else {
            Ok((games->0, seed->0, threads->0, argv[3], players->0))
        }
    }
}

/// Reads `<games> <seed> <threads> <champion_json> <players>`.
pub fn parse_args(argv: &[String]) -> (r: Result<Args, String>)
    ensures
        match r {
            Ok(a) => parse_spec(argv@.map_values(|s: String| s@)) == Ok::<
                (int, int, int, Seq<char>, int),
                Seq<char>,
            >((a.games as int, a.seed as int, a.threads as int, a.champion_path@, a.players as int)),
            Err(e) => parse_spec(argv@.map_values(|s: String| s@)) == Err::<
                (int, int, int, Seq<char>, int),
                Seq<char>,
            >(e@),
        },
{
    let ghost views = argv@.map_values(|s: String| s@);
    if argv.len() != 5 {
        let mut e = String::from_str(USAGE);
        e.append("\ngot ");
        push_decimal(&mut e, argv.len() as u64);
        e.append(" argument(s), expected 5");
        proof {
            assert(decimal_text(argv@.len() as int) == crate::num::decimal_digits(
                argv@.len() as nat,
            ));
        }
        return Err(e);
    }
    assert(argv[0]@ == views[0]);
    assert(argv[1]@ == views[1]);
    assert(argv[2]@ == views[2]);
    assert(argv[3]@ == views[3]);
    assert(argv[4]@ == views[4]);
    let games = match parse_unsigned(argv[0].as_str(), usize::MAX as u64) {
        Some(v) => v as usize,
        None => return Err(not_a_number_msg("games", &argv[0])),
    };
    let seed = match parse_unsigned(argv[1].as_str(), u64::MAX) {
        Some(v) => v,
        None => return Err(not_a_number_msg("seed", &argv[1])),
    };
    let threads = match parse_unsigned(argv[2].as_str(), usize::MAX as u64) {
        Some(v) => v as usize,
        None => return Err(not_a_number_msg("threads", &argv[2])),
    };
    let players = match parse_unsigned(argv[4].as_str(), 255) {
        Some(v) => v as u8,
        None => return Err(not_a_number_msg("players", &argv[4])),
    };
    if games == 0 {
        return Err(String::from_str("games must be at least 1"));
    }
    if threads == 0 {
        return Err(String::from_str("threads must be at least 1"));
    }
    if !(2 <= players && players <= 4) {
        let mut e = String::from_str("players must be 2, 3, or 4, got ");
        push_decimal(&mut e, players as u64);
        proof {
            assert(decimal_text(players as int) == crate::num::decimal_digits(players as nat));
        }
        return Err(e);
    }
    Ok(Args { games, seed, threads, champion_path: argv[3].clone(), players })
}

} // verus!

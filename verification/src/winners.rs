//! Winner-versus-loser evidence from the human corpus: hit-rate tallies, their
//! report text, and reading cumulative totals out of journal score lines.
use vstd::prelude::*;
use crate::num::{decimal_text, parse_i32, parse_signed_spec, push_decimal};
use crate::text::{
    chars_of, find, find_char_from, find_chars, next_index_of, trim, trim_range,
};

verus! {

broadcast use vstd::string::group_string_axioms;

/// How often something happened out of how many chances.
#[derive(Default, Clone, Copy)]
pub struct RateStat {
    pub n: u64,
    pub hits: u64,
}

impl RateStat {
    /// Records one chance, a hit or not.
    pub fn add(&mut self, hit: bool)
        requires
            old(self).n < u64::MAX,
            hit ==> old(self).hits < u64::MAX,
        ensures
            final(self).n == old(self).n + 1,
            final(self).hits == old(self).hits + if hit {
                1int
            } else {
                0
            },
            old(self).hits <= old(self).n ==> final(self).hits <= final(self).n,
    {
        self.n = self.n + 1;
        if hit {
            self.hits = self.hits + 1;
        }
    }
}

/// The report text of a rate with `percent` as the percentage's text.
pub open spec fn rate_text(s: RateStat, percent: Seq<char>) -> Seq<char> {
    if s.n == 0 {
        "n/a (n=0)"@
    } else {
        percent + "% (n="@ + decimal_text(s.n as int) + ")"@
    }
}

/// A rate for the report: `n/a (n=0)` with no chances, else the percentage
/// (`percent_text`, computed by the caller from `hits / n`) and the sample
/// size.
pub fn fmt_rate(s: &RateStat, percent_text: &str) -> (out: String)
    ensures
        out@ == rate_text(*s, percent_text@),
{
    if s.n == 0 {
        String::from_str("n/a (n=0)")
    } else {
        let mut out = String::from_str(percent_text);
        out.append("% (n=");
        push_decimal(&mut out, s.n);
        out.append(")");
        proof {
            assert(decimal_text(s.n as int) == crate::num::decimal_digits(s.n as nat));
        }
        out
    }
}

/// The warning appended to a number drawn from fewer than 30 samples.
pub fn lowconf(n: u64) -> (tag: &'static str)
    ensures
        tag@ == if n < 30 {
            " [LOW CONFIDENCE, n<30]"@
        } else {
            ""@
        },
{
    if n < 30 {
        " [LOW CONFIDENCE, n<30]"
    } else {
        ""
    }
}

/// The number in `"... <label> <M>)"`: the text between the first `label`
/// and the next `)`, trimmed and read as an `i32`.
pub open spec fn now_value(text: Seq<char>, label: Seq<char>) -> Option<int> {
    match find(text, label) {
        None => None,
        Some(pos) => {
            let from = pos + label.len();
            let end = next_index_of(text, ')', from);
            if end >= text.len() {
                None
            } else {
                parse_signed_spec(trim(text.subrange(from, end)), i32::MIN as int, i32::MAX as int)
            }
        },
    }
}

/// `"<N> <label> (now <M>)"` gives `M`, with `label` ending in `"(now "`:
/// reads a cumulative culture or science total off a score line.
pub fn extract_now_value(text: &str, label: &str) -> (r: Option<i32>)
    ensures
        match r {
            Some(v) => now_value(text@, label@) == Some(v as int),
            None => now_value(text@, label@) is None,
        },
{
    let cs = chars_of(text);
    let n = cs.len();
    let pat = chars_of(label);
    let pos = match find_chars(&cs, &pat) {
        Some(p) => p,
        None => return None,
    };
    proof {
        crate::text::lemma_find_bounds(cs@, pat@);
    }
    assert(pos + pat@.len() <= n);
    let from = pos + pat.len();
    let end = find_char_from(&cs, ')', from);
    if end >= n {
        return None;
    }
    let body = trim_range(&cs, from, end);
    parse_i32(body.as_str())
}

} // verus!

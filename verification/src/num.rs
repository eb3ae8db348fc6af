//! Decimal numbers in text: parsing them the way `str::parse` does for the
//! integer types, and writing them the way `Display` does.
use vstd::prelude::*;
use crate::text::{chars_of, push_char, is_digit};

verus! {

broadcast use vstd::string::group_string_axioms;

/// The value of an ASCII digit.
pub open spec fn digit_value(c: char) -> int {
    (c as int) - ('0' as int)
}

/// Whether every character of `s` is an ASCII digit.
pub open spec fn all_digits(s: Seq<char>) -> bool {
    forall|i: int| 0 <= i < s.len() ==> is_digit(#[trigger] s[i])
}

/// The number a string of decimal digits spells.
pub open spec fn decimal_value(s: Seq<char>) -> int
    decreases s.len(),
{
    if s.len() == 0 {
        0
    } else {
        decimal_value(s.drop_last()) * 10 + digit_value(s.last())
    }
}

/// The digits after an optional leading `+`.
pub open spec fn unsigned_body(s: Seq<char>) -> Seq<char> {
    if s.len() > 0 && s[0] == '+' {
        s.drop_first()
    } else {
        s
    }
}

/// What `str::parse` gives for an unsigned integer type whose largest value
/// is `max`: an optional `+`, then one or more ASCII digits, and a value
/// that fits.
pub open spec fn parse_unsigned_spec(s: Seq<char>, max: int) -> Option<int> {
    let body = unsigned_body(s);
    if body.len() > 0 && all_digits(body) && decimal_value(body) <= max {
        Some(decimal_value(body))
    } else {
        None
    }
}

/// What `str::parse` gives for a signed integer type with range
/// `min..=max`: an optional `+` or `-`, then one or more ASCII digits, and a
/// value in range.
pub open spec fn parse_signed_spec(s: Seq<char>, min: int, max: int) -> Option<int> {
    if s.len() > 0 && s[0] == '-' {
        let body = s.drop_first();
        if body.len() > 0 && all_digits(body) && -decimal_value(body) >= min {
            Some(-decimal_value(body))
        } else {
            None
        }
    } else {
        parse_unsigned_spec(s, max)
    }
}

proof fn lemma_decimal_value_nonneg(s: Seq<char>)
    requires
        all_digits(s),
    ensures
        decimal_value(s) >= 0,
    decreases s.len(),
{
    if s.len() > 0 {
        assert(all_digits(s.drop_last())) by {
            assert forall|i: int| 0 <= i < s.drop_last().len() implies is_digit(#[trigger] s.drop_last()[i]) by {
                assert(s.drop_last()[i] == s[i]);
            }
        }
        lemma_decimal_value_nonneg(s.drop_last());
        assert(is_digit(s[s.len() - 1]));
    }
}

/// What [`parse_unsigned_spec`] reads lies between zero and `max`.
pub proof fn lemma_parse_unsigned_range(s: Seq<char>, max: int)
    ensures
        parse_unsigned_spec(s, max) matches Some(n) ==> 0 <= n <= max,
{
    let body = unsigned_body(s);
    if body.len() > 0 && all_digits(body) {
        lemma_decimal_value_nonneg(body);
    }
}

/// Reads the digits `cs[from..]` as a number no larger than `max`.
fn digits_value(cs: &Vec<char>, from: usize, max: u64) -> (r: Option<u64>)
    requires
        from <= cs@.len(),
    ensures
        ({
            let body = cs@.skip(from as int);
            match r {
                Some(v) => body.len() > 0 && all_digits(body) && decimal_value(body) == v && v <= max,
                None => !(body.len() > 0 && all_digits(body) && decimal_value(body) <= max),
            }
        }),
{
    let n = cs.len();
    let ghost body = cs@.skip(from as int);
    if from >= n {
        return None;
    }
    let mut v: u64 = 0;
    let mut i = from;
    while i < n
        invariant
            n == cs@.len(),
            from <= i <= n,
            body == cs@.skip(from as int),
            all_digits(cs@.subrange(from as int, i as int)),
            decimal_value(cs@.subrange(from as int, i as int)) == v,
            v <= max,
        decreases n - i,
    {
        let c = cs[i];
        let ghost pre = cs@.subrange(from as int, i as int);
        let ghost next = cs@.subrange(from as int, i + 1);
        assert(next.drop_last() =~= pre);
        assert(next.last() == c);
        if !('0' <= c && c <= '9') {
            proof {
                assert(body[i - from] == c);
            }
            return None;
        }
        let d = (c as u64) - ('0' as u64);
        if d > max || v > (max - d) / 10 {
            proof {
                assert(decimal_value(next) == v * 10 + d);
                assert(v * 10 + d > max) by (nonlinear_arith)
                    requires
                        d > max || v > (max - d) / 10,
                        d <= 9,
                ;
                lemma_prefix_bound(cs@, from as int, i + 1, max as int);
            }
            return None;
        }
        assert(v * 10 + d <= max) by (nonlinear_arith)
            requires
                d <= max,
                v <= (max - d) / 10,
        ;
        v = v * 10 + d;
        i = i + 1;
        proof {
            assert forall|j: int| 0 <= j < next.len() implies is_digit(#[trigger] next[j]) by {
                if j < pre.len() {
                    assert(next[j] == pre[j]);
                }
            }
        }
    }
    assert(cs@.subrange(from as int, n as int) =~= body);
    Some(v)
}

/// If a prefix of a digit string already exceeds `max`, so does the whole.
proof fn lemma_prefix_bound(s: Seq<char>, from: int, k: int, max: int)
    requires
        0 <= from < k <= s.len(),
        all_digits(s.subrange(from, k - 1)),
        is_digit(s[k - 1]),
        decimal_value(s.subrange(from, k)) > max,
        max >= 0,
    ensures
        !(all_digits(s.skip(from)) && decimal_value(s.skip(from)) <= max),
    decreases s.len() - k,
{
    let body = s.skip(from);
    if all_digits(body) {
        if k == s.len() {
            assert(s.subrange(from, k) =~= body);
        } else {
            let next = s.subrange(from, k + 1);
            assert(next.drop_last() =~= s.subrange(from, k));
            assert(is_digit(body[k - from]));
            assert(s[k] == body[k - from]);
            assert forall|j: int| 0 <= j < k - from implies is_digit(#[trigger] s.subrange(from, k)[j]) by {
                assert(s.subrange(from, k)[j] == body[j]);
            }
            lemma_decimal_value_nonneg(s.subrange(from, k));
            assert(decimal_value(next) > max);
            lemma_prefix_bound(s, from, k + 1, max);
        }
    }
}

/// `str::parse` for an unsigned integer type whose largest value is `max`.
pub fn parse_unsigned(s: &str, max: u64) -> (r: Option<u64>)
    ensures
        match r {
            Some(v) => parse_unsigned_spec(s@, max as int) == Some(v as int),
            None => parse_unsigned_spec(s@, max as int) is None,
        },
{
    let cs = chars_of(s);
    let from: usize = if cs.len() > 0 && cs[0] == '+' { 1 } else { 0 };
    assert(unsigned_body(s@) =~= cs@.skip(from as int));
    digits_value(&cs, from, max)
}

/// `str::parse::<i32>`.
pub fn parse_i32(s: &str) -> (r: Option<i32>)
    ensures
        match r {
            Some(v) => parse_signed_spec(s@, i32::MIN as int, i32::MAX as int) == Some(v as int),
            None => parse_signed_spec(s@, i32::MIN as int, i32::MAX as int) is None,
        },
{
    let cs = chars_of(s);
    if cs.len() > 0 && cs[0] == '-' {
        assert(s@.drop_first() =~= cs@.skip(1));
        match digits_value(&cs, 1, 2147483648) {
            Some(v) => Some((0i64 - v as i64) as i32),
            None => None,
        }
    } else {
        let from: usize = if cs.len() > 0 && cs[0] == '+' { 1 } else { 0 };
        assert(unsigned_body(s@) =~= cs@.skip(from as int));
        match digits_value(&cs, from, 2147483647) {
            Some(v) => Some(v as i32),
            None => None,
        }
    }
}

/// `str::parse::<i64>`.
pub fn parse_i64(s: &str) -> (r: Option<i64>)
    ensures
        match r {
            Some(v) => parse_signed_spec(s@, i64::MIN as int, i64::MAX as int) == Some(v as int),
            None => parse_signed_spec(s@, i64::MIN as int, i64::MAX as int) is None,
        },
{
    let cs = chars_of(s);
    if cs.len() > 0 && cs[0] == '-' {
        assert(s@.drop_first() =~= cs@.skip(1));
        match digits_value(&cs, 1, 9223372036854775808) {
            Some(v) => {
                if v == 9223372036854775808 {
                    Some(i64::MIN)
                } else {
                    Some(0i64 - v as i64)
                }
            },
            None => None,
        }
    } else {
        let from: usize = if cs.len() > 0 && cs[0] == '+' { 1 } else { 0 };
        assert(unsigned_body(s@) =~= cs@.skip(from as int));
        match digits_value(&cs, from, 9223372036854775807) {
            Some(v) => Some(v as i64),
            None => None,
        }
    }
}

/// The decimal digits `Display` writes for `v`.
pub open spec fn decimal_digits(v: nat) -> Seq<char>
    decreases v,
{
    if v < 10 {
        seq![(('0' as int) + v) as char]
    } else {
        decimal_digits(v / 10).push((('0' as int) + v % 10) as char)
    }
}

/// What `Display` writes for the integer `v`.
pub open spec fn decimal_text(v: int) -> Seq<char> {
    if v < 0 {
        seq!['-'] + decimal_digits((-v) as nat)
    } else {
        decimal_digits(v as nat)
    }
}

/// The digit character for `d < 10`.
fn digit_char(d: u64) -> (c: char)
    requires
        d < 10,
    ensures
        c == (('0' as int) + d) as char,
{
    if d == 0 { '0' } else if d == 1 { '1' } else if d == 2 { '2' } else if d == 3 { '3' }
    else if d == 4 { '4' } else if d == 5 { '5' } else if d == 6 { '6' } else if d == 7 { '7' }
    else if d == 8 { '8' } else { '9' }
}

/// Appends the decimal digits of `v` to `out`.
pub fn push_decimal(out: &mut String, v: u64)
    ensures
        final(out)@ == old(out)@ + decimal_digits(v as nat),
    decreases v,
{
    if v >= 10 {
        push_decimal(out, v / 10);
    }
    push_char(out, digit_char(v % 10));
    proof {
        if v >= 10 {
            assert(decimal_digits(v as nat) == decimal_digits((v / 10) as nat).push(
                (('0' as int) + v % 10) as char,
            ));
        }
    }
}

/// Appends `v` as `Display` writes it to `out`.
pub fn push_int(out: &mut String, v: i64)
    ensures
        final(out)@ == old(out)@ + decimal_text(v as int),
{
    if v < 0 {
        push_char(out, '-');
        let m: u64 = if v == i64::MIN { 9223372036854775808u64 } else { (0 - v) as u64 };
        push_decimal(out, m);
        assert(seq!['-'] + decimal_digits(m as nat) == decimal_text(v as int));
    } else {
        push_decimal(out, v as u64);
    }
}

} // verus!

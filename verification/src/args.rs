//! Command-line values shared by the experiment drivers: reading a number
//! given to a flag, and quoting a value in an error message.
use vstd::prelude::*;
use crate::num::{parse_i64, parse_signed_spec, parse_unsigned, parse_unsigned_spec};

verus! {

broadcast use vstd::string::group_string_axioms;

/// The name for what `{:?}` writes for a string: the string in double
/// quotes, with quotes, backslashes and control characters escaped. A
/// function of the string alone.
pub uninterp spec fn debug_text(s: Seq<char>) -> Seq<char>;

/// Printable ASCII other than the quote marks and the backslash: the
/// characters `{:?}` writes unchanged.
pub open spec fn plain_ascii(s: Seq<char>) -> bool {
    forall|i: int|
        0 <= i < s.len() ==> ' ' <= #[trigger] s[i] && s[i] <= '~' && s[i] != '"' && s[i]
            != '\\' && s[i] != '\''
}

/// `format!("{:?}", s)`. The contract names the result, and states what
/// std's `Debug` for `str` writes for plain printable ASCII: the text
/// itself between double quotes. What it writes for other characters is
/// left to the name.
#[verifier::external_body]
pub(crate) fn debug_quoted(s: &str) -> (r: String)
    ensures
        r@ == debug_text(s@),
        plain_ascii(s@) ==> r@ == seq!['"'] + s@ + seq!['"'],
{
    format!("{:?}", s)
}

/// The message for a flag value that is not a number.
pub open spec fn not_a_number(flag: Seq<char>, s: Seq<char>) -> Seq<char> {
    flag + ": "@ + debug_text(s) + " is not a number"@
}

/// Reads `s`, the value given to `flag`, as an unsigned integer no larger
/// than `max` (the largest value of the target type), the way `str::parse`
/// does.
pub fn parse_num(s: &str, flag: &str, max: u64) -> (r: Result<u64, String>)
    ensures
        match r {
            Ok(v) => parse_unsigned_spec(s@, max as int) == Some(v as int),
            Err(e) => parse_unsigned_spec(s@, max as int) is None && e@ == not_a_number(
                flag@,
                s@,
            ),
        },
{
    match parse_unsigned(s, max) {
        Some(v) => Ok(v),
        None => {
            let mut e = String::from_str(flag);
            e.append(": ");
            let q = debug_quoted(s);
            e.append(q.as_str());
            e.append(" is not a number");
            Err(e)
        },
    }
}

/// Reads `s`, the value given to `flag`, as an `i64`, the way `str::parse`
/// does.
pub fn parse_signed_num(s: &str, flag: &str) -> (r: Result<i64, String>)
    ensures
        match r {
            Ok(v) => parse_signed_spec(s@, i64::MIN as int, i64::MAX as int) == Some(v as int),
            Err(e) => parse_signed_spec(s@, i64::MIN as int, i64::MAX as int) is None && e@
                == not_a_number(flag@, s@),
        },
{
    match parse_i64(s) {
        Some(v) => Ok(v),
        None => {
            let mut e = String::from_str(flag);
            e.append(": ");
            let q = debug_quoted(s);
            e.append(q.as_str());
            e.append(" is not a number");
            Err(e)
        },
    }
}

} // verus!

//! Character-level helpers over `&str` and `String`: the pieces the journal
//! and report parsers are built from.
use vstd::prelude::*;

verus! {

broadcast use vstd::string::group_string_axioms;

/// The characters of `s`, in order.
pub fn chars_of(s: &str) -> (out: Vec<char>)
    ensures
        out@ == s@,
{
    let mut out: Vec<char> = Vec::new();
    for c in it: s.chars()
        invariant
            it.seq() == s@,
            out@ == it.seq().take(it.index() as int),
    {
        out.push(c);
    }
    out
}

/// `String::push`: appends one character.
#[verifier::external_body]
pub(crate) fn push_char(s: &mut String, c: char)
    ensures
        final(s)@ == old(s)@.push(c),
{
    s.push(c);
}

/// A fresh `String` holding exactly the characters of `cs`.
pub fn string_from_chars(cs: &[char]) -> (out: String)
    ensures
        out@ == cs@,
{
    let mut out = String::new();
    let mut i: usize = 0;
    while i < cs.len()
        invariant
            i <= cs@.len(),
            out@ == cs@.take(i as int),
        decreases cs@.len() - i,
    {
        push_char(&mut out, cs[i]);
        assert(cs@.take(i + 1) == cs@.take(i as int).push(cs@[i as int]));
        i = i + 1;
    }
    assert(cs@.take(cs@.len() as int) == cs@);
    out
}

/// Whether two strings hold the same characters.
pub fn str_eq(a: &str, b: &str) -> (r: bool)
    ensures
        r == (a@ == b@),
{
    let x = chars_of(a);
    let y = chars_of(b);
    if x.len() != y.len() {
        return false;
    }
    let mut i: usize = 0;
    while i < x.len()
        invariant
            x@ == a@,
            y@ == b@,
            x@.len() == y@.len(),
            i <= x@.len(),
            forall|j: int| 0 <= j < i ==> x@[j] == y@[j],
        decreases x@.len() - i,
    {
        if x[i] != y[i] {
            return false;
        }
        i = i + 1;
    }
    assert(x@ =~= y@);
    true
}

/// `char::is_ascii_digit`.
pub open spec fn is_digit(c: char) -> bool {
    '0' <= c && c <= '9'
}

/// Whether `s` holds any ASCII digit.
pub open spec fn has_digit(s: Seq<char>) -> bool {
    exists|i: int| 0 <= i < s.len() && #[trigger] is_digit(s[i])
}

/// `normalize`'s output for `s`, given whether the character just before
/// `s` was a digit: every maximal run of ASCII digits becomes one `#`.
pub open spec fn collapse_digits(s: Seq<char>, in_digits: bool) -> Seq<char>
    decreases s.len(),
{
    if s.len() == 0 {
        seq![]
    } else if is_digit(s[0]) {
        if in_digits {
            collapse_digits(s.drop_first(), true)
        } else {
            seq!['#'] + collapse_digits(s.drop_first(), true)
        }
    } else {
        seq![s[0]] + collapse_digits(s.drop_first(), false)
    }
}

/// Collapses every run of ASCII digits in `s` to a single `#`, so messages
/// that differ only in the numbers they quote land in the same bucket.
pub fn normalize(s: &str) -> (out: String)
    ensures
        out@ == collapse_digits(s@, false),
{
    let cs = chars_of(s);
    let mut out = String::new();
    let mut in_digits = false;
    let mut i: usize = 0;
    assert(cs@.skip(0) =~= cs@);
    while i < cs.len()
        invariant
            cs@ == s@,
            i <= cs@.len(),
            out@ + collapse_digits(cs@.skip(i as int), in_digits) == collapse_digits(s@, false),
        decreases cs@.len() - i,
    {
        let c = cs[i];
        assert(cs@.skip(i as int).drop_first() == cs@.skip(i + 1));
        if '0' <= c && c <= '9' {
            if !in_digits {
                push_char(&mut out, '#');
                in_digits = true;
            }
        } else {
            in_digits = false;
            push_char(&mut out, c);
        }
        i = i + 1;
    }
    out
}

/// Once a digit has been seen, the rest of the output no longer depends on
/// whether the run started before or inside `s`: both start with the same
/// non-digit tail.
proof fn lemma_collapse_no_digit_out(s: Seq<char>, in_digits: bool)
    ensures
        !has_digit(collapse_digits(s, in_digits)),
    decreases s.len(),
{
    if s.len() > 0 {
        lemma_collapse_no_digit_out(s.drop_first(), is_digit(s[0]));
        let rest = collapse_digits(s.drop_first(), is_digit(s[0]));
        if is_digit(s[0]) && !in_digits {
            assert forall|i: int| 0 <= i < 1 + rest.len() implies !is_digit(#[trigger] (seq!['#'] + rest)[i]) by {
                if i > 0 {
                    assert((seq!['#'] + rest)[i] == rest[i - 1]);
                }
            }
        } else if !is_digit(s[0]) {
            assert forall|i: int| 0 <= i < 1 + rest.len() implies !is_digit(#[trigger] (seq![s[0]] + rest)[i]) by {
                if i > 0 {
                    assert((seq![s[0]] + rest)[i] == rest[i - 1]);
                }
            }
        }
    }
}

/// A text with no digit passes through `collapse_digits` unchanged.
proof fn lemma_collapse_identity(s: Seq<char>, in_digits: bool)
    requires
        !has_digit(s),
    ensures
        collapse_digits(s, in_digits) == s,
    decreases s.len(),
{
    if s.len() > 0 {
        assert(!is_digit(s[0]));
        assert(!has_digit(s.drop_first())) by {
            if has_digit(s.drop_first()) {
                let i = choose|i: int| 0 <= i < s.drop_first().len() && #[trigger] is_digit(s.drop_first()[i]);
                assert(is_digit(s[i + 1]));
            }
        }
        lemma_collapse_identity(s.drop_first(), false);
        assert(seq![s[0]] + s.drop_first() =~= s);
    }
}

/// What `normalize` promises about every message: its result holds no digit
/// at all, a message that held none comes back unchanged, and normalizing
/// twice is the same as normalizing once.
pub proof fn lemma_normalize_laws(s: Seq<char>)
    ensures
        !has_digit(collapse_digits(s, false)),
        !has_digit(s) ==> collapse_digits(s, false) == s,
        collapse_digits(collapse_digits(s, false), false) == collapse_digits(s, false),
{
    lemma_collapse_no_digit_out(s, false);
    if !has_digit(s) {
        lemma_collapse_identity(s, false);
    }
    lemma_collapse_identity(collapse_digits(s, false), false);
}

/// The name that `char::is_alphanumeric` computes (Unicode `Alphabetic` or
/// `Numeric`); a function of the character alone.
pub uninterp spec fn is_alphanumeric(c: char) -> bool;

/// ASCII letters and digits.
pub open spec fn is_ascii_alnum(c: char) -> bool {
    ('0' <= c && c <= '9') || ('a' <= c && c <= 'z') || ('A' <= c && c <= 'Z')
}

/// `char::is_alphanumeric`. The contract names its result and states what
/// std documents for ASCII: there it holds exactly of letters and digits.
/// What it gives for the rest of Unicode is left to the name.
#[verifier::external_body]
fn char_is_alphanumeric(c: char) -> (r: bool)
    ensures
        r == is_alphanumeric(c),
        (c as u32) < 128 ==> (r == is_ascii_alnum(c)),
{
    c.is_alphanumeric()
}

/// A character that can appear in a Rust identifier-like variant name.
pub open spec fn is_word(c: char) -> bool {
    is_alphanumeric(c) || c == '_'
}

/// Index of the first word character at or after `i`, or `s.len()`.
pub open spec fn word_start(s: Seq<char>, i: int) -> int
    decreases s.len() - i,
{
    if i >= s.len() || i < 0 {
        s.len() as int
    } else if is_word(s[i]) {
        i
    } else {
        word_start(s, i + 1)
    }
}

/// Index of the first non-word character at or after `i`, or `s.len()`.
pub open spec fn word_end(s: Seq<char>, i: int) -> int
    decreases s.len() - i,
{
    if i >= s.len() || i < 0 {
        s.len() as int
    } else if !is_word(s[i]) {
        i
    } else {
        word_end(s, i + 1)
    }
}

/// The first maximal run of word characters in `s`; all of `s` when it has
/// none.
pub open spec fn first_word(s: Seq<char>) -> Seq<char> {
    let a = word_start(s, 0);
    if a >= s.len() {
        s
    } else {
        s.subrange(a, word_end(s, a))
    }
}

/// Every character of `s` is ASCII.
pub open spec fn is_ascii_text(s: Seq<char>) -> bool {
    forall|i: int| 0 <= i < s.len() ==> (#[trigger] s[i] as u32) < 128
}

/// An ASCII letter, digit or underscore.
pub open spec fn is_ascii_word(c: char) -> bool {
    is_ascii_alnum(c) || c == '_'
}

/// Index of the first ASCII word character at or after `i`, or `s.len()`.
pub open spec fn ascii_word_start(s: Seq<char>, i: int) -> int
    decreases s.len() - i,
{
    if i >= s.len() || i < 0 {
        s.len() as int
    } else if is_ascii_word(s[i]) {
        i
    } else {
        ascii_word_start(s, i + 1)
    }
}

/// Index of the first character at or after `i` that is not an ASCII word
/// character, or `s.len()`.
pub open spec fn ascii_word_end(s: Seq<char>, i: int) -> int
    decreases s.len() - i,
{
    if i >= s.len() || i < 0 {
        s.len() as int
    } else if !is_ascii_word(s[i]) {
        i
    } else {
        ascii_word_end(s, i + 1)
    }
}

/// The first maximal run of ASCII letters, digits and underscores in `s`;
/// all of `s` when it has none.
pub open spec fn ascii_first_word(s: Seq<char>) -> Seq<char> {
    let a = ascii_word_start(s, 0);
    if a >= s.len() {
        s
    } else {
        s.subrange(a, ascii_word_end(s, a))
    }
}

/// The variant name of a `Debug`-rendered enum value: its first run of
/// identifier characters, e.g. `"Take { slot: 2 }"` gives `"Take"` and
/// `"WonderStep(3)"` gives `"WonderStep"`.
pub fn move_kind(attempted: &str) -> (name: &str)
    ensures
        name@ == first_word(attempted@),
        is_ascii_text(attempted@) ==> name@ == ascii_first_word(attempted@),
{
    let cs = chars_of(attempted);
    let n = cs.len();
    let mut a: usize = 0;
    while a < n && !(char_is_alphanumeric(cs[a]) || cs[a] == '_')
        invariant
            cs@ == attempted@,
            n == cs@.len(),
            a <= n,
            word_start(cs@, 0) == word_start(cs@, a as int),
            is_ascii_text(cs@) ==> ascii_word_start(cs@, 0) == ascii_word_start(cs@, a as int),
        decreases n - a,
    {
        a = a + 1;
    }
    if a >= n {
        return attempted;
    }
    proof {
        if is_ascii_text(cs@) {
            assert((cs@[a as int] as u32) < 128);
        }
    }
    let mut b: usize = a;
    while b < n && (char_is_alphanumeric(cs[b]) || cs[b] == '_')
        invariant
            cs@ == attempted@,
            n == cs@.len(),
            a <= b <= n,
            word_start(cs@, 0) == a,
            word_end(cs@, a as int) == word_end(cs@, b as int),
            is_ascii_text(cs@) ==> ascii_word_start(cs@, 0) == a,
            is_ascii_text(cs@) ==> ascii_word_end(cs@, a as int) == ascii_word_end(cs@, b as int),
        decreases n - b,
    {
        proof {
            if is_ascii_text(cs@) {
                assert((cs@[b as int] as u32) < 128);
            }
        }
        b = b + 1;
    }
    proof {
        if is_ascii_text(cs@) && b < n {
            assert((cs@[b as int] as u32) < 128);
        }
    }
    attempted.substring_char(a, b)
}

/// Index of the first `c` at or after `i` in `s`, or `s.len()`.
pub open spec fn next_index_of(s: Seq<char>, c: char, i: int) -> int
    decreases s.len() - i,
{
    if i >= s.len() || i < 0 {
        s.len() as int
    } else if s[i] == c {
        i
    } else {
        next_index_of(s, c, i + 1)
    }
}

pub(crate) proof fn lemma_next_index_of_bounds(s: Seq<char>, c: char, i: int)
    requires
        0 <= i <= s.len(),
    ensures
        i <= next_index_of(s, c, i) <= s.len(),
        next_index_of(s, c, i) < s.len() ==> s[next_index_of(s, c, i)] == c,
        forall|j: int| i <= j < next_index_of(s, c, i) ==> s[j] != c,
    decreases s.len() - i,
{
    if i < s.len() && s[i] != c {
        lemma_next_index_of_bounds(s, c, i + 1);
    }
}

/// The lines of `s` from index `i` on, as `str::lines` yields them: split at
/// `'\n'`, a `'\r'` just before a `'\n'` dropped, and no empty line after a
/// final line ending.
pub open spec fn lines_from(s: Seq<char>, i: int) -> Seq<Seq<char>>
    decreases s.len() + 1 - i,
{
    if i >= s.len() || i < 0 {
        seq![]
    } else {
        let j = next_index_of(s, '\n', i);
        let raw = s.subrange(i, j);
        let line = if j < s.len() && raw.len() > 0 && raw.last() == '\r' {
            raw.drop_last()
        } else {
            raw
        };
        if j < i || j > s.len() {
            seq![line]
        } else {
            seq![line] + lines_from(s, j + 1)
        }
    }
}

/// `str::lines`.
pub open spec fn lines(s: Seq<char>) -> Seq<Seq<char>> {
    lines_from(s, 0)
}

/// The third of the tab-separated columns of a journal line, when the line
/// has the full five (`splitn(5, '\t')` yields five fields exactly when it
/// holds at least four tabs).
pub open spec fn third_column(line: Seq<char>) -> Option<Seq<char>> {
    let t0 = next_index_of(line, '\t', 0);
    let t1 = next_index_of(line, '\t', t0 + 1);
    let t2 = next_index_of(line, '\t', t1 + 1);
    let t3 = next_index_of(line, '\t', t2 + 1);
    if t3 < line.len() {
        Some(line.subrange(t1 + 1, t2))
    } else {
        None
    }
}

/// The age column of the journal line numbered `lineno` (1-based), if that
/// line exists and has all five columns.
pub open spec fn journal_line_age(journal: Seq<char>, lineno: int) -> Option<Seq<char>> {
    let ls = lines(journal);
    if lineno < 1 || lineno > ls.len() {
        None
    } else {
        third_column(ls[lineno - 1])
    }
}

/// Start of the `k`-th line at or after `i`, as `lines_from` counts them.
spec fn line_start(s: Seq<char>, i: int, k: nat) -> int
    decreases k,
{
    if k == 0 {
        i
    } else {
        line_start(s, next_index_of(s, '\n', i) + 1, (k - 1) as nat)
    }
}

proof fn lemma_lines_from_index(s: Seq<char>, i: int, k: nat)
    requires
        0 <= i,
    ensures
        (k < lines_from(s, i).len()) == (line_start(s, i, k) < s.len()),
        k < lines_from(s, i).len() ==> lines_from(s, i)[k as int] == lines_from(
            s,
            line_start(s, i, k),
        )[0],
    decreases k,
{
    if i < s.len() {
        lemma_next_index_of_bounds(s, '\n', i);
        let j = next_index_of(s, '\n', i);
        if k > 0 {
            lemma_lines_from_index(s, j + 1, (k - 1) as nat);
        }
    } else {
        if k > 0 {
            lemma_line_start_past(s, i, k);
        }
    }
}

proof fn lemma_line_start_past(s: Seq<char>, i: int, k: nat)
    requires
        i >= s.len(),
    ensures
        line_start(s, i, k) >= s.len(),
    decreases k,
{
    if k > 0 {
        assert(next_index_of(s, '\n', i) == s.len());
        lemma_line_start_past(s, s.len() + 1int, (k - 1) as nat);
    }
}

/// Index in `cs` of the first `c` at or after `from`, or `cs.len()`.
pub(crate) fn find_char_from(cs: &Vec<char>, c: char, from: usize) -> (j: usize)
    requires
        from <= cs@.len(),
    ensures
        j == next_index_of(cs@, c, from as int),
        from <= j <= cs@.len(),
{
    let n = cs.len();
    let mut j = from;
    while j < n && cs[j] != c
        invariant
            n == cs@.len(),
            from <= j <= n,
            next_index_of(cs@, c, from as int) == next_index_of(cs@, c, j as int),
        decreases n - j,
    {
        j = j + 1;
    }
    j
}

/// Where line `k` (0-based, as `lines` counts) starts, if there is one.
fn nth_line_start(cs: &Vec<char>, k: usize) -> (r: Option<usize>)
    ensures
        match r {
            Some(st) => st == line_start(cs@, 0, k as nat) && st < cs@.len(),
            None => line_start(cs@, 0, k as nat) >= cs@.len(),
        },
{
    let ghost s = cs@;
    let n = cs.len();
    let mut start: usize = 0;
    let mut seen: usize = 0;
    while seen < k
        invariant
            cs@ == s,
            n == s.len(),
            seen <= k,
            start <= n,
            line_start(s, 0, k as nat) == line_start(s, start as int, (k - seen) as nat),
        decreases k - seen,
    {
        if start >= n {
            proof {
                lemma_line_start_past(s, start as int, (k - seen) as nat);
            }
            return None;
        }
        let j = find_char_from(cs, '\n', start);
        if j == n {
            proof {
                assert(line_start(s, start as int, (k - seen) as nat) == line_start(
                    s,
                    n + 1,
                    (k - seen - 1) as nat,
                ));
                lemma_line_start_past(s, n + 1, (k - seen - 1) as nat);
            }
            return None;
        }
        start = j + 1;
        seen = seen + 1;
    }
    if start >= n {
        return None;
    }
    Some(start)
}

/// The first four tab positions in `cs[start..lend]`, if there are four.
fn four_tabs(cs: &Vec<char>, start: usize, lend: usize) -> (r: Option<(usize, usize)>)
    requires
        start <= lend <= cs@.len(),
    ensures
        ({
            let line = cs@.subrange(start as int, lend as int);
            match r {
                Some((a, b)) => a <= b <= cs@.len() && third_column(line) == Some(
                    cs@.subrange(a as int, b as int),
                ),
                None => third_column(line) is None,
            }
        }),
{
    let ghost line = cs@.subrange(start as int, lend as int);
    let t0 = find_char_from(cs, '\t', start);
    assert(t0 >= lend ==> next_index_of(line, '\t', 0) >= line.len()) by {
        lemma_next_in_sub(cs@, '\t', start as int, lend as int, 0);
    }
    if t0 >= lend {
        return None;
    }
    let t1 = find_char_from(cs, '\t', t0 + 1);
    if t1 >= lend {
        proof { lemma_next_in_sub(cs@, '\t', start as int, lend as int, 0); lemma_next_in_sub(cs@, '\t', start as int, lend as int, t0 - start + 1); }
        return None;
    }
    let t2 = find_char_from(cs, '\t', t1 + 1);
    if t2 >= lend {
        proof {
            lemma_next_in_sub(cs@, '\t', start as int, lend as int, 0);
            lemma_next_in_sub(cs@, '\t', start as int, lend as int, t0 - start + 1);
            lemma_next_in_sub(cs@, '\t', start as int, lend as int, t1 - start + 1);
        }
        return None;
    }
    let t3 = find_char_from(cs, '\t', t2 + 1);
    proof {
        lemma_next_in_sub(cs@, '\t', start as int, lend as int, 0);
        lemma_next_in_sub(cs@, '\t', start as int, lend as int, t0 - start + 1);
        lemma_next_in_sub(cs@, '\t', start as int, lend as int, t1 - start + 1);
        lemma_next_in_sub(cs@, '\t', start as int, lend as int, t2 - start + 1);
    }
    if t3 >= lend {
        return None;
    }
    assert(cs@.subrange(t1 + 1, t2 as int) =~= line.subrange(t1 - start + 1, t2 - start));
    Some((t1 + 1, t2))
}

/// Searching a window of `s` agrees with searching `s` itself, up to the
/// window's end.
proof fn lemma_next_in_sub(s: Seq<char>, c: char, st: int, en: int, i: int)
    requires
        0 <= st <= en <= s.len(),
        0 <= i <= en - st,
    ensures
        ({
            let w = s.subrange(st, en);
            let inner = next_index_of(w, c, i);
            let outer = next_index_of(s, c, st + i);
            &&& (outer < en ==> inner == outer - st)
            &&& (outer >= en ==> inner == w.len())
        }),
    decreases en - st - i,
{
    let w = s.subrange(st, en);
    if i < en - st {
        assert(w[i] == s[st + i]);
        if s[st + i] != c {
            lemma_next_in_sub(s, c, st, en, i + 1);
        }
    } else {
        lemma_next_index_of_bounds(s, c, st + i);
    }
}

/// The journal's own age column (`"A"`, `"I"`, ...) of the 1-based line
/// `lineno`; `None` past the end of the journal or on a line without all
/// five tab-separated columns.
pub fn line_age(journal_text: &str, lineno: usize) -> (age: Option<&str>)
    ensures
        match age {
            Some(a) => journal_line_age(journal_text@, lineno as int) == Some(a@),
            None => journal_line_age(journal_text@, lineno as int) is None,
        },
{
    if lineno == 0 {
        return None;
    }
    let cs = chars_of(journal_text);
    let n = cs.len();
    let k = lineno - 1;
    proof {
        lemma_lines_from_index(cs@, 0, k as nat);
    }
    let start = match nth_line_start(&cs, k) {
        Some(st) => st,
        None => return None,
    };
    let j = find_char_from(&cs, '\n', start);
    let lend: usize = if j < n && j > start && cs[j - 1] == '\r' {
        j - 1
    } else {
        j
    };
    assert(lines_from(cs@, start as int)[0] == cs@.subrange(start as int, lend as int));
    match four_tabs(&cs, start, lend) {
        Some((a, b)) => Some(journal_text.substring_char(a, b)),
        None => None,
    }
}

/// Ages II, III and IV, as the journal's age column spells them.
pub open spec fn is_late_age(age: Seq<char>) -> bool {
    age == "II"@ || age == "III"@ || age == "IV"@
}

/// Whether a journal age column names Age II or later.
pub fn is_age_two_plus(age: &str) -> (r: bool)
    ensures
        r == is_late_age(age@),
{
    str_eq(age, "II") || str_eq(age, "III") || str_eq(age, "IV")
}

/// The first position at or after `i` where `pat` occurs in `s`.
pub open spec fn find_at(s: Seq<char>, pat: Seq<char>, i: int) -> Option<int>
    decreases s.len() + 1 - i,
{
    if i < 0 || i + pat.len() > s.len() {
        None
    } else if s.subrange(i, i + pat.len()) == pat {
        Some(i)
    } else {
        find_at(s, pat, i + 1)
    }
}

/// The first position where `pat` occurs in `s`, as `str::find` reports it
/// (counted in characters).
pub open spec fn find(s: Seq<char>, pat: Seq<char>) -> Option<int> {
    find_at(s, pat, 0)
}

proof fn lemma_find_at_bounds(s: Seq<char>, pat: Seq<char>, i: int)
    requires
        i >= 0,
    ensures
        find_at(s, pat, i) matches Some(p) ==> i <= p && p + pat.len() <= s.len(),
    decreases s.len() + 1 - i,
{
    if i + pat.len() <= s.len() && s.subrange(i, i + pat.len()) != pat {
        lemma_find_at_bounds(s, pat, i + 1);
    }
}

/// Where [`find`] finds `pat`, all of it lies inside `s`.
pub proof fn lemma_find_bounds(s: Seq<char>, pat: Seq<char>)
    ensures
        find(s, pat) matches Some(p) ==> 0 <= p && p + pat.len() <= s.len(),
{
    lemma_find_at_bounds(s, pat, 0);
}

/// Whether `pat` occurs in `cs` at position `i`.
fn occurs_at(cs: &Vec<char>, pat: &Vec<char>, i: usize) -> (r: bool)
    requires
        i + pat@.len() <= cs@.len(),
    ensures
        r == (cs@.subrange(i as int, i + pat@.len()) == pat@),
{
    let n = cs.len();
    let mut k: usize = 0;
    while k < pat.len()
        invariant
            n == cs@.len(),
            i + pat@.len() <= cs@.len(),
            k <= pat@.len(),
            forall|j: int| 0 <= j < k ==> cs@[i + j] == pat@[j],
        decreases pat@.len() - k,
    {
        assert(i + k < n);
        if cs[i + k] != pat[k] {
            assert(cs@.subrange(i as int, i + pat@.len())[k as int] != pat@[k as int]);
            return false;
        }
        k = k + 1;
    }
    assert(cs@.subrange(i as int, i + pat@.len()) =~= pat@);
    true
}

/// `str::find` with a string pattern, on characters.
pub fn find_chars(cs: &Vec<char>, pat: &Vec<char>) -> (r: Option<usize>)
    ensures
        match r {
            Some(p) => find(cs@, pat@) == Some(p as int),
            None => find(cs@, pat@) is None,
        },
{
    if pat.len() > cs.len() {
        return None;
    }
    let last = cs.len() - pat.len();
    let mut i: usize = 0;
    while i < last
        invariant
            last + pat@.len() == cs@.len(),
            i <= last,
            find_at(cs@, pat@, 0) == find_at(cs@, pat@, i as int),
        decreases last - i,
    {
        if occurs_at(cs, pat, i) {
            return Some(i);
        }
        i = i + 1;
    }
    if occurs_at(cs, pat, last) {
        Some(last)
    } else {
        assert(find_at(cs@, pat@, last + 1) is None);
        None
    }
}

/// Unicode's `White_Space` property: tab through carriage return, space,
/// next line, no-break space, ogham space mark, the spaces from en quad to
/// hair space, line and paragraph separator, narrow no-break space, medium
/// mathematical space and ideographic space.
pub open spec fn is_whitespace(c: char) -> bool {
    let u = c as u32;
    ||| 0x09 <= u <= 0x0D
    ||| u == 0x20
    ||| u == 0x85
    ||| u == 0xA0
    ||| u == 0x1680
    ||| 0x2000 <= u <= 0x200A
    ||| u == 0x2028
    ||| u == 0x2029
    ||| u == 0x202F
    ||| u == 0x205F
    ||| u == 0x3000
}

/// `char::is_whitespace`, which std documents as holding exactly for the
/// characters with Unicode's `White_Space` property.
#[verifier::external_body]
fn char_is_whitespace(c: char) -> (r: bool)
    ensures
        r == is_whitespace(c),
{
    c.is_whitespace()
}

/// How many whitespace characters `s` starts with.
pub open spec fn leading_space(s: Seq<char>) -> int
    decreases s.len(),
{
    if s.len() == 0 || !is_whitespace(s[0]) {
        0
    } else {
        1 + leading_space(s.drop_first())
    }
}

/// How many whitespace characters `s` ends with.
pub open spec fn trailing_space(s: Seq<char>) -> int
    decreases s.len(),
{
    if s.len() == 0 || !is_whitespace(s.last()) {
        0
    } else {
        1 + trailing_space(s.drop_last())
    }
}

/// `s` without its leading and trailing whitespace, as `str::trim` gives it.
pub open spec fn trim(s: Seq<char>) -> Seq<char> {
    let rest = s.skip(leading_space(s));
    rest.take(rest.len() - trailing_space(rest))
}

proof fn lemma_leading_space_step(s: Seq<char>, i: int)
    requires
        0 <= i <= s.len(),
        forall|j: int| 0 <= j < i ==> is_whitespace(#[trigger] s[j]),
    ensures
        leading_space(s) == i + leading_space(s.skip(i)),
    decreases i,
{
    if i > 0 {
        assert(is_whitespace(s[0]));
        assert(s.skip(1) =~= s.drop_first());
        assert forall|j: int| 0 <= j < i - 1 implies is_whitespace(#[trigger] s.skip(1)[j]) by {
            assert(s.skip(1)[j] == s[j + 1]);
        }
        lemma_leading_space_step(s.skip(1), i - 1);
        assert(s.skip(1).skip(i - 1) =~= s.skip(i));
    } else {
        assert(s.skip(0) =~= s);
    }
}

proof fn lemma_trailing_space_step(s: Seq<char>, i: int)
    requires
        0 <= i <= s.len(),
        forall|j: int| i <= j < s.len() ==> is_whitespace(#[trigger] s[j]),
    ensures
        trailing_space(s) == (s.len() - i) + trailing_space(s.take(i)),
    decreases s.len() - i,
{
    if i < s.len() {
        assert forall|j: int| i <= j < s.drop_last().len() implies is_whitespace(
            #[trigger] s.drop_last()[j],
        ) by {
            assert(s.drop_last()[j] == s[j]);
        }
        lemma_trailing_space_step(s.drop_last(), i);
        assert(s.drop_last().take(i) =~= s.take(i));
    } else {
        assert(s.take(i) =~= s);
    }
}

/// `str::trim` on the characters `cs[from..to]`.
pub fn trim_range(cs: &Vec<char>, from: usize, to: usize) -> (out: String)
    requires
        from <= to <= cs@.len(),
    ensures
        out@ == trim(cs@.subrange(from as int, to as int)),
{
    let ghost s = cs@.subrange(from as int, to as int);
    let mut a = from;
    while a < to && char_is_whitespace(cs[a])
        invariant
            from <= a <= to <= cs@.len(),
            forall|j: int| from <= j < a ==> is_whitespace(#[trigger] cs@[j]),
        decreases to - a,
    {
        a = a + 1;
    }
    proof {
        assert forall|j: int| 0 <= j < a - from implies is_whitespace(#[trigger] s[j]) by {
            assert(s[j] == cs@[from + j]);
        }
        lemma_leading_space_step(s, a - from);
        if a < to {
            assert(s.skip(a - from)[0] == cs@[a as int]);
        }
        assert(leading_space(s.skip(a - from)) == 0);
    }
    let mut b = to;
    while b > a && char_is_whitespace(cs[b - 1])
        invariant
            from <= a <= b <= to <= cs@.len(),
            forall|j: int| b <= j < to ==> is_whitespace(#[trigger] cs@[j]),
        decreases b - a,
    {
        b = b - 1;
    }
    let ghost rest = s.skip(a - from);
    proof {
        assert(rest =~= cs@.subrange(a as int, to as int));
        assert forall|j: int| b - a <= j < rest.len() implies is_whitespace(#[trigger] rest[j]) by {
            assert(rest[j] == cs@[a + j]);
        }
        lemma_trailing_space_step(rest, b - a);
        if b > a {
            assert(rest.take(b - a).last() == cs@[b - 1]);
        }
        assert(trailing_space(rest.take(b - a)) == 0);
        assert(rest.take(b - a) =~= cs@.subrange(a as int, b as int));
    }
    let mut out = String::new();
    let mut k = a;
    while k < b
        invariant
            a <= k <= b <= cs@.len(),
            out@ == cs@.subrange(a as int, k as int),
        decreases b - k,
    {
        push_char(&mut out, cs[k]);
        assert(cs@.subrange(a as int, k + 1) =~= cs@.subrange(a as int, k as int).push(
            cs@[k as int],
        ));
        k = k + 1;
    }
    out
}

} // verus!

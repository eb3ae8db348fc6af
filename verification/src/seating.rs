//! Seat assignment across a run of games: rotating a comma-separated list of
//! bot kinds so every kind plays every seat, and numbering games so runs at
//! different player counts cannot collide.
use vstd::prelude::*;
use crate::text::{chars_of, find_char_from, next_index_of, push_char};

verus! {

broadcast use vstd::string::group_string_axioms;

/// The comma-separated parts of `s`, as `str::split(',')` yields them: always
/// at least one part, empty parts kept.
pub open spec fn split_commas(s: Seq<char>) -> Seq<Seq<char>>
    decreases s.len(),
{
    let i = next_index_of(s, ',', 0);
    if i >= s.len() || i < 0 {
        seq![s]
    } else {
        seq![s.take(i)] + split_commas(s.skip(i + 1))
    }
}

/// `parts` joined with `,` between neighbours, as `join(",")` writes them.
pub open spec fn join_commas(parts: Seq<Seq<char>>) -> Seq<char>
    decreases parts.len(),
{
    if parts.len() == 0 {
        Seq::<char>::empty()
    } else if parts.len() == 1 {
        parts[0]
    } else {
        join_commas(parts.drop_last()) + seq![','] + parts.last()
    }
}

/// `parts` rotated left by `by`: position `i` holds `parts[(i + by) % n]`.
pub open spec fn rotate(parts: Seq<Seq<char>>, by: int) -> Seq<Seq<char>> {
    Seq::new(parts.len(), |i: int| parts[(i + by) % (parts.len() as int)])
}

/// `spec`'s kinds rotated left by `by`.
pub open spec fn rotated(spec: Seq<char>, by: int) -> Seq<char> {
    join_commas(rotate(split_commas(spec), by))
}

proof fn lemma_next_index_of_shift(s: Seq<char>, c: char, start: int, j: int)
    requires
        0 <= start <= j <= s.len(),
    ensures
        next_index_of(s, c, j) == start + next_index_of(s.skip(start), c, j - start),
    decreases s.len() - j,
{
    if j < s.len() && s[j] != c {
        lemma_next_index_of_shift(s, c, start, j + 1);
    }
}

proof fn lemma_next_index_of_range(s: Seq<char>, c: char, i: int)
    requires
        0 <= i <= s.len(),
    ensures
        i <= next_index_of(s, c, i) <= s.len(),
        next_index_of(s, c, i) < s.len() ==> s[next_index_of(s, c, i)] == c,
        forall|j: int| i <= j < next_index_of(s, c, i) ==> s[j] != c,
    decreases s.len() - i,
{
    if i < s.len() && s[i] != c {
        lemma_next_index_of_range(s, c, i + 1);
    }
}

/// The characters `cs[from..to]`.
fn copy_range(cs: &Vec<char>, from: usize, to: usize) -> (out: Vec<char>)
    requires
        from <= to <= cs@.len(),
    ensures
        out@ == cs@.subrange(from as int, to as int),
{
    let mut out: Vec<char> = Vec::new();
    let mut k = from;
    while k < to
        invariant
            from <= k <= to <= cs@.len(),
            out@ == cs@.subrange(from as int, k as int),
        decreases to - k,
    {
        out.push(cs[k]);
        assert(cs@.subrange(from as int, k + 1) =~= cs@.subrange(from as int, k as int).push(
            cs@[k as int],
        ));
        k = k + 1;
    }
    out
}

/// The views of a list of character vectors.
pub open spec fn views(v: Seq<Vec<char>>) -> Seq<Seq<char>> {
    v.map_values(|x: Vec<char>| x@)
}

/// `str::split(',')` on characters.
fn split_on_commas(cs: &Vec<char>) -> (parts: Vec<Vec<char>>)
    ensures
        views(parts@) == split_commas(cs@),
        parts@.len() >= 1,
{
    let n = cs.len();
    let mut parts: Vec<Vec<char>> = Vec::new();
    let mut start: usize = 0;
    assert(cs@.skip(0) =~= cs@);
    loop
        invariant
            n == cs@.len(),
            start <= n,
            views(parts@) + split_commas(cs@.skip(start as int)) == split_commas(cs@),
        decreases n - start,
    {
        let i = find_char_from(cs, ',', start);
        let ghost rest = cs@.skip(start as int);
        proof {
            lemma_next_index_of_shift(cs@, ',', start as int, start as int);
            lemma_next_index_of_range(cs@, ',', start as int);
            assert(rest.take(i - start) =~= cs@.subrange(start as int, i as int));
        }
        let piece = copy_range(cs, start, i);
        let ghost before = views(parts@);
        parts.push(piece);
        assert(views(parts@) =~= before.push(piece@));
        if i >= n {
            assert(split_commas(rest) == seq![rest]);
            assert(rest =~= cs@.subrange(start as int, i as int));
            assert(views(parts@) =~= before + split_commas(rest));
            return parts;
        }
        proof {
            assert(rest.skip(i - start + 1) =~= cs@.skip(i + 1));
            assert(split_commas(rest) == seq![rest.take(i - start)] + split_commas(
                rest.skip(i - start + 1),
            ));
            assert(views(parts@) + split_commas(cs@.skip(i + 1)) =~= before + split_commas(
                rest,
            ));
        }
        start = i + 1;
    }
}

/// Rotates `spec`'s comma-separated kinds left by `by`, so that seat `i` of
/// game `g` gets a different kind than seat `i` of game `g - 1`.
pub fn rotated_spec(spec: &str, by: usize) -> (out: String)
    requires
        by + split_commas(spec@).len() - 1 <= usize::MAX,
    ensures
        out@ == rotated(spec@, by as int),
{
    let cs = chars_of(spec);
    let parts = split_on_commas(&cs);
    let n = parts.len();
    let ghost ps = split_commas(spec@);
    let ghost rot = rotate(ps, by as int);
    proof {
        lemma_split_len(spec@);
    }
    let mut out = String::new();
    let mut i: usize = 0;
    while i < n
        invariant
            n == parts@.len(),
            n >= 1,
            by + n - 1 <= usize::MAX,
            views(parts@) == ps,
            rot == rotate(ps, by as int),
            i <= n,
            out@ == join_commas(rot.take(i as int)),
        decreases n - i,
    {
        let ghost before = out@;
        if i > 0 {
            push_char(&mut out, ',');
        }
        let k = (i + by) % n;
        let piece = &parts[k];
        let mut j: usize = 0;
        let ghost mid = out@;
        while j < piece.len()
            invariant
                j <= piece@.len(),
                out@ == mid + piece@.take(j as int),
            decreases piece@.len() - j,
        {
            push_char(&mut out, piece[j]);
            assert(piece@.take(j + 1) =~= piece@.take(j as int).push(piece@[j as int]));
            j = j + 1;
        }
        proof {
            assert(piece@.take(piece@.len() as int) =~= piece@);
            assert(piece@ == ps[k as int]);
            assert(rot[i as int] == piece@);
            let t = rot.take(i + 1);
            assert(t.drop_last() =~= rot.take(i as int));
            assert(t.last() == piece@);
            if i == 0 {
                assert(t =~= seq![piece@]);
            }
        }
        i = i + 1;
    }
    assert(rot.take(n as int) =~= rot);
    out
}

/// `split_commas` yields between one and `s.len() + 1` parts.
proof fn lemma_split_len(s: Seq<char>)
    ensures
        1 <= split_commas(s).len() <= s.len() + 1,
    decreases s.len(),
{
    let i = next_index_of(s, ',', 0);
    lemma_next_index_of_range(s, ',', 0);
    if i < s.len() {
        lemma_split_len(s.skip(i + 1));
    }
}

/// The number that names game `seed` of a run at `players` players:
/// `players * 10_000_000 + seed % 10_000_000`, so runs at different player
/// counts never share a number as long as no seed reaches eight digits.
pub fn game_id(players: u8, seed: u64) -> (id: u32)
    ensures
        id == players as int * 10_000_000 + seed % 10_000_000,
{
    (players as u32) * 10_000_000 + (seed % 10_000_000) as u32
}

/// Whether no part of `parts` holds a comma.
pub open spec fn comma_free(parts: Seq<Seq<char>>) -> bool {
    forall|k: int, j: int|
        0 <= k < parts.len() && 0 <= j < parts[k].len() ==> #[trigger] parts[k][j] != ','
}

proof fn lemma_join_prepend(a: Seq<char>, ps: Seq<Seq<char>>)
    requires
        ps.len() >= 1,
    ensures
        join_commas(seq![a] + ps) == a + seq![','] + join_commas(ps),
    decreases ps.len(),
{
    let whole = seq![a] + ps;
    assert(whole.last() == ps.last());
    if ps.len() == 1 {
        assert(whole.drop_last() =~= seq![a]);
        assert(join_commas(seq![a]) == a);
        assert(join_commas(ps) == ps[0]);
        assert(join_commas(whole) == join_commas(whole.drop_last()) + seq![','] + whole.last());
    } else {
        assert(whole.drop_last() =~= seq![a] + ps.drop_last());
        lemma_join_prepend(a, ps.drop_last());
        assert(whole.last() == ps.last());
        assert(a + seq![','] + join_commas(ps) =~= a + seq![','] + join_commas(ps.drop_last())
            + seq![','] + ps.last());
    }
}

proof fn lemma_split_comma_free(s: Seq<char>)
    ensures
        comma_free(split_commas(s)),
    decreases s.len(),
{
    let i = next_index_of(s, ',', 0);
    lemma_next_index_of_range(s, ',', 0);
    if i < s.len() {
        lemma_split_comma_free(s.skip(i + 1));
        let ps = split_commas(s);
        let tail = split_commas(s.skip(i + 1));
        assert forall|k: int, j: int| 0 <= k < ps.len() && 0 <= j < ps[k].len() implies #[trigger] ps[k][j]
            != ',' by {
            if k > 0 {
                assert(ps[k] == tail[k - 1]);
            }
        }
    }
}

/// Joining the comma-separated parts of `s` gives `s` back.
pub proof fn lemma_join_split(s: Seq<char>)
    ensures
        join_commas(split_commas(s)) == s,
    decreases s.len(),
{
    let i = next_index_of(s, ',', 0);
    lemma_next_index_of_range(s, ',', 0);
    if i < s.len() {
        let rest = s.skip(i + 1);
        lemma_join_split(rest);
        lemma_split_len(rest);
        lemma_join_prepend(s.take(i), split_commas(rest));
        assert(s =~= s.take(i) + seq![','] + rest);
    }
}

/// Splitting parts that hold no comma, once joined, gives the parts back.
pub proof fn lemma_split_join(parts: Seq<Seq<char>>)
    requires
        parts.len() >= 1,
        comma_free(parts),
    ensures
        split_commas(join_commas(parts)) == parts,
    decreases parts.len(),
{
    let a = parts[0];
    if parts.len() == 1 {
        assert forall|j: int| 0 <= j < a.len() implies a[j] != ',' by {
            assert(parts[0][j] != ',');
        }
        lemma_no_comma_index(a, 0);
        assert(split_commas(a) =~= seq![a]);
    } else {
        let rest = parts.drop_first();
        assert(parts =~= seq![a] + rest);
        assert(comma_free(rest)) by {
            assert forall|k: int, j: int| 0 <= k < rest.len() && 0 <= j < rest[k].len() implies #[trigger] rest[k][j]
                != ',' by {
                assert(rest[k] == parts[k + 1]);
            }
        }
        lemma_split_join(rest);
        lemma_join_prepend(a, rest);
        let joined = join_commas(parts);
        assert forall|j: int| 0 <= j < a.len() implies a[j] != ',' by {
            assert(parts[0][j] != ',');
        }
        lemma_next_index_of_first(joined, a.len() as int);
        assert(joined.take(a.len() as int) =~= a);
        assert(joined.skip(a.len() as int + 1) =~= join_commas(rest));
    }
}

proof fn lemma_no_comma_index(s: Seq<char>, i: int)
    requires
        0 <= i <= s.len(),
        forall|j: int| 0 <= j < s.len() ==> s[j] != ',',
    ensures
        next_index_of(s, ',', i) == s.len(),
    decreases s.len() - i,
{
    if i < s.len() {
        lemma_no_comma_index(s, i + 1);
    }
}

proof fn lemma_next_index_of_first(s: Seq<char>, at: int)
    requires
        0 <= at < s.len(),
        s[at] == ',',
        forall|j: int| 0 <= j < at ==> s[j] != ',',
    ensures
        next_index_of(s, ',', 0) == at,
{
    lemma_next_index_from(s, at, 0);
}

proof fn lemma_next_index_from(s: Seq<char>, at: int, i: int)
    requires
        0 <= i <= at < s.len(),
        s[at] == ',',
        forall|j: int| 0 <= j < at ==> s[j] != ',',
    ensures
        next_index_of(s, ',', i) == at,
    decreases at - i,
{
    if i < at {
        lemma_next_index_from(s, at, i + 1);
    }
}

/// The kinds of a rotated spec are the spec's kinds, rotated: seat `i` of the
/// rotated spec holds kind `(i + by) % n`.
pub proof fn lemma_rotated_kinds(spec: Seq<char>, by: int)
    requires
        by >= 0,
    ensures
        split_commas(rotated(spec, by)) == rotate(split_commas(spec), by),
{
    let ps = split_commas(spec);
    let rot = rotate(ps, by);
    lemma_split_len(spec);
    lemma_split_comma_free(spec);
    assert(comma_free(rot)) by {
        assert forall|k: int, j: int| 0 <= k < rot.len() && 0 <= j < rot[k].len() implies #[trigger] rot[k][j]
            != ',' by {
            let src = (k + by) % (ps.len() as int);
            assert(0 <= src < ps.len());
            assert(rot[k] == ps[src]);
            assert(ps[src][j] != ',');
        }
    }
    lemma_split_join(rot);
}

/// Rotating by a whole number of cycles of the kinds leaves the spec as it
/// was, so a run whose length is a multiple of the number of kinds is
/// balanced.
pub proof fn lemma_rotation_by_whole_cycles_is_identity(spec: Seq<char>, by: int)
    requires
        by >= 0,
        by % (split_commas(spec).len() as int) == 0,
    ensures
        rotated(spec, by) == spec,
{
    let ps = split_commas(spec);
    let n = ps.len() as int;
    lemma_split_len(spec);
    let r = rotate(ps, by);
    assert forall|i: int| 0 <= i < n implies #[trigger] r[i] == ps[i] by {
        vstd::arithmetic::div_mod::lemma_mod_adds(i, by, n);
        vstd::arithmetic::div_mod::lemma_small_mod(i as nat, n as nat);
        assert((i + by) % n == i);
    }
    assert(r =~= ps);
    lemma_join_split(spec);
}

/// Rotating by `a` and then by `b` is rotating by `a + b`.
pub proof fn lemma_rotations_compose(spec: Seq<char>, a: int, b: int)
    requires
        a >= 0,
        b >= 0,
    ensures
        rotated(rotated(spec, a), b) == rotated(spec, a + b),
{
    let ps = split_commas(spec);
    let n = ps.len() as int;
    lemma_split_len(spec);
    lemma_rotated_kinds(spec, a);
    let r1 = rotate(ps, a);
    let r2 = rotate(r1, b);
    let r = rotate(ps, a + b);
    assert forall|i: int| 0 <= i < n implies #[trigger] r2[i] == r[i] by {
        let x = (i + b) % n;
        vstd::arithmetic::div_mod::lemma_mod_bound(i + b, n);
        assert(r2[i] == r1[x]);
        assert(r1[x] == ps[(x + a) % n]);
        vstd::arithmetic::div_mod::lemma_add_mod_noop(i + b, a, n);
        vstd::arithmetic::div_mod::lemma_add_mod_noop(x, a, n);
        vstd::arithmetic::div_mod::lemma_mod_twice(i + b, n);
        assert((x + a) % n == (i + a + b) % n);
    }
    assert(r2 =~= r);
}

/// Over `n` consecutive rotations every kind plays every seat: for each seat
/// and each kind there is a rotation below `n` that seats that kind there.
pub proof fn lemma_rotation_gives_every_kind_every_seat(spec: Seq<char>, seat: int, kind: int)
    requires
        0 <= seat < split_commas(spec).len(),
        0 <= kind < split_commas(spec).len(),
    ensures
        exists|by: int|
            0 <= by < split_commas(spec).len() && #[trigger] split_commas(rotated(spec, by))[seat]
                == split_commas(spec)[kind],
{
    let ps = split_commas(spec);
    let n = ps.len() as int;
    let by = if kind >= seat {
        kind - seat
    } else {
        kind - seat + n
    };
    lemma_rotated_kinds(spec, by);
    assert((seat + by) % n == kind) by {
        vstd::arithmetic::div_mod::lemma_small_mod(kind as nat, n as nat);
        vstd::arithmetic::div_mod::lemma_mod_add_multiples_vanish(kind, n);
    }
    assert(split_commas(rotated(spec, by))[seat] == ps[kind]);
}

/// How many of the games `0..m`, each rotating `spec` by its own number,
/// seat `kind` at `seat`.
pub open spec fn seat_count(spec: Seq<char>, seat: int, kind: Seq<char>, m: int) -> int
    decreases m,
{
    if m <= 0 {
        0
    } else {
        seat_count(spec, seat, kind, m - 1) + if split_commas(rotated(spec, m - 1))[seat] == kind {
            1int
        } else {
            0int
        }
    }
}

/// No kind is listed twice in `parts`.
pub open spec fn kinds_distinct(parts: Seq<Seq<char>>) -> bool {
    forall|j1: int, j2: int| 0 <= j1 < j2 < parts.len() ==> parts[j1] != parts[j2]
}

/// How many `g` in `0..m` leave remainder `r` on division by `n`.
spec fn count_rem(r: int, n: int, m: int) -> int
    decreases m,
{
    if m <= 0 {
        0
    } else {
        count_rem(r, n, m - 1) + if (m - 1) % n == r {
            1int
        } else {
            0int
        }
    }
}

proof fn lemma_count_rem(r: int, n: int, m: int)
    requires
        n > 0,
        0 <= r < n,
        m >= 0,
    ensures
        count_rem(r, n, m) == m / n + if m % n > r {
            1int
        } else {
            0int
        },
    decreases m,
{
    if m == 0 {
        vstd::arithmetic::div_mod::lemma_fundamental_div_mod_converse(0, n, 0, 0);
    } else {
        lemma_count_rem(r, n, m - 1);
        let q = (m - 1) / n;
        let rr = (m - 1) % n;
        vstd::arithmetic::div_mod::lemma_fundamental_div_mod(m - 1, n);
        vstd::arithmetic::div_mod::lemma_mod_bound(m - 1, n);
        if rr < n - 1 {
            assert(m == q * n + (rr + 1));
            vstd::arithmetic::div_mod::lemma_fundamental_div_mod_converse(m, n, q, rr + 1);
        } else {
            assert(m == (q + 1) * n + 0) by (nonlinear_arith)
                requires
                    m - 1 == n * q + rr,
                    rr == n - 1,
            ;
            vstd::arithmetic::div_mod::lemma_fundamental_div_mod_converse(m, n, q + 1, 0);
        }
    }
}

/// Seat `seat` of game `g` holds kind `kind` exactly when `g` leaves the
/// remainder `(kind - seat) mod n`.
proof fn lemma_seat_hit(n: int, seat: int, kind: int, g: int)
    requires
        0 <= seat < n,
        0 <= kind < n,
        g >= 0,
    ensures
        ((seat + g) % n == kind) == (g % n == (if kind >= seat {
            kind - seat
        } else {
            kind - seat + n
        })),
{
    let q = g / n;
    let gr = g % n;
    vstd::arithmetic::div_mod::lemma_fundamental_div_mod(g, n);
    vstd::arithmetic::div_mod::lemma_mod_bound(g, n);
    if seat + gr < n {
        assert(seat + g == q * n + (seat + gr));
        vstd::arithmetic::div_mod::lemma_fundamental_div_mod_converse(seat + g, n, q, seat + gr);
    } else {
        assert(seat + g == (q + 1) * n + (seat + gr - n)) by (nonlinear_arith)
            requires
                g == n * q + gr,
        ;
        vstd::arithmetic::div_mod::lemma_fundamental_div_mod_converse(seat + g, n, q + 1, seat + gr - n);
    }
}

proof fn lemma_seat_count_is_count_rem(spec: Seq<char>, seat: int, kind: int, m: int)
    requires
        0 <= seat < split_commas(spec).len(),
        0 <= kind < split_commas(spec).len(),
        kinds_distinct(split_commas(spec)),
        m >= 0,
    ensures
        seat_count(spec, seat, split_commas(spec)[kind], m) == count_rem(
            if kind >= seat {
                kind - seat
            } else {
                kind - seat + split_commas(spec).len()
            },
            split_commas(spec).len() as int,
            m,
        ),
    decreases m,
{
    if m > 0 {
        let ps = split_commas(spec);
        let n = ps.len() as int;
        let g = m - 1;
        lemma_seat_count_is_count_rem(spec, seat, kind, g);
        lemma_rotated_kinds(spec, g);
        lemma_seat_hit(n, seat, kind, g);
        let x = (seat + g) % n;
        vstd::arithmetic::div_mod::lemma_mod_bound(seat + g, n);
        assert(split_commas(rotated(spec, g))[seat] == ps[x]);
        if x != kind {
            if x < kind {
                assert(ps[x] != ps[kind]);
            } else {
                assert(ps[kind] != ps[x]);
            }
        }
    }
}

/// Over a run whose length is a multiple of the number of kinds, every kind
/// plays every seat equally often, when no kind is listed twice: over the
/// games `g` in `0..m`, seat `seat` of `rotated_spec(spec, g)` (whose text
/// `rotated(spec, g)` is) holds kind `kind` exactly `m / n` times, `n`
/// being the number of kinds.
pub proof fn lemma_rotation_is_fair(spec: Seq<char>, seat: int, kind: int, m: int)
    requires
        0 <= seat < split_commas(spec).len(),
        0 <= kind < split_commas(spec).len(),
        kinds_distinct(split_commas(spec)),
        m >= 0,
        m % (split_commas(spec).len() as int) == 0,
    ensures
        seat_count(spec, seat, split_commas(spec)[kind], m) == m / (split_commas(spec).len() as int),
{
    let n = split_commas(spec).len() as int;
    let r = if kind >= seat {
        kind - seat
    } else {
        kind - seat + n
    };
    lemma_seat_count_is_count_rem(spec, seat, kind, m);
    lemma_count_rem(r, n, m);
}

/// Game numbers of runs at different player counts never collide while no
/// seed reaches eight digits: equal numbers mean the same player count and
/// the same seed.
pub proof fn lemma_game_ids_do_not_collide(p1: u8, s1: u64, p2: u8, s2: u64)
    requires
        s1 < 10_000_000,
        s2 < 10_000_000,
        p1 as int * 10_000_000 + s1 % 10_000_000 == p2 as int * 10_000_000 + s2 % 10_000_000,
    ensures
        p1 == p2,
        s1 == s2,
{
}

} // verus!

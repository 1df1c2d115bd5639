//! Text primitives the console is specified over: decimal rendering and
//! parsing, character-exact string equality, substring search, short display
//! names (the last `::`-separated path segment, generic arguments kept
//! whole), and lexicographic ordering of names.
use vstd::prelude::*;
use vstd::string::*;

verus! {

/// The digit character for a single decimal digit.
pub open spec fn spec_digit_char(d: nat) -> char {
    if d == 0 {
        '0'
    } else if d == 1 {
        '1'
    } else if d == 2 {
        '2'
    } else if d == 3 {
        '3'
    } else if d == 4 {
        '4'
    } else if d == 5 {
        '5'
    } else if d == 6 {
        '6'
    } else if d == 7 {
        '7'
    } else if d == 8 {
        '8'
    } else {
        '9'
    }
}

/// The decimal rendering of a natural number, most significant digit first.
pub open spec fn spec_dec(n: nat) -> Seq<char>
    decreases n,
{
    if n < 10 {
        seq![spec_digit_char(n)]
    } else {
        spec_dec(n / 10).push(spec_digit_char(n % 10))
    }
}

/// A one-character string slice holding the digit character for `d`.
fn digit_str(d: usize) -> (r: &'static str)
    requires
        d < 10,
    ensures
        r@.len() == 1,
        r@[0] == spec_digit_char(d as nat),
{
    proof {
        reveal_strlit("0");
        reveal_strlit("1");
        reveal_strlit("2");
        reveal_strlit("3");
        reveal_strlit("4");
        reveal_strlit("5");
        reveal_strlit("6");
        reveal_strlit("7");
        reveal_strlit("8");
        reveal_strlit("9");
    }
    match d {
        0 => "0",
        1 => "1",
        2 => "2",
        3 => "3",
        4 => "4",
        5 => "5",
        6 => "6",
        7 => "7",
        8 => "8",
        _ => "9",
    }
}

/// Render a number in decimal.
pub fn dec_string(n: usize) -> (s: String)
    ensures
        s@ == spec_dec(n as nat),
    decreases n,
{
    if n < 10 {
        let mut s = String::new();
        s.append(digit_str(n));
        proof {
            assert(s@ =~= spec_dec(n as nat));
        }
        s
    } else {
        let mut s = dec_string(n / 10);
        s.append(digit_str(n % 10));
        proof {
            assert(s@ =~= spec_dec(n as nat));
        }
        s
    }
}

/// Whether a character is a decimal digit.
pub open spec fn spec_is_digit(c: char) -> bool {
    48 <= c as u32 && c as u32 <= 57
}

/// The numeric value of a digit character.
pub open spec fn spec_digit_val(c: char) -> int {
    c as u32 - 48
}

/// Whether every character of the sequence is a decimal digit.
pub open spec fn spec_all_digits(s: Seq<char>) -> bool {
    forall|i: int| 0 <= i < s.len() ==> spec_is_digit(#[trigger] s[i])
}

/// The numeric value of a digit sequence, most significant digit first.
pub open spec fn spec_dec_val(s: Seq<char>) -> int
    decreases s.len(),
{
    if s.len() == 0 {
        0
    } else {
        spec_dec_val(s.drop_last()) * 10 + spec_digit_val(s.last())
    }
}

/// What parsing an integer token yields: a value exactly when the token is a
/// nonempty run of digits whose value fits in `usize`.
pub open spec fn spec_parse_usize(s: Seq<char>) -> Option<usize> {
    if s.len() > 0 && spec_all_digits(s) && spec_dec_val(s) <= usize::MAX {
        Some(spec_dec_val(s) as usize)
    } else {
        None
    }
}

proof fn lemma_dec_val_nonneg(s: Seq<char>)
    requires
        spec_all_digits(s),
    ensures
        spec_dec_val(s) >= 0,
    decreases s.len(),
{
    if s.len() > 0 {
        assert(spec_all_digits(s.drop_last()));
        lemma_dec_val_nonneg(s.drop_last());
    }
}

proof fn lemma_dec_val_prefix(s: Seq<char>, i: int)
    requires
        spec_all_digits(s),
        0 <= i <= s.len(),
    ensures
        spec_dec_val(s.take(i)) <= spec_dec_val(s),
    decreases s.len(),
{
    if i == s.len() {
        assert(s.take(i) =~= s);
    } else {
        assert(spec_all_digits(s.drop_last()));
        assert(s.drop_last().take(i) =~= s.take(i));
        lemma_dec_val_prefix(s.drop_last(), i);
        lemma_dec_val_nonneg(s.drop_last());
    }
}

/// Parse a decimal integer token; rejects empty tokens, non-digit characters
/// and values that do not fit.
pub fn parse_usize(s: &str) -> (r: Option<usize>)
    ensures
        r == spec_parse_usize(s@),
{
    let n = s.unicode_len();
    if n == 0 {
        return None;
    }
    let mut acc: usize = 0;
    let mut i: usize = 0;
    while i < n
        invariant
            0 <= i <= n,
            n == s@.len(),
            spec_all_digits(s@.take(i as int)),
            acc as int == spec_dec_val(s@.take(i as int)),
        decreases n - i,
    {
        let c = s.get_char(i);
        let u = c as u32;
        if u < 48 || u > 57 {
            assert(!spec_all_digits(s@));
            return None;
        }
        let d = (u - 48) as usize;
        proof {
            assert(s@.take(i + 1).drop_last() =~= s@.take(i as int));
            assert(s@.take(i + 1).last() == s@[i as int]);
        }
        let big = acc > (usize::MAX - d) / 10;
        if big {
            proof {
                assert(acc as int * 10 + d > usize::MAX) by (nonlinear_arith)
                    requires
                        acc as int > (usize::MAX - d as int) / 10,
                        0 <= d <= 9,
                {}
                if spec_all_digits(s@) {
                    lemma_dec_val_prefix(s@, i + 1);
                }
            }
            return None;
        }
        proof {
            assert(acc as int * 10 + d <= usize::MAX) by (nonlinear_arith)
                requires
                    acc as int <= (usize::MAX - d as int) / 10,
                    0 <= d <= 9,
            {}
        }
        acc = acc * 10 + d;
        i = i + 1;
    }
    proof {
        assert(s@.take(n as int) =~= s@);
    }
    Some(acc)
}

/// Character-exact string equality.
pub fn str_eq(a: &str, b: &str) -> (r: bool)
    ensures
        r == (a@ == b@),
{
    let n = a.unicode_len();
    let m = b.unicode_len();
    if n != m {
        return false;
    }
    let mut i: usize = 0;
    while i < n
        invariant
            0 <= i <= n,
            n == a@.len(),
            n == b@.len(),
            forall|k: int| 0 <= k < i ==> a@[k] == b@[k],
        decreases n - i,
    {
        if a.get_char(i) != b.get_char(i) {
            return false;
        }
        i = i + 1;
    }
    proof {
        assert(a@ =~= b@);
    }
    true
}

/// Substring containment: some window of `s` equals `p`.
pub open spec fn spec_contains(s: Seq<char>, p: Seq<char>) -> bool {
    exists|i: int| 0 <= i && i + p.len() <= s.len() && #[trigger] s.subrange(i, i + p.len() as int) == p
}

/// Case-sensitive substring search.
pub fn str_contains(s: &str, pat: &str) -> (r: bool)
    ensures
        r == spec_contains(s@, pat@),
{
    let n = s.unicode_len();
    let m = pat.unicode_len();
    if m > n {
        return false;
    }
    if m == 0 {
        proof {
            let w: int = 0;
            assert(s@.subrange(w, w + pat@.len() as int) =~= pat@);
        }
        return true;
    }
    let mut i: usize = 0;
    while i <= n - m
        invariant
            0 <= i <= n - m + 1,
            0 < m <= n,
            n == s@.len(),
            m == pat@.len(),
            forall|k: int|
                0 <= k < i ==> #[trigger] s@.subrange(k, k + pat@.len() as int) != pat@,
        decreases n - i,
    {
        let mut j: usize = 0;
        let mut mismatch = false;
        while j < m && !mismatch
            invariant
                0 <= j <= m,
                i + m <= n,
                n == s@.len(),
                m == pat@.len(),
                !mismatch ==> forall|t: int| 0 <= t < j ==> s@[i + t] == pat@[t],
                mismatch ==> s@.subrange(i as int, i + pat@.len() as int) != pat@,
            decreases (if mismatch { 0int } else { 1int }) + m - j,
        {
            if s.get_char(i + j) != pat.get_char(j) {
                proof {
                    assert(s@.subrange(i as int, i + pat@.len() as int)[j as int] == s@[i + j]);
                }
                mismatch = true;
            } else {
                j = j + 1;
            }
        }
        if !mismatch {
            proof {
                assert(s@.subrange(i as int, i + pat@.len() as int) =~= pat@);
            }
            return true;
        }
        i = i + 1;
    }
    false
}

/// Where the short display name starts, scanning backward from position `i`
/// with `depth` angle brackets open to the right: just past the last `::`
/// that stands outside every generic-argument list, or the start of the
/// string when there is none.
pub open spec fn spec_cut(s: Seq<char>, i: int, depth: nat) -> int
    decreases i,
{
    if i < 2 {
        0
    } else if s[i - 1] == '>' {
        spec_cut(s, i - 1, depth + 1)
    } else if s[i - 1] == '<' {
        spec_cut(
            s,
            i - 1,
            if depth > 0 {
                (depth - 1) as nat
            } else {
                0
            },
        )
    } else if depth == 0 && s[i - 1] == ':' && s[i - 2] == ':' {
        i
    } else {
        spec_cut(s, i - 1, depth)
    }
}

/// The short display name: the part after the last `::` outside angle
/// brackets, or the whole name when it has no path prefix. A `::` inside a
/// generic-argument list does not cut, so `Assets<pkg::Image>` keeps its
/// outer name.
pub open spec fn spec_short_name(s: Seq<char>) -> Seq<char> {
    s.subrange(spec_cut(s, s.len() as int, 0), s.len() as int)
}

proof fn lemma_cut_bounds(s: Seq<char>, i: int, depth: nat)
    ensures
        0 <= spec_cut(s, i, depth),
        spec_cut(s, i, depth) <= i || spec_cut(s, i, depth) == 0,
    decreases i,
{
    if i >= 2 {
        if s[i - 1] == '>' {
            lemma_cut_bounds(s, i - 1, depth + 1);
        } else if s[i - 1] == '<' {
            lemma_cut_bounds(
                s,
                i - 1,
                if depth > 0 {
                    (depth - 1) as nat
                } else {
                    0
                },
            );
        } else if depth == 0 && s[i - 1] == ':' && s[i - 2] == ':' {
        } else {
            lemma_cut_bounds(s, i - 1, depth);
        }
    }
}

/// Compute the short display name of a fully-qualified type name.
pub fn short_name(s: &str) -> (r: String)
    ensures
        r@ == spec_short_name(s@),
{
    let n = s.unicode_len();
    let mut i: usize = n;
    let mut depth: usize = 0;
    while i >= 2 && !(depth == 0 && s.get_char(i - 1) == ':' && s.get_char(i - 2) == ':')
        invariant
            0 <= i <= n,
            depth <= n - i,
            n == s@.len(),
            spec_cut(s@, n as int, 0) == spec_cut(s@, i as int, depth as nat),
        decreases i,
    {
        let c = s.get_char(i - 1);
        if c == '>' {
            depth = depth + 1;
        } else if c == '<' {
            if depth > 0 {
                depth = depth - 1;
            }
        }
        i = i - 1;
    }
    let cut = if i >= 2 {
        i
    } else {
        0
    };
    proof {
        lemma_cut_bounds(s@, n as int, 0);
        assert(spec_cut(s@, i as int, depth as nat) == cut);
    }
    let sub = s.substring_char(cut, n);
    sub.to_owned()
}

/// Lexicographic order on character sequences, by code point.
pub open spec fn spec_lex_le(a: Seq<char>, b: Seq<char>) -> bool
    decreases a.len(),
{
    if a.len() == 0 {
        true
    } else if b.len() == 0 {
        false
    } else if (a[0] as u32) < (b[0] as u32) {
        true
    } else if (a[0] as u32) > (b[0] as u32) {
        false
    } else {
        spec_lex_le(a.drop_first(), b.drop_first())
    }
}

/// Lexicographic comparison of two strings.
pub fn lex_le(a: &str, b: &str) -> (r: bool)
    ensures
        r == spec_lex_le(a@, b@),
{
    let n = a.unicode_len();
    let m = b.unicode_len();
    let mut i: usize = 0;
    proof {
        assert(a@.skip(0) =~= a@);
        assert(b@.skip(0) =~= b@);
    }
    while i < n && i < m
        invariant
            0 <= i,
            i <= n,
            i <= m,
            n == a@.len(),
            m == b@.len(),
            spec_lex_le(a@, b@) == spec_lex_le(a@.skip(i as int), b@.skip(i as int)),
        decreases n - i,
    {
        let ca = a.get_char(i) as u32;
        let cb = b.get_char(i) as u32;
        proof {
            assert(a@.skip(i as int)[0] == a@[i as int]);
            assert(b@.skip(i as int)[0] == b@[i as int]);
            assert(a@.skip(i as int).drop_first() =~= a@.skip(i + 1));
            assert(b@.skip(i as int).drop_first() =~= b@.skip(i + 1));
        }
        if ca < cb {
            return true;
        }
        if ca > cb {
            return false;
        }
        i = i + 1;
    }
    proof {
        if i >= n {
            assert(a@.skip(i as int).len() == 0);
        } else {
            assert(b@.skip(i as int).len() == 0);
            assert(a@.skip(i as int).len() > 0);
        }
    }
    i >= n
}

/// The character sequences a vector of strings holds.
pub open spec fn views(s: Seq<String>) -> Seq<Seq<char>> {
    s.map_values(|t: String| t@)
}

/// The sequence with `x` placed before the first element it is
/// lexicographically at or below.
pub open spec fn spec_insert_sorted(x: Seq<char>, s: Seq<Seq<char>>) -> Seq<Seq<char>>
    decreases s.len(),
{
    if s.len() == 0 {
        seq![x]
    } else if spec_lex_le(x, s[0]) {
        seq![x] + s
    } else {
        seq![s[0]] + spec_insert_sorted(x, s.drop_first())
    }
}

/// Insertion sort of character sequences, in input order.
pub open spec fn spec_sort(s: Seq<Seq<char>>) -> Seq<Seq<char>>
    decreases s.len(),
{
    if s.len() == 0 {
        Seq::empty()
    } else {
        spec_insert_sorted(s.last(), spec_sort(s.drop_last()))
    }
}

proof fn lemma_insert_at(x: Seq<char>, s: Seq<Seq<char>>, p: int)
    requires
        0 <= p <= s.len(),
        forall|k: int| 0 <= k < p ==> !spec_lex_le(x, #[trigger] s[k]),
        p < s.len() ==> spec_lex_le(x, s[p]),
    ensures
        spec_insert_sorted(x, s) == s.take(p) + seq![x] + s.skip(p),
    decreases s.len(),
{
    if s.len() == 0 {
        assert(spec_insert_sorted(x, s) =~= s.take(p) + seq![x] + s.skip(p));
    } else if spec_lex_le(x, s[0]) {
        assert(p == 0);
        assert(seq![x] + s =~= s.take(0) + seq![x] + s.skip(0));
    } else {
        assert(p > 0);
        let d = s.drop_first();
        assert(forall|k: int| 0 <= k < p - 1 ==> !spec_lex_le(x, #[trigger] d[k]));
        lemma_insert_at(x, d, p - 1);
        assert(seq![s[0]] + (d.take(p - 1) + seq![x] + d.skip(p - 1)) =~= s.take(p) + seq![x]
            + s.skip(p));
    }
}

/// Insert a string into a vector that the caller keeps sorted.
pub fn insert_sorted(v: &mut Vec<String>, x: String)
    ensures
        views(final(v)@) == spec_insert_sorted(x@, views(old(v)@)),
{
    let mut p: usize = 0;
    while p < v.len() && !lex_le(x.as_str(), v[p].as_str())
        invariant
            0 <= p <= v.len(),
            forall|k: int| 0 <= k < p ==> !spec_lex_le(x@, views(v@)[k]),
        decreases v.len() - p,
    {
        p = p + 1;
    }
    proof {
        lemma_insert_at(x@, views(v@), p as int);
    }
    let ghost before = v@;
    v.insert(p, x);
    proof {
        assert(views(v@) =~= views(before).take(p as int) + seq![x@] + views(before).skip(
            p as int,
        ));
    }
}

/// Sort a vector of strings lexicographically ascending.
pub fn sort_strings(v: &Vec<String>) -> (r: Vec<String>)
    ensures
        views(r@) == spec_sort(views(v@)),
{
    let mut out: Vec<String> = Vec::new();
    let mut i: usize = 0;
    proof {
        assert(views(v@).take(0) =~= Seq::<Seq<char>>::empty());
        assert(views(out@) =~= Seq::<Seq<char>>::empty());
    }
    while i < v.len()
        invariant
            0 <= i <= v.len(),
            views(out@) == spec_sort(views(v@).take(i as int)),
        decreases v.len() - i,
    {
        let x = v[i].clone();
        insert_sorted(&mut out, x);
        proof {
            assert(views(v@).take(i + 1).drop_last() =~= views(v@).take(i as int));
            assert(views(v@).take(i + 1).last() == v@[i as int]@);
        }
        i = i + 1;
    }
    proof {
        assert(views(v@).take(v@.len() as int) =~= views(v@));
    }
    out
}

} // verus!

//! Character-level helpers shared by the decoders: splitting on a separator,
//! trimming, literal comparison and decimal integers.
use vstd::prelude::*;
use vstd::string::*;

verus! {

/// The pieces of `s` between occurrences of `sep`, in order; a string without
/// `sep` is a single piece, and the empty string is one empty piece.
pub open spec fn split_spec(s: Seq<char>, sep: char) -> Seq<Seq<char>>
    decreases s.len(),
{
    if s.len() == 0 {
        seq![Seq::<char>::empty()]
    } else {
        let prev = split_spec(s.drop_last(), sep);
        if s.last() == sep {
            prev.push(Seq::<char>::empty())
        } else {
            prev.update(prev.len() - 1, prev.last().push(s.last()))
        }
    }
}

/// Unicode `White_Space`, the class that `str::trim` removes.
pub open spec fn is_ws(c: char) -> bool {
    ('\u{9}' <= c && c <= '\u{d}') || c == ' ' || c == '\u{85}' || c == '\u{a0}' || c
        == '\u{1680}' || ('\u{2000}' <= c && c <= '\u{200a}') || c == '\u{2028}' || c
        == '\u{2029}' || c == '\u{202f}' || c == '\u{205f}' || c == '\u{3000}'
}

pub fn char_is_ws(c: char) -> (r: bool)
    ensures
        r == is_ws(c),
{
    ('\u{9}' <= c && c <= '\u{d}') || c == ' ' || c == '\u{85}' || c == '\u{a0}' || c
        == '\u{1680}' || ('\u{2000}' <= c && c <= '\u{200a}') || c == '\u{2028}' || c
        == '\u{2029}' || c == '\u{202f}' || c == '\u{205f}' || c == '\u{3000}'
}

/// Number of leading whitespace characters of `s`.
pub open spec fn lead_ws(s: Seq<char>) -> nat
    decreases s.len(),
{
    if s.len() > 0 && is_ws(s[0]) {
        1 + lead_ws(s.drop_first())
    } else {
        0
    }
}

/// Number of trailing whitespace characters of `s`.
pub open spec fn trail_ws(s: Seq<char>) -> nat
    decreases s.len(),
{
    if s.len() > 0 && is_ws(s.last()) {
        1 + trail_ws(s.drop_last())
    } else {
        0
    }
}

/// `s` without its surrounding whitespace.
pub open spec fn trim_spec(s: Seq<char>) -> Seq<char> {
    let t = s.skip(lead_ws(s) as int);
    t.subrange(0, t.len() - trail_ws(t))
}

/// The characters of `s`, one per element.
pub fn chars_of(s: &str) -> (r: Vec<char>)
    ensures
        r@ == s@,
{
    let n = s.unicode_len();
    let mut out: Vec<char> = Vec::new();
    let mut i: usize = 0;
    while i < n
        invariant
            n == s@.len(),
            i <= n,
            out@ == s@.subrange(0, i as int),
        decreases n - i,
    {
        out.push(s.get_char(i));
        i = i + 1;
    }
    out
}

/// The bounds `(lo, hi)` of `c` without its surrounding whitespace.
pub fn trim_bounds(c: &Vec<char>) -> (r: (usize, usize))
    ensures
        r.0 <= r.1 <= c@.len(),
        c@.subrange(r.0 as int, r.1 as int) == trim_spec(c@),
{
    let n = c.len();
    let mut lo: usize = 0;
    assert(c@.skip(0) == c@);
    while lo < n && char_is_ws(c[lo])
        invariant
            lo <= n == c@.len(),
            lead_ws(c@) == lo + lead_ws(c@.skip(lo as int)),
        decreases n - lo,
    {
        assert(c@.skip(lo as int).drop_first() == c@.skip(lo + 1));
        lo = lo + 1;
    }
    let ghost t = c@.skip(lo as int);
    assert(lead_ws(t) == 0);
    assert(lead_ws(c@) == lo);
    let mut hi: usize = n;
    assert(t.subrange(0, hi - lo) == t);
    while hi > lo && char_is_ws(c[hi - 1])
        invariant
            lo <= hi <= n == c@.len(),
            t == c@.skip(lo as int),
            trail_ws(t) == (n - hi) + trail_ws(t.subrange(0, hi - lo)),
        decreases hi,
    {
        assert(t.subrange(0, hi - lo).drop_last() == t.subrange(0, hi - 1 - lo));
        hi = hi - 1;
    }
    assert(trail_ws(t.subrange(0, hi - lo)) == 0);
    assert(c@.subrange(lo as int, hi as int) == t.subrange(0, t.len() - trail_ws(t)));
    (lo, hi)
}

/// Whether `s` is exactly the text `lit`.
pub fn str_is(s: &str, lit: &str) -> (r: bool)
    ensures
        r == (s@ == lit@),
{
    let n = s.unicode_len();
    if n != lit.unicode_len() {
        return false;
    }
    let mut i: usize = 0;
    while i < n
        invariant
            n == s@.len() == lit@.len(),
            i <= n,
            s@.subrange(0, i as int) == lit@.subrange(0, i as int),
        decreases n - i,
    {
        if s.get_char(i) != lit.get_char(i) {
            return false;
        }
        i = i + 1;
    }
    assert(s@ == s@.subrange(0, n as int));
    assert(lit@ == lit@.subrange(0, n as int));
    true
}

/// An owned copy of `s`.
pub fn owned(s: &str) -> (r: String)
    ensures
        r@ == s@,
{
    String::from_str(s)
}


/// The pieces of `c[lo..hi]` between occurrences of `sep`, as slices of `s`
/// (whose characters `c` holds).
pub fn split_range<'a>(s: &'a str, c: &Vec<char>, lo: usize, hi: usize, sep: char) -> (r: Vec<
    &'a str,
>)
    requires
        c@ == s@,
        lo <= hi <= c@.len(),
    ensures
        r.deep_view() == split_spec(c@.subrange(lo as int, hi as int), sep),
{
    let mut out: Vec<&'a str> = Vec::new();
    let mut start: usize = lo;
    let mut i: usize = lo;
    assert(c@.subrange(lo as int, lo as int) == Seq::<char>::empty());
    assert(out.deep_view().push(c@.subrange(start as int, i as int)) =~= seq![
        Seq::<char>::empty(),
    ]);
    while i < hi
        invariant
            c@ == s@,
            lo <= start <= i <= hi <= c@.len(),
            split_spec(c@.subrange(lo as int, i as int), sep) == out.deep_view().push(
                c@.subrange(start as int, i as int),
            ),
        decreases hi - i,
    {
        let ghost prev = out.deep_view();
        let ghost pre = c@.subrange(lo as int, (i + 1) as int);
        assert(pre.drop_last() == c@.subrange(lo as int, i as int));
        assert(pre.last() == c@[i as int]);
        if c[i] == sep {
            let piece = s.substring_char(start, i);
            out.push(piece);
            assert(out.deep_view() =~= prev.push(c@.subrange(start as int, i as int)));
            start = i + 1;
            assert(c@.subrange(start as int, (i + 1) as int) =~= Seq::<char>::empty());
            assert(out.deep_view().push(c@.subrange(start as int, (i + 1) as int))
                =~= split_spec(pre, sep));
        } else {
            assert(c@.subrange(start as int, i as int).push(c@[i as int]) =~= c@.subrange(
                start as int,
                (i + 1) as int,
            ));
            assert(out.deep_view().push(c@.subrange(start as int, (i + 1) as int))
                =~= split_spec(pre, sep));
        }
        i = i + 1;
    }
    let ghost prev = out.deep_view();
    let piece = s.substring_char(start, hi);
    out.push(piece);
    assert(out.deep_view() =~= prev.push(c@.subrange(start as int, hi as int)));
    out
}

/// The value of a non-empty run of decimal digits.
pub open spec fn digits_value(s: Seq<char>) -> int
    decreases s.len(),
{
    if s.len() == 0 {
        0
    } else {
        digits_value(s.drop_last()) * 10 + (s.last() as int - '0' as int)
    }
}

pub open spec fn is_digit(c: char) -> bool {
    '0' <= c && c <= '9'
}

pub open spec fn all_digits(s: Seq<char>) -> bool {
    s.len() > 0 && forall|i: int| 0 <= i < s.len() ==> is_digit(#[trigger] s[i])
}

/// The integer that `s` writes in decimal: an optional `+` (or, where
/// `signed`, `-`) followed by one or more digits.
pub open spec fn int_text(s: Seq<char>, signed: bool) -> Option<int> {
    if s.len() > 0 && s[0] == '+' {
        if all_digits(s.drop_first()) {
            Some(digits_value(s.drop_first()))
        } else {
            None
        }
    } else if signed && s.len() > 0 && s[0] == '-' {
        if all_digits(s.drop_first()) {
            Some(-digits_value(s.drop_first()))
        } else {
            None
        }
    } else if all_digits(s) {
        Some(digits_value(s))
    } else {
        None
    }
}

/// The integer that `s` writes, where it lies in `[lo, hi]`.
pub open spec fn int_in_range(s: Seq<char>, signed: bool, lo: int, hi: int) -> Option<int> {
    match int_text(s, signed) {
        Some(v) => if lo <= v <= hi {
            Some(v)
        } else {
            None
        },
        None => None,
    }
}

proof fn lemma_digits_nonneg(s: Seq<char>)
    requires
        forall|i: int| 0 <= i < s.len() ==> is_digit(#[trigger] s[i]),
    ensures
        digits_value(s) >= 0,
    decreases s.len(),
{
    if s.len() > 0 {
        lemma_digits_nonneg(s.drop_last());
    }
}

const CAP: u128 = 0x1_0000_0000_0000_0000;

/// The value of the digits `s[from..]`, where they are all digits and at least
/// one: `Some(v)` with `v` exact up to `CAP`, any value above `CAP` given as
/// `CAP + 1`.
fn digits_capped(s: &Vec<char>, from: usize) -> (r: Option<u128>)
    requires
        from <= s@.len(),
    ensures
        r is Some <==> all_digits(s@.skip(from as int)),
        r matches Some(v) ==> (if digits_value(s@.skip(from as int)) <= CAP {
            v == digits_value(s@.skip(from as int))
        } else {
            v == CAP + 1
        }),
{
    let n = s.len();
    if from >= n {
        return None;
    }
    let mut v: u128 = 0;
    let mut i: usize = from;
    assert(s@.subrange(from as int, from as int) =~= Seq::<char>::empty());
    while i < n
        invariant
            from <= i <= n == s@.len(),
            forall|j: int| from <= j < i ==> is_digit(#[trigger] s@[j]),
            v <= CAP + 1,
            digits_value(s@.subrange(from as int, i as int)) <= CAP ==> v == digits_value(
                s@.subrange(from as int, i as int),
            ),
            digits_value(s@.subrange(from as int, i as int)) > CAP ==> v == CAP + 1,
        decreases n - i,
    {
        let ch = s[i];
        if !('0' <= ch && ch <= '9') {
            assert(!is_digit(s@.skip(from as int)[i - from]));
            return None;
        }
        let d = (ch as u32 - '0' as u32) as u128;
        let ghost pre = s@.subrange(from as int, i as int);
        let ghost nxt = s@.subrange(from as int, i + 1);
        assert(nxt.drop_last() == pre);
        assert(digits_value(nxt) == digits_value(pre) * 10 + d);
        proof {
            lemma_digits_nonneg(pre);
        }
        if v > CAP {
            assert(digits_value(nxt) > CAP) by (nonlinear_arith)
                requires
                    digits_value(pre) > CAP,
                    digits_value(nxt) == digits_value(pre) * 10 + d,
                    d >= 0,
            ;
        } else {
            let w = v * 10 + d;
            if w > CAP {
                v = CAP + 1;
            } else {
                v = w;
            }
        }
        i = i + 1;
    }
    assert(s@.subrange(from as int, n as int) == s@.skip(from as int));
    Some(v)
}

/// Reads the decimal integer that `s` writes, where it lies in `[lo, hi]`.
pub fn parse_int(s: &Vec<char>, signed: bool, lo: i64, hi: i64) -> (r: Option<i64>)
    ensures
        r matches Some(v) ==> int_in_range(s@, signed, lo as int, hi as int) == Some(v as int),
        r is None ==> int_in_range(s@, signed, lo as int, hi as int) is None,
{
    let n = s.len();
    if n > 0 && s[0] == '+' {
        assert(s@.skip(1) == s@.drop_first());
        match digits_capped(s, 1) {
            Some(v) => if (v as i128) <= hi as i128 && lo as i128 <= v as i128 {
                Some(v as i64)
            } else {
                None
            },
            None => None,
        }
    } else if signed && n > 0 && s[0] == '-' {
        assert(s@.skip(1) == s@.drop_first());
        match digits_capped(s, 1) {
            Some(v) => if lo as i128 <= -(v as i128) && -(v as i128) <= hi as i128 {
                Some((-(v as i128)) as i64)
            } else {
                None
            },
            None => None,
        }
    } else {
        assert(s@.skip(0) == s@);
        match digits_capped(s, 0) {
            Some(v) => if (v as i128) <= hi as i128 && lo as i128 <= v as i128 {
                Some(v as i64)
            } else {
                None
            },
            None => None,
        }
    }
}


/// Reads the unsigned decimal integer that `s` writes, where it fits in 64 bits.
pub fn parse_int_u64(s: &Vec<char>) -> (r: Option<u64>)
    ensures
        r matches Some(v) ==> int_in_range(s@, false, 0, u64::MAX as int) == Some(v as int),
        r is None ==> int_in_range(s@, false, 0, u64::MAX as int) is None,
{
    let from: usize = if s.len() > 0 && s[0] == '+' {
        1
    } else {
        0
    };
    assert(from == 1 ==> s@.skip(1) == s@.drop_first());
    assert(from == 0 ==> s@.skip(0) == s@);
    match digits_capped(s, from) {
        Some(v) => if v <= u64::MAX as u128 {
            Some(v as u64)
        } else {
            None
        },
        None => None,
    }
}


/// Relies on `String::push`: appends one character.
#[verifier::external_body]
pub(crate) fn push_char(s: &mut String, c: char)
    ensures
        final(s)@ == old(s)@.push(c),
{
    s.push(c)
}

} // verus!

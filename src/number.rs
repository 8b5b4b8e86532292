//! The syntax of a decimal floating-point literal as accepted by `str::parse`
//! for 64-bit floats: an optional sign, then `inf`, `infinity` or `nan` in any
//! letter case, or digits with at most one point and at least one digit,
//! optionally followed by `e` or `E`, an optional sign and at least one digit.
//! No whitespace is allowed anywhere.

use vstd::prelude::*;

verus! {

pub open spec fn is_digit(c: char) -> bool {
    '0' <= c && c <= '9'
}

pub open spec fn is_sign(c: char) -> bool {
    c == '+' || c == '-'
}

pub open spec fn is_exp_mark(c: char) -> bool {
    c == 'e' || c == 'E'
}

/// `s` without one leading sign, if it has one.
pub open spec fn unsigned_part(s: Seq<char>) -> Seq<char> {
    if s.len() > 0 && is_sign(s[0]) {
        s.drop_first()
    } else {
        s
    }
}

/// `c` is the lower-case ASCII letter `lc` or its upper-case form.
pub open spec fn same_letter(c: char, lc: char) -> bool {
    c == lc || (c as u32) + 32 == (lc as u32)
}

/// `s` spells the lower-case word `w` in any letter case.
pub open spec fn is_word(s: Seq<char>, w: Seq<char>) -> bool {
    s.len() == w.len() && forall|i: int| 0 <= i < s.len() ==> same_letter(#[trigger] s[i], w[i])
}

pub open spec fn is_special(u: Seq<char>) -> bool {
    is_word(u, seq!['i', 'n', 'f']) || is_word(u, seq!['i', 'n', 'f', 'i', 'n', 'i', 't', 'y'])
        || is_word(u, seq!['n', 'a', 'n'])
}

/// Digits and at most one point, with at least one digit.
pub open spec fn is_mantissa(m: Seq<char>) -> bool {
    &&& forall|i: int| 0 <= i < m.len() ==> is_digit(#[trigger] m[i]) || m[i] == '.'
    &&& forall|i: int, j: int|
        0 <= i < m.len() && 0 <= j < m.len() && #[trigger] m[i] == '.' && #[trigger] m[j] == '.'
            ==> i == j
    &&& exists|i: int| 0 <= i < m.len() && is_digit(#[trigger] m[i])
}

/// An optional sign followed by at least one digit.
pub open spec fn is_exponent(x: Seq<char>) -> bool {
    let d = unsigned_part(x);
    d.len() > 0 && forall|i: int| 0 <= i < d.len() ==> is_digit(#[trigger] d[i])
}

pub open spec fn is_number(u: Seq<char>) -> bool {
    is_mantissa(u) || exists|k: int|
        0 <= k < u.len() && is_exp_mark(#[trigger] u[k]) && is_mantissa(u.take(k)) && is_exponent(
            u.skip(k + 1),
        )
}

/// `s` is the text of a 64-bit float in the syntax that `str::parse` accepts.
pub open spec fn is_float_literal(s: Seq<char>) -> bool {
    is_special(unsigned_part(s)) || is_number(unsigned_part(s))
}

fn digit_at(s: &str, i: usize) -> (r: bool)
    requires
        i < s@.len(),
    ensures
        r == is_digit(s@[i as int]),
{
    let c = s.get_char(i);
    '0' <= c && c <= '9'
}

/// Whether `s[lo..hi]` is a mantissa.
fn scan_mantissa(s: &str, lo: usize, hi: usize) -> (r: bool)
    requires
        lo <= hi <= s@.len(),
    ensures
        r == is_mantissa(s@.subrange(lo as int, hi as int)),
{
    let ghost m = s@.subrange(lo as int, hi as int);
    let mut seen_dot = false;
    let mut dot: usize = 0;
    let mut seen_digit = false;
    let mut i: usize = lo;
    while i < hi
        invariant
            lo <= i <= hi <= s@.len(),
            m == s@.subrange(lo as int, hi as int),
            forall|j: int| 0 <= j < i - lo ==> is_digit(#[trigger] m[j]) || m[j] == '.',
            seen_dot ==> dot < i - lo && m[dot as int] == '.',
            forall|j: int| 0 <= j < i - lo && #[trigger] m[j] == '.' ==> seen_dot && j == dot,
            seen_digit <==> exists|j: int| 0 <= j < i - lo && is_digit(#[trigger] m[j]),
        decreases hi - i,
    {
        let c = s.get_char(i);
        assert(m[i - lo] == c);
        if '0' <= c && c <= '9' {
            seen_digit = true;
        } else if c == '.' {
            if seen_dot {
                assert(m[dot as int] == '.' && m[i - lo] == '.');
                return false;
            }
            seen_dot = true;
            dot = i - lo;
        } else {
            return false;
        }
        i = i + 1;
    }
    seen_digit
}

/// Whether `s[lo..hi]` is an exponent.
fn scan_exponent(s: &str, lo: usize, hi: usize) -> (r: bool)
    requires
        lo <= hi <= s@.len(),
    ensures
        r == is_exponent(s@.subrange(lo as int, hi as int)),
{
    let ghost x = s@.subrange(lo as int, hi as int);
    let mut start = lo;
    if lo < hi {
        let c = s.get_char(lo);
        if c == '+' || c == '-' {
            start = lo + 1;
        }
    }
    let ghost d = unsigned_part(x);
    assert(d =~= s@.subrange(start as int, hi as int));
    if start == hi {
        return false;
    }
    let mut i: usize = start;
    while i < hi
        invariant
            start <= i <= hi <= s@.len(),
            d == s@.subrange(start as int, hi as int),
            x == s@.subrange(lo as int, hi as int),
            d == unsigned_part(x),
            forall|j: int| 0 <= j < i - start ==> is_digit(#[trigger] d[j]),
        decreases hi - i,
    {
        if !digit_at(s, i) {
            assert(d[i - start] == s@[i as int]);
            return false;
        }
        assert(d[i - start] == s@[i as int]);
        i = i + 1;
    }
    true
}

fn letter_at(s: &str, i: usize, lc: char) -> (r: bool)
    requires
        i < s@.len(),
    ensures
        r == same_letter(s@[i as int], lc),
{
    let c = s.get_char(i);
    c == lc || (c as u32) + 32 == (lc as u32)
}

/// Whether `s[lo..hi]` is `inf`, `infinity` or `nan` in any letter case.
fn scan_special(s: &str, lo: usize, hi: usize) -> (r: bool)
    requires
        lo <= hi <= s@.len(),
    ensures
        r == is_special(s@.subrange(lo as int, hi as int)),
{
    let ghost u = s@.subrange(lo as int, hi as int);
    let ghost inf = seq!['i', 'n', 'f'];
    let ghost infinity = seq!['i', 'n', 'f', 'i', 'n', 'i', 't', 'y'];
    let ghost nan = seq!['n', 'a', 'n'];
    if hi - lo == 3 {
        let a = letter_at(s, lo, 'i') && letter_at(s, lo + 1, 'n') && letter_at(s, lo + 2, 'f');
        let b = letter_at(s, lo, 'n') && letter_at(s, lo + 1, 'a') && letter_at(s, lo + 2, 'n');
        assert(a == is_word(u, inf)) by {
            if a {
                assert forall|i: int| 0 <= i < u.len() implies same_letter(#[trigger] u[i], inf[i]) by {
                    assert(i == 0 || i == 1 || i == 2);
                }
            } else if is_word(u, inf) {
                assert(same_letter(u[0], inf[0]));
                assert(same_letter(u[1], inf[1]));
                assert(same_letter(u[2], inf[2]));
            }
        }
        assert(b == is_word(u, nan)) by {
            if b {
                assert forall|i: int| 0 <= i < u.len() implies same_letter(#[trigger] u[i], nan[i]) by {
                    assert(i == 0 || i == 1 || i == 2);
                }
            } else if is_word(u, nan) {
                assert(same_letter(u[0], nan[0]));
                assert(same_letter(u[1], nan[1]));
                assert(same_letter(u[2], nan[2]));
            }
        }
        a || b
    } else if hi - lo == 8 {
        let a = letter_at(s, lo, 'i') && letter_at(s, lo + 1, 'n') && letter_at(s, lo + 2, 'f')
            && letter_at(s, lo + 3, 'i') && letter_at(s, lo + 4, 'n') && letter_at(s, lo + 5, 'i')
            && letter_at(s, lo + 6, 't') && letter_at(s, lo + 7, 'y');
        assert(a == is_word(u, infinity)) by {
            if a {
                assert forall|i: int| 0 <= i < u.len() implies same_letter(
                    #[trigger] u[i],
                    infinity[i],
                ) by {
                    assert(0 <= i < 8);
                }
            } else if is_word(u, infinity) {
                assert(same_letter(u[0], infinity[0]));
                assert(same_letter(u[1], infinity[1]));
                assert(same_letter(u[2], infinity[2]));
                assert(same_letter(u[3], infinity[3]));
                assert(same_letter(u[4], infinity[4]));
                assert(same_letter(u[5], infinity[5]));
                assert(same_letter(u[6], infinity[6]));
                assert(same_letter(u[7], infinity[7]));
            }
        }
        a
    } else {
        false
    }
}

/// Whether `s[lo..hi]` is a number: a mantissa, optionally followed by an
/// exponent mark and an exponent.
fn scan_number(s: &str, lo: usize, hi: usize) -> (r: bool)
    requires
        lo <= hi <= s@.len(),
    ensures
        r == is_number(s@.subrange(lo as int, hi as int)),
{
    let ghost u = s@.subrange(lo as int, hi as int);
    let mut k: usize = lo;
    while k < hi
        invariant
            lo <= k <= hi <= s@.len(),
            u == s@.subrange(lo as int, hi as int),
            forall|j: int| 0 <= j < k - lo ==> !is_exp_mark(#[trigger] u[j]),
        ensures
            lo <= k <= hi,
            forall|j: int| 0 <= j < k - lo ==> !is_exp_mark(#[trigger] u[j]),
            k < hi ==> is_exp_mark(u[k - lo]),
        decreases hi - k,
    {
        let c = s.get_char(k);
        assert(u[k - lo] == c);
        if c == 'e' || c == 'E' {
            break;
        }
        k = k + 1;
    }
    if k == hi {
        let r = scan_mantissa(s, lo, hi);
        assert(!exists|j: int|
            0 <= j < u.len() && is_exp_mark(#[trigger] u[j]) && is_mantissa(u.take(j))
                && is_exponent(u.skip(j + 1)));
        r
    } else {
        let ghost kk = k - lo;
        assert(u.take(kk) =~= s@.subrange(lo as int, k as int));
        assert(u.skip(kk + 1) =~= s@.subrange(k + 1, hi as int));
        let m = scan_mantissa(s, lo, k);
        let x = scan_exponent(s, k + 1, hi);
        // A mantissa holds no exponent mark, so `kk` is the only split point.
        assert(!is_mantissa(u)) by {
            assert(is_exp_mark(u[kk]));
        }
        assert forall|j: int|
            0 <= j < u.len() && is_exp_mark(#[trigger] u[j]) && is_mantissa(u.take(j))
                && is_exponent(u.skip(j + 1)) implies j == kk by {
            if j > kk {
                assert(u.take(j)[kk] == u[kk]);
            }
        }
        m && x
    }
}

/// Whether `s` is the text of a 64-bit float in the syntax that `str::parse`
/// accepts.
pub fn is_float_text(s: &str) -> (r: bool)
    ensures
        r == is_float_literal(s@),
{
    let n = s.unicode_len();
    let mut lo: usize = 0;
    if n > 0 {
        let c = s.get_char(0);
        if c == '+' || c == '-' {
            lo = 1;
        }
    }
    assert(unsigned_part(s@) =~= s@.subrange(lo as int, n as int));
    scan_special(s, lo, n) || scan_number(s, lo, n)
}

} // verus!

//! Character classes and the scanner for JSON number literals.
//!
//! The scanner is a specification-level function over character
//! sequences; the executable parser mirrors it.  A numeral is kept as
//! its literal text, so `is_number_lit` is the well-formedness
//! condition for the text stored in a `Num` node.

use vstd::prelude::*;

verus! {

/// JSON whitespace.
pub open spec fn is_ws(c: char) -> bool {
    c == ' ' || c == '\t' || c == '\n' || c == '\r'
}

/// First index at or after `i` whose character is not whitespace
/// (or `s.len()` when whitespace runs to the end).
pub open spec fn skip_ws(s: Seq<char>, i: int) -> int
    decreases s.len() - i,
{
    if 0 <= i < s.len() && is_ws(s[i]) {
        skip_ws(s, i + 1)
    } else {
        i
    }
}

pub proof fn lemma_skip_ws(s: Seq<char>, i: int)
    requires
        0 <= i <= s.len(),
    ensures
        i <= skip_ws(s, i) <= s.len(),
        forall|k: int| i <= k < skip_ws(s, i) ==> is_ws(s[k]),
        skip_ws(s, i) < s.len() ==> !is_ws(s[skip_ws(s, i)]),
    decreases s.len() - i,
{
    if i < s.len() && is_ws(s[i]) {
        lemma_skip_ws(s, i + 1);
    }
}

/// Decimal digit.
pub open spec fn is_digit(c: char) -> bool {
    '0' <= c && c <= '9'
}

/// Hexadecimal digit (either case).
pub open spec fn is_hex(c: char) -> bool {
    is_digit(c) || ('a' <= c && c <= 'f') || ('A' <= c && c <= 'F')
}

/// Numeric value of a hexadecimal digit.
pub open spec fn hex_val(c: char) -> int {
    if is_digit(c) {
        c as int - '0' as int
    } else if 'a' <= c && c <= 'f' {
        c as int - 'a' as int + 10
    } else {
        c as int - 'A' as int + 10
    }
}

/// A character that could extend a number literal scan; nothing the
/// serializer places directly after a numeral is one of these.
pub open spec fn num_cont(c: char) -> bool {
    is_digit(c) || c == '.' || c == 'e' || c == 'E' || c == '+' || c == '-'
}

/// First index at or after `i` whose character is not a digit
/// (or `s.len()` when digits run to the end).
pub open spec fn skip_digits(s: Seq<char>, i: int) -> int
    decreases s.len() - i,
{
    if 0 <= i < s.len() && is_digit(s[i]) {
        skip_digits(s, i + 1)
    } else {
        i
    }
}

pub proof fn lemma_skip_digits(s: Seq<char>, i: int)
    requires
        0 <= i <= s.len(),
    ensures
        i <= skip_digits(s, i) <= s.len(),
        forall|k: int| i <= k < skip_digits(s, i) ==> is_digit(s[k]),
        skip_digits(s, i) < s.len() ==> !is_digit(s[skip_digits(s, i)]),
    decreases s.len() - i,
{
    if i < s.len() && is_digit(s[i]) {
        lemma_skip_digits(s, i + 1);
    }
}

/// End of the fractional part that starts at `b` (`b` itself when there
/// is none), or -1 when a lone `.` is not followed by a digit.
pub open spec fn frac_end(s: Seq<char>, b: int) -> int {
    if 0 <= b < s.len() && s[b] == '.' {
        if b + 1 < s.len() && is_digit(s[b + 1]) {
            skip_digits(s, b + 1)
        } else {
            -1
        }
    } else {
        b
    }
}

/// End of the exponent part that starts at `c` (`c` itself when there
/// is none), or -1 when `e`/`E` is not followed by digits.
pub open spec fn exp_end(s: Seq<char>, c: int) -> int {
    if 0 <= c < s.len() && (s[c] == 'e' || s[c] == 'E') {
        let d = if c + 1 < s.len() && (s[c + 1] == '+' || s[c + 1] == '-') {
            c + 2
        } else {
            c + 1
        };
        if d < s.len() && is_digit(s[d]) {
            skip_digits(s, d)
        } else {
            -1
        }
    } else {
        c
    }
}

/// End of the number literal that starts at `i`, or -1 when no valid
/// literal starts there.  Grammar: `-? (0 | [1-9][0-9]*) (.[0-9]+)?
/// ([eE][+-]?[0-9]+)?`.
pub open spec fn number_end(s: Seq<char>, i: int) -> int {
    let a = if 0 <= i < s.len() && s[i] == '-' {
        i + 1
    } else {
        i
    };
    if 0 <= a < s.len() && is_digit(s[a]) {
        let b = if s[a] == '0' {
            a + 1
        } else {
            skip_digits(s, a)
        };
        let c = frac_end(s, b);
        if c == -1 {
            -1
        } else {
            exp_end(s, c)
        }
    } else {
        -1
    }
}

/// `t` is exactly one valid JSON number literal.
pub open spec fn is_number_lit(t: Seq<char>) -> bool {
    t.len() > 0 && number_end(t, 0) == t.len()
}

/// A successful scan moves forward and stays inside the text.
pub proof fn lemma_number_end_bounds(s: Seq<char>, i: int)
    requires
        0 <= i <= s.len(),
        number_end(s, i) != -1,
    ensures
        i < number_end(s, i) <= s.len(),
{
    let a = if i < s.len() && s[i] == '-' { i + 1 } else { i };
    assert(a < s.len() && is_digit(s[a]));
    let b = if s[a] == '0' { a + 1 } else { skip_digits(s, a) };
    lemma_skip_digits(s, a);
    assert(a < b <= s.len());
    let c = frac_end(s, b);
    if b < s.len() && s[b] == '.' {
        if b + 1 < s.len() && is_digit(s[b + 1]) {
            lemma_skip_digits(s, b + 1);
        }
    }
    assert(b <= c <= s.len());
    if c < s.len() && (s[c] == 'e' || s[c] == 'E') {
        let d = if c + 1 < s.len() && (s[c + 1] == '+' || s[c + 1] == '-') { c + 2 } else { c + 1 };
        if d < s.len() && is_digit(s[d]) {
            lemma_skip_digits(s, d);
        }
    }
}


/// `skip_digits` is the only index with digits before it and none at
/// it.
pub proof fn lemma_skip_digits_eq(s: Seq<char>, a: int, r: int)
    requires
        0 <= a <= r <= s.len(),
        forall|k: int| a <= k < r ==> is_digit(#[trigger] s[k]),
        r == s.len() || !is_digit(s[r]),
    ensures
        skip_digits(s, a) == r,
{
    lemma_skip_digits(s, a);
    let r2 = skip_digits(s, a);
    if r2 < r {
        assert(is_digit(s[r2]));
        assert(false);
    }
    if r2 > r {
        assert(is_digit(s[r]));
        assert(false);
    }
}

/// A digit scan that stays inside the window `[i, e)` gives the same
/// answer on the window alone.
pub proof fn lemma_skip_digits_sub(s: Seq<char>, i: int, e: int, a: int)
    requires
        0 <= i <= a <= e <= s.len(),
        skip_digits(s, a) <= e,
    ensures
        skip_digits(s.subrange(i, e), a - i) == skip_digits(s, a) - i,
{
    let t = s.subrange(i, e);
    let b = skip_digits(s, a);
    lemma_skip_digits(s, a);
    assert forall|k: int| a - i <= k < b - i implies is_digit(#[trigger] t[k]) by {
        assert(t[k] == s[i + k]);
    }
    if b - i < t.len() {
        assert(t[b - i] == s[b]);
    }
    lemma_skip_digits_eq(t, a - i, b - i);
}

/// A digit scan on the window `[i, e)` extends to the whole text when
/// the character after the window (if the scan reaches it) is no
/// digit.
pub proof fn lemma_skip_digits_super(s: Seq<char>, i: int, e: int, a: int)
    requires
        0 <= i <= a <= e <= s.len(),
        skip_digits(s.subrange(i, e), a - i) == e - i ==> (e == s.len() || !is_digit(s[e])),
    ensures
        skip_digits(s, a) == i + skip_digits(s.subrange(i, e), a - i),
{
    let t = s.subrange(i, e);
    let bt = skip_digits(t, a - i);
    lemma_skip_digits(t, a - i);
    assert forall|k: int| a <= k < i + bt implies is_digit(#[trigger] s[k]) by {
        assert(t[k - i] == s[k]);
        assert(is_digit(t[k - i]));
    }
    if i + bt < e {
        assert(t[bt] == s[i + bt]);
        lemma_skip_digits_eq(s, a, i + bt);
    } else {
        lemma_skip_digits_eq(s, a, i + bt);
    }
}

/// A scanned literal, taken out of its context, is a whole number
/// literal by itself.
pub proof fn lemma_number_extract(s: Seq<char>, i: int)
    requires
        0 <= i <= s.len(),
        number_end(s, i) != -1,
    ensures
        is_number_lit(s.subrange(i, number_end(s, i))),
{
    let e = number_end(s, i);
    lemma_number_end_bounds(s, i);
    let t = s.subrange(i, e);
    let a = if i < s.len() && s[i] == '-' { i + 1 } else { i };
    assert(a < s.len() && is_digit(s[a]));
    let b = if s[a] == '0' { a + 1 } else { skip_digits(s, a) };
    lemma_skip_digits(s, a);
    assert(a < b <= s.len());
    let c = frac_end(s, b);
    assert(c != -1);
    if 0 <= b < s.len() && s[b] == '.' {
        lemma_skip_digits(s, b + 1);
    }
    assert(b <= c <= s.len());
    let d = exp_end(s, c);
    assert(d == e && d != -1);
    if 0 <= c < s.len() && (s[c] == 'e' || s[c] == 'E') {
        let d0 = if c + 1 < s.len() && (s[c + 1] == '+' || s[c + 1] == '-') { c + 2 } else { c + 1 };
        lemma_skip_digits(s, d0);
    }
    assert(c <= e <= s.len());

    // the sign
    assert(t[0] == s[i]);
    let a_t: int = if 0 < t.len() && t[0] == '-' { 1 } else { 0 };
    assert(a_t == a - i);
    // the integer part
    assert(t[a - i] == s[a]);
    assert(a - i < t.len() && is_digit(t[a - i]));
    let b_t = if t[a_t] == '0' { a_t + 1 } else { skip_digits(t, a_t) };
    if s[a] == '0' {
        assert(b_t == b - i);
    } else {
        lemma_skip_digits_sub(s, i, e, a);
        assert(b_t == b - i);
    }
    // the fraction
    let c_t = frac_end(t, b_t);
    if 0 <= b < s.len() && s[b] == '.' {
        assert(b + 1 < s.len() && is_digit(s[b + 1]));
        assert(c == skip_digits(s, b + 1));
        assert(c >= b + 2);
        assert(t[b - i] == s[b]);
        assert(t[b + 1 - i] == s[b + 1]);
        lemma_skip_digits_sub(s, i, e, b + 1);
        assert(c_t == c - i);
    } else {
        if b - i < t.len() {
            assert(t[b - i] == s[b]);
        }
        assert(c_t == b - i);
        assert(c_t == c - i);
    }
    // the exponent
    let d_t = exp_end(t, c_t);
    if 0 <= c < s.len() && (s[c] == 'e' || s[c] == 'E') {
        assert(t[c - i] == s[c]);
        let d0 = if c + 1 < s.len() && (s[c + 1] == '+' || s[c + 1] == '-') { c + 2 } else { c + 1 };
        assert(d0 < s.len() && is_digit(s[d0]));
        assert(d == skip_digits(s, d0));
        assert(d >= d0 + 1);
        assert(t[d0 - i] == s[d0]);
        if c + 1 < s.len() && (s[c + 1] == '+' || s[c + 1] == '-') {
            assert(t[c + 1 - i] == s[c + 1]);
            assert(d0 - i == (c - i) + 2);
        } else {
            if c + 1 - i < t.len() {
                assert(t[c + 1 - i] == s[c + 1]);
            }
            assert(d0 - i == (c - i) + 1);
        }
        lemma_skip_digits_sub(s, i, e, d0);
        assert(d_t == d - i);
    } else {
        if c - i < t.len() {
            assert(t[c - i] == s[c]);
        }
        assert(d_t == c - i);
        assert(d_t == d - i);
    }
    assert(number_end(t, 0) == d_t);
    assert(d_t == t.len());
}

/// A number literal placed at `i`, with no continuation character
/// after it, scans to exactly its own length.
pub proof fn lemma_number_embed(s: Seq<char>, t: Seq<char>, i: int)
    requires
        0 <= i,
        i + t.len() <= s.len(),
        s.subrange(i, i + t.len()) == t,
        is_number_lit(t),
        i + t.len() < s.len() ==> !num_cont(s[i + t.len()]),
    ensures
        number_end(s, i) == i + t.len(),
{
    let e = i + t.len();
    let bn = e;
    assert(number_end(t, 0) == t.len());
    // the sign
    assert(s[i] == t[0]);
    let a_t: int = if 0 < t.len() && t[0] == '-' { 1 } else { 0 };
    let a = if i < s.len() && s[i] == '-' { i + 1 } else { i };
    assert(a == i + a_t);
    // the integer part
    assert(a_t < t.len() && is_digit(t[a_t]));
    assert(s[a] == t[a_t]);
    assert(a < s.len() && is_digit(s[a]));
    let b_t = if t[a_t] == '0' { a_t + 1 } else { skip_digits(t, a_t) };
    lemma_skip_digits(t, a_t);
    assert(a_t < b_t <= t.len());
    let c_t = frac_end(t, b_t);
    assert(c_t != -1);
    if 0 <= b_t < t.len() && t[b_t] == '.' {
        lemma_skip_digits(t, b_t + 1);
    }
    assert(b_t <= c_t <= t.len());
    let d_t = exp_end(t, c_t);
    assert(d_t == t.len());
    if 0 <= c_t < t.len() && (t[c_t] == 'e' || t[c_t] == 'E') {
        let d0t = if c_t + 1 < t.len() && (t[c_t + 1] == '+' || t[c_t + 1] == '-') {
            c_t + 2
        } else {
            c_t + 1
        };
        lemma_skip_digits(t, d0t);
    }
    assert(c_t <= t.len());

    let b = if s[a] == '0' { a + 1 } else { skip_digits(s, a) };
    if t[a_t] == '0' {
        assert(b == i + b_t);
    } else {
        lemma_skip_digits_super(s, i, e, a);
        assert(b == i + b_t);
    }
    // the fraction
    let c = frac_end(s, b);
    if 0 <= b_t < t.len() && t[b_t] == '.' {
        assert(s[b] == t[b_t]);
        assert(b_t + 1 < t.len() && is_digit(t[b_t + 1]));
        assert(s[b + 1] == t[b_t + 1]);
        assert(c_t == skip_digits(t, b_t + 1));
        lemma_skip_digits_super(s, i, e, b + 1);
        assert(c == i + c_t);
    } else {
        if b < e {
            assert(s[b] == t[b_t]);
            assert(s[b] != '.');
        } else {
            assert(b == bn);
            if bn < s.len() {
                assert(!num_cont(s[bn]));
                assert(s[bn] != '.');
            }
        }
        assert(c == b);
        assert(c == i + c_t);
    }
    // the exponent
    let d = exp_end(s, c);
    if 0 <= c_t < t.len() && (t[c_t] == 'e' || t[c_t] == 'E') {
        assert(s[c] == t[c_t]);
        let d0t = if c_t + 1 < t.len() && (t[c_t + 1] == '+' || t[c_t + 1] == '-') {
            c_t + 2
        } else {
            c_t + 1
        };
        assert(d0t < t.len() && is_digit(t[d0t]));
        assert(d_t == skip_digits(t, d0t));
        let d0 = if c + 1 < s.len() && (s[c + 1] == '+' || s[c + 1] == '-') { c + 2 } else { c + 1 };
        if c_t + 1 < t.len() && (t[c_t + 1] == '+' || t[c_t + 1] == '-') {
            assert(s[c + 1] == t[c_t + 1]);
            assert(d0 == i + d0t);
        } else {
            assert(c_t + 1 < t.len());
            assert(s[c + 1] == t[c_t + 1]);
            assert(d0 == i + d0t);
        }
        assert(s[d0] == t[d0t]);
        lemma_skip_digits_super(s, i, e, d0);
        assert(d == i + d_t);
    } else {
        if c < e {
            assert(s[c] == t[c_t]);
            assert(!(s[c] == 'e' || s[c] == 'E'));
        } else {
            assert(c == bn);
            if bn < s.len() {
                assert(!num_cont(s[bn]));
            }
        }
        assert(d == c);
        assert(d == i + d_t);
    }
    assert(number_end(s, i) == d);
}
} // verus!

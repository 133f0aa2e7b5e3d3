//! Parsing of JSON text into a value tree.
//!
//! The grammar is specified by total spec functions over character
//! sequences (`sp_value`, `sp_string`, `sp_elems`, `sp_members`,
//! `sp_doc`); the executable parser returns exactly what they denote.
//! Malformed text — an unterminated string, an invalid number or
//! escape, an unexpected token, trailing data, a duplicated object
//! key — denotes `None` and parses to an error.

use vstd::prelude::*;
use crate::numscan::{is_digit, is_hex, is_ws, hex_val, number_end, skip_ws};
use crate::value::{has_key, Json, Member, Value};

verus! {

/// The code point written by the four hexadecimal digits at `i`.
pub open spec fn hex4(s: Seq<char>, i: int) -> int {
    hex_val(s[i]) * 0x1000 + hex_val(s[i + 1]) * 0x100 + hex_val(s[i + 2]) * 0x10 + hex_val(
        s[i + 3],
    )
}

/// Whether four hexadecimal digits stand at `i`.
pub open spec fn hex4_at(s: Seq<char>, i: int) -> bool {
    &&& i + 4 <= s.len()
    &&& is_hex(s[i])
    &&& is_hex(s[i + 1])
    &&& is_hex(s[i + 2])
    &&& is_hex(s[i + 3])
}

/// The character a simple escape letter stands for, if any.
pub open spec fn simple_escape(e: char) -> Option<char> {
    if e == '"' {
        Some('"')
    } else if e == '\\' {
        Some('\\')
    } else if e == '/' {
        Some('/')
    } else if e == 'n' {
        Some('\n')
    } else if e == 't' {
        Some('\t')
    } else if e == 'r' {
        Some('\r')
    } else if e == 'b' {
        Some('\u{8}')
    } else if e == 'f' {
        Some('\u{c}')
    } else {
        None
    }
}

/// Parses string contents starting just after the opening quote;
/// yields the decoded characters and the position after the closing
/// quote.
pub open spec fn sp_string(s: Seq<char>, i: int) -> Option<(Seq<char>, int)>
    decreases s.len() - i, 0int,
{
    if !(0 <= i < s.len()) {
        None
    } else {
        let c = s[i];
        if c == '"' {
            Some((Seq::empty(), i + 1))
        } else if c == '\\' {
            if i + 2 > s.len() {
                None
            } else {
                let e = s[i + 1];
                if e == 'u' {
                    if hex4_at(s, i + 2) {
                        let h = hex4(s, i + 2);
                        if 0xD800 <= h < 0xDC00 {
                            if i + 12 <= s.len() && s[i + 6] == '\\' && s[i + 7] == 'u' && hex4_at(
                                s,
                                i + 8,
                            ) {
                                let l = hex4(s, i + 8);
                                if 0xDC00 <= l < 0xE000 {
                                    let code = 0x10000 + (h - 0xD800) * 0x400 + (l - 0xDC00);
                                    match sp_string(s, i + 12) {
                                        Some((rest, j)) => Some(
                                            (seq![((code as u32) as char)] + rest, j),
                                        ),
                                        None => None,
                                    }
                                } else {
                                    None
                                }
                            } else {
                                None
                            }
                        } else if 0xDC00 <= h < 0xE000 {
                            None
                        } else {
                            match sp_string(s, i + 6) {
                                Some((rest, j)) => Some((seq![((h as u32) as char)] + rest, j)),
                                None => None,
                            }
                        }
                    } else {
                        None
                    }
                } else {
                    match simple_escape(e) {
                        Some(d) => match sp_string(s, i + 2) {
                            Some((rest, j)) => Some((seq![d] + rest, j)),
                            None => None,
                        },
                        None => None,
                    }
                }
            }
        } else if (c as u32) < 0x20 {
            None
        } else {
            match sp_string(s, i + 1) {
                Some((rest, j)) => Some((seq![c] + rest, j)),
                None => None,
            }
        }
    }
}

/// Parses one value starting exactly at `i` (no leading whitespace);
/// yields the model and the position just after the value.
pub open spec fn sp_value(s: Seq<char>, i: int) -> Option<(Json, int)>
    decreases s.len() - i, 1int,
{
    if !(0 <= i < s.len()) {
        None
    } else {
        let c = s[i];
        if c == 'n' {
            if i + 4 <= s.len() && s[i + 1] == 'u' && s[i + 2] == 'l' && s[i + 3] == 'l' {
                Some((Json::Null, i + 4))
            } else {
                None
            }
        } else if c == 't' {
            if i + 4 <= s.len() && s[i + 1] == 'r' && s[i + 2] == 'u' && s[i + 3] == 'e' {
                Some((Json::Bool(true), i + 4))
            } else {
                None
            }
        } else if c == 'f' {
            if i + 5 <= s.len() && s[i + 1] == 'a' && s[i + 2] == 'l' && s[i + 3] == 's' && s[i + 4]
                == 'e' {
                Some((Json::Bool(false), i + 5))
            } else {
                None
            }
        } else if c == '"' {
            match sp_string(s, i + 1) {
                Some((cs, j)) => Some((Json::Str(cs), j)),
                None => None,
            }
        } else if c == '[' {
            let k = skip_ws(s, i + 1);
            if k < s.len() && s[k] == ']' {
                Some((Json::Arr(Seq::empty()), k + 1))
            } else if i < k <= s.len() {
                match sp_elems(s, k) {
                    Some((items, j)) => Some((Json::Arr(items), j)),
                    None => None,
                }
            } else {
                None
            }
        } else if c == '{' {
            let k = skip_ws(s, i + 1);
            if k < s.len() && s[k] == '}' {
                Some((Json::Obj(Seq::empty()), k + 1))
            } else if i < k <= s.len() {
                match sp_members(s, k) {
                    Some((ms, j)) => Some((Json::Obj(ms), j)),
                    None => None,
                }
            } else {
                None
            }
        } else if c == '-' || is_digit(c) {
            let e = number_end(s, i);
            if e == -1 {
                None
            } else {
                Some((Json::Num(s.subrange(i, e)), e))
            }
        } else {
            None
        }
    }
}

/// Parses `value ws (',' ws value ws)* ']'` starting at the first
/// value; yields the elements and the position after the `]`.
pub open spec fn sp_elems(s: Seq<char>, i: int) -> Option<(Seq<Json>, int)>
    decreases s.len() - i, 2int,
{
    match sp_value(s, i) {
        None => None,
        Some((j1, p)) => if !(i < p <= s.len()) {
            None
        } else {
            let q = skip_ws(s, p);
            if q < s.len() && s[q] == ']' {
                Some((seq![j1], q + 1))
            } else if q < s.len() && s[q] == ',' {
                let r = skip_ws(s, q + 1);
                if i < r <= s.len() {
                    match sp_elems(s, r) {
                        Some((rest, e)) => Some((seq![j1] + rest, e)),
                        None => None,
                    }
                } else {
                    None
                }
            } else {
                None
            }
        },
    }
}

/// Parses `'"' key '"' ws ':' ws value ws (',' ws ...)* '}'` starting
/// at the quote of the first key; yields the members and the position
/// after the `}`.  A key that reappears later makes the object
/// malformed.
pub open spec fn sp_members(s: Seq<char>, i: int) -> Option<(Seq<(Seq<char>, Json)>, int)>
    decreases s.len() - i, 2int,
{
    if !(0 <= i < s.len() && s[i] == '"') {
        None
    } else {
        match sp_string(s, i + 1) {
            None => None,
            Some((k, p)) => if !(i < p <= s.len()) {
                None
            } else {
                let q = skip_ws(s, p);
                if q < s.len() && s[q] == ':' {
                    let w = skip_ws(s, q + 1);
                    if i < w <= s.len() {
                        match sp_value(s, w) {
                            None => None,
                            Some((v1, p2)) => if !(w < p2 <= s.len()) {
                                None
                            } else {
                                let q2 = skip_ws(s, p2);
                                if q2 < s.len() && s[q2] == '}' {
                                    Some((seq![(k, v1)], q2 + 1))
                                } else if q2 < s.len() && s[q2] == ',' {
                                    let r = skip_ws(s, q2 + 1);
                                    if i < r <= s.len() {
                                        match sp_members(s, r) {
                                            None => None,
                                            Some((rest, e)) => if has_key(rest, k) {
                                                None
                                            } else {
                                                Some((seq![(k, v1)] + rest, e))
                                            },
                                        }
                                    } else {
                                        None
                                    }
                                } else {
                                    None
                                }
                            },
                        }
                    } else {
                        None
                    }
                } else {
                    None
                }
            },
        }
    }
}

/// Parses a whole document: one value, surrounded by whitespace,
/// spanning the entire text.
pub open spec fn sp_doc(s: Seq<char>) -> Option<Json> {
    let i = skip_ws(s, 0);
    match sp_value(s, i) {
        None => None,
        Some((j, p)) => if 0 <= p <= s.len() && skip_ws(s, p) == s.len() {
            Some(j)
        } else {
            None
        },
    }
}

/// A successful string parse moves past at least the closing quote.
pub proof fn lemma_sp_string_progress(s: Seq<char>, i: int)
    ensures
        sp_string(s, i) matches Some((cs, j)) ==> i < j <= s.len(),
    decreases s.len() - i, 0int,
{
    if 0 <= i < s.len() {
        lemma_sp_string_progress(s, i + 1);
        if i + 2 <= s.len() {
            lemma_sp_string_progress(s, i + 2);
        }
        if i + 6 <= s.len() {
            lemma_sp_string_progress(s, i + 6);
        }
        if i + 12 <= s.len() {
            lemma_sp_string_progress(s, i + 12);
        }
    }
}

/// A successful value parse moves forward and stays inside the text.
pub proof fn lemma_sp_value_progress(s: Seq<char>, i: int)
    ensures
        sp_value(s, i) matches Some((j, p)) ==> i < p <= s.len(),
    decreases s.len() - i, 1int,
{
    if 0 <= i < s.len() {
        let c = s[i];
        if c == '"' {
            lemma_sp_string_progress(s, i + 1);
        } else if c == '[' {
            crate::numscan::lemma_skip_ws(s, i + 1);
            let k = skip_ws(s, i + 1);
            if !(k < s.len() && s[k] == ']') && i < k <= s.len() {
                lemma_sp_elems_progress(s, k);
            }
        } else if c == '{' {
            crate::numscan::lemma_skip_ws(s, i + 1);
            let k = skip_ws(s, i + 1);
            if !(k < s.len() && s[k] == '}') && i < k <= s.len() {
                lemma_sp_members_progress(s, k);
            }
        } else if c == '-' || is_digit(c) {
            if number_end(s, i) != -1 {
                crate::numscan::lemma_number_end_bounds(s, i);
            }
        }
    }
}

/// A successful element-list parse moves forward and stays inside.
pub proof fn lemma_sp_elems_progress(s: Seq<char>, i: int)
    ensures
        sp_elems(s, i) matches Some((items, e)) ==> i < e <= s.len(),
    decreases s.len() - i, 2int,
{
    lemma_sp_value_progress(s, i);
    match sp_value(s, i) {
        None => {},
        Some((j1, p)) => {
            if i < p <= s.len() {
                crate::numscan::lemma_skip_ws(s, p);
                let q = skip_ws(s, p);
                if q < s.len() && s[q] == ']' {
                } else if q < s.len() && s[q] == ',' {
                    crate::numscan::lemma_skip_ws(s, q + 1);
                    let r = skip_ws(s, q + 1);
                    if i < r <= s.len() {
                        lemma_sp_elems_progress(s, r);
                    }
                }
            }
        },
    }
}

/// A successful member-list parse moves forward and stays inside.
pub proof fn lemma_sp_members_progress(s: Seq<char>, i: int)
    ensures
        sp_members(s, i) matches Some((ms, e)) ==> i < e <= s.len(),
    decreases s.len() - i, 2int,
{
    if 0 <= i < s.len() && s[i] == '"' {
        lemma_sp_string_progress(s, i + 1);
        match sp_string(s, i + 1) {
            None => {},
            Some((k, p)) => {
                if i < p <= s.len() {
                    crate::numscan::lemma_skip_ws(s, p);
                    let q = skip_ws(s, p);
                    if q < s.len() && s[q] == ':' {
                        crate::numscan::lemma_skip_ws(s, q + 1);
                        let w = skip_ws(s, q + 1);
                        if i < w <= s.len() {
                            lemma_sp_value_progress(s, w);
                            match sp_value(s, w) {
                                None => {},
                                Some((v1, p2)) => {
                                    if w < p2 <= s.len() {
                                        crate::numscan::lemma_skip_ws(s, p2);
                                        let q2 = skip_ws(s, p2);
                                        if q2 < s.len() && s[q2] == '}' {
                                        } else if q2 < s.len() && s[q2] == ',' {
                                            crate::numscan::lemma_skip_ws(s, q2 + 1);
                                            let r = skip_ws(s, q2 + 1);
                                            if i < r <= s.len() {
                                                lemma_sp_members_progress(s, r);
                                            }
                                        }
                                    }
                                },
                            }
                        }
                    }
                }
            },
        }
    }
}


/// Document text is not valid JSON.
#[derive(Clone, Copy, Debug, PartialEq, Eq, Structural)]
pub struct ParseError;

fn ws_char(c: char) -> (r: bool)
    ensures
        r == is_ws(c),
{
    c == ' ' || c == '\t' || c == '\n' || c == '\r'
}

fn digit_char(c: char) -> (r: bool)
    ensures
        r == is_digit(c),
{
    '0' <= c && c <= '9'
}

fn hex_char_class(c: char) -> (r: bool)
    ensures
        r == is_hex(c),
{
    ('0' <= c && c <= '9') || ('a' <= c && c <= 'f') || ('A' <= c && c <= 'F')
}

fn hex_value(c: char) -> (r: u32)
    requires
        is_hex(c),
    ensures
        r as int == hex_val(c),
        r < 16,
{
    let u = c as u32;
    if 48 <= u && u <= 57 {
        u - 48
    } else if 97 <= u && u <= 102 {
        u - 97 + 10
    } else {
        u - 65 + 10
    }
}

/// First position at or after `i` that holds no whitespace.
#[verifier::loop_isolation(true)]
fn e_skip_ws(cs: &Vec<char>, i: usize) -> (r: usize)
    requires
        i <= cs.len(),
    ensures
        r as int == skip_ws(cs@, i as int),
        i <= r <= cs.len(),
{
    let mut j: usize = i;
    loop
        invariant_except_break
            i <= j <= cs.len(),
            skip_ws(cs@, i as int) == skip_ws(cs@, j as int),
        ensures
            i <= j <= cs.len(),
            skip_ws(cs@, i as int) == j as int,
        decreases cs.len() - j,
    {
        if j == cs.len() {
            break;
        }
        if !ws_char(cs[j]) {
            break;
        }
        j = j + 1;
    }
    j
}

/// First position at or after `i` that holds no decimal digit.
#[verifier::loop_isolation(true)]
fn e_skip_digits(cs: &Vec<char>, i: usize) -> (r: usize)
    requires
        i <= cs.len(),
    ensures
        r as int == crate::numscan::skip_digits(cs@, i as int),
        i <= r <= cs.len(),
{
    let mut j: usize = i;
    loop
        invariant_except_break
            i <= j <= cs.len(),
            crate::numscan::skip_digits(cs@, i as int) == crate::numscan::skip_digits(
                cs@,
                j as int,
            ),
        ensures
            i <= j <= cs.len(),
            crate::numscan::skip_digits(cs@, i as int) == j as int,
        decreases cs.len() - j,
    {
        if j == cs.len() {
            break;
        }
        if !digit_char(cs[j]) {
            break;
        }
        j = j + 1;
    }
    j
}

/// Scans the number literal that starts at `i`, mirroring
/// `number_end`.
fn e_number_end(cs: &Vec<char>, i: usize) -> (r: Option<usize>)
    requires
        i <= cs.len(),
    ensures
        r matches Some(e) ==> number_end(cs@, i as int) == e as int && i < e <= cs.len(),
        r is None ==> number_end(cs@, i as int) == -1,
{
    let a: usize = if i < cs.len() && cs[i] == '-' {
        i + 1
    } else {
        i
    };
    if !(a < cs.len() && digit_char(cs[a])) {
        return None;
    }
    let b: usize = if cs[a] == '0' {
        a + 1
    } else {
        e_skip_digits(cs, a)
    };
    let c_pos: usize = if b < cs.len() && cs[b] == '.' {
        if b + 1 < cs.len() && digit_char(cs[b + 1]) {
            e_skip_digits(cs, b + 1)
        } else {
            return None;
        }
    } else {
        b
    };
    assert(crate::numscan::frac_end(cs@, b as int) == c_pos as int);
    let d: usize = if c_pos < cs.len() && (cs[c_pos] == 'e' || cs[c_pos] == 'E') {
        let d0: usize = if c_pos + 1 < cs.len() && (cs[c_pos + 1] == '+' || cs[c_pos + 1] == '-') {
            c_pos + 2
        } else {
            c_pos + 1
        };
        if d0 < cs.len() && digit_char(cs[d0]) {
            e_skip_digits(cs, d0)
        } else {
            return None;
        }
    } else {
        c_pos
    };
    assert(crate::numscan::exp_end(cs@, c_pos as int) == d as int);
    assert(number_end(cs@, i as int) == d as int);
    proof {
        crate::numscan::lemma_number_end_bounds(cs@, i as int);
    }
    Some(d)
}

/// Parses string contents after the opening quote, mirroring
/// `sp_string`.
#[verifier::rlimit(60)]
fn p_string(cs: &Vec<char>, i: usize) -> (r: Option<(Vec<char>, usize)>)
    requires
        i <= cs.len(),
    ensures
        r matches Some(pr) ==> sp_string(cs@, i as int) == Some((pr.0@, pr.1 as int)) && i < pr.1
            <= cs.len(),
        r is None ==> sp_string(cs@, i as int) is None,
    decreases cs.len() - i, 0int,
{
    if i == cs.len() {
        return None;
    }
    let c = cs[i];
    if c == '"' {
        let content: Vec<char> = Vec::new();
        assert(content@ =~= Seq::<char>::empty());
        return Some((content, i + 1));
    }
    if c == '\\' {
        if cs.len() - i < 2 {
            return None;
        }
        let e = cs[i + 1];
        if e == 'u' {
            if cs.len() - i < 6 {
                return None;
            }
            if !(hex_char_class(cs[i + 2]) && hex_char_class(cs[i + 3]) && hex_char_class(
                cs[i + 4],
            ) && hex_char_class(cs[i + 5])) {
                return None;
            }
            assert(hex4_at(cs@, i as int + 2));
            let h: u32 = hex_value(cs[i + 2]) * 0x1000 + hex_value(cs[i + 3]) * 0x100 + hex_value(
                cs[i + 4],
            ) * 0x10 + hex_value(cs[i + 5]);
            assert(h as int == hex4(cs@, i as int + 2));
            if 0xD800 <= h && h < 0xDC00 {
                if !(cs.len() - i >= 12 && cs[i + 6] == '\\' && cs[i + 7] == 'u') {
                    return None;
                }
                if !(hex_char_class(cs[i + 8]) && hex_char_class(cs[i + 9]) && hex_char_class(
                    cs[i + 10],
                ) && hex_char_class(cs[i + 11])) {
                    return None;
                }
                assert(hex4_at(cs@, i as int + 8));
                let l: u32 = hex_value(cs[i + 8]) * 0x1000 + hex_value(cs[i + 9]) * 0x100
                    + hex_value(cs[i + 10]) * 0x10 + hex_value(cs[i + 11]);
                assert(l as int == hex4(cs@, i as int + 8));
                if !(0xDC00 <= l && l < 0xE000) {
                    return None;
                }
                let code: u32 = 0x10000 + (h - 0xD800) * 0x400 + (l - 0xDC00);
                let ch: char = match char::from_u32(code) {
                    Some(ch) => ch,
                    None => {
                        assert(false);
                        return None;
                    },
                };
                proof {
                    vstd::utf8::char_u32_cast(ch, code);
                }
                match p_string(cs, i + 12) {
                    Some((mut rest, j)) => {
                        let ghost old_rest = rest@;
                        rest.insert(0, ch);
                        assert(rest@ =~= seq![ch] + old_rest);
                        Some((rest, j))
                    },
                    None => None,
                }
            } else if 0xDC00 <= h && h < 0xE000 {
                None
            } else {
                let ch: char = match char::from_u32(h) {
                    Some(ch) => ch,
                    None => {
                        assert(false);
                        return None;
                    },
                };
                proof {
                    vstd::utf8::char_u32_cast(ch, h);
                }
                match p_string(cs, i + 6) {
                    Some((mut rest, j)) => {
                        let ghost old_rest = rest@;
                        rest.insert(0, ch);
                        assert(rest@ =~= seq![ch] + old_rest);
                        Some((rest, j))
                    },
                    None => None,
                }
            }
        } else {
            let d_opt: Option<char> = if e == '"' {
                Some('"')
            } else if e == '\\' {
                Some('\\')
            } else if e == '/' {
                Some('/')
            } else if e == 'n' {
                Some('\n')
            } else if e == 't' {
                Some('\t')
            } else if e == 'r' {
                Some('\r')
            } else if e == 'b' {
                Some('\u{8}')
            } else if e == 'f' {
                Some('\u{c}')
            } else {
                None
            };
            assert(d_opt == simple_escape(e));
            match d_opt {
                Some(d) => match p_string(cs, i + 2) {
                    Some((mut rest, j)) => {
                        let ghost old_rest = rest@;
                        rest.insert(0, d);
                        assert(rest@ =~= seq![d] + old_rest);
                        Some((rest, j))
                    },
                    None => None,
                },
                None => None,
            }
        }
    } else if (c as u32) < 0x20 {
        None
    } else {
        match p_string(cs, i + 1) {
            Some((mut rest, j)) => {
                let ghost old_rest = rest@;
                rest.insert(0, c);
                assert(rest@ =~= seq![c] + old_rest);
                Some((rest, j))
            },
            None => None,
        }
    }
}

/// Parses one value starting at `i`, mirroring `sp_value`.
fn p_value(cs: &Vec<char>, i: usize) -> (r: Option<(Value, usize)>)
    requires
        i <= cs.len(),
    ensures
        r matches Some(pr) ==> sp_value(cs@, i as int) == Some((pr.0@, pr.1 as int)) && i < pr.1
            <= cs.len(),
        r is None ==> sp_value(cs@, i as int) is None,
    decreases cs.len() - i, 1int,
{
    if i == cs.len() {
        return None;
    }
    let c = cs[i];
    if c == 'n' {
        if cs.len() - i >= 4 && cs[i + 1] == 'u' && cs[i + 2] == 'l' && cs[i + 3] == 'l' {
            Some((Value::Null, i + 4))
        } else {
            None
        }
    } else if c == 't' {
        if cs.len() - i >= 4 && cs[i + 1] == 'r' && cs[i + 2] == 'u' && cs[i + 3] == 'e' {
            Some((Value::Bool(true), i + 4))
        } else {
            None
        }
    } else if c == 'f' {
        if cs.len() - i >= 5 && cs[i + 1] == 'a' && cs[i + 2] == 'l' && cs[i + 3] == 's' && cs[i
            + 4] == 'e' {
            Some((Value::Bool(false), i + 5))
        } else {
            None
        }
    } else if c == '"' {
        match p_string(cs, i + 1) {
            Some((content, j)) => {
                let t = crate::textutil::chars_to_string(&content);
                Some((Value::Str(t), j))
            },
            None => None,
        }
    } else if c == '[' {
        let k = e_skip_ws(cs, i + 1);
        if k < cs.len() && cs[k] == ']' {
            let items: Vec<Value> = Vec::new();
            assert(crate::value::json_of_seq(items@) =~= Seq::<Json>::empty());
            Some((Value::Arr(items), k + 1))
        } else {
            match p_elems(cs, k) {
                Some((items, j)) => Some((Value::Arr(items), j)),
                None => None,
            }
        }
    } else if c == '{' {
        let k = e_skip_ws(cs, i + 1);
        if k < cs.len() && cs[k] == '}' {
            let members: Vec<Member> = Vec::new();
            assert(crate::value::json_of_members(members@) =~= Seq::<(Seq<char>, Json)>::empty());
            Some((Value::Obj(members), k + 1))
        } else {
            match p_members(cs, k) {
                Some((members, j)) => Some((Value::Obj(members), j)),
                None => None,
            }
        }
    } else if c == '-' || digit_char(c) {
        match e_number_end(cs, i) {
            Some(e) => {
                let mut t: Vec<char> = Vec::new();
                let mut k0: usize = i;
                while k0 < e
                    invariant
                        i <= k0 <= e <= cs.len(),
                        t@ == cs@.subrange(i as int, k0 as int),
                    decreases e - k0,
                {
                    t.push(cs[k0]);
                    k0 = k0 + 1;
                    assert(t@ =~= cs@.subrange(i as int, k0 as int));
                }
                let txt = crate::textutil::chars_to_string(&t);
                Some((Value::Num(txt), e))
            },
            None => None,
        }
    } else {
        None
    }
}

/// Parses the element list of a non-empty array, mirroring
/// `sp_elems`.
fn p_elems(cs: &Vec<char>, i: usize) -> (r: Option<(Vec<Value>, usize)>)
    requires
        i <= cs.len(),
    ensures
        r matches Some(pr) ==> sp_elems(cs@, i as int) == Some(
            (crate::value::json_of_seq(pr.0@), pr.1 as int),
        ) && i < pr.1 <= cs.len(),
        r is None ==> sp_elems(cs@, i as int) is None,
    decreases cs.len() - i, 2int,
{
    match p_value(cs, i) {
        None => None,
        Some((v1, p)) => {
            let q = e_skip_ws(cs, p);
            if q < cs.len() && cs[q] == ']' {
                let mut items: Vec<Value> = Vec::new();
                items.push(v1);
                proof {
                    assert(items@.len() == 1);
                    assert(items@[0] == v1);
                    assert(items@.drop_first() =~= Seq::<Value>::empty());
                    assert(crate::value::json_of_seq(items@) == seq![crate::value::json_of(v1)]
                        + crate::value::json_of_seq(items@.drop_first()));
                    assert(crate::value::json_of_seq(items@) =~= seq![crate::value::json_of(v1)]);
                }
                Some((items, q + 1))
            } else if q < cs.len() && cs[q] == ',' {
                let r2 = e_skip_ws(cs, q + 1);
                match p_elems(cs, r2) {
                    Some((mut rest, e)) => {
                        let ghost old_rest = rest@;
                        rest.insert(0, v1);
                        proof {
                            assert(rest@.len() == old_rest.len() + 1);
                            assert(rest@[0] == v1);
                            assert(rest@.drop_first() =~= old_rest);
                            assert(crate::value::json_of_seq(rest@) == seq![
                                crate::value::json_of(rest@[0]),
                            ] + crate::value::json_of_seq(rest@.drop_first()));
                            assert(crate::value::json_of_seq(rest@) =~= seq![
                                crate::value::json_of(v1),
                            ] + crate::value::json_of_seq(old_rest));
                        }
                        Some((rest, e))
                    },
                    None => None,
                }
            } else {
                None
            }
        },
    }
}

/// Whether some member of `members` carries `key`.
fn member_key_present(members: &Vec<Member>, key: &String) -> (r: bool)
    ensures
        r == has_key(crate::value::json_of_members(members@), key@),
{
    proof {
        crate::value::lemma_json_of_members(members@);
        crate::value::lemma_find_key(crate::value::json_of_members(members@), key@);
    }
    let mut t: usize = 0;
    while t < members.len()
        invariant
            t <= members.len(),
            forall|u: int| 0 <= u < t ==> members@[u].key@ != key@,
            crate::value::json_of_members(members@).len() == members@.len(),
            forall|u: int|
                0 <= u < members@.len() ==> crate::value::json_of_members(members@)[u] == (
                #[trigger] members@[u].key@,
                crate::value::json_of(members@[u].value),
                ),
        decreases members.len() - t,
    {
        if members[t].key.eq(key) {
            proof {
                crate::value::lemma_find_key(crate::value::json_of_members(members@), key@);
            }
            return true;
        }
        t = t + 1;
    }
    proof {
        let fk = crate::value::find_key(crate::value::json_of_members(members@), key@);
        if fk >= 0 {
            assert(crate::value::json_of_members(members@)[fk].0 == key@);
            assert(members@[fk].key@ == key@);
            assert(false);
        }
    }
    false
}

/// Parses the member list of a non-empty object, mirroring
/// `sp_members`.
fn p_members(cs: &Vec<char>, i: usize) -> (r: Option<(Vec<Member>, usize)>)
    requires
        i <= cs.len(),
    ensures
        r matches Some(pr) ==> sp_members(cs@, i as int) == Some(
            (crate::value::json_of_members(pr.0@), pr.1 as int),
        ) && i < pr.1 <= cs.len(),
        r is None ==> sp_members(cs@, i as int) is None,
    decreases cs.len() - i, 2int,
{
    if !(i < cs.len() && cs[i] == '"') {
        return None;
    }
    match p_string(cs, i + 1) {
        None => None,
        Some((kchars, p)) => {
            let kstr = crate::textutil::chars_to_string(&kchars);
            let q = e_skip_ws(cs, p);
            if q < cs.len() && cs[q] == ':' {
                let w = e_skip_ws(cs, q + 1);
                match p_value(cs, w) {
                    None => None,
                    Some((v1, p2)) => {
                        let q2 = e_skip_ws(cs, p2);
                        if q2 < cs.len() && cs[q2] == '}' {
                            let mut members: Vec<Member> = Vec::new();
                            members.push(Member { key: kstr, value: v1 });
                            proof {
                                assert(members@.len() == 1);
                                assert(members@[0].key@ == kchars@);
                                assert(members@[0].value == v1);
                                assert(members@.drop_first() =~= Seq::<Member>::empty());
                                assert(crate::value::json_of_members(members@) == seq![
                                    (members@[0].key@, crate::value::json_of(members@[0].value)),
                                ] + crate::value::json_of_members(members@.drop_first()));
                                assert(crate::value::json_of_members(members@) =~= seq![
                                    (kchars@, crate::value::json_of(v1)),
                                ]);
                            }
                            Some((members, q2 + 1))
                        } else if q2 < cs.len() && cs[q2] == ',' {
                            let r2 = e_skip_ws(cs, q2 + 1);
                            match p_members(cs, r2) {
                                None => None,
                                Some((mut rest, e)) => {
                                    if member_key_present(&rest, &kstr) {
                                        None
                                    } else {
                                        let ghost old_rest = rest@;
                                        rest.insert(0, Member { key: kstr, value: v1 });
                                        proof {
                                            assert(rest@.len() == old_rest.len() + 1);
                                            assert(rest@[0].key@ == kchars@);
                                            assert(rest@[0].value == v1);
                                            assert(rest@.drop_first() =~= old_rest);
                                            assert(crate::value::json_of_members(rest@) == seq![
                                                (rest@[0].key@, crate::value::json_of(
                                                    rest@[0].value,
                                                )),
                                            ] + crate::value::json_of_members(rest@.drop_first()));
                                            assert(crate::value::json_of_members(rest@) =~= seq![
                                                (kchars@, crate::value::json_of(v1)),
                                            ] + crate::value::json_of_members(old_rest));
                                        }
                                        Some((rest, e))
                                    }
                                },
                            }
                        } else {
                            None
                        }
                    },
                }
            } else {
                None
            }
        },
    }
}

/// Parses JSON text into a value tree; fails on malformed text.
pub fn parse(text: &str) -> (r: Result<Value, ParseError>)
    ensures
        r matches Ok(v) ==> sp_doc(text@) == Some(v@) && crate::value::json_wf(v@),
        r is Err ==> sp_doc(text@) is None,
{
    let cs = crate::textutil::str_chars(text);
    let i = e_skip_ws(&cs, 0);
    proof {
        lemma_sp_value_wf(cs@, i as int);
    }
    match p_value(&cs, i) {
        Some((v, p)) => {
            let j = e_skip_ws(&cs, p);
            if j == cs.len() {
                Ok(v)
            } else {
                Err(ParseError)
            }
        },
        None => Err(ParseError),
    }
}


/// Whatever a value parse yields is well formed: numerals are valid
/// literals, object keys are pairwise distinct.
pub proof fn lemma_sp_value_wf(s: Seq<char>, i: int)
    ensures
        sp_value(s, i) matches Some((j, p)) ==> crate::value::json_wf(j),
    decreases s.len() - i, 1int,
{
    if 0 <= i < s.len() {
        let c = s[i];
        if c == '[' {
            let k = skip_ws(s, i + 1);
            if k < s.len() && s[k] == ']' {
            } else if i < k <= s.len() {
                lemma_sp_elems_wf(s, k);
            }
        } else if c == '{' {
            let k = skip_ws(s, i + 1);
            if k < s.len() && s[k] == '}' {
            } else if i < k <= s.len() {
                lemma_sp_members_wf(s, k);
            }
        } else if c == '-' || is_digit(c) {
            if number_end(s, i) != -1 {
                crate::numscan::lemma_number_extract(s, i);
            }
        }
    }
}

/// Every element an element-list parse yields is well formed.
pub proof fn lemma_sp_elems_wf(s: Seq<char>, i: int)
    ensures
        sp_elems(s, i) matches Some((items, e)) ==> forall|k: int|
            0 <= k < items.len() ==> crate::value::json_wf(#[trigger] items[k]),
    decreases s.len() - i, 2int,
{
    lemma_sp_value_wf(s, i);
    match sp_value(s, i) {
        None => {},
        Some((j1, p)) => {
            if i < p <= s.len() {
                let q = skip_ws(s, p);
                if q < s.len() && s[q] == ']' {
                } else if q < s.len() && s[q] == ',' {
                    let r = skip_ws(s, q + 1);
                    if i < r <= s.len() {
                        lemma_sp_elems_wf(s, r);
                        match sp_elems(s, r) {
                            None => {},
                            Some((rest, e)) => {
                                assert forall|k: int| 0 <= k < (seq![j1] + rest).len() implies crate::value::json_wf(
                                    #[trigger] (seq![j1] + rest)[k],
                                ) by {
                                    if k > 0 {
                                        assert((seq![j1] + rest)[k] == rest[k - 1]);
                                    }
                                }
                            },
                        }
                    }
                }
            }
        },
    }
}

/// A member-list parse yields pairwise-distinct keys and well-formed
/// values.
pub proof fn lemma_sp_members_wf(s: Seq<char>, i: int)
    ensures
        sp_members(s, i) matches Some((ms, e)) ==> crate::value::unique_keys(ms) && forall|k: int|
            0 <= k < ms.len() ==> crate::value::json_wf(#[trigger] ms[k].1),
    decreases s.len() - i, 2int,
{
    if 0 <= i < s.len() && s[i] == '"' {
        match sp_string(s, i + 1) {
            None => {},
            Some((key, p)) => {
                if i < p <= s.len() {
                    let q = skip_ws(s, p);
                    if q < s.len() && s[q] == ':' {
                        let w = skip_ws(s, q + 1);
                        if i < w <= s.len() {
                            lemma_sp_value_wf(s, w);
                            match sp_value(s, w) {
                                None => {},
                                Some((v1, p2)) => {
                                    if w < p2 <= s.len() {
                                        let q2 = skip_ws(s, p2);
                                        if q2 < s.len() && s[q2] == '}' {
                                            let ms = seq![(key, v1)];
                                            assert(crate::value::unique_keys(ms));
                                        } else if q2 < s.len() && s[q2] == ',' {
                                            let r = skip_ws(s, q2 + 1);
                                            if i < r <= s.len() {
                                                lemma_sp_members_wf(s, r);
                                                match sp_members(s, r) {
                                                    None => {},
                                                    Some((rest, e)) => {
                                                        if !has_key(rest, key) {
                                                            lemma_cons_member_wf(key, v1, rest);
                                                        }
                                                    },
                                                }
                                            }
                                        }
                                    }
                                },
                            }
                        }
                    }
                }
            },
        }
    }
}

/// Putting a fresh key in front of a well-formed member list keeps
/// the keys distinct.
proof fn lemma_cons_member_wf(key: Seq<char>, v1: Json, rest: Seq<(Seq<char>, Json)>)
    requires
        !has_key(rest, key),
        crate::value::unique_keys(rest),
        forall|k: int| 0 <= k < rest.len() ==> crate::value::json_wf(#[trigger] rest[k].1),
        crate::value::json_wf(v1),
    ensures
        crate::value::unique_keys(seq![(key, v1)] + rest),
        forall|k: int|
            0 <= k < (seq![(key, v1)] + rest).len() ==> crate::value::json_wf(
                #[trigger] (seq![(key, v1)] + rest)[k].1,
            ),
{
    let ms = seq![(key, v1)] + rest;
    crate::value::lemma_find_key(rest, key);
    assert forall|a: int, b: int| 0 <= a < b < ms.len() implies ms[a].0 != ms[b].0 by {
        if a == 0 {
            assert(ms[b] == rest[b - 1]);
            assert(rest[b - 1].0 != key);
        } else {
            assert(ms[a] == rest[a - 1]);
            assert(ms[b] == rest[b - 1]);
        }
    }
    assert forall|k: int| 0 <= k < ms.len() implies crate::value::json_wf(#[trigger] ms[k].1) by {
        if k > 0 {
            assert(ms[k] == rest[k - 1]);
        }
    }
}
} // verus!

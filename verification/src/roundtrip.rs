//! Proof that parsing inverts serialization: the text `serialize`
//! produces for a well-formed value parses back to exactly that
//! value.

use vstd::prelude::*;
use crate::numscan::{is_digit, is_ws, num_cont, skip_ws};
use crate::parse::{hex4, hex4_at, simple_escape, sp_doc, sp_elems, sp_members, sp_string, sp_value};
use crate::ser::{esc_char, esc_seq, hex_digit, ser_json, ser_items, ser_member, ser_members};
use crate::value::{Json, json_wf, unique_keys};

verus! {

/// The characters of `t` stand in `s` starting at `i`.
pub open spec fn chars_at(s: Seq<char>, i: int, t: Seq<char>) -> bool {
    &&& 0 <= i
    &&& i + t.len() <= s.len()
    &&& s.subrange(i, i + t.len()) == t
}

/// Splitting a placed text in two places both parts.
pub proof fn lemma_chars_at_split(s: Seq<char>, i: int, t1: Seq<char>, t2: Seq<char>)
    requires
        chars_at(s, i, t1 + t2),
    ensures
        chars_at(s, i, t1),
        chars_at(s, i + t1.len(), t2),
        forall|k: int| 0 <= k < t1.len() ==> s[i + k] == t1[k],
        forall|k: int| 0 <= k < t2.len() ==> s[i + t1.len() + k] == t2[k],
        t1.len() > 0 ==> s[i] == t1[0],
        t2.len() > 0 ==> s[i + t1.len()] == t2[0],
{
    let t = t1 + t2;
    assert forall|k: int| 0 <= k < t.len() implies s[i + k] == t[k] by {
        assert(s.subrange(i, i + t.len())[k] == s[i + k]);
    }
    assert forall|k: int| 0 <= k < t1.len() implies s.subrange(i, i + t1.len())[k] == t1[k] by {
        assert(s.subrange(i, i + t1.len())[k] == s[i + k]);
        assert(t[k] == t1[k]);
    }
    assert(s.subrange(i, i + t1.len()) =~= t1);
    assert forall|k: int| 0 <= k < t2.len() implies s.subrange(
        i + t1.len(),
        i + t1.len() + t2.len(),
    )[k] == t2[k] by {
        assert(s.subrange(i + t1.len(), i + t1.len() + t2.len())[k] == s[i + t1.len() + k]);
        assert(t[t1.len() + k] == t2[k]);
        assert(s[i + (t1.len() + k)] == t[t1.len() + k]);
        assert(i + (t1.len() + k) == i + t1.len() + k);
    }
    assert(s.subrange(i + t1.len(), i + t1.len() + t2.len()) =~= t2);
    if t1.len() > 0 {
        assert(s.subrange(i, i + t1.len())[0] == s[i + 0]);
        assert(i + 0 == i);
    }
    if t2.len() > 0 {
        assert(s.subrange(i + t1.len(), i + t1.len() + t2.len())[0] == s[i + t1.len() + 0]);
        assert(i + t1.len() + 0 == i + t1.len());
    }
}

/// Reading one placed text pointwise.
pub proof fn lemma_chars_at_index(s: Seq<char>, i: int, t: Seq<char>)
    requires
        chars_at(s, i, t),
    ensures
        forall|k: int| 0 <= k < t.len() ==> s[i + k] == t[k],
        t.len() > 0 ==> s[i] == t[0],
{
    assert forall|k: int| 0 <= k < t.len() implies s[i + k] == t[k] by {
        assert(s.subrange(i, i + t.len())[k] == s[i + k]);
    }
    if t.len() > 0 {
        assert(s.subrange(i, i + t.len())[0] == s[i + 0]);
        assert(i + 0 == i);
    }
}

/// A serialized value is never empty, starts with no whitespace, and
/// starts with none of the characters that close or separate a
/// container.
pub proof fn lemma_ser_shape(j: Json)
    requires
        json_wf(j),
    ensures
        ser_json(j).len() > 0,
        !is_ws(ser_json(j)[0]),
        ser_json(j)[0] != ']',
        ser_json(j)[0] != '}',
        ser_json(j)[0] != ',',
        ser_json(j)[0] != ':',
{
    match j {
        Json::Null => {
            assert(ser_json(j)[0] == 'n');
        },
        Json::Bool(b) => {
            if b {
                assert(ser_json(j)[0] == 't');
            } else {
                assert(ser_json(j)[0] == 'f');
            }
        },
        Json::Num(t) => {
            assert(t.len() > 0);
            assert(crate::numscan::number_end(t, 0) != -1);
            if !(t[0] == '-') {
                assert(is_digit(t[0]));
            }
        },
        Json::Str(t) => {
            assert(ser_json(j)[0] == '"');
        },
        Json::Arr(items) => {
            assert(ser_json(j)[0] == '[');
        },
        Json::Obj(members) => {
            assert(ser_json(j)[0] == '{');
        },
    }
}

/// The hexadecimal digit characters read back as their values.
pub proof fn lemma_hex_digit_val(n: int)
    requires
        0 <= n < 16,
    ensures
        crate::numscan::is_hex(hex_digit(n)),
        crate::numscan::hex_val(hex_digit(n)) == n,
{
    if n == 0 {
        assert(hex_digit(0) == '0');
    } else if n == 1 {
        assert(hex_digit(1) == '1');
    } else if n == 2 {
        assert(hex_digit(2) == '2');
    } else if n == 3 {
        assert(hex_digit(3) == '3');
    } else if n == 4 {
        assert(hex_digit(4) == '4');
    } else if n == 5 {
        assert(hex_digit(5) == '5');
    } else if n == 6 {
        assert(hex_digit(6) == '6');
    } else if n == 7 {
        assert(hex_digit(7) == '7');
    } else if n == 8 {
        assert(hex_digit(8) == '8');
    } else if n == 9 {
        assert(hex_digit(9) == '9');
    } else if n == 10 {
        assert(hex_digit(10) == 'a');
    } else if n == 11 {
        assert(hex_digit(11) == 'b');
    } else if n == 12 {
        assert(hex_digit(12) == 'c');
    } else if n == 13 {
        assert(hex_digit(13) == 'd');
    } else if n == 14 {
        assert(hex_digit(14) == 'e');
    } else {
        assert(hex_digit(15) == 'f');
    }
}

/// Escaped string contents placed before a closing quote parse back
/// to the original characters.
pub proof fn lemma_esc_parse(s: Seq<char>, content: Seq<char>, i: int)
    requires
        chars_at(s, i, esc_seq(content) + seq!['"']),
    ensures
        sp_string(s, i) == Some((content, i + esc_seq(content).len() + 1)),
    decreases content.len(),
{
    if content.len() == 0 {
        lemma_chars_at_index(s, i, esc_seq(content) + seq!['"']);
        assert(s[i] == '"');
        assert(sp_string(s, i) == Some((Seq::<char>::empty(), i + 1)));
        assert(content =~= Seq::<char>::empty());
    } else {
        let c = content[0];
        let rest = content.drop_first();
        let ec = esc_char(c);
        assert(esc_seq(content) == ec + esc_seq(rest));
        assert((ec + esc_seq(rest)) + seq!['"'] =~= ec + (esc_seq(rest) + seq!['"']));
        lemma_chars_at_split(s, i, ec, esc_seq(rest) + seq!['"']);
        lemma_esc_parse(s, rest, i + ec.len());
        let after = i + ec.len();
        assert(sp_string(s, after) == Some((rest, after + esc_seq(rest).len() + 1)));
        let goal_pos = i + esc_seq(content).len() + 1;
        assert(after + esc_seq(rest).len() + 1 == goal_pos);
        if c == '"' {
            assert(ec == seq!['\\', '"']);
            assert(s[i] == '\\' && s[i + 1] == '"');
            assert(simple_escape(s[i + 1]) == Some('"'));
            assert(sp_string(s, i) == Some((seq!['"'] + rest, goal_pos)));
            assert(seq!['"'] + rest =~= content);
        } else if c == '\\' {
            assert(ec == seq!['\\', '\\']);
            assert(s[i] == '\\' && s[i + 1] == '\\');
            assert(simple_escape(s[i + 1]) == Some('\\'));
            assert(sp_string(s, i) == Some((seq!['\\'] + rest, goal_pos)));
            assert(seq!['\\'] + rest =~= content);
        } else if c == '\n' {
            assert(ec == seq!['\\', 'n']);
            assert(s[i] == '\\' && s[i + 1] == 'n');
            assert(simple_escape(s[i + 1]) == Some('\n'));
            assert(sp_string(s, i) == Some((seq!['\n'] + rest, goal_pos)));
            assert(seq!['\n'] + rest =~= content);
        } else if c == '\r' {
            assert(ec == seq!['\\', 'r']);
            assert(s[i] == '\\' && s[i + 1] == 'r');
            assert(simple_escape(s[i + 1]) == Some('\r'));
            assert(sp_string(s, i) == Some((seq!['\r'] + rest, goal_pos)));
            assert(seq!['\r'] + rest =~= content);
        } else if c == '\t' {
            assert(ec == seq!['\\', 't']);
            assert(s[i] == '\\' && s[i + 1] == 't');
            assert(simple_escape(s[i + 1]) == Some('\t'));
            assert(sp_string(s, i) == Some((seq!['\t'] + rest, goal_pos)));
            assert(seq!['\t'] + rest =~= content);
        } else if c == '\u{8}' {
            assert(ec == seq!['\\', 'b']);
            assert(s[i] == '\\' && s[i + 1] == 'b');
            assert(simple_escape(s[i + 1]) == Some('\u{8}'));
            assert(sp_string(s, i) == Some((seq!['\u{8}'] + rest, goal_pos)));
            assert(seq!['\u{8}'] + rest =~= content);
        } else if c == '\u{c}' {
            assert(ec == seq!['\\', 'f']);
            assert(s[i] == '\\' && s[i + 1] == 'f');
            assert(simple_escape(s[i + 1]) == Some('\u{c}'));
            assert(sp_string(s, i) == Some((seq!['\u{c}'] + rest, goal_pos)));
            assert(seq!['\u{c}'] + rest =~= content);
        } else if (c as u32) < 0x20 {
            let cc: int = (c as u32) as int;
            let hi = cc / 16;
            let lo = cc % 16;
            assert(ec == seq!['\\', 'u', '0', '0', hex_digit(hi), hex_digit(lo)]);
            assert(s[i] == '\\' && s[i + 1] == 'u');
            assert(s[i + 2] == '0' && s[i + 3] == '0');
            assert(s[i + 4] == hex_digit(hi) && s[i + 5] == hex_digit(lo));
            assert(0 <= hi < 16 && 0 <= lo < 16) by (nonlinear_arith)
                requires
                    0 <= cc < 0x20,
                    hi == cc / 16,
                    lo == cc % 16,
            ;
            lemma_hex_digit_val(hi);
            lemma_hex_digit_val(lo);
            assert(crate::numscan::hex_val('0') == 0);
            assert(hex4_at(s, i + 2));
            let h = hex4(s, i + 2);
            assert(h == 16 * hi + lo);
            assert(h == cc) by (nonlinear_arith)
                requires
                    h == 16 * hi + lo,
                    hi == cc / 16,
                    lo == cc % 16,
                    0 <= cc < 0x20,
            ;
            assert(h < 0x20);
            vstd::utf8::char_u32_cast(c, c as u32);
            assert(((h as u32) as char) == c);
            assert(sp_string(s, i) == Some((seq![c] + rest, goal_pos)));
            assert(seq![c] + rest =~= content);
        } else {
            assert(ec == seq![c]);
            assert(s[i] == c);
            assert(c != '"' && c != '\\' && (c as u32) >= 0x20);
            assert(sp_string(s, i) == Some((seq![c] + rest, goal_pos)));
            assert(seq![c] + rest =~= content);
        }
    }
}


/// A serialized value placed at `i`, not followed by a character that
/// could extend a numeral, parses back to exactly that value.
#[verifier::rlimit(100)]
pub proof fn lemma_ser_value_parses(j: Json, s: Seq<char>, i: int)
    requires
        json_wf(j),
        chars_at(s, i, ser_json(j)),
        (i + ser_json(j).len() == s.len() || !num_cont(s[i + ser_json(j).len()])),
    ensures
        sp_value(s, i) == Some((j, i + ser_json(j).len())),
    decreases j, 1int,
{
    let t = ser_json(j);
    let fin = i + t.len();
    lemma_chars_at_index(s, i, t);
    lemma_ser_shape(j);
    match j {
        Json::Null => {
            assert(t[0] == 'n' && t[1] == 'u' && t[2] == 'l' && t[3] == 'l');
            assert(t.len() == 4);
            assert(s[i] == 'n' && s[i + 1] == 'u' && s[i + 2] == 'l' && s[i + 3] == 'l');
            assert(i + 4 <= s.len());
            assert(sp_value(s, i) == Some((Json::Null, i + 4)));
        },
        Json::Bool(b) => {
            if b {
                assert(s[i] == 't' && s[i + 1] == 'r' && s[i + 2] == 'u' && s[i + 3] == 'e');
            } else {
                assert(s[i] == 'f' && s[i + 1] == 'a' && s[i + 2] == 'l' && s[i + 3] == 's' && s[i
                    + 4] == 'e');
            }
            assert(sp_value(s, i) == Some((j, fin)));
        },
        Json::Num(lit) => {
            crate::numscan::lemma_number_embed(s, lit, i);
            assert(crate::numscan::number_end(s, i) == fin);
            let c = s[i];
            assert(c == lit[0]);
            if !(lit[0] == '-') {
                assert(is_digit(c));
            }
            assert(c == '-' || is_digit(c));
            assert(c != 'n' && c != 't' && c != 'f' && c != '"' && c != '[' && c != '{');
            assert(s.subrange(i, fin) =~= lit);
            assert(sp_value(s, i) == Some((j, fin)));
        },
        Json::Str(content) => {
            assert(t =~= seq!['"'] + (esc_seq(content) + seq!['"']));
            lemma_chars_at_split(s, i, seq!['"'], esc_seq(content) + seq!['"']);
            assert(s[i] == '"');
            lemma_esc_parse(s, content, i + 1);
            assert(sp_string(s, i + 1) == Some((content, fin)));
            assert(sp_value(s, i) == Some((j, fin)));
        },
        Json::Arr(items) => {
            assert(s[i] == '[');
            if items.len() == 0 {
                assert(ser_items(items) == Seq::<char>::empty());
                assert(t =~= seq!['[', ']']);
                assert(t.len() == 2);
                assert(t[1] == ']');
                assert(s[i + 1] == ']');
                assert(!is_ws(s[i + 1]));
                assert(skip_ws(s, i + 1) == i + 1);
                assert(items =~= Seq::<Json>::empty());
            } else {
                assert(t =~= seq!['['] + (ser_items(items) + seq![']']));
                lemma_chars_at_split(s, i, seq!['['], ser_items(items) + seq![']']);
                assert(json_wf(items[0]));
                lemma_ser_shape(items[0]);
                if items.len() == 1 {
                    assert(ser_items(items) == ser_json(items[0]));
                } else {
                    assert(ser_items(items) == ser_json(items[0]) + seq![','] + ser_items(
                        items.drop_first(),
                    ));
                    assert(ser_items(items)[0] == ser_json(items[0])[0]);
                }
                assert(s[i + 1] == ser_items(items)[0]);
                assert(s[i + 1] == ser_json(items[0])[0]);
                assert(!is_ws(s[i + 1]));
                assert(skip_ws(s, i + 1) == i + 1);
                assert(s[i + 1] != ']');
                lemma_ser_items_parses(items, s, i + 1);
                assert(sp_elems(s, i + 1) == Some((items, i + 1 + ser_items(items).len() + 1)));
                assert(i + 1 + ser_items(items).len() + 1 == fin);
            }
            assert(sp_value(s, i) == Some((j, fin)));
        },
        Json::Obj(members) => {
            assert(s[i] == '{');
            if members.len() == 0 {
                assert(ser_members(members) == Seq::<char>::empty());
                assert(t =~= seq!['{', '}']);
                assert(t.len() == 2);
                assert(t[1] == '}');
                assert(s[i + 1] == '}');
                assert(!is_ws(s[i + 1]));
                assert(skip_ws(s, i + 1) == i + 1);
                assert(members =~= Seq::<(Seq<char>, Json)>::empty());
            } else {
                assert(t =~= seq!['{'] + (ser_members(members) + seq!['}']));
                lemma_chars_at_split(s, i, seq!['{'], ser_members(members) + seq!['}']);
                if members.len() == 1 {
                    assert(ser_members(members) == ser_member(members[0]));
                } else {
                    assert(ser_members(members) == ser_member(members[0]) + seq![',']
                        + ser_members(members.drop_first()));
                    assert(ser_members(members)[0] == ser_member(members[0])[0]);
                }
                assert(ser_member(members[0])[0] == '"');
                assert(s[i + 1] == '"');
                assert(!is_ws(s[i + 1]));
                assert(skip_ws(s, i + 1) == i + 1);
                assert(s[i + 1] != '}');
                lemma_ser_members_parses(members, s, i + 1);
                assert(sp_members(s, i + 1) == Some(
                    (members, i + 1 + ser_members(members).len() + 1),
                ));
                assert(i + 1 + ser_members(members).len() + 1 == fin);
            }
            assert(sp_value(s, i) == Some((j, fin)));
        },
    }
}

/// Serialized array elements placed before a `]` parse back to the
/// original elements.
#[verifier::rlimit(100)]
pub proof fn lemma_ser_items_parses(items: Seq<Json>, s: Seq<char>, i: int)
    requires
        items.len() >= 1,
        forall|k: int| 0 <= k < items.len() ==> json_wf(#[trigger] items[k]),
        chars_at(s, i, ser_items(items) + seq![']']),
    ensures
        sp_elems(s, i) == Some((items, i + ser_items(items).len() + 1)),
    decreases items, 0int,
{
    let j0 = items[0];
    assert(json_wf(j0));
    if items.len() == 1 {
        assert(ser_items(items) == ser_json(j0));
        lemma_chars_at_split(s, i, ser_json(j0), seq![']']);
        let p = i + ser_json(j0).len();
        assert(s[p] == ']');
        assert(!num_cont(']'));
        lemma_ser_value_parses(j0, s, i);
        assert(sp_value(s, i) == Some((j0, p)));
        assert(!is_ws(s[p]));
        assert(skip_ws(s, p) == p);
        assert(sp_elems(s, i) == Some((seq![j0], p + 1)));
        assert(seq![j0] =~= items);
    } else {
        let rest = items.drop_first();
        assert(rest.len() >= 1);
        assert forall|k: int| 0 <= k < rest.len() implies json_wf(#[trigger] rest[k]) by {
            assert(rest[k] == items[k + 1]);
        }
        assert(ser_items(items) == ser_json(j0) + seq![','] + ser_items(rest));
        assert(ser_items(items) + seq![']'] =~= ser_json(j0) + (seq![','] + (ser_items(rest)
            + seq![']'])));
        lemma_chars_at_split(s, i, ser_json(j0), seq![','] + (ser_items(rest) + seq![']']));
        let p = i + ser_json(j0).len();
        lemma_chars_at_split(s, p, seq![','], ser_items(rest) + seq![']']);
        assert(s[p] == ',');
        assert(!num_cont(','));
        lemma_ser_value_parses(j0, s, i);
        assert(sp_value(s, i) == Some((j0, p)));
        assert(!is_ws(s[p]));
        assert(skip_ws(s, p) == p);
        assert(s[p] != ']');
        let r = p + 1;
        lemma_ser_shape(rest[0]);
        if rest.len() == 1 {
            assert(ser_items(rest) == ser_json(rest[0]));
        } else {
            assert(ser_items(rest) == ser_json(rest[0]) + seq![','] + ser_items(
                rest.drop_first(),
            ));
            assert(ser_items(rest)[0] == ser_json(rest[0])[0]);
        }
        lemma_chars_at_index(s, r, ser_items(rest) + seq![']']);
        assert(s[r] == ser_items(rest)[0]);
        assert(s[r] == ser_json(rest[0])[0]);
        assert(!is_ws(s[r]));
        assert(skip_ws(s, r) == r);
        lemma_ser_items_parses(rest, s, r);
        assert(sp_elems(s, r) == Some((rest, r + ser_items(rest).len() + 1)));
        assert(sp_elems(s, i) == Some((seq![j0] + rest, r + ser_items(rest).len() + 1)));
        assert(seq![j0] + rest =~= items);
        assert(r + ser_items(rest).len() + 1 == i + ser_items(items).len() + 1);
    }
}

/// Serialized object members placed before a `}` parse back to the
/// original members.
#[verifier::rlimit(100)]
pub proof fn lemma_ser_members_parses(members: Seq<(Seq<char>, Json)>, s: Seq<char>, i: int)
    requires
        members.len() >= 1,
        unique_keys(members),
        forall|k: int| 0 <= k < members.len() ==> json_wf(#[trigger] members[k].1),
        chars_at(s, i, ser_members(members) + seq!['}']),
    ensures
        sp_members(s, i) == Some((members, i + ser_members(members).len() + 1)),
    decreases members, 0int,
{
    let m0 = members[0];
    let key = m0.0;
    let val = m0.1;
    assert(json_wf(val));
    let sm = ser_member(m0);
    assert(sm == seq!['"'] + esc_seq(key) + seq!['"', ':'] + ser_json(val));
    let close: Seq<char> = if members.len() == 1 { seq!['}'] } else { seq![','] };
    let tail: Seq<char> = if members.len() == 1 {
        Seq::<char>::empty()
    } else {
        ser_members(members.drop_first()) + seq!['}']
    };
    assert(ser_members(members) + seq!['}'] =~= sm + (close + tail)) by {
        if members.len() == 1 {
            assert(ser_members(members) == sm);
        } else {
            assert(ser_members(members) == sm + seq![','] + ser_members(members.drop_first()));
        }
    }
    lemma_chars_at_split(s, i, sm, close + tail);
    let after_m = i + sm.len();
    lemma_chars_at_split(s, after_m, close, tail);
    assert(s[after_m] == close[0]);

    // take the member apart: quoted key, colon, value
    assert(sm =~= seq!['"'] + ((esc_seq(key) + seq!['"']) + (seq![':'] + ser_json(val))));
    lemma_chars_at_split(s, i, seq!['"'], (esc_seq(key) + seq!['"']) + (seq![':'] + ser_json(val)));
    assert(s[i] == '"');
    lemma_chars_at_split(s, i + 1, esc_seq(key) + seq!['"'], seq![':'] + ser_json(val));
    let p = i + 1 + esc_seq(key).len() + 1;
    lemma_chars_at_split(s, p - 1 + 1, seq![':'], ser_json(val));
    lemma_esc_parse(s, key, i + 1);
    assert(sp_string(s, i + 1) == Some((key, p)));
    assert(s[p] == ':');
    assert(!is_ws(s[p]));
    assert(skip_ws(s, p) == p);
    let w = p + 1;
    lemma_ser_shape(val);
    lemma_chars_at_index(s, w, ser_json(val));
    assert(s[w] == ser_json(val)[0]);
    assert(!is_ws(s[w]));
    assert(skip_ws(s, w) == w);
    let p2 = w + ser_json(val).len();
    assert(p2 == after_m);
    assert(!num_cont(s[p2]));
    lemma_ser_value_parses(val, s, w);
    assert(sp_value(s, w) == Some((val, p2)));
    assert(!is_ws(s[p2]));
    assert(skip_ws(s, p2) == p2);

    if members.len() == 1 {
        assert(s[p2] == '}');
        assert(sp_members(s, i) == Some((seq![(key, val)], p2 + 1)));
        assert(m0 == (key, val));
        assert(seq![(key, val)] =~= members);
        assert(p2 + 1 == i + ser_members(members).len() + 1);
    } else {
        assert(s[p2] == ',');
        assert(s[p2] != '}');
        let rest = members.drop_first();
        assert(rest.len() >= 1);
        assert forall|k: int| 0 <= k < rest.len() implies json_wf(#[trigger] rest[k].1) by {
            assert(rest[k] == members[k + 1]);
        }
        assert forall|a: int, b: int| 0 <= a < b < rest.len() implies rest[a].0 != rest[b].0 by {
            assert(rest[a] == members[a + 1]);
            assert(rest[b] == members[b + 1]);
        }
        let r = p2 + 1;
        assert(chars_at(s, r, ser_members(rest) + seq!['}']));
        lemma_chars_at_index(s, r, ser_members(rest) + seq!['}']);
        if rest.len() == 1 {
            assert(ser_members(rest) == ser_member(rest[0]));
        } else {
            assert(ser_members(rest) == ser_member(rest[0]) + seq![','] + ser_members(
                rest.drop_first(),
            ));
            assert(ser_members(rest)[0] == ser_member(rest[0])[0]);
        }
        assert(ser_member(rest[0])[0] == '"');
        assert(s[r] == '"');
        assert(!is_ws(s[r]));
        assert(skip_ws(s, r) == r);
        lemma_ser_members_parses(rest, s, r);
        assert(sp_members(s, r) == Some((rest, r + ser_members(rest).len() + 1)));
        // the fresh key is in none of the later members
        crate::value::lemma_find_key(rest, key);
        let fk = crate::value::find_key(rest, key);
        if fk >= 0 {
            assert(rest[fk].0 == key);
            assert(rest[fk] == members[fk + 1]);
            assert(members[0].0 != members[fk + 1].0);
            assert(false);
        }
        assert(!crate::value::has_key(rest, key));
        assert(sp_members(s, i) == Some((seq![(key, val)] + rest, r + ser_members(rest).len() + 1)));
        assert(m0 == (key, val));
        assert(seq![(key, val)] + rest =~= members);
        assert(r + ser_members(rest).len() + 1 == i + ser_members(members).len() + 1);
    }
}

/// Serialization round trip: the text of a well-formed value parses
/// back to that value, as one whole document.
pub proof fn lemma_parse_of_serialized(j: Json)
    requires
        json_wf(j),
    ensures
        sp_doc(ser_json(j)) == Some(j),
{
    let s = ser_json(j);
    lemma_ser_shape(j);
    assert(skip_ws(s, 0) == 0);
    assert(s.subrange(0, s.len() as int) =~= s);
    assert(chars_at(s, 0, s));
    lemma_ser_value_parses(j, s, 0);
    assert(sp_value(s, 0) == Some((j, s.len() as int)));
    assert(skip_ws(s, s.len() as int) == s.len());
}
} // verus!

//! Serialization of a value tree back to JSON text.
//!
//! `ser_json` is the specification of the rendering; `serialize`
//! produces exactly that text.  Objects render their members in stored
//! order, arrays in element order, numerals as their stored literal
//! text; no whitespace is emitted.

use vstd::prelude::*;
use crate::value::{Json, Member, Value};

verus! {

/// The lower-case hexadecimal digit for `n` (0 to 15).
pub open spec fn hex_digit(n: int) -> char {
    seq!['0', '1', '2', '3', '4', '5', '6', '7', '8', '9', 'a', 'b', 'c', 'd', 'e', 'f'][n]
}

/// How one character of a string value is rendered inside quotes.
pub open spec fn esc_char(c: char) -> Seq<char> {
    if c == '"' {
        seq!['\\', '"']
    } else if c == '\\' {
        seq!['\\', '\\']
    } else if c == '\n' {
        seq!['\\', 'n']
    } else if c == '\r' {
        seq!['\\', 'r']
    } else if c == '\t' {
        seq!['\\', 't']
    } else if c == '\u{8}' {
        seq!['\\', 'b']
    } else if c == '\u{c}' {
        seq!['\\', 'f']
    } else if (c as u32) < 0x20 {
        seq!['\\', 'u', '0', '0', hex_digit((c as u32) as int / 16), hex_digit((c as u32) as int % 16)]
    } else {
        seq![c]
    }
}

/// The rendering of a string value's characters, escapes applied.
pub open spec fn esc_seq(s: Seq<char>) -> Seq<char>
    decreases s.len(),
{
    if s.len() == 0 {
        Seq::empty()
    } else {
        esc_char(s[0]) + esc_seq(s.drop_first())
    }
}

/// The JSON text of a model value.
pub open spec fn ser_json(j: Json) -> Seq<char>
    decreases j, 1int,
{
    match j {
        Json::Null => seq!['n', 'u', 'l', 'l'],
        Json::Bool(b) => if b {
            seq!['t', 'r', 'u', 'e']
        } else {
            seq!['f', 'a', 'l', 's', 'e']
        },
        Json::Num(t) => t,
        Json::Str(t) => seq!['"'] + esc_seq(t) + seq!['"'],
        Json::Arr(items) => seq!['['] + ser_items(items) + seq![']'],
        Json::Obj(members) => seq!['{'] + ser_members(members) + seq!['}'],
    }
}

/// The comma-separated renderings of array elements.
pub open spec fn ser_items(items: Seq<Json>) -> Seq<char>
    decreases items, 0int,
{
    if items.len() == 0 {
        Seq::empty()
    } else if items.len() == 1 {
        ser_json(items[0])
    } else {
        ser_json(items[0]) + seq![','] + ser_items(items.drop_first())
    }
}

/// The rendering of one object member: quoted key, colon, value.
pub open spec fn ser_member(m: (Seq<char>, Json)) -> Seq<char>
    decreases m, 1int,
{
    seq!['"'] + esc_seq(m.0) + seq!['"', ':'] + ser_json(m.1)
}

/// The comma-separated renderings of object members.
pub open spec fn ser_members(members: Seq<(Seq<char>, Json)>) -> Seq<char>
    decreases members, 0int,
{
    if members.len() == 0 {
        Seq::empty()
    } else if members.len() == 1 {
        ser_member(members[0])
    } else {
        ser_member(members[0]) + seq![','] + ser_members(members.drop_first())
    }
}

/// Appending one more character extends the escaped rendering.
pub proof fn lemma_esc_seq_push(s: Seq<char>, c: char)
    ensures
        esc_seq(s.push(c)) == esc_seq(s) + esc_char(c),
    decreases s.len(),
{
    if s.len() == 0 {
        assert(s.push(c).len() == 1);
        assert(s.push(c)[0] == c);
        assert(s.push(c).drop_first() =~= Seq::<char>::empty());
        assert(esc_seq(s.push(c)) == esc_char(c) + esc_seq(s.push(c).drop_first()));
        assert(esc_seq(s.push(c).drop_first()) == Seq::<char>::empty());
        assert(esc_seq(s) == Seq::<char>::empty());
        assert(esc_seq(s.push(c)) =~= esc_seq(s) + esc_char(c));
    } else {
        assert(s.push(c).drop_first() =~= s.drop_first().push(c));
        lemma_esc_seq_push(s.drop_first(), c);
        assert(s.push(c)[0] == s[0]);
        assert(esc_seq(s.push(c)) == esc_char(s[0]) + (esc_seq(s.drop_first()) + esc_char(c)));
        assert(esc_seq(s.push(c)) =~= esc_seq(s) + esc_char(c));
    }
}

/// Appending one more element extends the comma-separated rendering.
pub proof fn lemma_ser_items_push(items: Seq<Json>, x: Json)
    ensures
        ser_items(items.push(x)) == if items.len() == 0 {
            ser_json(x)
        } else {
            ser_items(items) + seq![','] + ser_json(x)
        },
    decreases items.len(),
{
    if items.len() == 0 {
        assert(items.push(x)[0] == x);
        assert(ser_items(items.push(x)) == ser_json(x));
    } else {
        assert(items.push(x).drop_first() =~= items.drop_first().push(x));
        lemma_ser_items_push(items.drop_first(), x);
        assert(items.push(x)[0] == items[0]);
        if items.len() == 1 {
            assert(items.drop_first().len() == 0);
            assert(ser_items(items.push(x)) == ser_json(items[0]) + seq![','] + ser_json(x));
            assert(ser_items(items) == ser_json(items[0]));
        } else {
            assert(ser_items(items.push(x)) == ser_json(items[0]) + seq![','] + (ser_items(
                items.drop_first(),
            ) + seq![','] + ser_json(x)));
            assert(ser_items(items.push(x)) =~= ser_items(items) + seq![','] + ser_json(x));
        }
    }
}

/// Appending one more member extends the comma-separated rendering.
pub proof fn lemma_ser_members_push(members: Seq<(Seq<char>, Json)>, m: (Seq<char>, Json))
    ensures
        ser_members(members.push(m)) == if members.len() == 0 {
            ser_member(m)
        } else {
            ser_members(members) + seq![','] + ser_member(m)
        },
    decreases members.len(),
{
    if members.len() == 0 {
        assert(members.push(m)[0] == m);
        assert(ser_members(members.push(m)) == ser_member(m));
    } else {
        assert(members.push(m).drop_first() =~= members.drop_first().push(m));
        lemma_ser_members_push(members.drop_first(), m);
        assert(members.push(m)[0] == members[0]);
        if members.len() == 1 {
            assert(members.drop_first().len() == 0);
            assert(ser_members(members) == ser_member(members[0]));
        } else {
            assert(ser_members(members.push(m)) == ser_member(members[0]) + seq![','] + (
            ser_members(members.drop_first()) + seq![','] + ser_member(m)));
            assert(ser_members(members.push(m)) =~= ser_members(members) + seq![','] + ser_member(
                m,
            ));
        }
    }
}

/// The lower-case hexadecimal digit character for `n` (0 to 15).
fn hex_char(n: u8) -> (c: char)
    requires
        n < 16,
    ensures
        c == hex_digit(n as int),
{
    let c: char = match n {
        0 => '0',
        1 => '1',
        2 => '2',
        3 => '3',
        4 => '4',
        5 => '5',
        6 => '6',
        7 => '7',
        8 => '8',
        9 => '9',
        10 => 'a',
        11 => 'b',
        12 => 'c',
        13 => 'd',
        14 => 'e',
        _ => 'f',
    };
    c
}

/// Writes one string value, quotes and escapes included.
fn write_string(text: &str, out: &mut Vec<char>)
    ensures
        final(out)@ == old(out)@ + seq!['"'] + esc_seq(text@) + seq!['"'],
{
    let cs = crate::textutil::str_chars(text);
    out.push('"');
    let mut i: usize = 0;
    while i < cs.len()
        invariant
            i <= cs.len(),
            cs@ == text@,
            out@ == old(out)@ + seq!['"'] + esc_seq(text@.take(i as int)),
        decreases cs.len() - i,
    {
        let c = cs[i];
        let ghost prefix = out@;
        if c == '"' {
            out.push('\\');
            out.push('"');
        } else if c == '\\' {
            out.push('\\');
            out.push('\\');
        } else if c == '\n' {
            out.push('\\');
            out.push('n');
        } else if c == '\r' {
            out.push('\\');
            out.push('r');
        } else if c == '\t' {
            out.push('\\');
            out.push('t');
        } else if c == '\u{8}' {
            out.push('\\');
            out.push('b');
        } else if c == '\u{c}' {
            out.push('\\');
            out.push('f');
        } else if (c as u32) < 0x20 {
            let code = c as u32;
            out.push('\\');
            out.push('u');
            out.push('0');
            out.push('0');
            let hi = hex_char((code / 16) as u8);
            out.push(hi);
            let lo = hex_char((code % 16) as u8);
            out.push(lo);
        } else {
            out.push(c);
        }
        assert(out@ =~= prefix + esc_char(c));
        proof {
            lemma_esc_seq_push(text@.take(i as int), c);
            assert(text@.take(i as int).push(c) =~= text@.take(i + 1 as int));
        }
        i = i + 1;
        assert(out@ =~= old(out)@ + seq!['"'] + esc_seq(text@.take(i as int)));
    }
    assert(text@.take(cs.len() as int) =~= text@);
    out.push('"');
    assert(out@ =~= old(out)@ + seq!['"'] + esc_seq(text@) + seq!['"']);
}

/// Writes the JSON text of `v` at the end of `out`.
fn write_json(v: &Value, out: &mut Vec<char>)
    ensures
        final(out)@ == old(out)@ + ser_json(v@),
    decreases v, 1int,
{
    match v {
        Value::Null => {
            out.push('n');
            out.push('u');
            out.push('l');
            out.push('l');
            assert(out@ =~= old(out)@ + ser_json(v@));
        },
        Value::Bool(b) => {
            if *b {
                out.push('t');
                out.push('r');
                out.push('u');
                out.push('e');
            } else {
                out.push('f');
                out.push('a');
                out.push('l');
                out.push('s');
                out.push('e');
            }
            assert(out@ =~= old(out)@ + ser_json(v@));
        },
        Value::Num(t) => {
            crate::textutil::push_str_chars(out, t.as_str());
        },
        Value::Str(t) => {
            write_string(t.as_str(), out);
            assert(out@ =~= old(out)@ + ser_json(v@));
        },
        Value::Arr(items) => {
            write_array(items, out);
        },
        Value::Obj(members) => {
            write_object(members, out);
        },
    }
}

/// Writes `[e0,e1,...]` for the elements of `items`.
fn write_array(items: &Vec<Value>, out: &mut Vec<char>)
    ensures
        final(out)@ == old(out)@ + seq!['['] + ser_items(crate::value::json_of_seq(items@)) + seq![
            ']',
        ],
    decreases items, 0int,
{
    out.push('[');
    proof {
        crate::value::lemma_json_of_seq(items@);
    }
    let mut i: usize = 0;
    while i < items.len()
        invariant
            i <= items.len(),
            crate::value::json_of_seq(items@).len() == items@.len(),
            forall|k: int|
                0 <= k < items@.len() ==> crate::value::json_of_seq(items@)[k] == crate::value::json_of(
                    #[trigger] items@[k],
                ),
            out@ == old(out)@ + seq!['['] + ser_items(crate::value::json_of_seq(items@).take(i as int)),
        decreases items.len() - i,
    {
        let ghost done = crate::value::json_of_seq(items@).take(i as int);
        if i > 0 {
            out.push(',');
        }
        let ghost mid = out@;
        write_json(&items[i], out);
        assert(out@ == mid + ser_json(items@[i as int]@));
        proof {
            lemma_ser_items_push(done, crate::value::json_of_seq(items@)[i as int]);
            assert(done.push(crate::value::json_of_seq(items@)[i as int]) =~= crate::value::json_of_seq(
                items@,
            ).take(i + 1 as int));
        }
        i = i + 1;
        assert(out@ =~= old(out)@ + seq!['['] + ser_items(
            crate::value::json_of_seq(items@).take(i as int),
        ));
    }
    assert(crate::value::json_of_seq(items@).take(items@.len() as int) =~= crate::value::json_of_seq(
        items@,
    ));
    out.push(']');
    assert(out@ =~= old(out)@ + seq!['['] + ser_items(crate::value::json_of_seq(items@)) + seq![
        ']',
    ]);
}

/// Writes `{"k0":v0,...}` for the members of `members`.
fn write_object(members: &Vec<Member>, out: &mut Vec<char>)
    ensures
        final(out)@ == old(out)@ + seq!['{'] + ser_members(crate::value::json_of_members(members@))
            + seq!['}'],
    decreases members, 0int,
{
    out.push('{');
    proof {
        crate::value::lemma_json_of_members(members@);
    }
    let mut i: usize = 0;
    while i < members.len()
        invariant
            i <= members.len(),
            crate::value::json_of_members(members@).len() == members@.len(),
            forall|k: int|
                0 <= k < members@.len() ==> crate::value::json_of_members(members@)[k] == (
                #[trigger] members@[k].key@,
                crate::value::json_of(members@[k].value),
                ),
            out@ == old(out)@ + seq!['{'] + ser_members(
                crate::value::json_of_members(members@).take(i as int),
            ),
        decreases members.len() - i,
    {
        let ghost done = crate::value::json_of_members(members@).take(i as int);
        if i > 0 {
            out.push(',');
        }
        let ghost mid = out@;
        write_string(members[i].key.as_str(), out);
        out.push(':');
        let ghost mid2 = out@;
        write_json(&members[i].value, out);
        assert(out@ == mid + seq!['"'] + esc_seq(members@[i as int].key@) + seq!['"'] + seq![':']
            + ser_json(members@[i as int].value@));
        proof {
            let m = crate::value::json_of_members(members@)[i as int];
            lemma_ser_members_push(done, m);
            assert(done.push(m) =~= crate::value::json_of_members(members@).take(i + 1 as int));
            assert(mid + seq!['"'] + esc_seq(members@[i as int].key@) + seq!['"'] + seq![':']
                + ser_json(members@[i as int].value@) =~= mid + ser_member(m));
        }
        i = i + 1;
        assert(out@ =~= old(out)@ + seq!['{'] + ser_members(
            crate::value::json_of_members(members@).take(i as int),
        ));
    }
    assert(crate::value::json_of_members(members@).take(members@.len() as int)
        =~= crate::value::json_of_members(members@));
    out.push('}');
    assert(out@ =~= old(out)@ + seq!['{'] + ser_members(crate::value::json_of_members(members@))
        + seq!['}']);
}

/// Renders `v` as JSON text.
pub fn serialize(v: &Value) -> (r: String)
    ensures
        r@ == ser_json(v@),
{
    let mut out: Vec<char> = Vec::new();
    write_json(v, &mut out);
    crate::textutil::chars_to_string(&out)
}

} // verus!

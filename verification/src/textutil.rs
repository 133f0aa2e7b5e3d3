//! Conversions between `String`/`&str` and character vectors.
//!
//! The engine works on `Vec<char>`, whose view matches the `Seq<char>`
//! view of the text it came from.

use vstd::prelude::*;
use vstd::string::StrSliceExecFns;

verus! {

/// Relies on `String::push`: appends exactly the given character.
pub assume_specification[ String::push ](s: &mut String, c: char)
    ensures
        final(s)@ == old(s)@.push(c),
;

/// Relies on `char::from_u32`: `Some` exactly for Unicode scalar
/// values (not a surrogate, at most 0x10FFFF), and the returned
/// character has the given code.
pub assume_specification[ char::from_u32 ](u: u32) -> (r: Option<char>)
    ensures
        r is Some <==> (u < 0xD800 || (0xE000 <= u && u <= 0x10FFFF)),
        r matches Some(c) ==> c as u32 == u,
;

/// The characters of `s`, in order.
pub fn str_chars(s: &str) -> (r: Vec<char>)
    ensures
        r@ == s@,
{
    let n = s.unicode_len();
    let mut r: Vec<char> = Vec::new();
    let mut i: usize = 0;
    while i < n
        invariant
            i <= n,
            n == s@.len(),
            r@ == s@.take(i as int),
        decreases n - i,
    {
        let c = s.get_char(i);
        r.push(c);
        i = i + 1;
        assert(r@ =~= s@.take(i as int));
    }
    assert(s@.take(n as int) =~= s@);
    r
}

/// A string holding exactly the characters of `cs`.
pub fn chars_to_string(cs: &Vec<char>) -> (r: String)
    ensures
        r@ == cs@,
{
    let mut r = String::new();
    let mut i: usize = 0;
    while i < cs.len()
        invariant
            i <= cs.len(),
            r@ == cs@.take(i as int),
        decreases cs.len() - i,
    {
        r.push(cs[i]);
        i = i + 1;
        assert(r@ =~= cs@.take(i as int));
    }
    assert(cs@.take(cs.len() as int) =~= cs@);
    r
}

/// Appends the characters of `s` to `out`.
pub fn push_str_chars(out: &mut Vec<char>, s: &str)
    ensures
        final(out)@ == old(out)@ + s@,
{
    let n = s.unicode_len();
    let mut i: usize = 0;
    while i < n
        invariant
            i <= n,
            n == s@.len(),
            out@ == old(out)@ + s@.take(i as int),
        decreases n - i,
    {
        let c = s.get_char(i);
        out.push(c);
        i = i + 1;
        assert(out@ =~= old(out)@ + s@.take(i as int));
    }
    assert(old(out)@ + s@.take(n as int) =~= old(out)@ + s@);
}


/// Whether two pieces of text hold the same characters.
pub fn str_eq(a: &str, b: &str) -> (r: bool)
    ensures
        r == (a@ == b@),
{
    let na = a.unicode_len();
    let nb = b.unicode_len();
    if na != nb {
        proof {
            assert(a@ != b@);
        }
        return false;
    }
    let mut i: usize = 0;
    while i < na
        invariant
            i <= na,
            na == a@.len(),
            na == b@.len(),
            forall|k: int| 0 <= k < i ==> a@[k] == b@[k],
        decreases na - i,
    {
        if a.get_char(i) != b.get_char(i) {
            return false;
        }
        i = i + 1;
    }
    proof {
        assert(a@ =~= b@);
    }
    true
}

/// First index at or after `i` whose character is whitespace (or
/// `s.len()`): the end of the token that starts at `i`.
pub open spec fn token_end(s: Seq<char>, i: int) -> int
    decreases s.len() - i,
{
    if 0 <= i < s.len() && !crate::numscan::is_ws(s[i]) {
        token_end(s, i + 1)
    } else {
        i
    }
}

/// The blank-separated tokens of `s` from position `i` on.
pub open spec fn sp_tokens(s: Seq<char>, i: int) -> Seq<Seq<char>>
    decreases s.len() - i,
{
    if !(0 <= i < s.len()) {
        Seq::empty()
    } else if crate::numscan::is_ws(s[i]) {
        sp_tokens(s, i + 1)
    } else {
        let e = token_end(s, i);
        if i < e <= s.len() {
            seq![s.subrange(i, e)] + sp_tokens(s, e)
        } else {
            Seq::empty()
        }
    }
}

/// The views of a list of strings.
pub open spec fn strs_view(ts: Seq<String>) -> Seq<Seq<char>>
    decreases ts.len(),
{
    if ts.len() == 0 {
        Seq::empty()
    } else {
        seq![ts[0]@] + strs_view(ts.drop_first())
    }
}

/// Pointwise reading of `strs_view`.
pub proof fn lemma_strs_view(ts: Seq<String>)
    ensures
        strs_view(ts).len() == ts.len(),
        forall|i: int| 0 <= i < ts.len() ==> #[trigger] strs_view(ts)[i] == ts[i]@,
    decreases ts.len(),
{
    if ts.len() > 0 {
        lemma_strs_view(ts.drop_first());
        assert forall|i: int| 0 <= i < ts.len() implies #[trigger] strs_view(ts)[i] == ts[i]@ by {
            if i > 0 {
                assert(strs_view(ts)[i] == strs_view(ts.drop_first())[i - 1]);
                assert(ts.drop_first()[i - 1] == ts[i]);
            }
        }
    }
}

/// Splits `cs` into tokens from position `i` on, mirroring
/// `sp_tokens`.
fn split_tokens_from(cs: &Vec<char>, i: usize) -> (r: Vec<String>)
    requires
        i <= cs.len(),
    ensures
        strs_view(r@) == sp_tokens(cs@, i as int),
    decreases cs.len() - i,
{
    if i == cs.len() {
        let r: Vec<String> = Vec::new();
        assert(strs_view(r@) =~= Seq::<Seq<char>>::empty());
        return r;
    }
    let c = cs[i];
    if c == ' ' || c == '\t' || c == '\n' || c == '\r' {
        return split_tokens_from(cs, i + 1);
    }
    let ghost e_spec = token_end(cs@, i as int);
    let mut e: usize = i;
    while e < cs.len() && !(cs[e] == ' ' || cs[e] == '\t' || cs[e] == '\n' || cs[e] == '\r')
        invariant
            i <= e <= cs.len(),
            token_end(cs@, i as int) == token_end(cs@, e as int),
        decreases cs.len() - e,
    {
        e = e + 1;
    }
    assert(token_end(cs@, e as int) == e as int);
    let mut word: Vec<char> = Vec::new();
    let mut k: usize = i;
    while k < e
        invariant
            i <= k <= e <= cs.len(),
            word@ == cs@.subrange(i as int, k as int),
        decreases e - k,
    {
        word.push(cs[k]);
        k = k + 1;
        assert(word@ =~= cs@.subrange(i as int, k as int));
    }
    let word_str = chars_to_string(&word);
    let mut rest = split_tokens_from(cs, e);
    let ghost old_rest = rest@;
    rest.insert(0, word_str);
    proof {
        assert(rest@.drop_first() =~= old_rest);
        assert(strs_view(rest@) =~= seq![cs@.subrange(i as int, e as int)] + strs_view(old_rest));
    }
    rest
}

/// The blank-separated tokens of `s`.
pub fn split_tokens(s: &str) -> (r: Vec<String>)
    ensures
        strs_view(r@) == sp_tokens(s@, 0),
{
    let cs = str_chars(s);
    if cs.len() == 0 {
        let r: Vec<String> = Vec::new();
        assert(strs_view(r@) =~= Seq::<Seq<char>>::empty());
        return r;
    }
    split_tokens_from(&cs, 0)
}

/// Tokens joined with one blank between each two.
pub open spec fn sp_join(ts: Seq<Seq<char>>) -> Seq<char>
    decreases ts.len(),
{
    if ts.len() == 0 {
        Seq::empty()
    } else if ts.len() == 1 {
        ts[0]
    } else {
        ts[0] + seq![' '] + sp_join(ts.drop_first())
    }
}

/// Joins the strings from position `from` on with single blanks.
pub fn join_from(ts: &Vec<String>, from: usize) -> (r: String)
    requires
        from <= ts.len(),
    ensures
        r@ == sp_join(strs_view(ts@).skip(from as int)),
    decreases ts.len() - from,
{
    proof {
        lemma_strs_view(ts@);
    }
    let ghost left = strs_view(ts@).skip(from as int);
    if from == ts.len() {
        assert(left =~= Seq::<Seq<char>>::empty());
        return String::new();
    }
    proof {
        assert(left.len() == ts@.len() - from);
        assert(left[0] == strs_view(ts@)[from as int]);
        assert(left.drop_first() =~= strs_view(ts@).skip(from as int + 1));
    }
    let mut r = ts[from].clone();
    if from + 1 == ts.len() {
        assert(left.len() == 1);
        return r;
    }
    r.push(' ');
    let rest = join_from(ts, from + 1);
    r.append(rest.as_str());
    proof {
        assert(left.len() >= 2);
        assert(r@ =~= left[0] + seq![' '] + sp_join(left.drop_first()));
    }
    r
}

/// Splits the tokens after `from` into the positional arguments and
/// whether the given flag occurs among them.
pub fn split_flag(tokens: &Vec<String>, from: usize, flag: &str) -> (r: (Vec<String>, bool))
    requires
        from <= tokens@.len(),
    ensures
        strs_view(r.0@) == strs_view(tokens@).skip(from as int).filter(
            (|t: Seq<char>| t != flag@),
        ),
        r.1 == exists|k: int|
            #![auto]
            0 <= k < strs_view(tokens@).skip(from as int).len() && strs_view(tokens@).skip(
                from as int,
            )[k] == flag@,
{
    proof {
        lemma_strs_view(tokens@);
        reveal(Seq::filter);
    }
    let ghost rest = strs_view(tokens@).skip(from as int);
    let mut pos: Vec<String> = Vec::new();
    let mut found = false;
    let mut i: usize = from;
    proof {
        assert(rest.take(0) =~= Seq::<Seq<char>>::empty());
        assert(strs_view(pos@) =~= rest.take(0).filter((|t: Seq<char>| t != flag@)));
    }
    while i < tokens.len()
        invariant
            from <= i <= tokens@.len(),
            rest == strs_view(tokens@).skip(from as int),
            rest.len() == tokens@.len() - from,
            forall|k: int| 0 <= k < rest.len() ==> rest[k] == #[trigger] tokens@[from + k]@,
            strs_view(pos@) == rest.take(i - from).filter((|t: Seq<char>| t != flag@)),
            found == exists|k: int| #![auto] 0 <= k < i - from && rest[k] == flag@,
        decreases tokens@.len() - i,
    {
        let ghost pre = rest.take(i - from);
        let ghost pre2 = rest.take(i + 1 - from);
        proof {
            reveal(Seq::filter);
            assert(pre2.drop_last() =~= pre);
            assert(pre2.last() == rest[i - from]);
            assert(rest[i - from] == tokens@[i as int]@);
        }
        if str_eq(tokens[i].as_str(), flag) {
            found = true;
            proof {
                reveal(Seq::filter);
                assert(pre2.filter((|t: Seq<char>| t != flag@)) =~= pre.filter(
                    (|t: Seq<char>| t != flag@),
                ));
            }
        } else {
            let ghost old_pos = pos@;
            pos.push(tokens[i].clone());
            proof {
                reveal(Seq::filter);
                assert(pos@.drop_last() =~= old_pos);
                assert(pos@.last()@ == tokens@[i as int]@);
                assert(strs_view(pos@) =~= strs_view(old_pos).push(tokens@[i as int]@)) by {
                    lemma_strs_view_push(old_pos, pos@.last());
                }
                assert(pre2.filter((|t: Seq<char>| t != flag@)) =~= pre.filter(
                    (|t: Seq<char>| t != flag@),
                ).push(rest[i - from]));
            }
            if found {
            } else {
                proof {
                    assert forall|k: int| 0 <= k < i + 1 - from implies !(rest[k] == flag@) by {
                        if k < i - from {
                        } else {
                            assert(rest[k] == tokens@[i as int]@);
                        }
                    }
                }
            }
        }
        i = i + 1;
    }
    proof {
        assert(rest.take(tokens@.len() - from) =~= rest);
    }
    (pos, found)
}

/// Appending one string appends its view.
pub proof fn lemma_strs_view_push(ts: Seq<String>, x: String)
    ensures
        strs_view(ts.push(x)) == strs_view(ts).push(x@),
    decreases ts.len(),
{
    if ts.len() == 0 {
        assert(ts.push(x).len() == 1);
        assert(ts.push(x)[0] == x);
        assert(ts.push(x).drop_first() =~= Seq::<String>::empty());
        assert(strs_view(ts.push(x)) == seq![ts.push(x)[0]@] + strs_view(ts.push(x).drop_first()));
        assert(strs_view(ts.push(x).drop_first()) == Seq::<Seq<char>>::empty());
        assert(strs_view(ts) == Seq::<Seq<char>>::empty());
        assert(strs_view(ts.push(x)) =~= strs_view(ts).push(x@));
    } else {
        assert(ts.push(x)[0] == ts[0]);
        assert(ts.push(x).drop_first() =~= ts.drop_first().push(x));
        lemma_strs_view_push(ts.drop_first(), x);
        assert(strs_view(ts.push(x)) =~= strs_view(ts).push(x@));
    }
}
} // verus!

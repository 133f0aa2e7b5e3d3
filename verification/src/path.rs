//! The path syntax: a query like `creds[0].password` parsed into an
//! ordered list of navigation steps.
//!
//! Grammar: `path := identifier step*`, `step := '.' identifier |
//! '[' integer ']'`.  An identifier is one or more characters other
//! than `.`, `[`, `]` and whitespace; no escaping exists, so a key
//! containing those characters cannot be addressed.

use vstd::prelude::*;
use crate::numscan::{is_digit, is_ws};

verus! {

/// One navigation step of a parsed path.
#[derive(Debug, PartialEq, Eq)]
pub enum Step {
    /// Address a key in an object.
    Field(String),
    /// Address a position in an array.
    Index(usize),
}

/// Mathematical model of a step.
pub enum StepView {
    Field(Seq<char>),
    Index(int),
}

impl View for Step {
    type V = StepView;

    open spec fn view(&self) -> StepView {
        match self {
            Step::Field(name) => StepView::Field(name@),
            Step::Index(ix) => StepView::Index(*ix as int),
        }
    }
}

/// The models of a step list, in order.
pub open spec fn views_of_steps(ss: Seq<Step>) -> Seq<StepView>
    decreases ss.len(),
{
    if ss.len() == 0 {
        Seq::empty()
    } else {
        seq![ss[0]@] + views_of_steps(ss.drop_first())
    }
}

/// Pointwise reading of `views_of_steps`.
pub proof fn lemma_views_of_steps(ss: Seq<Step>)
    ensures
        views_of_steps(ss).len() == ss.len(),
        forall|i: int| 0 <= i < ss.len() ==> #[trigger] views_of_steps(ss)[i] == ss[i]@,
    decreases ss.len(),
{
    if ss.len() > 0 {
        lemma_views_of_steps(ss.drop_first());
        assert forall|i: int| 0 <= i < ss.len() implies #[trigger] views_of_steps(ss)[i] == ss[i]@ by {
            if i > 0 {
                assert(views_of_steps(ss)[i] == views_of_steps(ss.drop_first())[i - 1]);
                assert(ss.drop_first()[i - 1] == ss[i]);
            }
        }
    }
}

/// A parsed path: a non-empty list of steps whose first step is a
/// field (the document root is always an object).
#[derive(Debug, PartialEq, Eq)]
pub struct Path {
    pub steps: Vec<Step>,
}

impl Path {
    /// Validity: at least one step, and the first one addresses a
    /// field.
    pub open spec fn wf(&self) -> bool {
        &&& self.steps@.len() > 0
        &&& self.steps@[0] is Field
    }
}

impl View for Path {
    type V = Seq<StepView>;

    open spec fn view(&self) -> Seq<StepView> {
        views_of_steps(self.steps@)
    }
}

/// The ways a path string can be malformed.
#[derive(Clone, Copy, Debug, PartialEq, Eq, Structural)]
pub enum PathSyntaxError {
    /// The path string is empty.
    Empty,
    /// An identifier is empty: the string starts with `.`, `[` or
    /// whitespace, or two separators stand next to each other.
    EmptyIdent,
    /// A `[` has no matching `]`.
    UnmatchedBracket,
    /// The bracketed content is not a non-negative integer that fits
    /// the machine's index range.
    BadIndex,
    /// A character that can start no step follows a complete step.
    UnexpectedChar,
}

/// A character an identifier may contain.
pub open spec fn is_ident_char(c: char) -> bool {
    !(c == '.' || c == '[' || c == ']' || is_ws(c))
}

/// First index at or after `i` whose character cannot stand in an
/// identifier (or `s.len()`).
pub open spec fn ident_end(s: Seq<char>, i: int) -> int
    decreases s.len() - i,
{
    if 0 <= i < s.len() && is_ident_char(s[i]) {
        ident_end(s, i + 1)
    } else {
        i
    }
}

/// First index at or after `i` whose character is `]` (or `s.len()`).
pub open spec fn bracket_end(s: Seq<char>, i: int) -> int
    decreases s.len() - i,
{
    if 0 <= i < s.len() && s[i] != ']' {
        bracket_end(s, i + 1)
    } else {
        i
    }
}

/// Whether every character in `[i, j)` is a decimal digit.
pub open spec fn all_digits(s: Seq<char>, i: int, j: int) -> bool {
    forall|k: int| i <= k < j ==> is_digit(#[trigger] s[k])
}

/// The number written by the digits in `[i, j)`.
pub open spec fn digits_val(s: Seq<char>, i: int, j: int) -> int
    decreases j - i,
{
    if i >= j {
        0
    } else {
        digits_val(s, i, j - 1) * 10 + (s[j - 1] as int - '0' as int)
    }
}

/// Reading further digits never makes the value smaller.
pub proof fn lemma_digits_val_grows(s: Seq<char>, i: int, j: int, j2: int)
    requires
        i <= j <= j2,
        all_digits(s, i, j2),
    ensures
        digits_val(s, i, j) <= digits_val(s, i, j2),
        digits_val(s, i, j) >= 0,
    decreases j2 - i, j2 - j,
{
    if j < j2 {
        lemma_digits_val_grows(s, i, j, j2 - 1);
        lemma_digits_val_grows(s, i, j2 - 1, j2 - 1);
        assert(digits_val(s, i, j2) == digits_val(s, i, j2 - 1) * 10 + (s[j2 - 1] as int
            - '0' as int));
        assert(s[j2 - 1] as int - '0' as int >= 0);
        assert(digits_val(s, i, j2 - 1) * 10 >= digits_val(s, i, j2 - 1)) by (nonlinear_arith)
            requires digits_val(s, i, j2 - 1) >= 0;
    } else if i < j {
        lemma_digits_val_grows(s, i, j - 1, j - 1);
        assert(s[j - 1] as int - '0' as int >= 0);
        assert(digits_val(s, i, j - 1) * 10 >= 0) by (nonlinear_arith)
            requires digits_val(s, i, j - 1) >= 0;
    }
}

/// Parses the steps that follow position `i` (which sits just after a
/// complete step).
pub open spec fn sp_steps(s: Seq<char>, i: int) -> Result<Seq<StepView>, PathSyntaxError>
    decreases s.len() - i,
{
    if !(0 <= i) {
        Err(PathSyntaxError::UnexpectedChar)
    } else if i >= s.len() {
        Ok(Seq::empty())
    } else if s[i] == '.' {
        let e = ident_end(s, i + 1);
        if e == i + 1 {
            Err(PathSyntaxError::EmptyIdent)
        } else if i + 1 < e <= s.len() {
            match sp_steps(s, e) {
                Ok(rest) => Ok(seq![StepView::Field(s.subrange(i + 1, e))] + rest),
                Err(er) => Err(er),
            }
        } else {
            Err(PathSyntaxError::EmptyIdent)
        }
    } else if s[i] == '[' {
        let be = bracket_end(s, i + 1);
        if !(i + 1 <= be < s.len()) {
            Err(PathSyntaxError::UnmatchedBracket)
        } else if be == i + 1 || !all_digits(s, i + 1, be) {
            Err(PathSyntaxError::BadIndex)
        } else if digits_val(s, i + 1, be) > usize::MAX {
            Err(PathSyntaxError::BadIndex)
        } else {
            match sp_steps(s, be + 1) {
                Ok(rest) => Ok(seq![StepView::Index(digits_val(s, i + 1, be))] + rest),
                Err(er) => Err(er),
            }
        }
    } else {
        Err(PathSyntaxError::UnexpectedChar)
    }
}

/// Parses a whole path string.
pub open spec fn sp_path(s: Seq<char>) -> Result<Seq<StepView>, PathSyntaxError> {
    if s.len() == 0 {
        Err(PathSyntaxError::Empty)
    } else {
        let e = ident_end(s, 0);
        if e == 0 {
            Err(PathSyntaxError::EmptyIdent)
        } else if 0 < e <= s.len() {
            match sp_steps(s, e) {
                Ok(rest) => Ok(seq![StepView::Field(s.subrange(0, e))] + rest),
                Err(er) => Err(er),
            }
        } else {
            Err(PathSyntaxError::EmptyIdent)
        }
    }
}

/// First position at or after `i` holding no identifier character.
#[verifier::loop_isolation(true)]
fn e_ident_end(cs: &Vec<char>, i: usize) -> (r: usize)
    requires
        i <= cs.len(),
    ensures
        r as int == ident_end(cs@, i as int),
        i <= r <= cs.len(),
{
    let mut j: usize = i;
    loop
        invariant_except_break
            i <= j <= cs.len(),
            ident_end(cs@, i as int) == ident_end(cs@, j as int),
        ensures
            i <= j <= cs.len(),
            ident_end(cs@, i as int) == j as int,
        decreases cs.len() - j,
    {
        if j == cs.len() {
            break;
        }
        let c = cs[j];
        if c == '.' || c == '[' || c == ']' || c == ' ' || c == '\t' || c == '\n' || c == '\r' {
            break;
        }
        j = j + 1;
    }
    j
}

/// First position at or after `i` holding `]`, or the end.
#[verifier::loop_isolation(true)]
fn e_bracket_end(cs: &Vec<char>, i: usize) -> (r: usize)
    requires
        i <= cs.len(),
    ensures
        r as int == bracket_end(cs@, i as int),
        i <= r <= cs.len(),
{
    let mut j: usize = i;
    loop
        invariant_except_break
            i <= j <= cs.len(),
            bracket_end(cs@, i as int) == bracket_end(cs@, j as int),
        ensures
            i <= j <= cs.len(),
            bracket_end(cs@, i as int) == j as int,
        decreases cs.len() - j,
    {
        if j == cs.len() {
            break;
        }
        if cs[j] == ']' {
            break;
        }
        j = j + 1;
    }
    j
}

/// Reads the index value of the digits in `[i, j)`, or reports a
/// value beyond the machine's index range.
fn e_digits_val(cs: &Vec<char>, i: usize, j: usize) -> (r: Option<usize>)
    requires
        i <= j <= cs.len(),
        all_digits(cs@, i as int, j as int),
    ensures
        r matches Some(n) ==> digits_val(cs@, i as int, j as int) == n as int,
        r is None ==> digits_val(cs@, i as int, j as int) > usize::MAX,
{
    let mut n: usize = 0;
    let mut k: usize = i;
    while k < j
        invariant
            i <= k <= j <= cs.len(),
            all_digits(cs@, i as int, j as int),
            n as int == digits_val(cs@, i as int, k as int),
        decreases j - k,
    {
        let c = cs[k];
        let d: usize = ((c as u32) - 48) as usize;
        assert(d as int == c as int - '0' as int);
        assert(d < 10);
        if n > (usize::MAX - d) / 10 {
            proof {
                assert(digits_val(cs@, i as int, k as int + 1) == n as int * 10 + d);
                assert(n as int * 10 + d > usize::MAX) by (nonlinear_arith)
                    requires
                        n as int > (usize::MAX - d) / 10,
                        0 <= d < 10,
                ;
                lemma_digits_val_grows(cs@, i as int, k as int + 1, j as int);
            }
            return None;
        }
        n = n * 10 + d;
        k = k + 1;
    }
    Some(n)
}

/// Parses the steps after position `i`, mirroring `sp_steps`.
fn p_steps(cs: &Vec<char>, i: usize) -> (r: Result<Vec<Step>, PathSyntaxError>)
    requires
        i <= cs.len(),
    ensures
        r matches Ok(ss) ==> sp_steps(cs@, i as int) == Ok::<_, PathSyntaxError>(
            views_of_steps(ss@),
        ),
        r matches Err(e) ==> sp_steps(cs@, i as int) == Err::<Seq<StepView>, _>(e),
    decreases cs.len() - i,
{
    if i == cs.len() {
        let ss: Vec<Step> = Vec::new();
        assert(views_of_steps(ss@) =~= Seq::<StepView>::empty());
        return Ok(ss);
    }
    let c = cs[i];
    if c == '.' {
        let e = e_ident_end(cs, i + 1);
        if e == i + 1 {
            return Err(PathSyntaxError::EmptyIdent);
        }
        let mut name: Vec<char> = Vec::new();
        let mut k: usize = i + 1;
        while k < e
            invariant
                i + 1 <= k <= e <= cs.len(),
                name@ == cs@.subrange(i as int + 1, k as int),
            decreases e - k,
        {
            name.push(cs[k]);
            k = k + 1;
            assert(name@ =~= cs@.subrange(i as int + 1, k as int));
        }
        let name_str = crate::textutil::chars_to_string(&name);
        match p_steps(cs, e) {
            Ok(mut rest) => {
                let ghost old_rest = rest@;
                rest.insert(0, Step::Field(name_str));
                proof {
                    assert(rest@.drop_first() =~= old_rest);
                    assert(rest@[0]@ == StepView::Field(cs@.subrange(i as int + 1, e as int)));
                    assert(views_of_steps(rest@) =~= seq![
                        StepView::Field(cs@.subrange(i as int + 1, e as int)),
                    ] + views_of_steps(old_rest));
                }
                Ok(rest)
            },
            Err(er) => Err(er),
        }
    } else if c == '[' {
        let be = e_bracket_end(cs, i + 1);
        if be == cs.len() {
            return Err(PathSyntaxError::UnmatchedBracket);
        }
        if be == i + 1 {
            return Err(PathSyntaxError::BadIndex);
        }
        let mut k: usize = i + 1;
        while k < be
            invariant
                i + 1 <= k <= be,
                all_digits(cs@, i as int + 1, k as int),
            decreases be - k,
        {
            let c2 = cs[k];
            if !('0' <= c2 && c2 <= '9') {
                proof {
                    assert(!is_digit(cs@[k as int]));
                    assert(!all_digits(cs@, i as int + 1, be as int));
                }
                return Err(PathSyntaxError::BadIndex);
            }
            k = k + 1;
        }
        match e_digits_val(cs, i + 1, be) {
            Some(n) => match p_steps(cs, be + 1) {
                Ok(mut rest) => {
                    let ghost old_rest = rest@;
                    rest.insert(0, Step::Index(n));
                    proof {
                        assert(rest@.drop_first() =~= old_rest);
                        assert(rest@[0]@ == StepView::Index(n as int));
                        assert(views_of_steps(rest@) =~= seq![StepView::Index(n as int)]
                            + views_of_steps(old_rest));
                    }
                    Ok(rest)
                },
                Err(er) => Err(er),
            },
            None => Err(PathSyntaxError::BadIndex),
        }
    } else {
        Err(PathSyntaxError::UnexpectedChar)
    }
}

/// Parses a user-typed path string into a `Path`.
pub fn parse_path(text: &str) -> (r: Result<Path, PathSyntaxError>)
    ensures
        r matches Ok(p) ==> sp_path(text@) == Ok::<_, PathSyntaxError>(p@) && p.wf(),
        r matches Err(e) ==> sp_path(text@) == Err::<Seq<StepView>, _>(e),
{
    let cs = crate::textutil::str_chars(text);
    if cs.len() == 0 {
        return Err(PathSyntaxError::Empty);
    }
    let e = e_ident_end(&cs, 0);
    if e == 0 {
        return Err(PathSyntaxError::EmptyIdent);
    }
    let mut name: Vec<char> = Vec::new();
    let mut k: usize = 0;
    while k < e
        invariant
            k <= e <= cs.len(),
            name@ == cs@.subrange(0, k as int),
        decreases e - k,
    {
        name.push(cs[k]);
        k = k + 1;
        assert(name@ =~= cs@.subrange(0, k as int));
    }
    let name_str = crate::textutil::chars_to_string(&name);
    match p_steps(&cs, e) {
        Ok(mut rest) => {
            let ghost old_rest = rest@;
            rest.insert(0, Step::Field(name_str));
            proof {
                assert(rest@.drop_first() =~= old_rest);
                assert(rest@[0]@ == StepView::Field(cs@.subrange(0, e as int)));
                assert(views_of_steps(rest@) =~= seq![StepView::Field(cs@.subrange(0, e as int))]
                    + views_of_steps(old_rest));
                lemma_views_of_steps(rest@);
            }
            Ok(Path { steps: rest })
        },
        Err(er) => Err(er),
    }
}

} // verus!

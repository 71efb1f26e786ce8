use vstd::prelude::*;

use crate::expr::{eval, resolve_set, ExprTree, ResolveError, SetExpr};
use crate::idset::IdSet;
use crate::registry::{RegistryMap, RoleRegistry};
use crate::text::{
    chars_of, has_at, run_len, run_length, word_at, CharClass,
};

verus! {

/// The three binary operators of the expression language.
#[derive(Clone, Copy, PartialEq, Eq, Debug)]
pub enum SetOp {
    Union,
    Intersection,
    Difference,
}

pub open spec fn or_word() -> Seq<char> {
    seq![' ', 'O', 'R', ' ']
}

pub open spec fn and_word() -> Seq<char> {
    seq![' ', 'A', 'N', 'D', ' ']
}

pub open spec fn except_word() -> Seq<char> {
    seq![' ', 'E', 'X', 'C', 'E', 'P', 'T', ' ']
}

/// The operator keyword, with its surrounding single spaces, that stands at `q`, and its length.
pub open spec fn op_at(s: Seq<char>, q: int) -> Option<(SetOp, nat)> {
    if has_at(s, q, or_word()) {
        Some((SetOp::Union, 4))
    } else if has_at(s, q, and_word()) {
        Some((SetOp::Intersection, 5))
    } else if has_at(s, q, except_word()) {
        Some((SetOp::Difference, 8))
    } else {
        None
    }
}

/// The tree node of an operator.
pub open spec fn node(op: SetOp, l: ExprTree, r: ExprTree) -> ExprTree {
    match op {
        SetOp::Union => ExprTree::Union(Box::new(l), Box::new(r)),
        SetOp::Intersection => ExprTree::Intersection(Box::new(l), Box::new(r)),
        SetOp::Difference => ExprTree::Difference(Box::new(l), Box::new(r)),
    }
}

/// The grammar, read from position `p` of `s`, first matching alternative first:
///
///   expr  := space* "(" expr KEYWORD expr ")"   with KEYWORD one of " OR ", " AND ", " EXCEPT "
///          | space* "(" expr space* ")"
///          | label
///   label := one or more characters other than white space, "(" and ")"
///
/// White space may stand before any parenthesized group, and before the closing
/// parenthesis of a group that holds a single expression; a keyword takes exactly one
/// space on each side. A label is never checked against a registry here.
///
/// The result is the tree and the number of characters it took.
pub open spec fn parse_at(s: Seq<char>, p: int) -> Option<(ExprTree, nat)>
    decreases s.len() - p,
{
    if p < 0 || p >= s.len() {
        None
    } else {
        let g = p + run_len(s, p, CharClass::Space);
        if g + 1 < s.len() && s[g] == '(' {
            match parse_at(s, g + 1) {
                None => None,
                Some((l, c1)) => {
                    let q = g + 1 + c1;
                    let binary = match op_at(s, q) {
                        Some((op, k)) => if q + k < s.len() {
                            match parse_at(s, q + k) {
                                Some((r, c2)) => {
                                    let t = q + k + c2;
                                    if t < s.len() && s[t] == ')' {
                                        Some((node(op, l, r), (t + 1 - p) as nat))
                                    } else {
                                        None
                                    }
                                },
                                None => None,
                            }
                        } else {
                            None
                        },
                        None => None,
                    };
                    match binary {
                        Some(x) => Some(x),
                        None => {
                            let t = q + run_len(s, q, CharClass::Space);
                            if t < s.len() && s[t] == ')' {
                                Some((l, (t + 1 - p) as nat))
                            } else {
                                None
                            }
                        },
                    }
                },
            }
        } else if run_len(s, p, CharClass::LabelChar) > 0 {
            let n = run_len(s, p, CharClass::LabelChar);
            Some((ExprTree::Label(s.subrange(p, p + n)), n))
        } else {
            None
        }
    }
}

/// `s` is a whole expression: a parse from the start, followed by white space alone.
pub open spec fn parses_whole(s: Seq<char>, t: ExprTree) -> bool {
    exists|c: nat|
        parse_at(s, 0) == Some((t, c)) && #[trigger] (c + run_len(s, c as int, CharClass::Space))
            == s.len()
}

/// Why an expression text is refused, in mathematical form.
pub enum SyntaxFailure {
    TrailingInput(Seq<char>),
    NoMatch(Seq<char>),
}

/// The whole-text reading of an expression: the tree, or why there is none.
pub open spec fn read_whole(s: Seq<char>) -> Result<ExprTree, SyntaxFailure> {
    match parse_at(s, 0) {
        None => Err(SyntaxFailure::NoMatch(s)),
        Some((t, c)) => if c + run_len(s, c as int, CharClass::Space) == s.len() {
            Ok(t)
        } else {
            Err(SyntaxFailure::TrailingInput(s.subrange(c as int, s.len() as int)))
        },
    }
}

/// Why an expression text was refused.
#[derive(Debug, Clone, PartialEq, Eq)]
pub enum SyntaxError {
    /// A valid expression was followed by this text, which is not all white space.
    TrailingInput(String),
    /// No production matches this text.
    NoMatch(String),
}

impl View for SyntaxError {
    type V = SyntaxFailure;

    open spec fn view(&self) -> SyntaxFailure {
        match self {
            SyntaxError::TrailingInput(t) => SyntaxFailure::TrailingInput(t@),
            SyntaxError::NoMatch(t) => SyntaxFailure::NoMatch(t@),
        }
    }
}

/// Whether an executable whole-text reading agrees with `read_whole`.
pub open spec fn read_agrees(r: Result<SetExpr, SyntaxError>, v: Result<ExprTree, SyntaxFailure>) -> bool {
    match (r, v) {
        (Ok(e), Ok(t)) => e@ == t,
        (Err(x), Err(f)) => x@ == f,
        _ => false,
    }
}

/// The characters of the three keywords.
struct Keywords {
    or_w: Vec<char>,
    and_w: Vec<char>,
    except_w: Vec<char>,
}

impl Keywords {
    spec fn wf(&self) -> bool {
        self.or_w@ == or_word() && self.and_w@ == and_word() && self.except_w@ == except_word()
    }

    fn new() -> (r: Keywords)
        ensures
            r.wf(),
    {
        let or_w = chars_of(" OR ");
        let and_w = chars_of(" AND ");
        let except_w = chars_of(" EXCEPT ");
        proof {
            reveal_strlit(" OR ");
            reveal_strlit(" AND ");
            reveal_strlit(" EXCEPT ");
        }
        assert(or_w@ =~= or_word());
        assert(and_w@ =~= and_word());
        assert(except_w@ =~= except_word());
        Keywords { or_w, and_w, except_w }
    }

    fn op_at(&self, s: &Vec<char>, q: usize) -> (r: Option<(SetOp, usize)>)
        requires
            self.wf(),
        ensures
            match op_at(s@, q as int) {
                Some((op, k)) => r == Some((op, k as usize)),
                None => r is None,
            },
    {
        if word_at(s, q, &self.or_w) {
            Some((SetOp::Union, 4))
        } else if word_at(s, q, &self.and_w) {
            Some((SetOp::Intersection, 5))
        } else if word_at(s, q, &self.except_w) {
            Some((SetOp::Difference, 8))
        } else {
            None
        }
    }
}

fn make_node(op: SetOp, l: SetExpr, r: SetExpr) -> (e: SetExpr)
    ensures
        e@ == node(op, l@, r@),
{
    match op {
        SetOp::Union => SetExpr::Union(Box::new(l), Box::new(r)),
        SetOp::Intersection => SetExpr::Intersection(Box::new(l), Box::new(r)),
        SetOp::Difference => SetExpr::Difference(Box::new(l), Box::new(r)),
    }
}

/// An executable parse result agrees with `v` and takes at most `room` characters.
spec fn read_as(r: Option<(SetExpr, usize)>, v: Option<(ExprTree, nat)>, room: int) -> bool {
    match (r, v) {
        (Some((e, c)), Some((t, n))) => e@ == t && c == n && c <= room,
        (None, None) => true,
        _ => false,
    }
}

/// Executable form of `parse_at`.
fn parse_from(input: &str, s: &Vec<char>, kw: &Keywords, p: usize) -> (r: Option<(SetExpr, usize)>)
    requires
        s@ == input@,
        kw.wf(),
    ensures
        read_as(r, parse_at(s@, p as int), s@.len() - p),
    decreases s@.len() - p,
{
    let n = s.len();
    if p >= n {
        return None;
    }
    let g = p + run_length(s, p, CharClass::Space);
    if g < n - 1 && s[g] == '(' {
        match parse_from(input, s, kw, g + 1) {
            None => None,
            Some((l, c1)) => {
                let q = g + 1 + c1;
                match kw.op_at(s, q) {
                    Some((op, k)) => {
                        if k < n - q {
                            match parse_from(input, s, kw, q + k) {
                                Some((r, c2)) => {
                                    let t = q + k + c2;
                                    if t < n && s[t] == ')' {
                                        return Some((make_node(op, l, r), t + 1 - p));
                                    }
                                },
                                None => {},
                            }
                        }
                    },
                    None => {},
                }
                let t = q + run_length(s, q, CharClass::Space);
                if t < n && s[t] == ')' {
                    Some((l, t + 1 - p))
                } else {
                    None
                }
            },
        }
    } else {
        let m = run_length(s, p, CharClass::LabelChar);
        if m > 0 {
            let label = input.substring_char(p, p + m).to_owned();
            Some((SetExpr::Label(label), m))
        } else {
            None
        }
    }
}

/// Reads one expression from the start of `input`, returning the text after it and the tree.
pub fn parse_expr(input: &str) -> (r: Result<(&str, SetExpr), SyntaxError>)
    ensures
        match parse_at(input@, 0) {
            Some((t, c)) => match r {
                Ok((rest, e)) => e@ == t && rest@ == input@.subrange(c as int, input@.len() as int),
                Err(_) => false,
            },
            None => r is Err && r->Err_0 == SyntaxError::NoMatch(r->Err_0->NoMatch_0) && r->Err_0->NoMatch_0@
                == input@,
        },
{
    let s = chars_of(input);
    let kw = Keywords::new();
    match parse_from(input, &s, &kw, 0) {
        Some((e, c)) => Ok((input.substring_char(c, s.len()), e)),
        None => Err(SyntaxError::NoMatch(input.to_owned())),
    }
}

/// Reads a whole expression: one expression, then nothing but white space.
pub fn parse_complete(input: &str) -> (r: Result<SetExpr, SyntaxError>)
    ensures
        r is Ok <==> exists|t: ExprTree| parses_whole(input@, t),
        r is Ok ==> parses_whole(input@, r->Ok_0@),
        read_agrees(r, read_whole(input@)),
{
    let s = chars_of(input);
    let kw = Keywords::new();
    match parse_from(input, &s, &kw, 0) {
        None => Err(SyntaxError::NoMatch(input.to_owned())),
        Some((e, c)) => {
            let w = run_length(&s, c, CharClass::Space);
            if c + w == s.len() {
                let ghost cn = c as nat;
                assert(parse_at(input@, 0) == Some((e@, cn)));
                assert((cn + run_len(input@, cn as int, CharClass::Space)) == input@.len());
                assert(parses_whole(input@, e@));
                Ok(e)
            } else {
                proof {
                    if exists|t: ExprTree| parses_whole(input@, t) {
                        let t = choose|t: ExprTree| parses_whole(input@, t);
                        let c2 = choose|c2: nat| parse_at(input@, 0) == Some((t, c2)) && #[trigger] (c2 + run_len(
                            input@,
                            c2 as int,
                            CharClass::Space,
                        )) == input@.len();
                        assert(c2 == c);
                    }
                }
                Err(SyntaxError::TrailingInput(input.substring_char(c, s.len()).to_owned()))
            }
        },
    }
}

/// Why a single expression could not be turned into a set.
#[derive(Debug, Clone, PartialEq, Eq)]
pub enum ExprError {
    Syntax(SyntaxError),
    UnknownLabel(String),
}

/// The outcome of reading and evaluating one expression text against a registry.
pub enum ExprOutcome {
    Resolved(Set<Seq<char>>),
    SyntaxFailed(SyntaxFailure),
    UnknownLabel(Seq<char>),
}

pub open spec fn expr_outcome(s: Seq<char>, reg: RegistryMap) -> ExprOutcome {
    match read_whole(s) {
        Err(f) => ExprOutcome::SyntaxFailed(f),
        Ok(t) => match eval(t, reg) {
            Ok(x) => ExprOutcome::Resolved(x),
            Err(l) => ExprOutcome::UnknownLabel(l),
        },
    }
}

/// Whether an executable result agrees with `expr_outcome`.
pub open spec fn expr_agrees(r: Result<IdSet, ExprError>, o: ExprOutcome) -> bool {
    match (r, o) {
        (Ok(x), ExprOutcome::Resolved(v)) => x.wf() && x@ == v,
        (Err(ExprError::Syntax(e)), ExprOutcome::SyntaxFailed(f)) => e@ == f,
        (Err(ExprError::UnknownLabel(l)), ExprOutcome::UnknownLabel(m)) => l@ == m,
        _ => false,
    }
}

/// Reads a whole expression and evaluates it against `set_map`.
pub fn parse(input: &str, set_map: &RoleRegistry) -> (r: Result<IdSet, ExprError>)
    requires
        set_map.wf(),
    ensures
        expr_agrees(r, expr_outcome(input@, set_map@)),
{
    match parse_complete(input) {
        Err(e) => Err(ExprError::Syntax(e)),
        Ok(e) => match resolve_set(e, set_map) {
            Ok(x) => Ok(x),
            Err(ResolveError::UnknownLabel(l)) => Err(ExprError::UnknownLabel(l)),
        },
    }
}

} // verus!

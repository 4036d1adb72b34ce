//! Recursive-descent parser for the query grammar.
//!
//! Grammar, lowest to highest precedence (`&&` and `||` are left-associative,
//! a comparison is non-chaining, whitespace is allowed before operators,
//! before operands that follow an operator and around brackets):
//!
//! ```text
//! expr        := or_expr
//! or_expr     := and_expr ( "||" and_expr )*
//! and_expr    := comparison ( "&&" comparison )*
//! comparison  := atom ( cmp_op atom )?
//! cmp_op      := "==" | "!=" | "<=" | ">=" | "<" | ">"
//! atom        := integer | var_with_predicate | "(" expr ")"
//! var_with_predicate := var_path predicate?
//! predicate   := "[" expr "]"
//! var_path    := identifier ( "." identifier )*
//! identifier  := (alpha | "_" | "$") (alnum | "_" | "-")*
//! integer     := digit+
//! ```
//!
//! `alpha` and `alnum` are read as ASCII classes throughout.
//!
//! The spec functions `spec_parse_*` are the grammar's deterministic
//! interpretation of a text; each executable parser returns exactly what the
//! corresponding spec function denotes.

use vstd::prelude::*;
use vstd::string::StrSliceExecFns;
use crate::ast::{Expr, SpecExpr};
use crate::text::{digits_to_u64, digits_val, is_alpha_char, is_digit_char, is_space_char};

verus! {

/// Why a parse failed.
#[derive(Debug, Clone, Copy, PartialEq, Eq, Structural)]
pub enum ParseErrorKind {
    /// The text does not derive from the grammar at the reported position.
    Syntax,
    /// A prefix parsed, but input remains from the reported position on.
    TrailingInput,
}

/// A parse failure. A `Syntax` failure carries the position where the
/// failed construct starts; a `TrailingInput` failure carries the position
/// where the unconsumed remainder starts.
#[derive(Debug, Clone, Copy, PartialEq, Eq, Structural)]
pub struct ParseError {
    pub kind: ParseErrorKind,
    pub pos: usize,
}

/// A comparison operator token.
#[derive(Debug, Clone, Copy, PartialEq, Eq, Structural)]
pub enum CmpOp {
    Equal,
    NotEqual,
    LessThanOrEqual,
    GreaterThanOrEqual,
    LessThan,
    GreaterThan,
}

pub open spec fn is_ident_start_char(c: char) -> bool {
    is_alpha_char(c) || c == '_' || c == '$'
}

pub open spec fn is_ident_cont_char(c: char) -> bool {
    is_alpha_char(c) || is_digit_char(c) || c == '_' || c == '-'
}

/// First position at or after `pos` that does not hold whitespace.
pub open spec fn skip_ws(s: Seq<char>, pos: int) -> int
    decreases s.len() - pos
        when 0 <= pos <= s.len()
{
    if pos < s.len() && is_space_char(s[pos]) {
        skip_ws(s, pos + 1)
    } else {
        pos
    }
}

/// First position at or after `pos` that does not hold a decimal digit.
pub open spec fn scan_digits(s: Seq<char>, pos: int) -> int
    decreases s.len() - pos
        when 0 <= pos <= s.len()
{
    if pos < s.len() && is_digit_char(s[pos]) {
        scan_digits(s, pos + 1)
    } else {
        pos
    }
}

/// First position at or after `pos` that cannot continue an identifier.
pub open spec fn scan_ident_cont(s: Seq<char>, pos: int) -> int
    decreases s.len() - pos
        when 0 <= pos <= s.len()
{
    if pos < s.len() && is_ident_cont_char(s[pos]) {
        scan_ident_cont(s, pos + 1)
    } else {
        pos
    }
}

/// End of the identifier starting at `pos`, if one starts there.
pub open spec fn spec_ident_end(s: Seq<char>, pos: int) -> Option<int> {
    if 0 <= pos < s.len() && is_ident_start_char(s[pos]) {
        Some(scan_ident_cont(s, pos + 1))
    } else {
        None
    }
}

/// Extends a variable path with as many `"." identifier` tails as derive.
pub open spec fn spec_path_end_from(s: Seq<char>, pos: int) -> int
    decreases s.len() - pos
        when 0 <= pos <= s.len()
{
    if pos < s.len() && s[pos] == '.' {
        match spec_ident_end(s, pos + 1) {
            Some(e) => if pos + 1 < e && e <= s.len() {
                spec_path_end_from(s, e)
            } else {
                pos
            },
            None => pos,
        }
    } else {
        pos
    }
}

/// End of the dotted variable path starting at `pos`, if one starts there.
pub open spec fn spec_var_path_end(s: Seq<char>, pos: int) -> Option<int> {
    match spec_ident_end(s, pos) {
        Some(e) => if pos < e && e <= s.len() {
            Some(spec_path_end_from(s, e))
        } else {
            None
        },
        None => None,
    }
}

/// The integer literal starting at `pos`: its digits read most significant
/// first, accepted only when the value fits in an `i64`.
pub open spec fn spec_parse_number(s: Seq<char>, pos: int) -> Option<(SpecExpr, int)> {
    if 0 <= pos < s.len() && is_digit_char(s[pos]) {
        let end = scan_digits(s, pos);
        if pos <= end <= s.len() {
            let v = digits_val(s.subrange(pos, end));
            if v <= i64::MAX {
                Some((SpecExpr::Integer(v), end))
            } else {
                None
            }
        } else {
            None
        }
    } else {
        None
    }
}

/// The comparison operator starting at `pos`, if any, with the position after
/// it. Two-character operators win over their one-character prefixes.
pub open spec fn spec_cmp_op_at(s: Seq<char>, pos: int) -> Option<(CmpOp, int)> {
    if 0 <= pos && pos + 2 <= s.len() && s[pos] == '=' && s[pos + 1] == '=' {
        Some((CmpOp::Equal, pos + 2))
    } else if 0 <= pos && pos + 2 <= s.len() && s[pos] == '!' && s[pos + 1] == '=' {
        Some((CmpOp::NotEqual, pos + 2))
    } else if 0 <= pos && pos + 2 <= s.len() && s[pos] == '<' && s[pos + 1] == '=' {
        Some((CmpOp::LessThanOrEqual, pos + 2))
    } else if 0 <= pos && pos + 2 <= s.len() && s[pos] == '>' && s[pos + 1] == '=' {
        Some((CmpOp::GreaterThanOrEqual, pos + 2))
    } else if 0 <= pos && pos < s.len() && s[pos] == '<' {
        Some((CmpOp::LessThan, pos + 1))
    } else if 0 <= pos && pos < s.len() && s[pos] == '>' {
        Some((CmpOp::GreaterThan, pos + 1))
    } else {
        None
    }
}

/// The comparison node built from an operator and its two operands.
pub open spec fn spec_mk_cmp(op: CmpOp, l: SpecExpr, r: SpecExpr) -> SpecExpr {
    match op {
        CmpOp::Equal => SpecExpr::Equal(Box::new(l), Box::new(r)),
        CmpOp::NotEqual => SpecExpr::NotEqual(Box::new(l), Box::new(r)),
        CmpOp::LessThanOrEqual => SpecExpr::LessThanOrEqual(Box::new(l), Box::new(r)),
        CmpOp::GreaterThanOrEqual => SpecExpr::GreaterThanOrEqual(Box::new(l), Box::new(r)),
        CmpOp::LessThan => SpecExpr::LessThan(Box::new(l), Box::new(r)),
        CmpOp::GreaterThan => SpecExpr::GreaterThan(Box::new(l), Box::new(r)),
    }
}

/// An atom: an integer literal, a variable path with an optional bracketed
/// predicate, or a parenthesised expression.
pub open spec fn spec_parse_atom(s: Seq<char>, pos: int) -> Option<(SpecExpr, int)>
    decreases s.len() - pos, 1int
        when 0 <= pos <= s.len()
{
    if pos < s.len() && is_digit_char(s[pos]) {
        spec_parse_number(s, pos)
    } else if pos < s.len() && is_ident_start_char(s[pos]) {
        spec_parse_var_with_predicate(s, pos)
    } else {
        let q = skip_ws(s, pos);
        if pos <= q && q < s.len() && s[q] == '(' {
            match spec_parse_expr(s, q + 1) {
                Some((e, p)) => if q + 1 <= p && p <= s.len() {
                    let r = skip_ws(s, p);
                    if p <= r && r < s.len() && s[r] == ')' {
                        Some((e, r + 1))
                    } else {
                        None
                    }
                } else {
                    None
                },
                None => None,
            }
        } else {
            None
        }
    }
}

/// A variable path, as a `Predicate` node when a bracketed predicate follows
/// and as a `Variable` node otherwise.
pub open spec fn spec_parse_var_with_predicate(s: Seq<char>, pos: int) -> Option<(SpecExpr, int)>
    decreases s.len() - pos, 0int
        when 0 <= pos <= s.len()
{
    match spec_var_path_end(s, pos) {
        Some(end) => if pos < end && end <= s.len() {
            let path = s.subrange(pos, end);
            match spec_parse_predicate(s, end) {
                Some((p, q)) => Some((SpecExpr::Predicate(path, Box::new(p)), q)),
                None => Some((SpecExpr::Variable(path), end)),
            }
        } else {
            None
        },
        None => None,
    }
}

/// A bracketed predicate: `[` expression `]`, whitespace allowed before each
/// bracket.
pub open spec fn spec_parse_predicate(s: Seq<char>, pos: int) -> Option<(SpecExpr, int)>
    decreases s.len() - pos, 0int
        when 0 <= pos <= s.len()
{
    let q = skip_ws(s, pos);
    if pos <= q && q < s.len() && s[q] == '[' {
        match spec_parse_expr(s, q + 1) {
            Some((e, p)) => if q + 1 <= p && p <= s.len() {
                let r = skip_ws(s, p);
                if p <= r && r < s.len() && s[r] == ']' {
                    Some((e, r + 1))
                } else {
                    None
                }
            } else {
                None
            },
            None => None,
        }
    } else {
        None
    }
}

/// A comparison: an atom, optionally followed by one comparison operator and
/// one atom. When the operator or its right operand does not derive, the left
/// atom stands alone and nothing after it is consumed.
pub open spec fn spec_parse_comparison(s: Seq<char>, pos: int) -> Option<(SpecExpr, int)>
    decreases s.len() - pos, 2int
        when 0 <= pos <= s.len()
{
    match spec_parse_atom(s, pos) {
        Some((l, p)) => if pos < p && p <= s.len() {
            let q = skip_ws(s, p);
            if p <= q && q <= s.len() {
                match spec_cmp_op_at(s, q) {
                    Some((op, q2)) => if q2 <= s.len() {
                        let r = skip_ws(s, q2);
                        if pos < r && r <= s.len() {
                            match spec_parse_atom(s, r) {
                                Some((rt, p2)) => Some((spec_mk_cmp(op, l, rt), p2)),
                                None => Some((l, p)),
                            }
                        } else {
                            Some((l, p))
                        }
                    } else {
                        Some((l, p))
                    },
                    None => Some((l, p)),
                }
            } else {
                None
            }
        } else {
            None
        },
        None => None,
    }
}

/// A conjunction: comparisons folded left-to-right over `&&`.
pub open spec fn spec_parse_and(s: Seq<char>, pos: int) -> Option<(SpecExpr, int)>
    decreases s.len() - pos, 3int
        when 0 <= pos <= s.len()
{
    match spec_parse_comparison(s, pos) {
        Some((first, p)) => if pos < p && p <= s.len() {
            spec_parse_and_rest(s, p, first)
        } else {
            None
        },
        None => None,
    }
}

/// Folds further `"&&" comparison` tails into `acc`; a tail that does not
/// derive is left unconsumed.
pub open spec fn spec_parse_and_rest(s: Seq<char>, pos: int, acc: SpecExpr) -> Option<
    (SpecExpr, int),
>
    decreases s.len() - pos, 0int
        when 0 <= pos <= s.len()
{
    let q = skip_ws(s, pos);
    if pos <= q && q + 2 <= s.len() && s[q] == '&' && s[q + 1] == '&' {
        let r = skip_ws(s, q + 2);
        if q + 2 <= r && r <= s.len() {
            match spec_parse_comparison(s, r) {
                Some((e, p2)) => if pos < p2 && p2 <= s.len() {
                    spec_parse_and_rest(s, p2, SpecExpr::And(Box::new(acc), Box::new(e)))
                } else {
                    Some((acc, pos))
                },
                None => Some((acc, pos)),
            }
        } else {
            Some((acc, pos))
        }
    } else {
        Some((acc, pos))
    }
}

/// A disjunction: conjunctions folded left-to-right over `||`.
pub open spec fn spec_parse_or(s: Seq<char>, pos: int) -> Option<(SpecExpr, int)>
    decreases s.len() - pos, 4int
        when 0 <= pos <= s.len()
{
    match spec_parse_and(s, pos) {
        Some((first, p)) => if pos < p && p <= s.len() {
            spec_parse_or_rest(s, p, first)
        } else {
            None
        },
        None => None,
    }
}

/// Folds further `"||" and_expr` tails into `acc`; a tail that does not
/// derive is left unconsumed.
pub open spec fn spec_parse_or_rest(s: Seq<char>, pos: int, acc: SpecExpr) -> Option<
    (SpecExpr, int),
>
    decreases s.len() - pos, 0int
        when 0 <= pos <= s.len()
{
    let q = skip_ws(s, pos);
    if pos <= q && q + 2 <= s.len() && s[q] == '|' && s[q + 1] == '|' {
        let r = skip_ws(s, q + 2);
        if q + 2 <= r && r <= s.len() {
            match spec_parse_and(s, r) {
                Some((e, p2)) => if pos < p2 && p2 <= s.len() {
                    spec_parse_or_rest(s, p2, SpecExpr::Or(Box::new(acc), Box::new(e)))
                } else {
                    Some((acc, pos))
                },
                None => Some((acc, pos)),
            }
        } else {
            Some((acc, pos))
        }
    } else {
        Some((acc, pos))
    }
}

/// A whole expression.
pub open spec fn spec_parse_expr(s: Seq<char>, pos: int) -> Option<(SpecExpr, int)>
    decreases s.len() - pos, 5int
        when 0 <= pos <= s.len()
{
    spec_parse_or(s, pos)
}

/// A whole query: an expression that consumes the text exactly.
pub open spec fn spec_parse_full(s: Seq<char>) -> Option<SpecExpr> {
    match spec_parse_expr(s, 0) {
        Some((e, p)) => if p == s.len() {
            Some(e)
        } else {
            None
        },
        None => None,
    }
}

fn is_space(c: char) -> (r: bool)
    ensures
        r == is_space_char(c),
{
    c == ' ' || c == '\t' || c == '\n' || c == '\r'
}

fn is_ident_start(c: char) -> (r: bool)
    ensures
        r == is_ident_start_char(c),
{
    (c >= 'a' && c <= 'z') || (c >= 'A' && c <= 'Z') || c == '_' || c == '$'
}

fn is_ident_cont(c: char) -> (r: bool)
    ensures
        r == is_ident_cont_char(c),
{
    (c >= 'a' && c <= 'z') || (c >= 'A' && c <= 'Z') || (c >= '0' && c <= '9') || c == '_' || c
        == '-'
}

#[verifier::loop_isolation(false)]
fn ws(input: &str, pos: usize) -> (r: usize)
    requires
        pos <= input@.len(),
    ensures
        r as int == skip_ws(input@, pos as int),
        pos <= r <= input@.len(),
{
    let len = input.unicode_len();
    let mut i: usize = pos;
    loop
        invariant
            pos <= i <= len,
            skip_ws(input@, pos as int) == skip_ws(input@, i as int),
        decreases len - i,
    {
        if i >= len {
            return i;
        }
        let c = input.get_char(i);
        if !is_space(c) {
            return i;
        }
        i = i + 1;
    }
}

#[verifier::loop_isolation(false)]
fn scan_digits_end(input: &str, pos: usize) -> (r: usize)
    requires
        pos <= input@.len(),
    ensures
        r as int == scan_digits(input@, pos as int),
        pos <= r <= input@.len(),
        forall|k: int| pos <= k < r ==> is_digit_char(input@[k]),
{
    let len = input.unicode_len();
    let mut i: usize = pos;
    loop
        invariant
            pos <= i <= len,
            scan_digits(input@, pos as int) == scan_digits(input@, i as int),
            forall|k: int| pos <= k < i ==> is_digit_char(input@[k]),
        decreases len - i,
    {
        if i >= len {
            return i;
        }
        let c = input.get_char(i);
        if !(c >= '0' && c <= '9') {
            return i;
        }
        i = i + 1;
    }
}

#[verifier::loop_isolation(false)]
fn scan_ident_cont_end(input: &str, pos: usize) -> (r: usize)
    requires
        pos <= input@.len(),
    ensures
        r as int == scan_ident_cont(input@, pos as int),
        pos <= r <= input@.len(),
{
    let len = input.unicode_len();
    let mut i: usize = pos;
    loop
        invariant
            pos <= i <= len,
            scan_ident_cont(input@, pos as int) == scan_ident_cont(input@, i as int),
        decreases len - i,
    {
        if i >= len {
            return i;
        }
        let c = input.get_char(i);
        if !is_ident_cont(c) {
            return i;
        }
        i = i + 1;
    }
}

/// Parses an integer literal.
pub fn parse_number(input: &str, pos: usize) -> (r: Result<(Expr, usize), ParseError>)
    requires
        pos <= input@.len(),
    ensures
        match r {
            Ok((e, p)) => spec_parse_number(input@, pos as int) == Some((e@, p as int)) && pos < p
                <= input@.len(),
            Err(pe) => spec_parse_number(input@, pos as int) is None && pe == (ParseError { kind: ParseErrorKind::Syntax, pos }),
        },
{
    let len = input.unicode_len();
    if pos >= len {
        return Err(ParseError { kind: ParseErrorKind::Syntax, pos });
    }
    let c0 = input.get_char(pos);
    if !(c0 >= '0' && c0 <= '9') {
        return Err(ParseError { kind: ParseErrorKind::Syntax, pos });
    }
    let end = scan_digits_end(input, pos + 1);
    match digits_to_u64(input, pos, end) {
        Some(v) => {
            if v <= 9223372036854775807u64 {
                Ok((Expr::Integer(v as i64), end))
            } else {
                Err(ParseError { kind: ParseErrorKind::Syntax, pos })
            }
        },
        None => Err(ParseError { kind: ParseErrorKind::Syntax, pos }),
    }
}

/// Parses one identifier, returning the matched text.
pub fn parse_identifier<'a>(input: &'a str, pos: usize) -> (r: Result<
    (&'a str, usize),
    ParseError,
>)
    requires
        pos <= input@.len(),
    ensures
        match r {
            Ok((t, p)) => spec_ident_end(input@, pos as int) == Some(p as int) && pos < p
                <= input@.len() && t@ == input@.subrange(pos as int, p as int),
            Err(pe) => spec_ident_end(input@, pos as int) is None && pe == (ParseError { kind: ParseErrorKind::Syntax, pos }),
        },
{
    let len = input.unicode_len();
    if pos >= len {
        return Err(ParseError { kind: ParseErrorKind::Syntax, pos });
    }
    let c0 = input.get_char(pos);
    if !is_ident_start(c0) {
        return Err(ParseError { kind: ParseErrorKind::Syntax, pos });
    }
    let end = scan_ident_cont_end(input, pos + 1);
    Ok((input.substring_char(pos, end), end))
}

/// Parses a dotted variable path, returning the matched text.
#[verifier::loop_isolation(false)]
pub fn parse_variable_path(input: &str, pos: usize) -> (r: Result<(String, usize), ParseError>)
    requires
        pos <= input@.len(),
    ensures
        match r {
            Ok((t, p)) => spec_var_path_end(input@, pos as int) == Some(p as int) && pos < p
                <= input@.len() && t@ == input@.subrange(pos as int, p as int),
            Err(pe) => spec_var_path_end(input@, pos as int) is None && pe == (ParseError { kind: ParseErrorKind::Syntax, pos }),
        },
{
    let first = match parse_identifier(input, pos) {
        Ok(x) => x,
        Err(e) => {
            return Err(e);
        },
    };
    let len = input.unicode_len();
    let mut cur: usize = first.1;
    loop
        invariant
            pos < cur <= len,
            spec_path_end_from(input@, cur as int) == spec_path_end_from(input@, first.1 as int),
        decreases len - cur,
    {
        if cur >= len {
            break;
        }
        let c = input.get_char(cur);
        if c != '.' {
            break;
        }
        if cur + 1 >= len {
            break;
        }
        let c1 = input.get_char(cur + 1);
        if !is_ident_start(c1) {
            break;
        }
        let e2 = scan_ident_cont_end(input, cur + 2);
        cur = e2;
    }
    let text = input.substring_char(pos, cur).to_owned();
    Ok((text, cur))
}

/// Builds the comparison node for an operator and its operands.
fn mk_cmp_expr(op: CmpOp, l: Expr, r: Expr) -> (e: Expr)
    ensures
        e@ == spec_mk_cmp(op, l@, r@),
{
    match op {
        CmpOp::Equal => Expr::Equal(Box::new(l), Box::new(r)),
        CmpOp::NotEqual => Expr::NotEqual(Box::new(l), Box::new(r)),
        CmpOp::LessThanOrEqual => Expr::LessThanOrEqual(Box::new(l), Box::new(r)),
        CmpOp::GreaterThanOrEqual => Expr::GreaterThanOrEqual(Box::new(l), Box::new(r)),
        CmpOp::LessThan => Expr::LessThan(Box::new(l), Box::new(r)),
        CmpOp::GreaterThan => Expr::GreaterThan(Box::new(l), Box::new(r)),
    }
}

/// Reads the comparison operator at `pos`, if any.
fn cmp_op_at(input: &str, pos: usize) -> (r: Option<(CmpOp, usize)>)
    requires
        pos <= input@.len(),
    ensures
        match r {
            Some(p) => spec_cmp_op_at(input@, pos as int) == Some((p.0, p.1 as int)) && pos < p.1
                <= input@.len(),
            None => spec_cmp_op_at(input@, pos as int) is None,
        },
{
    let len = input.unicode_len();
    if pos < len {
        let c0 = input.get_char(pos);
        if pos + 1 < len {
            let c1 = input.get_char(pos + 1);
            if c0 == '=' && c1 == '=' {
                return Some((CmpOp::Equal, pos + 2));
            }
            if c0 == '!' && c1 == '=' {
                return Some((CmpOp::NotEqual, pos + 2));
            }
            if c0 == '<' && c1 == '=' {
                return Some((CmpOp::LessThanOrEqual, pos + 2));
            }
            if c0 == '>' && c1 == '=' {
                return Some((CmpOp::GreaterThanOrEqual, pos + 2));
            }
        }
        if c0 == '<' {
            return Some((CmpOp::LessThan, pos + 1));
        }
        if c0 == '>' {
            return Some((CmpOp::GreaterThan, pos + 1));
        }
    }
    None
}

/// Parses an atom.
pub fn parse_atom(input: &str, pos: usize) -> (r: Result<(Expr, usize), ParseError>)
    requires
        pos <= input@.len(),
    ensures
        match r {
            Ok((e, p)) => spec_parse_atom(input@, pos as int) == Some((e@, p as int)) && pos < p
                <= input@.len(),
            Err(pe) => spec_parse_atom(input@, pos as int) is None && pe == (ParseError { kind: ParseErrorKind::Syntax, pos }),
        },
    decreases input@.len() - pos, 1int,
{
    let len = input.unicode_len();
    if pos < len {
        let c0 = input.get_char(pos);
        if c0 >= '0' && c0 <= '9' {
            return parse_number(input, pos);
        }
        if is_ident_start(c0) {
            return parse_variable_with_predicate(input, pos);
        }
    }
    let q = ws(input, pos);
    if q < len {
        let cq = input.get_char(q);
        if cq == '(' {
            match parse_expr(input, q + 1) {
                Ok((e, p)) => {
                    let r2 = ws(input, p);
                    if r2 < len {
                        let cr = input.get_char(r2);
                        if cr == ')' {
                            return Ok((e, r2 + 1));
                        }
                    }
                    return Err(ParseError { kind: ParseErrorKind::Syntax, pos });
                },
                Err(_) => {
                    return Err(ParseError { kind: ParseErrorKind::Syntax, pos });
                },
            }
        }
    }
    Err(ParseError { kind: ParseErrorKind::Syntax, pos })
}

/// Parses a variable path with an optional bracketed predicate.
pub fn parse_variable_with_predicate(input: &str, pos: usize) -> (r: Result<
    (Expr, usize),
    ParseError,
>)
    requires
        pos <= input@.len(),
    ensures
        match r {
            Ok((e, p)) => spec_parse_var_with_predicate(input@, pos as int) == Some(
                (e@, p as int),
            ) && pos < p <= input@.len(),
            Err(pe) => spec_parse_var_with_predicate(input@, pos as int) is None && pe == (ParseError { kind: ParseErrorKind::Syntax, pos }),
        },
    decreases input@.len() - pos, 0int,
{
    let (path, end) = match parse_variable_path(input, pos) {
        Ok(x) => x,
        Err(e) => {
            return Err(e);
        },
    };
    match parse_predicate(input, end) {
        Ok((pred, q)) => Ok((Expr::Predicate(path, Box::new(pred)), q)),
        Err(_) => Ok((Expr::Variable(path), end)),
    }
}

/// Parses a bracketed predicate: `[` expression `]`.
pub fn parse_predicate(input: &str, pos: usize) -> (r: Result<(Expr, usize), ParseError>)
    requires
        pos <= input@.len(),
    ensures
        match r {
            Ok((e, p)) => spec_parse_predicate(input@, pos as int) == Some((e@, p as int)) && pos
                < p <= input@.len(),
            Err(pe) => spec_parse_predicate(input@, pos as int) is None && pe == (ParseError { kind: ParseErrorKind::Syntax, pos }),
        },
    decreases input@.len() - pos, 0int,
{
    let len = input.unicode_len();
    let q = ws(input, pos);
    if q < len {
        let cq = input.get_char(q);
        if cq == '[' {
            match parse_expr(input, q + 1) {
                Ok((e, p)) => {
                    let r2 = ws(input, p);
                    if r2 < len {
                        let cr = input.get_char(r2);
                        if cr == ']' {
                            return Ok((e, r2 + 1));
                        }
                    }
                    return Err(ParseError { kind: ParseErrorKind::Syntax, pos });
                },
                Err(_) => {
                    return Err(ParseError { kind: ParseErrorKind::Syntax, pos });
                },
            }
        }
    }
    Err(ParseError { kind: ParseErrorKind::Syntax, pos })
}

/// Parses a comparison.
pub fn parse_comparison(input: &str, pos: usize) -> (r: Result<(Expr, usize), ParseError>)
    requires
        pos <= input@.len(),
    ensures
        match r {
            Ok((e, p)) => spec_parse_comparison(input@, pos as int) == Some((e@, p as int)) && pos
                < p <= input@.len(),
            Err(pe) => spec_parse_comparison(input@, pos as int) is None && pe == (ParseError { kind: ParseErrorKind::Syntax, pos }),
        },
    decreases input@.len() - pos, 2int,
{
    let (left, p) = match parse_atom(input, pos) {
        Ok(x) => x,
        Err(e) => {
            return Err(e);
        },
    };
    let q = ws(input, p);
    match cmp_op_at(input, q) {
        None => Ok((left, p)),
        Some((op, q2)) => {
            let r2 = ws(input, q2);
            match parse_atom(input, r2) {
                Err(_) => Ok((left, p)),
                Ok((right, p2)) => Ok((mk_cmp_expr(op, left, right), p2)),
            }
        },
    }
}

/// Parses a conjunction, folding `&&` left-to-right.
#[verifier::loop_isolation(false)]
pub fn parse_and(input: &str, pos: usize) -> (r: Result<(Expr, usize), ParseError>)
    requires
        pos <= input@.len(),
    ensures
        match r {
            Ok((e, p)) => spec_parse_and(input@, pos as int) == Some((e@, p as int)) && pos < p
                <= input@.len(),
            Err(pe) => spec_parse_and(input@, pos as int) is None && pe == (ParseError { kind: ParseErrorKind::Syntax, pos }),
        },
    decreases input@.len() - pos, 3int,
{
    let (first, p) = match parse_comparison(input, pos) {
        Ok(x) => x,
        Err(e) => {
            return Err(e);
        },
    };
    let len = input.unicode_len();
    let mut acc = first;
    let mut cur: usize = p;
    loop
        invariant
            pos < cur <= len,
            spec_parse_and(input@, pos as int) == spec_parse_and_rest(
                input@,
                cur as int,
                acc@,
            ),
        decreases len - cur,
    {
        let q = ws(input, cur);
        if q < len {
            if q + 1 < len {
                let c0 = input.get_char(q);
                let c1 = input.get_char(q + 1);
                if c0 == '&' && c1 == '&' {
                    let r2 = ws(input, q + 2);
                    match parse_comparison(input, r2) {
                        Ok((e2, p2)) => {
                            acc = Expr::And(Box::new(acc), Box::new(e2));
                            cur = p2;
                            continue;
                        },
                        Err(_) => {
                            return Ok((acc, cur));
                        },
                    }
                }
            }
        }
        return Ok((acc, cur));
    }
}

/// Parses a disjunction, folding `||` left-to-right.
#[verifier::loop_isolation(false)]
pub fn parse_or(input: &str, pos: usize) -> (r: Result<(Expr, usize), ParseError>)
    requires
        pos <= input@.len(),
    ensures
        match r {
            Ok((e, p)) => spec_parse_or(input@, pos as int) == Some((e@, p as int)) && pos < p
                <= input@.len(),
            Err(pe) => spec_parse_or(input@, pos as int) is None && pe == (ParseError { kind: ParseErrorKind::Syntax, pos }),
        },
    decreases input@.len() - pos, 4int,
{
    let (first, p) = match parse_and(input, pos) {
        Ok(x) => x,
        Err(e) => {
            return Err(e);
        },
    };
    let len = input.unicode_len();
    let mut acc = first;
    let mut cur: usize = p;
    loop
        invariant
            pos < cur <= len,
            spec_parse_or(input@, pos as int) == spec_parse_or_rest(input@, cur as int, acc@),
        decreases len - cur,
    {
        let q = ws(input, cur);
        if q < len {
            if q + 1 < len {
                let c0 = input.get_char(q);
                let c1 = input.get_char(q + 1);
                if c0 == '|' && c1 == '|' {
                    let r2 = ws(input, q + 2);
                    match parse_and(input, r2) {
                        Ok((e2, p2)) => {
                            acc = Expr::Or(Box::new(acc), Box::new(e2));
                            cur = p2;
                            continue;
                        },
                        Err(_) => {
                            return Ok((acc, cur));
                        },
                    }
                }
            }
        }
        return Ok((acc, cur));
    }
}

/// Parses a whole expression, returning it with the first unconsumed position.
pub fn parse_expr(input: &str, pos: usize) -> (r: Result<(Expr, usize), ParseError>)
    requires
        pos <= input@.len(),
    ensures
        match r {
            Ok((e, p)) => spec_parse_expr(input@, pos as int) == Some((e@, p as int)) && pos < p
                <= input@.len(),
            Err(pe) => spec_parse_expr(input@, pos as int) is None && pe == (ParseError { kind: ParseErrorKind::Syntax, pos }),
        },
    decreases input@.len() - pos, 5int,
{
    parse_or(input, pos)
}

/// Parses a whole query. It succeeds exactly on the syntactically valid
/// strings: those the grammar derives with nothing left over. A derivable
/// prefix with a non-empty remainder is reported as `TrailingInput` at the
/// position where the remainder starts.
pub fn parse(input: &str) -> (r: Result<Expr, ParseError>)
    ensures
        match r {
            Ok(e) => spec_parse_full(input@) == Some(e@),
            Err(pe) => spec_parse_full(input@) is None && match spec_parse_expr(input@, 0) {
                Some((e2, p)) => pe.kind == ParseErrorKind::TrailingInput && pe.pos == p && p
                    < input@.len(),
                None => pe == (ParseError { kind: ParseErrorKind::Syntax, pos: 0 }),
            },
        },
{
    let len = input.unicode_len();
    match parse_expr(input, 0) {
        Ok((e, p)) => {
            if p == len {
                Ok(e)
            } else {
                Err(ParseError { kind: ParseErrorKind::TrailingInput, pos: p })
            }
        },
        Err(pe) => Err(pe),
    }
}

/// Parsing is deterministic: the grammar denotes one result for a text, so
/// any two parses of the same string yield structurally identical trees.
pub proof fn lemma_parse_deterministic(
    s: Seq<char>,
    r1: Option<(SpecExpr, int)>,
    r2: Option<(SpecExpr, int)>,
)
    requires
        r1 == spec_parse_expr(s, 0),
        r2 == spec_parse_expr(s, 0),
    ensures
        r1 == r2,
{
}

/// Every syntactically valid string is accepted whole: when the grammar
/// derives an expression consuming the entire text, a full parse returns
/// exactly that expression (and `parse`'s contract then has the executable
/// parser return it).
pub proof fn lemma_parse_total_on_valid(s: Seq<char>, e: SpecExpr)
    requires
        spec_parse_expr(s, 0) == Some((e, s.len() as int)),
    ensures
        spec_parse_full(s) == Some(e),
{
}

} // verus!

//! The evaluator: walks an expression tree against one record, resolving
//! positional variables and applying the coercion and comparison rules.

use vstd::prelude::*;
use vstd::string::StrSliceExecFns;
use crate::ast::{Expr, SpecExpr};
use crate::record::Record;
use crate::text::{digits_to_u64, digits_val, is_digit_char};
use crate::value::{
    spec_coerce, spec_value_eq, spec_value_lt, value_eq, value_lt, value_result_view, EvalError,
    SpecValue, Value, ValueImplicitConversion,
};

verus! {

/// The position denoted by a variable path: `$` followed by one or more
/// digits denotes that 1-based field position; every other shape denotes
/// nothing.
pub open spec fn spec_var_position(path: Seq<char>) -> Option<int> {
    if path.len() >= 2 && path[0] == '$' && (forall|k: int|
        1 <= k < path.len() ==> is_digit_char(path[k])) {
        Some(digits_val(path.skip(1)))
    } else {
        None
    }
}

/// Resolution of a variable path against a record: a positional reference in
/// range yields that field, one out of range fails with `FieldOutOfRange`,
/// and a non-positional path fails with `UnresolvedVariable`.
pub open spec fn spec_resolve_var(rec: Seq<SpecValue>, path: Seq<char>) -> Result<
    SpecValue,
    EvalError,
> {
    match spec_var_position(path) {
        Some(n) => if 1 <= n && n <= rec.len() {
            Ok(rec[n - 1])
        } else {
            Err(EvalError::FieldOutOfRange)
        },
        None => Err(EvalError::UnresolvedVariable),
    }
}

/// What `resolve_var` returns: variable resolution for a `Variable` node,
/// `UnresolvedVariable` for any other node.
pub open spec fn spec_resolve_var_expr(rec: Seq<SpecValue>, e: SpecExpr) -> Result<
    SpecValue,
    EvalError,
> {
    match e {
        SpecExpr::Variable(p) => spec_resolve_var(rec, p),
        _ => Err(EvalError::UnresolvedVariable),
    }
}

/// Evaluation of an expression tree against a record.
pub open spec fn spec_eval(rec: Seq<SpecValue>, e: SpecExpr) -> Result<SpecValue, EvalError>
    decreases e, 1int,
{
    match e {
        SpecExpr::Variable(p) => spec_resolve_var(rec, p),
        SpecExpr::Integer(i) => Ok(SpecValue::Int(i)),
        SpecExpr::String(s) => Ok(SpecValue::String(s)),
        _ => spec_resolve_cond(rec, e),
    }
}

/// Evaluation of the comparison and logical nodes. Equality coerces the two
/// sides toward each other; ordering uses the single total order without
/// coercion; `&&` and `||` demand boolean operands; every other node
/// (including `Predicate`, whose semantics is undefined) fails with
/// `TypeMismatch`.
pub open spec fn spec_resolve_cond(rec: Seq<SpecValue>, e: SpecExpr) -> Result<
    SpecValue,
    EvalError,
>
    decreases e, 0int,
{
    match e {
        SpecExpr::Equal(l, r) => match (spec_eval(rec, *l), spec_eval(rec, *r)) {
            (Ok(a), Ok(b)) => match spec_coerce(a, b) {
                Ok(p) => Ok(SpecValue::Bool(spec_value_eq(p.0, p.1))),
                Err(e2) => Err(e2),
            },
            (Err(e1), _) => Err(e1),
            (_, Err(e2)) => Err(e2),
        },
        SpecExpr::NotEqual(l, r) => match (spec_eval(rec, *l), spec_eval(rec, *r)) {
            (Ok(a), Ok(b)) => match spec_coerce(a, b) {
                Ok(p) => Ok(SpecValue::Bool(!spec_value_eq(p.0, p.1))),
                Err(e2) => Err(e2),
            },
            (Err(e1), _) => Err(e1),
            (_, Err(e2)) => Err(e2),
        },
        SpecExpr::LessThan(l, r) => match (spec_eval(rec, *l), spec_eval(rec, *r)) {
            (Ok(a), Ok(b)) => Ok(SpecValue::Bool(spec_value_lt(a, b))),
            (Err(e1), _) => Err(e1),
            (_, Err(e2)) => Err(e2),
        },
        SpecExpr::LessThanOrEqual(l, r) => match (spec_eval(rec, *l), spec_eval(rec, *r)) {
            (Ok(a), Ok(b)) => Ok(SpecValue::Bool(!spec_value_lt(b, a))),
            (Err(e1), _) => Err(e1),
            (_, Err(e2)) => Err(e2),
        },
        SpecExpr::GreaterThan(l, r) => match (spec_eval(rec, *l), spec_eval(rec, *r)) {
            (Ok(a), Ok(b)) => Ok(SpecValue::Bool(spec_value_lt(b, a))),
            (Err(e1), _) => Err(e1),
            (_, Err(e2)) => Err(e2),
        },
        SpecExpr::GreaterThanOrEqual(l, r) => match (spec_eval(rec, *l), spec_eval(rec, *r)) {
            (Ok(a), Ok(b)) => Ok(SpecValue::Bool(!spec_value_lt(a, b))),
            (Err(e1), _) => Err(e1),
            (_, Err(e2)) => Err(e2),
        },
        SpecExpr::And(l, r) => match (spec_eval(rec, *l), spec_eval(rec, *r)) {
            (Ok(SpecValue::Bool(x)), Ok(SpecValue::Bool(y))) => Ok(SpecValue::Bool(x && y)),
            (Err(e1), _) => Err(e1),
            (_, Err(e2)) => Err(e2),
            _ => Err(EvalError::TypeMismatch),
        },
        SpecExpr::Or(l, r) => match (spec_eval(rec, *l), spec_eval(rec, *r)) {
            (Ok(SpecValue::Bool(x)), Ok(SpecValue::Bool(y))) => Ok(SpecValue::Bool(x || y)),
            (Err(e1), _) => Err(e1),
            (_, Err(e2)) => Err(e2),
            _ => Err(EvalError::TypeMismatch),
        },
        _ => Err(EvalError::TypeMismatch),
    }
}

/// Resolves a `Variable` node against a record, by 1-based position.
#[verifier::loop_isolation(false)]
pub fn resolve_var(record: &Record, expr: &Expr) -> (r: Result<Value, EvalError>)
    ensures
        value_result_view(r) == spec_resolve_var_expr(record@, expr@),
{
    let path: &String = match expr {
        Expr::Variable(p) => p,
        _ => {
            return Err(EvalError::UnresolvedVariable);
        },
    };
    let s = path.as_str();
    let len = s.unicode_len();
    if len < 2 {
        return Err(EvalError::UnresolvedVariable);
    }
    let c0 = s.get_char(0);
    if c0 != '$' {
        return Err(EvalError::UnresolvedVariable);
    }
    let mut i: usize = 1;
    while i < len
        invariant
            1 <= i <= len,
            forall|k: int| 1 <= k < i ==> is_digit_char(s@[k]),
        decreases len - i,
    {
        let c = s.get_char(i);
        if !(c >= '0' && c <= '9') {
            return Err(EvalError::UnresolvedVariable);
        }
        i = i + 1;
    }
    proof {
        assert(s@.skip(1) =~= s@.subrange(1, len as int));
    }
    let count = record.field_count();
    match digits_to_u64(s, 1, len) {
        None => Err(EvalError::FieldOutOfRange),
        Some(v) => {
            if v >= 1 && v <= count as u64 {
                match record.get(v as usize) {
                    Some(val) => Ok(val.clone()),
                    None => Err(EvalError::FieldOutOfRange),
                }
            } else {
                Err(EvalError::FieldOutOfRange)
            }
        },
    }
}

/// Evaluates a comparison or logical node; any other node fails with
/// `TypeMismatch`.
#[verifier::rlimit(100)]
pub fn resolve_cond(record: &Record, expr: &Expr) -> (r: Result<Value, EvalError>)
    ensures
        value_result_view(r) == spec_resolve_cond(record@, expr@),
    decreases expr, 0int,
{
    match expr {
        Expr::Equal(l, r) => {
            let lv = match resolve_expr(record, l) {
                Ok(v) => v,
                Err(e) => {
                    return Err(e);
                },
            };
            let rv = match resolve_expr(record, r) {
                Ok(v) => v,
                Err(e) => {
                    return Err(e);
                },
            };
            let p = match ValueImplicitConversion::coerce(&lv, &rv) {
                Ok(p) => p,
                Err(e) => {
                    return Err(e);
                },
            };
            Ok(Value::Bool(value_eq(&p.0, &p.1)))
        },
        Expr::NotEqual(l, r) => {
            let lv = match resolve_expr(record, l) {
                Ok(v) => v,
                Err(e) => {
                    return Err(e);
                },
            };
            let rv = match resolve_expr(record, r) {
                Ok(v) => v,
                Err(e) => {
                    return Err(e);
                },
            };
            let p = match ValueImplicitConversion::coerce(&lv, &rv) {
                Ok(p) => p,
                Err(e) => {
                    return Err(e);
                },
            };
            Ok(Value::Bool(!value_eq(&p.0, &p.1)))
        },
        Expr::LessThan(l, r) => {
            let lv = match resolve_expr(record, l) {
                Ok(v) => v,
                Err(e) => {
                    return Err(e);
                },
            };
            let rv = match resolve_expr(record, r) {
                Ok(v) => v,
                Err(e) => {
                    return Err(e);
                },
            };
            Ok(Value::Bool(value_lt(&lv, &rv)))
        },
        Expr::LessThanOrEqual(l, r) => {
            let lv = match resolve_expr(record, l) {
                Ok(v) => v,
                Err(e) => {
                    return Err(e);
                },
            };
            let rv = match resolve_expr(record, r) {
                Ok(v) => v,
                Err(e) => {
                    return Err(e);
                },
            };
            Ok(Value::Bool(!value_lt(&rv, &lv)))
        },
        Expr::GreaterThan(l, r) => {
            let lv = match resolve_expr(record, l) {
                Ok(v) => v,
                Err(e) => {
                    return Err(e);
                },
            };
            let rv = match resolve_expr(record, r) {
                Ok(v) => v,
                Err(e) => {
                    return Err(e);
                },
            };
            Ok(Value::Bool(value_lt(&rv, &lv)))
        },
        Expr::GreaterThanOrEqual(l, r) => {
            let lv = match resolve_expr(record, l) {
                Ok(v) => v,
                Err(e) => {
                    return Err(e);
                },
            };
            let rv = match resolve_expr(record, r) {
                Ok(v) => v,
                Err(e) => {
                    return Err(e);
                },
            };
            Ok(Value::Bool(!value_lt(&lv, &rv)))
        },
        Expr::And(l, r) => {
            let lv = match resolve_expr(record, l) {
                Ok(v) => v,
                Err(e) => {
                    return Err(e);
                },
            };
            let rv = match resolve_expr(record, r) {
                Ok(v) => v,
                Err(e) => {
                    return Err(e);
                },
            };
            match (&lv, &rv) {
                (Value::Bool(x), Value::Bool(y)) => Ok(Value::Bool(*x && *y)),
                _ => Err(EvalError::TypeMismatch),
            }
        },
        Expr::Or(l, r) => {
            let lv = match resolve_expr(record, l) {
                Ok(v) => v,
                Err(e) => {
                    return Err(e);
                },
            };
            let rv = match resolve_expr(record, r) {
                Ok(v) => v,
                Err(e) => {
                    return Err(e);
                },
            };
            match (&lv, &rv) {
                (Value::Bool(x), Value::Bool(y)) => Ok(Value::Bool(*x || *y)),
                _ => Err(EvalError::TypeMismatch),
            }
        },
        _ => Err(EvalError::TypeMismatch),
    }
}

/// Evaluates an expression tree against one record.
pub fn resolve_expr(record: &Record, expr: &Expr) -> (r: Result<Value, EvalError>)
    ensures
        value_result_view(r) == spec_eval(record@, expr@),
    decreases expr, 1int,
{
    match expr {
        Expr::Variable(_) => resolve_var(record, expr),
        Expr::Integer(v) => Ok(Value::Int(*v)),
        Expr::String(v) => Ok(Value::String(v.clone())),
        _ => resolve_cond(record, expr),
    }
}

/// Evaluates an expression tree against one record: the top-level entry of
/// the evaluator. The result is `Bool` for a well-typed filter, or the first
/// failure met. A caller scanning many records chooses its own policy for a
/// failing record (abort the scan, or treat the record as excluded).
pub fn evaluate(record: &Record, expr: &Expr) -> (r: Result<Value, EvalError>)
    ensures
        value_result_view(r) == spec_eval(record@, expr@),
{
    resolve_expr(record, expr)
}

/// Evaluation is deterministic: the rules denote one result for a tree and a
/// record, so evaluating the same pair twice yields the same result.
pub proof fn lemma_evaluate_deterministic(
    rec: Seq<SpecValue>,
    e: SpecExpr,
    r1: Result<SpecValue, EvalError>,
    r2: Result<SpecValue, EvalError>,
)
    requires
        r1 == spec_eval(rec, e),
        r2 == spec_eval(rec, e),
    ensures
        r1 == r2,
{
}

} // verus!

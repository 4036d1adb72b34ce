//! The scalar value model: kinds, cross-kind coercion and the total order
//! used by ordering comparisons.

use vstd::prelude::*;
use vstd::string::StrSliceExecFns;
use crate::text::{
    all_digits, digits_to_u64, digits_val, is_digit_char, lemma_digits_lex,
    lemma_digits_split, lemma_digits_val_lower, lemma_digits_val_nonneg,
    lemma_digits_val_upper, lemma_digits_val_zeros, lemma_lex_trichotomy, lemma_pow10_mono,
    lemma_pow10_pos, lex_lt, str_lex_lt,
};
use vstd::string::StringExecFns;

verus! {

/// A date-time with offset, reduced to its instant (seconds and nanoseconds
/// since the Unix epoch) and its UTC offset in seconds. Comparisons use the
/// instant alone; the offset is carried as metadata.
#[derive(Debug, Clone, Copy, PartialEq, Eq, Structural)]
pub struct TimestampValue {
    pub epoch_seconds: i64,
    pub subsec_nanos: u32,
    pub offset_seconds: i32,
}

/// A scalar value: either a literal from the expression tree or a record
/// field's content. An integer beyond the i64 range is carried as its
/// canonical decimal text in `BigInt`; both integer representations are of
/// the one Int kind.
#[derive(Debug)]
pub enum Value {
    Bool(bool),
    Int(i64),
    BigInt(String),
    String(String),
    Timestamp(TimestampValue),
}

/// Mathematical model of a value: texts are character sequences.
pub enum SpecValue {
    Bool(bool),
    Int(int),
    String(Seq<char>),
    Timestamp(TimestampValue),
}

/// A digit run that is a canonical magnitude: non-empty, digits only, and no
/// leading zero unless it is the single digit zero.
pub open spec fn canonical_digits(d: Seq<char>) -> bool {
    all_digits(d) && d.len() >= 1 && (d.len() == 1 || d[0] != '0')
}

/// A canonical integer text: an optional minus on a nonzero magnitude,
/// followed by a canonical digit run.
pub open spec fn is_canonical_int_text(t: Seq<char>) -> bool {
    if t.len() >= 1 && t[0] == '-' {
        t.len() >= 2 && canonical_digits(t.skip(1)) && t[1] != '0'
    } else {
        canonical_digits(t)
    }
}

/// The integer a text denotes, zero for a text that is no integer.
pub open spec fn int_text_value(t: Seq<char>) -> int {
    match spec_int_text(t) {
        Some(n) => n,
        None => 0,
    }
}

/// A canonical integer text whose value lies outside the i64 range: the
/// shape a `BigInt` value holds.
pub open spec fn is_big_int_text(t: Seq<char>) -> bool {
    is_canonical_int_text(t) && (int_text_value(t) > i64::MAX || int_text_value(t) < i64::MIN)
}

/// What a `BigInt` text denotes: its value when it is a canonical
/// out-of-range integer text, zero otherwise.
pub open spec fn big_int_view(t: Seq<char>) -> int {
    if is_big_int_text(t) {
        int_text_value(t)
    } else {
        0
    }
}

impl View for Value {
    type V = SpecValue;

    open spec fn view(&self) -> SpecValue {
        match self {
            Value::Bool(b) => SpecValue::Bool(*b),
            Value::Int(i) => SpecValue::Int(*i as int),
            Value::BigInt(s) => SpecValue::Int(big_int_view(s@)),
            Value::String(s) => SpecValue::String(s@),
            Value::Timestamp(t) => SpecValue::Timestamp(*t),
        }
    }
}

impl Clone for Value {
    fn clone(&self) -> (r: Self)
        ensures
            r == *self,
    {
        match self {
            Value::Bool(b) => Value::Bool(*b),
            Value::Int(i) => Value::Int(*i),
            Value::BigInt(s) => Value::BigInt(s.clone()),
            Value::String(s) => Value::String(s.clone()),
            Value::Timestamp(t) => Value::Timestamp(*t),
        }
    }
}

/// The kind of a value; coercion is driven by the pair of kinds.
#[derive(Debug, Clone, Copy, PartialEq, Eq, Structural)]
pub enum ValueKind {
    Bool,
    Int,
    Timestamp,
    String,
}

pub open spec fn spec_kind(v: SpecValue) -> ValueKind {
    match v {
        SpecValue::Bool(_) => ValueKind::Bool,
        SpecValue::Int(_) => ValueKind::Int,
        SpecValue::String(_) => ValueKind::String,
        SpecValue::Timestamp(_) => ValueKind::Timestamp,
    }
}

/// Rank of a kind in the single total order over all values: values of
/// different kinds are ordered by rank alone.
pub open spec fn kind_rank(k: ValueKind) -> int {
    match k {
        ValueKind::Bool => 0,
        ValueKind::Int => 1,
        ValueKind::Timestamp => 2,
        ValueKind::String => 3,
    }
}

impl Value {
    pub fn kind(&self) -> (k: ValueKind)
        ensures
            k == spec_kind(self@),
    {
        match self {
            Value::Bool(_) => ValueKind::Bool,
            Value::Int(_) => ValueKind::Int,
            Value::BigInt(_) => ValueKind::Int,
            Value::String(_) => ValueKind::String,
            Value::Timestamp(_) => ValueKind::Timestamp,
        }
    }
}

fn rank_of(k: ValueKind) -> (r: u32)
    ensures
        r as int == kind_rank(k),
{
    match k {
        ValueKind::Bool => 0,
        ValueKind::Int => 1,
        ValueKind::Timestamp => 2,
        ValueKind::String => 3,
    }
}

/// Equality of two values of the same kind; values of different kinds are
/// never equal. Timestamps are equal when they denote the same instant.
pub open spec fn spec_value_eq(a: SpecValue, b: SpecValue) -> bool {
    match (a, b) {
        (SpecValue::Bool(x), SpecValue::Bool(y)) => x == y,
        (SpecValue::Int(x), SpecValue::Int(y)) => x == y,
        (SpecValue::String(x), SpecValue::String(y)) => x == y,
        (SpecValue::Timestamp(x), SpecValue::Timestamp(y)) => x.epoch_seconds == y.epoch_seconds
            && x.subsec_nanos == y.subsec_nanos,
        _ => false,
    }
}

/// The single total order over all values: first by kind rank, then within a
/// kind (booleans false before true, integers numerically, timestamps by
/// instant, strings lexicographically by code point).
pub open spec fn spec_value_lt(a: SpecValue, b: SpecValue) -> bool {
    if spec_kind(a) != spec_kind(b) {
        kind_rank(spec_kind(a)) < kind_rank(spec_kind(b))
    } else {
        match (a, b) {
            (SpecValue::Bool(x), SpecValue::Bool(y)) => !x && y,
            (SpecValue::Int(x), SpecValue::Int(y)) => x < y,
            (SpecValue::String(x), SpecValue::String(y)) => lex_lt(x, y),
            (SpecValue::Timestamp(x), SpecValue::Timestamp(y)) => x.epoch_seconds
                < y.epoch_seconds || (x.epoch_seconds == y.epoch_seconds && x.subsec_nanos
                < y.subsec_nanos),
            _ => false,
        }
    }
}

/// A canonical integer text denotes one definite integer: at least one for
/// a signed text, at least zero for an unsigned one.
proof fn lemma_canonical_signs(t: Seq<char>)
    requires
        is_canonical_int_text(t),
    ensures
        t.len() >= 1,
        spec_int_text(t) == Some(int_text_value(t)),
        t[0] == '-' ==> int_text_value(t) <= -1,
        t[0] != '-' ==> int_text_value(t) >= 0,
{
    if t.len() >= 1 && t[0] == '-' {
        let m = t.skip(1);
        assert(m[0] == t[1]);
        lemma_digits_val_lower(m);
        lemma_pow10_pos(m.len() - 1);
    } else {
        assert(is_digit_char(t[0]));
        lemma_digits_val_nonneg(t);
    }
}

/// On canonical magnitudes, shorter-then-lexicographic order is numeric order.
proof fn lemma_canonical_digits_order(a: Seq<char>, b: Seq<char>)
    requires
        canonical_digits(a),
        canonical_digits(b),
    ensures
        (digits_val(a) < digits_val(b)) == (a.len() < b.len() || (a.len() == b.len() && lex_lt(
            a,
            b,
        ))),
{
    if a.len() < b.len() {
        lemma_digits_val_upper(a);
        lemma_digits_val_lower(b);
        lemma_pow10_mono(a.len() as int, b.len() - 1);
    } else if b.len() < a.len() {
        lemma_digits_val_upper(b);
        lemma_digits_val_lower(a);
        lemma_pow10_mono(b.len() as int, a.len() - 1);
    } else {
        lemma_digits_lex(a, b);
    }
}

/// A value has one canonical integer text: two canonical texts denote the
/// same integer exactly when they are the same text.
proof fn lemma_canonical_unique(a: Seq<char>, b: Seq<char>)
    requires
        is_canonical_int_text(a),
        is_canonical_int_text(b),
    ensures
        (int_text_value(a) == int_text_value(b)) <==> (a == b),
{
    lemma_canonical_signs(a);
    lemma_canonical_signs(b);
    if int_text_value(a) == int_text_value(b) {
        if a[0] == '-' && b[0] == '-' {
            let ma = a.skip(1);
            let mb = b.skip(1);
            lemma_canonical_digits_order(ma, mb);
            lemma_canonical_digits_order(mb, ma);
            lemma_lex_trichotomy(ma, mb);
            assert(forall|k: int| 1 <= k < a.len() ==> a[k] == ma[k - 1] && b[k] == mb[k - 1]);
            assert(a =~= b);
        } else if a[0] != '-' && b[0] != '-' {
            lemma_canonical_digits_order(a, b);
            lemma_canonical_digits_order(b, a);
            lemma_lex_trichotomy(a, b);
            assert(a =~= b);
        }
    }
}

/// Decides whether a text is a canonical integer text outside the i64 range.
#[verifier::loop_isolation(false)]
fn check_big(s: &str) -> (r: bool)
    ensures
        r == is_big_int_text(s@),
{
    let len = s.unicode_len();
    if len == 0 {
        return false;
    }
    let c0 = s.get_char(0);
    let neg = c0 == '-';
    let start: usize = if neg {
        1
    } else {
        0
    };
    if start >= len {
        return false;
    }
    let d0 = s.get_char(start);
    if !(d0 >= '1' && d0 <= '9') {
        // not a digit, or a leading zero: the only canonical text starting
        // with a zero digit is the single digit zero, whose value fits
        proof {
            if d0 == '0' && !neg && len == 1 {
                assert(s@ =~= seq!['0']);
                assert(seq!['0'].drop_last() =~= Seq::<char>::empty());
                assert(digits_val(Seq::<char>::empty()) == 0);
                assert(seq!['0'].last() == '0');
                assert(digits_val(seq!['0']) == 0);
                assert(int_text_value(s@) == 0);
            }
        }
        return false;
    }
    let mut i: usize = start + 1;
    while i < len
        invariant
            start + 1 <= i <= len,
            forall|k: int| start <= k < i ==> is_digit_char(s@[k]),
        decreases len - i,
    {
        let c = s.get_char(i);
        if !(c >= '0' && c <= '9') {
            proof {
                if neg {
                    assert(s@.skip(1)[i - 1] == s@[i as int]);
                }
            }
            return false;
        }
        i = i + 1;
    }
    proof {
        if neg {
            assert(s@.skip(1) =~= s@.subrange(1, len as int));
        } else {
            assert(s@ =~= s@.subrange(0, len as int));
        }
        lemma_canonical_signs(s@);
    }
    match digits_to_u64(s, start, len) {
        None => true,
        Some(v) => {
            if neg {
                v > 9223372036854775808u64
            } else {
                v > 9223372036854775807u64
            }
        },
    }
}

/// Decides the numeric order of two canonical out-of-range integer texts.
fn big_text_lt(a: &str, b: &str) -> (r: bool)
    requires
        is_big_int_text(a@),
        is_big_int_text(b@),
    ensures
        r == (int_text_value(a@) < int_text_value(b@)),
{
    proof {
        lemma_canonical_signs(a@);
        lemma_canonical_signs(b@);
    }
    let la = a.unicode_len();
    let lb = b.unicode_len();
    let na = a.get_char(0) == '-';
    let nb = b.get_char(0) == '-';
    if na && !nb {
        return true;
    }
    if !na && nb {
        return false;
    }
    if !na && !nb {
        proof {
            lemma_canonical_digits_order(a@, b@);
        }
        if la != lb {
            return la < lb;
        }
        return str_lex_lt(a, b);
    }
    let ta = a.substring_char(1, la);
    let tb = b.substring_char(1, lb);
    proof {
        assert(ta@ =~= a@.skip(1));
        assert(tb@ =~= b@.skip(1));
        lemma_canonical_digits_order(b@.skip(1), a@.skip(1));
    }
    if la != lb {
        return lb < la;
    }
    str_lex_lt(tb, ta)
}

/// Decides equality of two values (no coercion).
pub fn value_eq(a: &Value, b: &Value) -> (r: bool)
    ensures
        r == spec_value_eq(a@, b@),
{
    match (a, b) {
        (Value::Bool(x), Value::Bool(y)) => x == y,
        (Value::Int(x), Value::Int(y)) => x == y,
        (Value::Int(x), Value::BigInt(t)) => if check_big(t.as_str()) {
            false
        } else {
            *x == 0
        },
        (Value::BigInt(t), Value::Int(y)) => if check_big(t.as_str()) {
            false
        } else {
            *y == 0
        },
        (Value::BigInt(s), Value::BigInt(t)) => {
            let sb = check_big(s.as_str());
            let tb = check_big(t.as_str());
            if sb && tb {
                proof {
                    lemma_canonical_unique(s@, t@);
                }
                *s == *t
            } else if sb || tb {
                false
            } else {
                true
            }
        },
        (Value::String(x), Value::String(y)) => *x == *y,
        (Value::Timestamp(x), Value::Timestamp(y)) => x.epoch_seconds == y.epoch_seconds
            && x.subsec_nanos == y.subsec_nanos,
        _ => false,
    }
}

/// Decides the total order on two values (no coercion).
pub fn value_lt(a: &Value, b: &Value) -> (r: bool)
    ensures
        r == spec_value_lt(a@, b@),
{
    let ka = a.kind();
    let kb = b.kind();
    if ka != kb {
        return rank_of(ka) < rank_of(kb);
    }
    match (a, b) {
        (Value::Bool(x), Value::Bool(y)) => !*x && *y,
        (Value::Int(x), Value::Int(y)) => x < y,
        (Value::Int(x), Value::BigInt(t)) => if check_big(t.as_str()) {
            proof {
                lemma_canonical_signs(t@);
            }
            t.as_str().get_char(0) != '-'
        } else {
            *x < 0
        },
        (Value::BigInt(t), Value::Int(y)) => if check_big(t.as_str()) {
            proof {
                lemma_canonical_signs(t@);
            }
            t.as_str().get_char(0) == '-'
        } else {
            0 < *y
        },
        (Value::BigInt(s), Value::BigInt(t)) => {
            let sb = check_big(s.as_str());
            let tb = check_big(t.as_str());
            if sb && tb {
                big_text_lt(s.as_str(), t.as_str())
            } else if sb {
                proof {
                    lemma_canonical_signs(s@);
                }
                s.as_str().get_char(0) == '-'
            } else if tb {
                proof {
                    lemma_canonical_signs(t@);
                }
                t.as_str().get_char(0) != '-'
            } else {
                false
            }
        },
        (Value::String(x), Value::String(y)) => str_lex_lt(x.as_str(), y.as_str()),
        (Value::Timestamp(x), Value::Timestamp(y)) => x.epoch_seconds < y.epoch_seconds
            || (x.epoch_seconds == y.epoch_seconds && x.subsec_nanos < y.subsec_nanos),
        _ => false,
    }
}

/// The failures evaluation can produce.
#[derive(Debug, Clone, Copy, PartialEq, Eq, Structural)]
pub enum EvalError {
    /// A text could not be parsed as the target kind of a coercion.
    CoercionError,
    /// A positional reference exceeds the record's width.
    FieldOutOfRange,
    /// A non-positional variable path, which the evaluator does not resolve.
    UnresolvedVariable,
    /// A logical operator met a non-boolean operand, or an unsupported node
    /// was evaluated in a boolean context.
    TypeMismatch,
}

/// The text accepted as a boolean: exactly `true` or `false`.
pub open spec fn spec_bool_text(s: Seq<char>) -> Option<bool> {
    if s == seq!['t', 'r', 'u', 'e'] {
        Some(true)
    } else if s == seq!['f', 'a', 'l', 's', 'e'] {
        Some(false)
    } else {
        None
    }
}

fn parse_bool_text(s: &str) -> (r: Option<bool>)
    ensures
        r == spec_bool_text(s@),
{
    let len = s.unicode_len();
    if len == 4 {
        if s.get_char(0) == 't' && s.get_char(1) == 'r' && s.get_char(2) == 'u' && s.get_char(3)
            == 'e' {
            proof {
                assert(s@ =~= seq!['t', 'r', 'u', 'e']);
            }
            return Some(true);
        }
        return None;
    }
    if len == 5 {
        if s.get_char(0) == 'f' && s.get_char(1) == 'a' && s.get_char(2) == 'l' && s.get_char(3)
            == 's' && s.get_char(4) == 'e' {
            proof {
                assert(s@ =~= seq!['f', 'a', 'l', 's', 'e']);
            }
            return Some(false);
        }
        return None;
    }
    None
}

/// The value denoted by an integer text: an optional sign followed by one or
/// more decimal digits.
pub open spec fn spec_int_text(s: Seq<char>) -> Option<int> {
    if s.len() > 0 && (s[0] == '-' || s[0] == '+') {
        let digits = s.skip(1);
        if digits.len() > 0 && (forall|k: int| 0 <= k < digits.len() ==> is_digit_char(digits[k])) {
            Some(
                if s[0] == '-' {
                    -digits_val(digits)
                } else {
                    digits_val(digits)
                },
            )
        } else {
            None
        }
    } else {
        if s.len() > 0 && (forall|k: int| 0 <= k < s.len() ==> is_digit_char(s[k])) {
            Some(digits_val(s))
        } else {
            None
        }
    }
}

/// Parses an integer text into an `i64`; `None` when the text is not an
/// integer or its value does not fit.
#[verifier::loop_isolation(false)]
fn parse_int_text(s: &str) -> (r: Option<i64>)
    ensures
        match r {
            Some(v) => spec_int_text(s@) == Some(v as int),
            None => match spec_int_text(s@) {
                Some(v) => v < i64::MIN || v > i64::MAX,
                None => true,
            },
        },
{
    let len = s.unicode_len();
    if len == 0 {
        return None;
    }
    let c0 = s.get_char(0);
    let neg = c0 == '-';
    let start: usize = if c0 == '-' || c0 == '+' {
        1
    } else {
        0
    };
    if start >= len {
        return None;
    }
    let mut i: usize = start;
    while i < len
        invariant
            start <= i <= len,
            len == s@.len(),
            start < len,
            forall|k: int| start <= k < i ==> is_digit_char(s@[k]),
        decreases len - i,
    {
        let c = s.get_char(i);
        if !(c >= '0' && c <= '9') {
            proof {
                if start == 1 {
                    assert(s@.skip(1)[i - 1] == s@[i as int]);
                }
            }
            return None;
        }
        i = i + 1;
    }
    proof {
        if start == 1 {
            assert(s@.skip(1) =~= s@.subrange(1, len as int));
        } else {
            assert(s@ =~= s@.subrange(0, len as int));
        }
    }
    match digits_to_u64(s, start, len) {
        None => {
            proof {
                lemma_digits_val_nonneg(s@.subrange(start as int, len as int));
            }
            None
        },
        Some(v) => {
            if neg {
                if v <= 9223372036854775808u64 {
                    if v == 9223372036854775808u64 {
                        Some(i64::MIN)
                    } else {
                        Some(-(v as i64))
                    }
                } else {
                    None
                }
            } else {
                if v <= 9223372036854775807u64 {
                    Some(v as i64)
                } else {
                    None
                }
            }
        },
    }
}

/// What chrono's relaxed RFC 3339 parser returns for a text: the instant
/// (seconds, nanoseconds) and the offset in seconds, or nothing.
pub uninterp spec fn timestamp_parse(s: Seq<char>) -> Option<(i64, u32, i32)>;

/// Relies on chrono's `FromStr` for `DateTime<FixedOffset>` (a relaxed RFC 3339
/// parser): the result depends on the text alone. The instant and offset are
/// read back through `DateTime::timestamp`, `DateTime::timestamp_subsec_nanos`
/// and `FixedOffset::local_minus_utc`.
#[verifier::external_body]
fn parse_timestamp_text(s: &str) -> (r: Option<(i64, u32, i32)>)
    ensures
        r == timestamp_parse(s@),
{
    match s.parse::<chrono::DateTime<chrono::FixedOffset>>() {
        Ok(dt) => Some(
            (dt.timestamp(), dt.timestamp_subsec_nanos(), dt.offset().local_minus_utc()),
        ),
        Err(_) => None,
    }
}

/// Coercion of one value toward a target kind. Only a text coerces (to a
/// boolean, an integer or a timestamp, by parsing); any other pair of
/// differing kinds leaves the value unchanged, and the caller decides whether
/// the kinds came together.
pub open spec fn spec_coerce_value(v: SpecValue, target: ValueKind) -> Result<
    SpecValue,
    EvalError,
> {
    match (v, target) {
        (SpecValue::String(s), ValueKind::Bool) => match spec_bool_text(s) {
            Some(b) => Ok(SpecValue::Bool(b)),
            None => Err(EvalError::CoercionError),
        },
        (SpecValue::String(s), ValueKind::Int) => match spec_int_text(s) {
            Some(n) => Ok(SpecValue::Int(n)),
            None => Err(EvalError::CoercionError),
        },
        (SpecValue::String(s), ValueKind::Timestamp) => match timestamp_parse(s) {
            Some((sec, ns, off)) => Ok(
                SpecValue::Timestamp(
                    TimestampValue {
                        epoch_seconds: sec,
                        subsec_nanos: ns,
                        offset_seconds: off,
                    },
                ),
            ),
            None => Err(EvalError::CoercionError),
        },
        _ => Ok(v),
    }
}

/// Coercion of two values toward each other's kinds, for equality tests.
/// Values of one kind pass through; otherwise each side is coerced toward the
/// other's kind, and the pair is accepted only when the kinds have met.
pub open spec fn spec_coerce(a: SpecValue, b: SpecValue) -> Result<
    (SpecValue, SpecValue),
    EvalError,
> {
    if spec_kind(a) == spec_kind(b) {
        Ok((a, b))
    } else {
        match spec_coerce_value(a, spec_kind(b)) {
            Err(e) => Err(e),
            Ok(a2) => match spec_coerce_value(b, spec_kind(a)) {
                Err(e) => Err(e),
                Ok(b2) => if spec_kind(a2) == spec_kind(b2) {
                    Ok((a2, b2))
                } else {
                    Err(EvalError::TypeMismatch)
                },
            },
        }
    }
}

pub open spec fn value_result_view(r: Result<Value, EvalError>) -> Result<SpecValue, EvalError> {
    match r {
        Ok(v) => Ok(v@),
        Err(e) => Err(e),
    }
}

pub open spec fn value_pair_result_view(r: Result<(Value, Value), EvalError>) -> Result<
    (SpecValue, SpecValue),
    EvalError,
> {
    match r {
        Ok(p) => Ok((p.0@, p.1@)),
        Err(e) => Err(e),
    }
}

/// First position in `from..to` that does not hold a zero digit.
fn scan_zeros(s: &str, from: usize, to: usize) -> (r: usize)
    requires
        from <= to <= s@.len(),
    ensures
        from <= r <= to,
        forall|k: int| from <= k < r ==> s@[k] == '0',
        r < to ==> s@[r as int] != '0',
{
    let mut z: usize = from;
    loop
        invariant
            from <= z <= to,
            to <= s@.len(),
            forall|k: int| from <= k < z ==> s@[k] == '0',
        decreases to - z,
    {
        if z >= to {
            return z;
        }
        let c = s.get_char(z);
        if c != '0' {
            return z;
        }
        z = z + 1;
    }
}

/// Coerces an integer text into a value: an `Int` when it fits, else its
/// canonical text as a `BigInt`.
#[verifier::loop_isolation(false)]
fn string_to_int_value(s: &str) -> (r: Result<Value, EvalError>)
    ensures
        value_result_view(r) == (match spec_int_text(s@) {
            Some(n) => Ok::<SpecValue, EvalError>(SpecValue::Int(n)),
            None => Err::<SpecValue, EvalError>(EvalError::CoercionError),
        }),
{
    let len = s.unicode_len();
    if len == 0 {
        return Err(EvalError::CoercionError);
    }
    let c0 = s.get_char(0);
    let neg = c0 == '-';
    let start: usize = if c0 == '-' || c0 == '+' {
        1
    } else {
        0
    };
    if start >= len {
        return Err(EvalError::CoercionError);
    }
    let mut i: usize = start;
    while i < len
        invariant
            start <= i <= len,
            forall|k: int| start <= k < i ==> is_digit_char(s@[k]),
        decreases len - i,
    {
        let c = s.get_char(i);
        if !(c >= '0' && c <= '9') {
            proof {
                if start == 1 {
                    assert(s@.skip(1)[i - 1] == s@[i as int]);
                }
            }
            return Err(EvalError::CoercionError);
        }
        i = i + 1;
    }
    proof {
        if start == 1 {
            assert(s@.skip(1) =~= s@.subrange(1, len as int));
        } else {
            assert(s@ =~= s@.subrange(0, len as int));
        }
    }
    match parse_int_text(s) {
        Some(v) => Ok(Value::Int(v)),
        None => {
            // the value lies outside the i64 range; canonicalise the text
            let z = scan_zeros(s, start, len);
            proof {
                lemma_digits_split(s@.subrange(start as int, len as int), z - start);
                assert(s@.subrange(start as int, len as int).take(z - start) =~= s@.subrange(
                    start as int,
                    z as int,
                ));
                assert(s@.subrange(start as int, len as int).skip(z - start) =~= s@.subrange(
                    z as int,
                    len as int,
                ));
                lemma_digits_val_zeros(s@.subrange(start as int, z as int));
            }
            if z >= len {
                // all digits are zeros, so the value is zero and fits: the
                // i64 parse above cannot have failed
                proof {
                    assert(s@.subrange(z as int, len as int) =~= Seq::<char>::empty());
                    assert(false);
                }
                return Err(EvalError::CoercionError);
            }
            let digits = s.substring_char(z, len);
            proof {
                assert(digits@ =~= s@.subrange(z as int, len as int));
                lemma_digits_val_nonneg(digits@);
            }
            let c = if neg {
                let mut m = String::from_str("-");
                proof {
                    reveal_strlit("-");
                }
                m.append(digits);
                m
            } else {
                digits.to_owned()
            };
            proof {
                if neg {
                    assert(c@.skip(1) =~= digits@);
                }
                lemma_canonical_signs(c@);
            }
            Ok(Value::BigInt(c))
        },
    }
}

/// The implicit conversions applied when values of differing kinds are
/// compared for equality.
pub struct ValueImplicitConversion {}

impl ValueImplicitConversion {
    /// Coerces one value toward a target kind.
    pub fn coerce_value(value: &Value, target: ValueKind) -> (r: Result<Value, EvalError>)
        ensures
            value_result_view(r) == spec_coerce_value(value@, target),
    {
        match (value, target) {
            (Value::String(s), ValueKind::Bool) => match parse_bool_text(s.as_str()) {
                Some(b) => Ok(Value::Bool(b)),
                None => Err(EvalError::CoercionError),
            },
            (Value::String(s), ValueKind::Int) => string_to_int_value(s.as_str()),
            (Value::String(s), ValueKind::Timestamp) => match parse_timestamp_text(s.as_str()) {
                Some((sec, ns, off)) => Ok(
                    Value::Timestamp(
                        TimestampValue {
                            epoch_seconds: sec,
                            subsec_nanos: ns,
                            offset_seconds: off,
                        },
                    ),
                ),
                None => Err(EvalError::CoercionError),
            },
            _ => Ok(value.clone()),
        }
    }

    /// Coerces two values toward each other's kinds.
    pub fn coerce(lhs: &Value, rhs: &Value) -> (r: Result<(Value, Value), EvalError>)
        ensures
            value_pair_result_view(r) == spec_coerce(lhs@, rhs@),
    {
        if lhs.kind() == rhs.kind() {
            return Ok((lhs.clone(), rhs.clone()));
        }
        let a2 = match Self::coerce_value(lhs, rhs.kind()) {
            Ok(v) => v,
            Err(e) => {
                return Err(e);
            },
        };
        let b2 = match Self::coerce_value(rhs, lhs.kind()) {
            Ok(v) => v,
            Err(e) => {
                return Err(e);
            },
        };
        if a2.kind() == b2.kind() {
            Ok((a2, b2))
        } else {
            Err(EvalError::TypeMismatch)
        }
    }
}

} // verus!

//! Character classes, decimal digit runs and lexicographic order on text,
//! shared by the parser and the value model.

use vstd::prelude::*;
use vstd::string::StrSliceExecFns;

verus! {

pub open spec fn is_space_char(c: char) -> bool {
    c == ' ' || c == '\t' || c == '\n' || c == '\r'
}

pub open spec fn is_digit_char(c: char) -> bool {
    '0' <= c && c <= '9'
}

pub open spec fn is_alpha_char(c: char) -> bool {
    ('a' <= c && c <= 'z') || ('A' <= c && c <= 'Z')
}

/// Numeric value of a decimal digit character.
pub open spec fn digit_val(c: char) -> int {
    c as u32 - 48
}

/// Numeric value of a run of decimal digit characters, most significant first.
pub open spec fn digits_val(s: Seq<char>) -> int
    decreases s.len(),
{
    if s.len() == 0 {
        0
    } else {
        digits_val(s.drop_last()) * 10 + digit_val(s.last())
    }
}

pub proof fn lemma_digits_val_nonneg(s: Seq<char>)
    requires
        forall|k: int| 0 <= k < s.len() ==> is_digit_char(s[k]),
    ensures
        digits_val(s) >= 0,
    decreases s.len(),
{
    if s.len() > 0 {
        lemma_digits_val_nonneg(s.drop_last());
    }
}

/// The value of a digit run does not shrink when more digits follow.
pub proof fn lemma_digits_val_mono(s: Seq<char>, from: int, i: int, to: int)
    requires
        0 <= from <= i <= to <= s.len(),
        forall|k: int| from <= k < to ==> is_digit_char(s[k]),
    ensures
        digits_val(s.subrange(from, to)) >= digits_val(s.subrange(from, i)),
    decreases to - i,
{
    if i < to {
        lemma_digits_val_mono(s, from, i, to - 1);
        let pre = s.subrange(from, to - 1);
        assert(s.subrange(from, to).drop_last() =~= pre);
        assert(forall|k: int| 0 <= k < pre.len() ==> is_digit_char(pre[k]));
        lemma_digits_val_nonneg(pre);
        assert(s.subrange(from, to).last() == s[to - 1]);
    } else {
        assert(s.subrange(from, to) =~= s.subrange(from, i));
    }
}

/// Computes the value of the decimal digits at positions `from..to`,
/// or `None` when that value does not fit in a `u64`.
pub fn digits_to_u64(input: &str, from: usize, to: usize) -> (r: Option<u64>)
    requires
        from <= to <= input@.len(),
        forall|k: int| from <= k < to ==> is_digit_char(input@[k]),
    ensures
        match r {
            Some(v) => v as int == digits_val(input@.subrange(from as int, to as int)),
            None => digits_val(input@.subrange(from as int, to as int)) > u64::MAX as int,
        },
{
    let mut i: usize = from;
    let mut acc: u64 = 0;
    while i < to
        invariant
            from <= i <= to <= input@.len(),
            forall|k: int| from <= k < to ==> is_digit_char(input@[k]),
            acc as int == digits_val(input@.subrange(from as int, i as int)),
        decreases to - i,
    {
        let c = input.get_char(i);
        let d = (c as u32) - 48;
        proof {
            assert(is_digit_char(input@[i as int]));
            assert(input@.subrange(from as int, i + 1 as int).drop_last() =~= input@.subrange(
                from as int,
                i as int,
            ));
            assert(input@.subrange(from as int, i + 1 as int).last() == input@[i as int]);
        }
        let m = match acc.checked_mul(10) {
            Some(m) => m,
            None => {
                proof {
                    lemma_digits_val_mono(input@, from as int, i + 1, to as int);
                }
                return None;
            },
        };
        let a = match m.checked_add(d as u64) {
            Some(a) => a,
            None => {
                proof {
                    lemma_digits_val_mono(input@, from as int, i + 1, to as int);
                }
                return None;
            },
        };
        acc = a;
        i = i + 1;
    }
    proof {
        assert(input@.subrange(from as int, to as int) =~= input@.subrange(
            from as int,
            i as int,
        ));
    }
    Some(acc)
}

/// Strict lexicographic order on character sequences, by code point.
pub open spec fn lex_lt(a: Seq<char>, b: Seq<char>) -> bool
    decreases a.len(),
{
    if b.len() == 0 {
        false
    } else if a.len() == 0 {
        true
    } else if a[0] != b[0] {
        a[0] < b[0]
    } else {
        lex_lt(a.drop_first(), b.drop_first())
    }
}

/// Decides the lexicographic order on two strings.
pub fn str_lex_lt(a: &str, b: &str) -> (r: bool)
    ensures
        r == lex_lt(a@, b@),
{
    let alen = a.unicode_len();
    let blen = b.unicode_len();
    let mut i: usize = 0;
    proof {
        assert(a@.skip(0) =~= a@);
        assert(b@.skip(0) =~= b@);
    }
    loop
        invariant
            i <= alen,
            i <= blen,
            alen == a@.len(),
            blen == b@.len(),
            lex_lt(a@, b@) == lex_lt(a@.skip(i as int), b@.skip(i as int)),
        decreases alen - i,
    {
        if i == blen {
            return false;
        }
        if i == alen {
            return true;
        }
        let ca = a.get_char(i);
        let cb = b.get_char(i);
        if ca != cb {
            return ca < cb;
        }
        proof {
            assert(a@.skip(i as int).drop_first() =~= a@.skip(i + 1));
            assert(b@.skip(i as int).drop_first() =~= b@.skip(i + 1));
        }
        i = i + 1;
    }
}

/// Every character of `s` is a decimal digit.
pub open spec fn all_digits(s: Seq<char>) -> bool {
    forall|k: int| 0 <= k < s.len() ==> is_digit_char(s[k])
}

/// The power of ten with the given exponent (one for exponents below one).
pub open spec fn pow10(n: int) -> int
    decreases n,
{
    if n <= 0 {
        1
    } else {
        10 * pow10(n - 1)
    }
}

pub proof fn lemma_pow10_pos(n: int)
    ensures
        pow10(n) >= 1,
    decreases n,
{
    if n > 0 {
        lemma_pow10_pos(n - 1);
    }
}

pub proof fn lemma_pow10_mono(m: int, n: int)
    requires
        m <= n,
    ensures
        pow10(m) <= pow10(n),
    decreases n - m,
{
    if m < n {
        lemma_pow10_mono(m, n - 1);
        lemma_pow10_pos(n - 1);
    }
}

/// A digit run of length `n` has a value below `pow10(n)`.
pub proof fn lemma_digits_val_upper(s: Seq<char>)
    requires
        all_digits(s),
    ensures
        0 <= digits_val(s) < pow10(s.len() as int),
    decreases s.len(),
{
    if s.len() > 0 {
        assert(all_digits(s.drop_last()));
        lemma_digits_val_upper(s.drop_last());
    }
}

/// A digit run without a leading zero has a value of at least
/// `pow10` of one less than its length.
pub proof fn lemma_digits_val_lower(s: Seq<char>)
    requires
        all_digits(s),
        s.len() >= 1,
        s[0] != '0',
    ensures
        digits_val(s) >= pow10(s.len() - 1),
    decreases s.len(),
{
    if s.len() == 1 {
        assert(digits_val(s.drop_last()) == 0);
    } else {
        assert(all_digits(s.drop_last()));
        assert(s.drop_last()[0] == s[0]);
        lemma_digits_val_lower(s.drop_last());
    }
}

/// Splitting a digit run: the prefix weighs `pow10` of the suffix's length.
pub proof fn lemma_digits_split(s: Seq<char>, i: int)
    requires
        0 <= i <= s.len(),
    ensures
        digits_val(s) == digits_val(s.take(i)) * pow10(s.len() - i) + digits_val(s.skip(i)),
    decreases s.len() - i,
{
    if i == s.len() {
        assert(s.take(i) =~= s);
        assert(s.skip(i) =~= Seq::<char>::empty());
    } else {
        let dl = s.drop_last();
        lemma_digits_split(dl, i);
        assert(dl.take(i) =~= s.take(i));
        assert(dl.skip(i) =~= s.skip(i).drop_last());
        assert(s.skip(i).last() == s.last());
        let t = digits_val(s.take(i));
        let p = pow10(s.len() - 1 - i);
        assert(t * (10 * p) == (t * p) * 10) by (nonlinear_arith);
    }
}

/// On digit runs of one length, lexicographic order is numeric order.
pub proof fn lemma_digits_lex(a: Seq<char>, b: Seq<char>)
    requires
        all_digits(a),
        all_digits(b),
        a.len() == b.len(),
    ensures
        lex_lt(a, b) == (digits_val(a) < digits_val(b)),
    decreases a.len(),
{
    if a.len() > 0 {
        let n = a.len() as int;
        let p = pow10(n - 1);
        lemma_pow10_pos(n - 1);
        lemma_digits_split(a, 1);
        lemma_digits_split(b, 1);
        assert(a.take(1) =~= seq![a[0]]);
        assert(b.take(1) =~= seq![b[0]]);
        assert(seq![a[0]].drop_last() =~= Seq::<char>::empty());
        assert(seq![b[0]].drop_last() =~= Seq::<char>::empty());
        assert(digits_val(Seq::<char>::empty()) == 0);
        assert(seq![a[0]].last() == a[0]);
        assert(seq![b[0]].last() == b[0]);
        assert(digits_val(seq![a[0]]) == digit_val(a[0]));
        assert(digits_val(seq![b[0]]) == digit_val(b[0]));
        let ta = a.skip(1);
        let tb = b.skip(1);
        assert(all_digits(ta));
        assert(all_digits(tb));
        lemma_digits_val_upper(ta);
        lemma_digits_val_upper(tb);
        assert(ta =~= a.drop_first());
        assert(tb =~= b.drop_first());
        if a[0] == b[0] {
            lemma_digits_lex(ta, tb);
        } else if (a[0] as u32) < (b[0] as u32) {
            assert(digit_val(a[0]) + 1 <= digit_val(b[0]));
            assert((digit_val(a[0]) + 1) * p <= digit_val(b[0]) * p) by (nonlinear_arith)
                requires
                    digit_val(a[0]) + 1 <= digit_val(b[0]),
                    p >= 1,
            ;
            assert(digits_val(a) < (digit_val(a[0]) + 1) * p) by (nonlinear_arith)
                requires
                    digits_val(a) == digit_val(a[0]) * p + digits_val(ta),
                    digits_val(ta) < p,
            ;
        } else {
            assert(digit_val(b[0]) + 1 <= digit_val(a[0]));
            assert((digit_val(b[0]) + 1) * p <= digit_val(a[0]) * p) by (nonlinear_arith)
                requires
                    digit_val(b[0]) + 1 <= digit_val(a[0]),
                    p >= 1,
            ;
            assert(digits_val(b) < (digit_val(b[0]) + 1) * p) by (nonlinear_arith)
                requires
                    digits_val(b) == digit_val(b[0]) * p + digits_val(tb),
                    digits_val(tb) < p,
            ;
        }
    }
}

/// Two sequences of one length that neither precedes lexicographically are
/// equal.
pub proof fn lemma_lex_trichotomy(a: Seq<char>, b: Seq<char>)
    requires
        a.len() == b.len(),
        !lex_lt(a, b),
        !lex_lt(b, a),
    ensures
        a =~= b,
    decreases a.len(),
{
    if a.len() > 0 {
        lemma_lex_trichotomy(a.drop_first(), b.drop_first());
        assert(forall|k: int|
            1 <= k < a.len() ==> a[k] == a.drop_first()[k - 1] && b[k] == b.drop_first()[k - 1]);
    }
}

/// A run of zero digits has value zero.
pub proof fn lemma_digits_val_zeros(s: Seq<char>)
    requires
        forall|k: int| 0 <= k < s.len() ==> s[k] == '0',
    ensures
        digits_val(s) == 0,
    decreases s.len(),
{
    if s.len() > 0 {
        lemma_digits_val_zeros(s.drop_last());
    }
}

} // verus!

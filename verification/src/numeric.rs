//! Recognizers for numeric literal text. A declaration value is
//! classified as an integer when it has the syntax and range of a
//! signed 128-bit integer, and as a float when it has the syntax of a
//! 64-bit float: an optional sign, then either a special word
//! (`inf`, `infinity`, `nan`, case-insensitive) or a mantissa with at
//! most one point and at least one digit, optionally followed by an
//! exponent marker, an optional sign and at least one digit.
//! Nothing is evaluated here: only syntax and range are decided.

use vstd::prelude::*;

verus! {

/// Is `c` a decimal digit?
pub open spec fn is_digit(c: char) -> bool {
    48 <= c as u32 && c as u32 <= 57
}

/// The numeric value of a digit character.
pub open spec fn digit_val(c: char) -> int {
    c as u32 - 48
}

/// Is every character of `s` a decimal digit?
pub open spec fn all_digits(s: Seq<char>) -> bool {
    forall|i: int| 0 <= i < s.len() ==> is_digit(s[i])
}

/// The value of a digit string, most significant digit first.
pub open spec fn digits_val(s: Seq<char>) -> int
    decreases s.len(),
{
    if s.len() == 0 {
        0
    } else {
        digits_val(s.drop_last()) * 10 + digit_val(s.last())
    }
}

/// Does `s` open with an explicit sign?
pub open spec fn has_sign(s: Seq<char>) -> bool {
    s.len() > 0 && (s[0] == '+' || s[0] == '-')
}

/// `s` without its leading sign, if any.
pub open spec fn strip_sign(s: Seq<char>) -> Seq<char> {
    if has_sign(s) {
        s.drop_first()
    } else {
        s
    }
}

/// Integer syntax: an optional sign followed by one or more digits.
pub open spec fn is_int_syntax(s: Seq<char>) -> bool {
    strip_sign(s).len() > 0 && all_digits(strip_sign(s))
}

/// The signed value of integer-shaped text.
pub open spec fn int_value(s: Seq<char>) -> int {
    if s.len() > 0 && s[0] == '-' {
        -digits_val(s.drop_first())
    } else {
        digits_val(strip_sign(s))
    }
}

/// Does `s` parse as a signed 128-bit integer: integer syntax, and a
/// value within the type's range?
pub open spec fn spec_is_integer(s: Seq<char>) -> bool {
    is_int_syntax(s) && i128::MIN <= int_value(s) && int_value(s) <= i128::MAX
}

proof fn lemma_digits_val_nonneg(s: Seq<char>)
    requires
        all_digits(s),
    ensures
        digits_val(s) >= 0,
    decreases s.len(),
{
    if s.len() > 0 {
        lemma_digits_val_nonneg(s.drop_last());
    }
}

proof fn lemma_digits_val_prefix(s: Seq<char>, k: int)
    requires
        all_digits(s),
        0 <= k <= s.len(),
    ensures
        digits_val(s) >= digits_val(s.take(k)),
    decreases s.len() - k,
{
    if k == s.len() {
        assert(s.take(k) =~= s);
    } else {
        let t = s.drop_last();
        assert(all_digits(t));
        lemma_digits_val_nonneg(t);
        assert(digits_val(s) >= digits_val(t));
        assert(t =~= s.take(s.len() - 1));
        lemma_digits_val_prefix(t, k);
        assert(t.take(k) =~= s.take(k));
    }
}

/// Decide [`spec_is_integer`] for the characters of `v`.
pub fn is_integer_literal(v: &Vec<char>) -> (r: bool)
    ensures
        r == spec_is_integer(v@),
{
    let mut i: usize = 0;
    let mut neg = false;
    if v.len() > 0 && (v[0] == '+' || v[0] == '-') {
        neg = v[0] == '-';
        i = 1;
    }
    let start = i;
    let ghost b = strip_sign(v@);
    proof {
        assert(b =~= v@.skip(start as int));
    }
    if i >= v.len() {
        return false;
    }
    let limit: u128 = if neg {
        170141183460469231731687303715884105728u128
    } else {
        170141183460469231731687303715884105727u128
    };
    let mut acc: u128 = 0;
    while i < v.len()
        invariant
            start <= i <= v.len(),
            start <= 1,
            b == v@.skip(start as int),
            b == strip_sign(v@),
            neg == (v@.len() > 0 && v@[0] == '-'),
            limit == if neg {
                170141183460469231731687303715884105728u128
            } else {
                170141183460469231731687303715884105727u128
            },
            all_digits(b.take(i - start)),
            acc == digits_val(b.take(i - start)),
            acc <= limit,
        decreases v.len() - i,
    {
        let c = v[i];
        let u = c as u32;
        if u < 48 || u > 57 {
            assert(!is_digit(b[i - start]));
            return false;
        }
        let d: u128 = (u - 48) as u128;
        let q = limit / 10;
        let rem = limit % 10;
        proof {
            assert(limit == 10 * q + rem && rem < 10) by (nonlinear_arith)
                requires
                    q == limit / 10 && rem == limit % 10,
            ;
        }
        let ghost m = i - start;
        proof {
            assert(b.take(m + 1).drop_last() =~= b.take(m));
            assert(b.take(m + 1).last() == b[m]);
            assert(digits_val(b.take(m + 1)) == acc * 10 + d);
            assert(all_digits(b.take(m + 1)));
        }
        if acc > q || (acc == q && d > rem) {
            proof {
                assert(acc * 10 + d > limit);
                if spec_is_integer(v@) {
                    assert(all_digits(b));
                    lemma_digits_val_prefix(b, m + 1);
                    assert(digits_val(b) >= acc * 10 + d);
                    if neg {
                        assert(int_value(v@) == -digits_val(b));
                        assert(int_value(v@) >= i128::MIN);
                        assert(digits_val(b) <= 170141183460469231731687303715884105728int);
                    } else {
                        assert(int_value(v@) == digits_val(b));
                        assert(int_value(v@) <= i128::MAX);
                        assert(digits_val(b) <= 170141183460469231731687303715884105727int);
                    }
                    assert(false);
                }
            }
            return false;
        }
        proof {
            assert(acc * 10 + d <= limit);
        }
        acc = acc * 10 + d;
        i = i + 1;
    }
    proof {
        assert(b.take(i - start) =~= b);
        assert(all_digits(b) && b.len() > 0);
        lemma_digits_val_nonneg(b);
        if neg {
            assert(int_value(v@) == -digits_val(b));
        } else {
            assert(int_value(v@) == digits_val(b));
        }
    }
    true
}

/// Case-insensitive match of one character against a lowercase
/// pattern character.
pub open spec fn ci_eq(a: char, b: char) -> bool {
    a == b || (65 <= a as u32 && a as u32 <= 90 && a as u32 + 32 == b as u32)
}

/// Case-insensitive match of text against a lowercase pattern.
pub open spec fn match_ci(s: Seq<char>, pat: Seq<char>) -> bool {
    s.len() == pat.len() && forall|i: int| 0 <= i < s.len() ==> ci_eq(s[i], pat[i])
}

/// The special float words accepted beside numeric mantissas.
pub open spec fn spec_float_special(s: Seq<char>) -> bool {
    match_ci(s, seq!['i', 'n', 'f']) || match_ci(s, seq!['i', 'n', 'f', 'i', 'n', 'i', 't', 'y'])
        || match_ci(s, seq!['n', 'a', 'n'])
}

/// The phases of the float-syntax scan, in reading order: the mantissa,
/// the position right after the exponent marker, the position right
/// after the exponent's sign, and the exponent's digits.
#[derive(Clone, Copy, Debug, PartialEq, Eq, Structural)]
pub enum FloatPhase {
    Mantissa,
    ExpStart,
    ExpSign,
    ExpDigits,
}

/// One left-to-right scan of float-number syntax starting at `i`.
/// `dg` records whether a mantissa digit has been seen and `dt`
/// whether the decimal point has.
pub open spec fn float_rec(s: Seq<char>, i: int, phase: FloatPhase, dg: bool, dt: bool) -> bool
    decreases s.len() - i,
{
    if i < 0 || i >= s.len() {
        (phase == FloatPhase::Mantissa && dg) || phase == FloatPhase::ExpDigits
    } else {
        let c = s[i];
        match phase {
            FloatPhase::Mantissa => if is_digit(c) {
                float_rec(s, i + 1, FloatPhase::Mantissa, true, dt)
            } else if c == '.' && !dt {
                float_rec(s, i + 1, FloatPhase::Mantissa, dg, true)
            } else if (c == 'e' || c == 'E') && dg {
                float_rec(s, i + 1, FloatPhase::ExpStart, dg, dt)
            } else {
                false
            },
            FloatPhase::ExpStart => if c == '+' || c == '-' {
                float_rec(s, i + 1, FloatPhase::ExpSign, dg, dt)
            } else if is_digit(c) {
                float_rec(s, i + 1, FloatPhase::ExpDigits, dg, dt)
            } else {
                false
            },
            FloatPhase::ExpSign => if is_digit(c) {
                float_rec(s, i + 1, FloatPhase::ExpDigits, dg, dt)
            } else {
                false
            },
            FloatPhase::ExpDigits => if is_digit(c) {
                float_rec(s, i + 1, FloatPhase::ExpDigits, dg, dt)
            } else {
                false
            },
        }
    }
}

/// Does `s` parse as a 64-bit float: an optional sign, then a special
/// word or a well-formed mantissa and optional exponent?
pub open spec fn spec_is_float(s: Seq<char>) -> bool {
    s.len() > 0 && (spec_float_special(strip_sign(s)) || float_rec(
        strip_sign(s),
        0,
        FloatPhase::Mantissa,
        false,
        false,
    ))
}

fn ci_eq_char(a: char, b: char) -> (r: bool)
    ensures
        r == ci_eq(a, b),
{
    let ua = a as u32;
    let ub = b as u32;
    a == b || (65 <= ua && ua <= 90 && ua + 32 == ub)
}

/// Decide [`match_ci`] of `v` from index `start` on against `pat`.
pub fn match_ci_from(v: &Vec<char>, start: usize, pat: &Vec<char>) -> (r: bool)
    requires
        start <= v.len(),
    ensures
        r == match_ci(v@.skip(start as int), pat@),
{
    if v.len() - start != pat.len() {
        return false;
    }
    let mut i: usize = 0;
    while i < pat.len()
        invariant
            0 <= i <= pat.len(),
            start + pat.len() == v.len(),
            forall|j: int| 0 <= j < i ==> ci_eq(v@.skip(start as int)[j], pat@[j]),
        decreases pat.len() - i,
    {
        if !ci_eq_char(v[start + i], pat[i]) {
            return false;
        }
        i = i + 1;
    }
    true
}

/// Decide [`spec_is_float`] for the characters of `v`.
pub fn is_float_literal(v: &Vec<char>) -> (r: bool)
    ensures
        r == spec_is_float(v@),
{
    if v.len() == 0 {
        return false;
    }
    let mut start: usize = 0;
    if v[0] == '+' || v[0] == '-' {
        start = 1;
    }
    let ghost b = strip_sign(v@);
    proof {
        assert(b =~= v@.skip(start as int));
    }
    let mut inf: Vec<char> = Vec::new();
    inf.push('i');
    inf.push('n');
    inf.push('f');
    let mut infinity: Vec<char> = Vec::new();
    infinity.push('i');
    infinity.push('n');
    infinity.push('f');
    infinity.push('i');
    infinity.push('n');
    infinity.push('i');
    infinity.push('t');
    infinity.push('y');
    let mut nan: Vec<char> = Vec::new();
    nan.push('n');
    nan.push('a');
    nan.push('n');
    proof {
        assert(inf@ =~= seq!['i', 'n', 'f']);
        assert(infinity@ =~= seq!['i', 'n', 'f', 'i', 'n', 'i', 't', 'y']);
        assert(nan@ =~= seq!['n', 'a', 'n']);
    }
    if match_ci_from(v, start, &inf) || match_ci_from(v, start, &infinity) || match_ci_from(
        v,
        start,
        &nan,
    ) {
        return true;
    }
    let mut i = start;
    let mut phase = FloatPhase::Mantissa;
    let mut dg = false;
    let mut dt = false;
    while i < v.len()
        invariant
            start <= i <= v.len(),
            v@.len() > 0,
            b == v@.skip(start as int),
            b == strip_sign(v@),
            !spec_float_special(b),
            float_rec(b, 0, FloatPhase::Mantissa, false, false) == float_rec(
                b,
                i - start,
                phase,
                dg,
                dt,
            ),
        decreases v.len() - i,
    {
        let c = v[i];
        let u = c as u32;
        let c_is_digit = 48 <= u && u <= 57;
        proof {
            assert(b[i - start] == v@[i as int]);
        }
        match phase {
            FloatPhase::Mantissa => {
                if c_is_digit {
                    dg = true;
                } else if c == '.' && !dt {
                    dt = true;
                } else if (c == 'e' || c == 'E') && dg {
                    phase = FloatPhase::ExpStart;
                } else {
                    return false;
                }
            },
            FloatPhase::ExpStart => {
                if c == '+' || c == '-' {
                    phase = FloatPhase::ExpSign;
                } else if c_is_digit {
                    phase = FloatPhase::ExpDigits;
                } else {
                    return false;
                }
            },
            FloatPhase::ExpSign => {
                if c_is_digit {
                    phase = FloatPhase::ExpDigits;
                } else {
                    return false;
                }
            },
            FloatPhase::ExpDigits => {
                if c_is_digit {
                } else {
                    return false;
                }
            },
        }
        i = i + 1;
    }
    (matches!(phase, FloatPhase::Mantissa) && dg) || matches!(phase, FloatPhase::ExpDigits)
}

} // verus!

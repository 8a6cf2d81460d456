//! Reading decimal number strings into fixed-point integers: an optional
//! sign, integer digits, and an optional point with fraction digits. The
//! value is scaled by a power of ten and truncated to that precision, so
//! every parse is exact integer arithmetic.
use vstd::prelude::*;
use vstd::arithmetic::mul::{
    lemma_mul_inequality, lemma_mul_is_associative, lemma_mul_is_distributive_sub_other_way,
};
use vstd::string::StrSliceExecFns;

use crate::digits::{
    all_digits, char_digit_val, digits_val, digits_value_capped, is_digit_char,
    lemma_digits_val_bound, lemma_digits_val_prefix_le, p10, pow10_u64,
};
use crate::errors::CoordError;

verus! {

/// The index of the first '.' in a sequence, or -1 if there is none.
pub open spec fn first_dot(b: Seq<char>) -> int
    decreases b.len(),
{
    if b.len() == 0 {
        -1
    } else if b[0] == '.' {
        0
    } else if first_dot(b.skip(1)) == -1 {
        -1
    } else {
        1 + first_dot(b.skip(1))
    }
}

/// What `first_dot` finds: either no dot anywhere, or the position of a
/// dot that no earlier character equals.
pub proof fn lemma_first_dot_props(b: Seq<char>)
    ensures
        first_dot(b) == -1 ==> forall|j: int| 0 <= j < b.len() ==> b[j] != '.',
        first_dot(b) != -1 ==> 0 <= first_dot(b) < b.len() && b[first_dot(b)] == '.' && (forall|
            j: int,
        | 0 <= j < first_dot(b) ==> b[j] != '.'),
    decreases b.len(),
{
    if b.len() > 0 && b[0] != '.' {
        lemma_first_dot_props(b.skip(1));
        assert(forall|j: int| 1 <= j < b.len() ==> b[j] == b.skip(1)[j - 1]);
    }
}

/// A dot at position d with no dot before it is the first dot.
proof fn lemma_first_dot_is(b: Seq<char>, d: int)
    requires
        0 <= d < b.len(),
        b[d] == '.',
        forall|j: int| 0 <= j < d ==> b[j] != '.',
    ensures
        first_dot(b) == d,
{
    lemma_first_dot_props(b);
    if first_dot(b) == -1 {
        assert(b[d] != '.');
    } else if first_dot(b) < d {
        assert(b[first_dot(b)] != '.');
    } else if first_dot(b) > d {
        assert(b[d] != '.');
    }
}

/// Whether a decimal string is negative: it starts with '-'.
pub open spec fn dec_neg(s: Seq<char>) -> bool {
    s.len() > 0 && s[0] == '-'
}

/// The string with any leading sign removed.
pub open spec fn dec_body(s: Seq<char>) -> Seq<char> {
    if s.len() > 0 && (s[0] == '-' || s[0] == '+') {
        s.skip(1)
    } else {
        s
    }
}

/// The digits before the first dot (or all of the body).
pub open spec fn dec_int_part(b: Seq<char>) -> Seq<char> {
    if first_dot(b) == -1 {
        b
    } else {
        b.take(first_dot(b))
    }
}

/// The digits after the first dot (empty if there is no dot).
pub open spec fn dec_frac_part(b: Seq<char>) -> Seq<char> {
    if first_dot(b) == -1 {
        Seq::empty()
    } else {
        b.skip(first_dot(b) + 1)
    }
}

/// A syntactically valid decimal string: an optional sign, then digits
/// with at most one dot among them, and at least one digit.
pub open spec fn dec_syntax_ok(s: Seq<char>) -> bool {
    let b = dec_body(s);
    all_digits(dec_int_part(b)) && all_digits(dec_frac_part(b)) && dec_int_part(b).len()
        + dec_frac_part(b).len() > 0
}

/// The magnitude of the body, scaled by ten to the `scale`: fraction
/// digits beyond the scale are truncated away.
pub open spec fn dec_scaled_mag(b: Seq<char>, scale: nat) -> int {
    let fp = dec_frac_part(b);
    let k = if fp.len() < scale {
        fp.len()
    } else {
        scale
    };
    digits_val(dec_int_part(b)) * p10(scale) + digits_val(fp.take(k as int)) * p10(
        (scale - k) as nat,
    )
}

/// What a decimal string denotes at a given scale: `None` for a malformed
/// string, and also for one whose integer part reaches ten to the
/// (18 - scale), the crate's fixed-point capacity.
pub open spec fn spec_decimal(s: Seq<char>, scale: nat) -> Option<int> {
    let b = dec_body(s);
    if dec_syntax_ok(s) && digits_val(dec_int_part(b)) < p10((18 - scale) as nat) {
        Some(
            if dec_neg(s) {
                -dec_scaled_mag(b, scale)
            } else {
                dec_scaled_mag(b, scale)
            },
        )
    } else {
        None
    }
}

/// Powers of ten are at least one.
proof fn lemma_p10_pos(a: nat)
    ensures
        p10(a) >= 1,
    decreases a,
{
    if a > 0 {
        lemma_p10_pos((a - 1) as nat);
    }
}

/// Ten to a sum of powers is the product of the powers.
proof fn lemma_p10_adds(a: nat, b: nat)
    ensures
        p10(a + b) == p10(a) * p10(b),
    decreases a,
{
    if a > 0 {
        lemma_p10_adds((a - 1) as nat, b);
        lemma_mul_is_associative(10, p10((a - 1) as nat) as int, p10(b) as int);
        assert(p10(a + b) == p10(a) * p10(b)) by (nonlinear_arith)
            requires
                p10(a + b) == 10 * p10((a - 1 + b) as nat),
                p10((a - 1 + b) as nat) == p10((a - 1) as nat) * p10(b),
                p10(a) == 10 * p10((a - 1) as nat),
        ;
    } else {
        assert(p10(a + b) == p10(b));
        assert(p10(a) == 1);
        vstd::arithmetic::mul::lemma_mul_basics(p10(b) as int);
    }
}

/// The combined scaled magnitude stays below ten to the 18 and neither
/// summand overflows.
proof fn lemma_scaled_bound(ipv: int, fpv: int, scale: nat, k: nat)
    requires
        scale <= 9,
        k <= scale,
        0 <= ipv < p10((18 - scale) as nat),
        0 <= fpv < p10(k),
    ensures
        0 <= ipv * p10(scale) <= p10(18nat) - p10(scale),
        0 <= fpv * p10((scale - k) as nat) <= p10(scale) - p10((scale - k) as nat),
        ipv * p10(scale) + fpv * p10((scale - k) as nat) < p10(18nat),
{
    lemma_p10_pos(scale);
    lemma_p10_pos((scale - k) as nat);
    lemma_p10_adds((18 - scale) as nat, scale);
    lemma_p10_adds(k, (scale - k) as nat);
    lemma_mul_inequality(0, ipv, p10(scale) as int);
    lemma_mul_inequality(ipv, p10((18 - scale) as nat) - 1, p10(scale) as int);
    lemma_mul_is_distributive_sub_other_way(
        p10(scale) as int,
        p10((18 - scale) as nat) as int,
        1,
    );
    lemma_mul_inequality(0, fpv, p10((scale - k) as nat) as int);
    lemma_mul_inequality(fpv, p10(k) - 1, p10((scale - k) as nat) as int);
    lemma_mul_is_distributive_sub_other_way(
        p10((scale - k) as nat) as int,
        p10(k) as int,
        1,
    );
}

/// Scans the characters of `s` from `off` on: every character must be a
/// digit but for at most one dot. Returns the dot's position, or the
/// length of `s` when there is none.
fn scan_decimal(s: &str, off: usize) -> (r: Result<usize, CoordError>)
    requires
        off <= s@.len(),
    ensures
        (r matches Ok(dot) ==> {
            let b = s@.skip(off as int);
            &&& off <= dot <= s@.len()
            &&& (dot == s@.len() ==> first_dot(b) == -1)
            &&& (dot < s@.len() ==> first_dot(b) == dot - off)
            &&& all_digits(dec_int_part(b))
            &&& all_digits(dec_frac_part(b))
        }),
        (r matches Err(e) ==> e is Validation && !(all_digits(dec_int_part(s@.skip(off as int)))
            && all_digits(dec_frac_part(s@.skip(off as int))))),
{
    let n = s.unicode_len();
    let ghost b = s@.skip(off as int);
    let mut dot: usize = n;
    let mut j: usize = off;
    while j < n
        invariant
            off <= j <= n == s@.len(),
            b == s@.skip(off as int),
            dot == n || (off <= dot < j && s@[dot as int] == '.'),
            forall|m: int| off <= m < j && m != dot ==> is_digit_char(s@[m]),
        decreases n - j,
    {
        let c = s.get_char(j);
        proof {
            assert(forall|m: int| 0 <= m < b.len() ==> b[m] == s@[m + off]);
        }
        if c == '.' {
            if dot < n {
                // A second dot: the fraction part holds a non-digit.
                proof {
                    let d = dot - off;
                    lemma_first_dot_is(b, d);
                    let fp = dec_frac_part(b);
                    assert(fp[j - off - d - 1] == s@[j as int]);
                    assert(!is_digit_char(fp[j - off - d - 1]));
                }
                return Err(CoordError::validation("Expected at most one point in the number."));
            }
            dot = j;
        } else {
            let dv = char_digit_val(c);
            if dv > 9 {
                // Not a digit and not a dot: whichever part it lands in,
                // that part is not all digits.
                proof {
                    let pos = j - off;
                    assert(!is_digit_char(b[pos]));
                    assert(b[pos] != '.');
                    if dot < n {
                        let d = dot - off;
                        lemma_first_dot_is(b, d);
                        let fp = dec_frac_part(b);
                        assert(fp[pos - d - 1] == b[pos]);
                        assert(!all_digits(fp));
                    } else {
                        lemma_first_dot_props(b);
                        if first_dot(b) == -1 {
                            assert(dec_int_part(b)[pos] == b[pos]);
                            assert(!all_digits(dec_int_part(b)));
                        } else {
                            assert(first_dot(b) != pos && !(first_dot(b) < pos));
                            assert(dec_int_part(b)[pos] == b[pos]);
                            assert(!all_digits(dec_int_part(b)));
                        }
                    }
                }
                return Err(CoordError::validation("Expected only digits and a point."));
            }
        }
        j += 1;
    }
    proof {
        assert(forall|m: int| 0 <= m < b.len() ==> b[m] == s@[m + off]);
        if dot < n {
            lemma_first_dot_is(b, dot - off);
            assert(all_digits(dec_int_part(b))) by {
                assert(forall|m: int|
                    0 <= m < dec_int_part(b).len() ==> dec_int_part(b)[m] == b[m]);
            }
            assert(all_digits(dec_frac_part(b))) by {
                assert(forall|m: int|
                    0 <= m < dec_frac_part(b).len() ==> dec_frac_part(b)[m] == b[
                        m + (dot - off) + 1
                    ]);
            }
        } else {
            lemma_first_dot_props(b);
            if first_dot(b) != -1 {
                assert(b[first_dot(b)] != '.');
            }
            assert(first_dot(b) == -1);
        }
    }
    Ok(dot)
}

/// Reads a decimal string as a signed fixed-point value scaled by ten to
/// the `scale`, truncating fraction digits beyond the scale. Malformed
/// strings and magnitudes at or above ten to the (18 - scale) are
/// validation errors.
#[verifier::rlimit(100)]
pub fn parse_scaled(s: &str, scale: usize) -> (r: Result<i64, CoordError>)
    requires
        1 <= scale <= 9,
    ensures
        (r matches Ok(v) <==> spec_decimal(s@, scale as nat) is Some),
        (r matches Ok(v) ==> Some(v as int) == spec_decimal(s@, scale as nat)
            && -1_000_000_000_000_000_000 < v < 1_000_000_000_000_000_000),
        (r matches Err(e) ==> e is Validation),
{
    let n = s.unicode_len();
    if n == 0 {
        return Err(CoordError::validation("Expected a number, got an empty string."));
    }
    let c0 = s.get_char(0);
    let off: usize = if c0 == '-' || c0 == '+' {
        1
    } else {
        0
    };
    let neg = c0 == '-';
    let ghost b = dec_body(s@);
    proof {
        assert(b =~= s@.skip(off as int));
    }
    if n == off {
        proof {
            assert(b.len() == 0);
            lemma_first_dot_props(b);
        }
        return Err(CoordError::validation("Expected digits in the number."));
    }

    let dot = match scan_decimal(s, off) {
        Ok(d) => d,
        Err(e) => {
            return Err(e);
        },
    };
    proof {
        if dot < n {
            assert(dec_int_part(b) =~= s@.subrange(off as int, dot as int));
            assert(dec_frac_part(b) =~= s@.subrange(dot + 1, n as int));
        } else {
            assert(dec_int_part(b) =~= s@.subrange(off as int, n as int));
            assert(dec_frac_part(b) =~= Seq::<char>::empty());
        }
    }
    if dot < n && n - off == 1 {
        // The body is a lone dot: no digits at all.
        proof {
            assert(dec_int_part(b).len() + dec_frac_part(b).len() == 0);
        }
        return Err(CoordError::validation("Expected digits in the number."));
    }
    proof {
        assert(dec_syntax_ok(s@));
    }
    scaled_value(s, off, dot, neg, scale)
}

/// Turns an already-scanned decimal string into its scaled value; `dot` is
/// the position of the point, or the string's length when there is none.
#[verifier::rlimit(60)]
fn scaled_value(s: &str, off: usize, dot: usize, neg: bool, scale: usize) -> (r: Result<
    i64,
    CoordError,
>)
    requires
        1 <= scale <= 9,
        off < s@.len(),
        off <= dot <= s@.len(),
        dec_body(s@) == s@.skip(off as int),
        neg == dec_neg(s@),
        dec_syntax_ok(s@),
        dot == s@.len() ==> first_dot(dec_body(s@)) == -1,
        dot < s@.len() ==> first_dot(dec_body(s@)) == dot - off,
        dec_int_part(dec_body(s@)) == (if dot < s@.len() {
            s@.subrange(off as int, dot as int)
        } else {
            s@.subrange(off as int, s@.len() as int)
        }),
        dot < s@.len() ==> dec_frac_part(dec_body(s@)) == s@.subrange(dot + 1, s@.len() as int),
    ensures
        (r matches Ok(v) <==> spec_decimal(s@, scale as nat) is Some),
        (r matches Ok(v) ==> Some(v as int) == spec_decimal(s@, scale as nat)
            && -1_000_000_000_000_000_000 < v < 1_000_000_000_000_000_000),
        (r matches Err(e) ==> e is Validation),
{
    let n = s.unicode_len();
    let ghost b = dec_body(s@);
    let int_end: usize = if dot < n {
        dot
    } else {
        n
    };

    // The integer part: capped at the fixed-point capacity.
    let cap = pow10_u64(18 - scale) - 1;
    let iv = match digits_value_capped(s, off, int_end, cap) {
        Some(v) => v,
        None => {
            return Err(CoordError::validation("The number is too large."));
        },
    };

    // The fraction part: only the first `scale` digits count.
    let frac_len: usize = if dot < n {
        n - dot - 1
    } else {
        0
    };
    let k: usize = if frac_len < scale {
        frac_len
    } else {
        scale
    };
    let fv: u64 = if k > 0 {
        proof {
            let fp = dec_frac_part(b);
            assert(fp.take(k as int) =~= s@.subrange(dot + 1, dot + 1 + k));
            lemma_digits_val_bound(s@.subrange(dot + 1, dot + 1 + k));
            lemma_p10_adds(k as nat, (9 - k) as nat);
            lemma_p10_pos((9 - k) as nat);
            lemma_mul_inequality(1, p10((9 - k) as nat) as int, p10(k as nat) as int);
            assert(p10(9nat) == 1_000_000_000) by {
                reveal_with_fuel(p10, 10);
            }
        }
        match digits_value_capped(s, dot + 1, dot + 1 + k, 1_000_000_000_000_000_000) {
            Some(v) => v,
            None => {
                proof {
                    assert(false);
                }
                0
            },
        }
    } else {
        proof {
            let fp = dec_frac_part(b);
            assert(fp.take(k as int) =~= Seq::<char>::empty());
        }
        0
    };

    // Scale and combine; everything stays below ten to the 18.
    let ghost ipv = digits_val(dec_int_part(b));
    let ghost fpv = digits_val(dec_frac_part(b).take(k as int));
    proof {
        assert(p10(18nat) == 1_000_000_000_000_000_000) by {
            reveal_with_fuel(p10, 20);
        }
        if k > 0 {
            lemma_digits_val_bound(dec_frac_part(b).take(k as int));
        } else {
            lemma_p10_pos(k as nat);
        }
        lemma_scaled_bound(ipv, fpv, scale as nat, k as nat);
    }
    let scaled_int = iv * pow10_u64(scale);
    let scaled_frac = fv * pow10_u64(scale - k);
    let mag = scaled_int + scaled_frac;
    proof {
        assert(mag as int == dec_scaled_mag(b, scale as nat));
        assert(mag < 1_000_000_000_000_000_000u64);
    }
    if neg {
        Ok(-(mag as i64))
    } else {
        Ok(mag as i64)
    }
}

} // verus!

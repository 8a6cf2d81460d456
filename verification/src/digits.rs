//! Decimal digits: reading them from characters and writing integers out as
//! decimal strings, both pinned to spec-level sequence functions.
use vstd::prelude::*;
use vstd::string::StringExecFns;

verus! {

/// The value of a decimal digit character, or 10 for any other character.
pub open spec fn char_digit(c: char) -> int {
    if c == '0' {
        0
    } else if c == '1' {
        1
    } else if c == '2' {
        2
    } else if c == '3' {
        3
    } else if c == '4' {
        4
    } else if c == '5' {
        5
    } else if c == '6' {
        6
    } else if c == '7' {
        7
    } else if c == '8' {
        8
    } else if c == '9' {
        9
    } else {
        10
    }
}

/// Whether a character is a decimal digit.
pub open spec fn is_digit_char(c: char) -> bool {
    char_digit(c) < 10
}

/// Whether a sequence consists of decimal digits only.
pub open spec fn all_digits(s: Seq<char>) -> bool {
    forall|i: int| 0 <= i < s.len() ==> is_digit_char(s[i])
}

/// The number a digit sequence denotes, read most-significant first.
pub open spec fn digits_val(s: Seq<char>) -> int
    decreases s.len(),
{
    if s.len() == 0 {
        0
    } else {
        digits_val(s.drop_last()) * 10 + char_digit(s.last())
    }
}

/// Ten to the k-th power.
pub open spec fn p10(k: nat) -> nat
    decreases k,
{
    if k == 0 {
        1
    } else {
        10 * p10((k - 1) as nat)
    }
}

/// The digit character for a value in 0..9 ('9' for anything else).
pub open spec fn digit_char(d: int) -> char {
    if d == 0 {
        '0'
    } else if d == 1 {
        '1'
    } else if d == 2 {
        '2'
    } else if d == 3 {
        '3'
    } else if d == 4 {
        '4'
    } else if d == 5 {
        '5'
    } else if d == 6 {
        '6'
    } else if d == 7 {
        '7'
    } else if d == 8 {
        '8'
    } else {
        '9'
    }
}

/// The shortest decimal writing of a number, most-significant digit first.
pub open spec fn dec_chars(n: nat) -> Seq<char>
    decreases n,
{
    if n < 10 {
        seq![digit_char(n as int)]
    } else {
        dec_chars((n / 10) as nat).push(digit_char((n % 10) as int))
    }
}

/// A number written in exactly `w` decimal digits, zero-padded on the left
/// (and silently truncated to its low `w` digits if it is wider).
pub open spec fn dec_chars_pad(n: nat, w: nat) -> Seq<char>
    decreases w,
{
    if w == 0 {
        Seq::empty()
    } else {
        dec_chars_pad((n / 10) as nat, (w - 1) as nat).push(digit_char((n % 10) as int))
    }
}

/// A digit sequence denotes a value below ten to its length.
pub proof fn lemma_digits_val_bound(s: Seq<char>)
    requires
        all_digits(s),
    ensures
        0 <= digits_val(s) < p10(s.len()),
    decreases s.len(),
{
    if s.len() > 0 {
        assert(all_digits(s.drop_last())) by {
            assert(forall|i: int|
                0 <= i < s.len() - 1 ==> s.drop_last()[i] == s[i] && is_digit_char(s[i]));
        }
        lemma_digits_val_bound(s.drop_last());
        assert(is_digit_char(s.last()));
    }
}

/// Dropping trailing digits never increases the value a digit sequence
/// denotes.
pub proof fn lemma_digits_val_prefix_le(s: Seq<char>, k: int)
    requires
        all_digits(s),
        0 <= k <= s.len(),
    ensures
        digits_val(s.take(k)) <= digits_val(s),
    decreases s.len() - k,
{
    if k == s.len() {
        assert(s.take(k) =~= s);
    } else {
        lemma_digits_val_prefix_le(s, k + 1);
        let t = s.take(k + 1);
        assert(t.drop_last() =~= s.take(k));
        assert(all_digits(t.drop_last()));
        lemma_digits_val_bound(s.take(k));
        assert(is_digit_char(t.last()));
        assert(digits_val(t) == digits_val(s.take(k)) * 10 + char_digit(t.last()));
    }
}

/// The numeric value of a digit character (10 marks a non-digit).
pub fn char_digit_val(c: char) -> (r: u8)
    ensures
        r as int == char_digit(c),
{
    match c {
        '0' => 0,
        '1' => 1,
        '2' => 2,
        '3' => 3,
        '4' => 4,
        '5' => 5,
        '6' => 6,
        '7' => 7,
        '8' => 8,
        '9' => 9,
        _ => 10,
    }
}

/// A one-character string for a digit value.
pub fn digit_str(d: u8) -> (r: &'static str)
    requires
        d < 10,
    ensures
        r@.len() == 1,
        r@[0] == digit_char(d as int),
{
    match d {
        0 => {
            proof {
                reveal_strlit("0");
            }
            "0"
        },
        1 => {
            proof {
                reveal_strlit("1");
            }
            "1"
        },
        2 => {
            proof {
                reveal_strlit("2");
            }
            "2"
        },
        3 => {
            proof {
                reveal_strlit("3");
            }
            "3"
        },
        4 => {
            proof {
                reveal_strlit("4");
            }
            "4"
        },
        5 => {
            proof {
                reveal_strlit("5");
            }
            "5"
        },
        6 => {
            proof {
                reveal_strlit("6");
            }
            "6"
        },
        7 => {
            proof {
                reveal_strlit("7");
            }
            "7"
        },
        8 => {
            proof {
                reveal_strlit("8");
            }
            "8"
        },
        _ => {
            proof {
                reveal_strlit("9");
            }
            "9"
        },
    }
}

/// Writes a number as its shortest decimal string.
pub fn u64_to_string(n: u64) -> (r: String)
    ensures
        r@ == dec_chars(n as nat),
    decreases n,
{
    if n < 10 {
        let r = digit_str(n as u8).to_owned();
        proof {
            assert(r@ =~= dec_chars(n as nat));
        }
        r
    } else {
        let mut r = u64_to_string(n / 10);
        r.append(digit_str((n % 10) as u8));
        proof {
            assert(r@ =~= dec_chars(n as nat));
        }
        r
    }
}

/// Writes the low `w` decimal digits of a number, zero-padded to exactly
/// `w` characters.
pub fn u64_to_string_pad(n: u64, w: usize) -> (r: String)
    ensures
        r@ == dec_chars_pad(n as nat, w as nat),
        r@.len() == w,
    decreases w,
{
    if w == 0 {
        let r = String::new();
        proof {
            assert(r@ =~= dec_chars_pad(n as nat, 0));
        }
        r
    } else {
        let mut r = u64_to_string_pad(n / 10, w - 1);
        r.append(digit_str((n % 10) as u8));
        proof {
            assert(r@ =~= dec_chars_pad(n as nat, w as nat));
        }
        r
    }
}

/// Ten to the k-th power, for exponents up to 18.
pub fn pow10_u64(k: usize) -> (r: u64)
    requires
        k <= 18,
    ensures
        r as nat == p10(k as nat),
        1 <= r <= 1_000_000_000_000_000_000,
{
    proof {
        reveal_with_fuel(p10, 20);
    }
    match k {
        0 => 1,
        1 => 10,
        2 => 100,
        3 => 1_000,
        4 => 10_000,
        5 => 100_000,
        6 => 1_000_000,
        7 => 10_000_000,
        8 => 100_000_000,
        9 => 1_000_000_000,
        10 => 10_000_000_000,
        11 => 100_000_000_000,
        12 => 1_000_000_000_000,
        13 => 10_000_000_000_000,
        14 => 100_000_000_000_000,
        15 => 1_000_000_000_000_000,
        16 => 10_000_000_000_000_000,
        17 => 100_000_000_000_000_000,
        _ => 1_000_000_000_000_000_000,
    }
}

/// Reads the digits of `s` between `from` and `to` as a number, returning
/// `None` as soon as the value would exceed `cap`.
pub fn digits_value_capped(s: &str, from: usize, to: usize, cap: u64) -> (r: Option<u64>)
    requires
        from <= to <= s@.len(),
        all_digits(s@.subrange(from as int, to as int)),
        cap <= 1_000_000_000_000_000_000,
    ensures
        (r matches Some(v) ==> v as int == digits_val(s@.subrange(from as int, to as int)) && v
            <= cap),
        (r is None ==> digits_val(s@.subrange(from as int, to as int)) > cap),
{
    let ghost whole = s@.subrange(from as int, to as int);
    let mut acc: u64 = 0;
    let mut i: usize = from;
    while i < to
        invariant
            from <= i <= to <= s@.len(),
            all_digits(whole),
            whole == s@.subrange(from as int, to as int),
            cap <= 1_000_000_000_000_000_000,
            acc as int == digits_val(s@.subrange(from as int, i as int)),
            acc <= cap,
        decreases to - i,
    {
        let c = s.get_char(i);
        proof {
            assert(whole[i - from] == c);
            assert(is_digit_char(c));
        }
        let d = char_digit_val(c);
        let nacc = acc * 10 + (d as u64);
        proof {
            let pre = s@.subrange(from as int, i as int);
            let ext = s@.subrange(from as int, i + 1 as int);
            assert(ext.drop_last() =~= pre);
            assert(ext.last() == c);
            assert(digits_val(ext) == digits_val(pre) * 10 + char_digit(c));
        }
        if nacc > cap {
            proof {
                let ext = s@.subrange(from as int, i + 1 as int);
                assert(ext =~= whole.take(i + 1 - from));
                lemma_digits_val_prefix_le(whole, i + 1 - from);
            }
            return None;
        }
        acc = nacc;
        i += 1;
    }
    proof {
        assert(s@.subrange(from as int, to as int) =~= whole);
    }
    Some(acc)
}

} // verus!

//! Canonical decimal strings for the numeric claim fields.
//!
//! Subject, issue time, expiry and token id travel inside a token as decimal
//! text.  This module defines the canonical form (no sign, no leading zero),
//! a verified printer and a verified parser, and the lemmas the codec needs:
//! printing always yields a canonical string, parsing a printed value gives
//! the value back, and printing is injective.

use vstd::arithmetic::div_mod::{lemma_fundamental_div_mod, lemma_multiply_divide_lt};
use vstd::prelude::*;

verus! {

/// A decimal digit character.
pub open spec fn is_digit_char(c: char) -> bool {
    48 <= c as int && c as int <= 57
}

/// Numeric value of a digit character.
pub open spec fn digit_val(c: char) -> int {
    c as int - 48
}

/// The digit character for a value in `0 ..= 9`.
pub open spec fn char_of_digit(d: int) -> char {
    if d == 0 {
        '0'
    } else if d == 1 {
        '1'
    } else if d == 2 {
        '2'
    } else if d == 3 {
        '3'
    } else if d == 4 {
        '4'
    } else if d == 5 {
        '5'
    } else if d == 6 {
        '6'
    } else if d == 7 {
        '7'
    } else if d == 8 {
        '8'
    } else {
        '9'
    }
}

/// The canonical decimal rendering of a natural number.
pub open spec fn dec_str(v: nat) -> Seq<char>
    decreases v,
{
    if v < 10 {
        seq![char_of_digit(v as int)]
    } else {
        dec_str(v / 10).push(char_of_digit((v % 10) as int))
    }
}

/// Every character of `s` is a decimal digit.
pub open spec fn all_digits(s: Seq<char>) -> bool {
    forall|i: int| 0 <= i < s.len() ==> is_digit_char(s[i])
}

/// The number a digit string denotes.
pub open spec fn value_of(s: Seq<char>) -> nat
    decreases s.len(),
{
    if s.len() == 0 {
        0
    } else {
        (value_of(s.drop_last()) * 10 + digit_val(s.last())) as nat
    }
}

/// A canonical decimal string: nonempty, digits only, no leading zero.
pub open spec fn is_canonical_dec(s: Seq<char>) -> bool {
    &&& s.len() > 0
    &&& all_digits(s)
    &&& (s.len() == 1 || s[0] != '0')
}

/// Ten to the power `n`.
pub open spec fn pow10(n: nat) -> nat
    decreases n,
{
    if n == 0 {
        1nat
    } else {
        10 * pow10((n - 1) as nat)
    }
}

/// What [`parse_u64`] returns: the denoted value, for a canonical decimal
/// string of at most twenty digits that fits in `u64`; nothing otherwise.
pub open spec fn spec_parse_u64(s: Seq<char>) -> Option<u64> {
    if is_canonical_dec(s) && s.len() <= 20 && value_of(s) <= u64::MAX {
        Some(value_of(s) as u64)
    } else {
        None
    }
}

/// A digit string of length `n` denotes a value below `10^n`.
pub proof fn lemma_value_of_bound(s: Seq<char>)
    requires
        all_digits(s),
    ensures
        value_of(s) < pow10(s.len()),
    decreases s.len(),
{
    if s.len() > 0 {
        assert(all_digits(s.drop_last()));
        lemma_value_of_bound(s.drop_last());
        assert(digit_val(s.last()) <= 9);
    }
}

/// The canonical rendering of `v` denotes `v`.
pub proof fn lemma_value_of_dec_str(v: nat)
    ensures
        value_of(dec_str(v)) == v,
    decreases v,
{
    if v < 10 {
        let s = dec_str(v);
        assert(s =~= seq![char_of_digit(v as int)]);
        assert(s.len() == 1);
        assert(s.drop_last() =~= Seq::<char>::empty());
        assert(s.last() == char_of_digit(v as int));
        assert(value_of(s.drop_last()) == 0);
        assert(digit_val(char_of_digit(v as int)) == v);
        assert(value_of(s) == (0 * 10 + digit_val(s.last())) as nat);
    } else {
        lemma_value_of_dec_str(v / 10);
        let s = dec_str(v);
        assert(s =~= dec_str(v / 10).push(char_of_digit((v % 10) as int)));
        assert(s.drop_last() =~= dec_str(v / 10));
        assert(s.last() == char_of_digit((v % 10) as int));
        assert(digit_val(char_of_digit((v % 10) as int)) == v % 10);
        lemma_fundamental_div_mod(v as int, 10);
    }
}

/// The canonical rendering is canonical: digits only, no leading zero.
pub proof fn lemma_dec_str_canonical(v: nat)
    ensures
        is_canonical_dec(dec_str(v)),
        v > 0 ==> dec_str(v)[0] != '0',
    decreases v,
{
    if v < 10 {
    } else {
        lemma_dec_str_canonical(v / 10);
        let s = dec_str(v);
        assert(s =~= dec_str(v / 10).push(char_of_digit((v % 10) as int)));
        assert(forall|i: int|
            0 <= i < s.len() - 1 ==> s[i] == dec_str(v / 10)[i]);
        assert(is_digit_char(char_of_digit((v % 10) as int)));
        assert(s[0] == dec_str(v / 10)[0]);
    }
}

/// A value below `10^n` renders in at most `n` digits.
pub proof fn lemma_dec_str_len(v: nat, n: nat)
    requires
        n >= 1,
        v < pow10(n),
    ensures
        dec_str(v).len() <= n,
    decreases n,
{
    if v < 10 {
    } else {
        assert(pow10(n) == 10 * pow10((n - 1) as nat));
        lemma_multiply_divide_lt(v as int, pow10((n - 1) as nat) as int, 10);
        assert(n - 1 >= 1) by {
            if n == 1 {
                assert(pow10(1nat) == 10 * pow10(0nat));
                assert(pow10(1nat) == 10);
            }
        }
        lemma_dec_str_len(v / 10, (n - 1) as nat);
    }
}

/// Rendering and parsing round-trip: `spec_parse_u64(dec_str(v)) == Some(v)`.
pub proof fn lemma_parse_dec_str(v: u64)
    ensures
        spec_parse_u64(dec_str(v as nat)) == Some(v),
{
    lemma_value_of_dec_str(v as nat);
    lemma_dec_str_canonical(v as nat);
    lemma_pow10_20();
    assert(v < pow10(20));
    lemma_dec_str_len(v as nat, 20);
}

/// Rendering is injective: distinct values have distinct decimal strings.
pub proof fn lemma_dec_str_injective(a: u64, b: u64)
    requires
        dec_str(a as nat) == dec_str(b as nat),
    ensures
        a == b,
{
    lemma_value_of_dec_str(a as nat);
    lemma_value_of_dec_str(b as nat);
}

/// The digit character for `d`, as a one-character string slice.
fn digit_str(d: u64) -> (r: &'static str)
    requires
        d < 10,
    ensures
        r@ =~= seq![char_of_digit(d as int)],
        r.is_ascii(),
{
    proof {
        reveal_strlit("0");
        reveal_strlit("1");
        reveal_strlit("2");
        reveal_strlit("3");
        reveal_strlit("4");
        reveal_strlit("5");
        reveal_strlit("6");
        reveal_strlit("7");
        reveal_strlit("8");
        reveal_strlit("9");
    }
    if d == 0 {
        "0"
    } else if d == 1 {
        "1"
    } else if d == 2 {
        "2"
    } else if d == 3 {
        "3"
    } else if d == 4 {
        "4"
    } else if d == 5 {
        "5"
    } else if d == 6 {
        "6"
    } else if d == 7 {
        "7"
    } else if d == 8 {
        "8"
    } else {
        "9"
    }
}

/// Append the canonical decimal rendering of `v` to `out`.
pub fn push_decimal(out: &mut String, v: u64)
    ensures
        final(out)@ == old(out)@ + dec_str(v as nat),
    decreases v,
{
    if v >= 10 {
        push_decimal(out, v / 10);
        let d: u64 = v % 10;
        out.append(digit_str(d));
        proof {
            assert(final(out)@ =~= old(out)@ + dec_str(v as nat));
        }
    } else {
        out.append(digit_str(v));
        proof {
            assert(final(out)@ =~= old(out)@ + dec_str(v as nat));
        }
    }
}

/// Parse a canonical decimal string into a `u64`.
///
/// Returns the denoted value exactly when the input is nonempty, digits
/// only, free of leading zeros, at most twenty digits, and within `u64`.
pub fn parse_u64(s: &str) -> (r: Option<u64>)
    ensures
        r == spec_parse_u64(s@),
{
    let n: usize = s.unicode_len();
    if n == 0 || n > 20 {
        return None;
    }
    if n > 1 {
        let c0: char = s.get_char(0);
        if c0 == '0' {
            return None;
        }
    }
    let mut acc: u128 = 0;
    let mut i: usize = 0;
    while i < n
        invariant
            0 <= i <= n,
            n == s@.len(),
            1 <= n <= 20,
            all_digits(s@.subrange(0, i as int)),
            acc == value_of(s@.subrange(0, i as int)),
        decreases n - i,
    {
        let c: char = s.get_char(i);
        let cu: u32 = c as u32;
        if cu < 48 || cu > 57 {
            assert(!is_digit_char(s@[i as int]));
            return None;
        }
        let d: u32 = cu - 48;
        proof {
            let pre = s@.subrange(0, i as int);
            let pre1 = s@.subrange(0, i as int + 1);
            assert(pre1.drop_last() =~= pre);
            assert(pre1.last() == s@[i as int]);
            lemma_value_of_bound(pre);
            lemma_pow10_le_20(pre.len());
            lemma_pow10_20();
        }
        acc = acc * 10 + (d as u128);
        i = i + 1;
    }
    assert(s@.subrange(0, n as int) =~= s@);
    if acc > u64::MAX as u128 {
        return None;
    }
    Some(acc as u64)
}

/// The numeric value of `10^20`.
proof fn lemma_pow10_20()
    ensures
        pow10(20) == 0x56bc75e2d63100000,
{
    reveal_with_fuel(pow10, 21);
}

/// `pow10` is monotone up to twenty digits.
proof fn lemma_pow10_le_20(n: nat)
    requires
        n <= 20,
    ensures
        pow10(n) <= pow10(20),
    decreases 20 - n,
{
    if n < 20 {
        lemma_pow10_le_20(n + 1);
        assert(pow10(n + 1) == 10 * pow10(n));
        assert(pow10(n) >= 1) by {
            lemma_pow10_pos(n);
        }
    }
}

/// `pow10` is positive.
proof fn lemma_pow10_pos(n: nat)
    ensures
        pow10(n) >= 1,
    decreases n,
{
    if n > 0 {
        lemma_pow10_pos((n - 1) as nat);
    }
}

} // verus!

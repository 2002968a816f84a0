//! Numbers in text.

use vstd::arithmetic::div_mod::{lemma_div_decreases, lemma_mod_bound, lemma_small_mod};
use vstd::prelude::*;

verus! {

/// The digits, by their value.
pub open spec fn digit(d: int) -> char {
    "0123456789abcdef"@[d]
}

/// `v` written to the base `base`, without leading zeros.
pub open spec fn numeral(v: nat, base: nat) -> Seq<char>
    decreases v,
{
    if base < 2 || v < base {
        seq![digit(v as int)]
    } else {
        proof {
            lemma_div_decreases(v as int, base as int);
        }
        numeral(v / base, base).push(digit((v % base) as int))
    }
}

/// `v` in decimal digits.
pub open spec fn decimal(v: nat) -> Seq<char> {
    numeral(v, 10)
}

/// `v` in hexadecimal digits, behind `0x`.
pub open spec fn hexadecimal(v: nat) -> Seq<char> {
    "0x"@ + numeral(v, 16)
}

/// A numeral ends in the digit for the remainder by the base, `0` to `9` and then `a` to `f`;
/// what stands before it is the numeral of the quotient, and there is nothing before it
/// exactly if the quotient is 0.
pub proof fn law_numeral_by_division(v: nat, base: nat)
    requires
        2 <= base <= 16,
    ensures
        numeral(v, base).len() > 0,
        v < base ==> numeral(v, base).len() == 1,
        v >= base ==> numeral(v, base).drop_last() == numeral(v / base, base),
        v % base < 10 ==> numeral(v, base).last() as int == 48 + v % base,
        v % base >= 10 ==> numeral(v, base).last() as int == 87 + v % base,
{
    reveal_strlit("0123456789abcdef");
    lemma_mod_bound(v as int, base as int);
    if v < base {
        lemma_small_mod(v, base);
    } else {
        assert(numeral(v, base).drop_last() =~= numeral(v / base, base));
    }
}

/// Decimal and hexadecimal digits are those to the bases 10 and 16.
pub proof fn law_decimal_and_hexadecimal(v: nat)
    ensures
        decimal(v) == numeral(v, 10),
        hexadecimal(v).len() == 2 + numeral(v, 16).len(),
        hexadecimal(v)[0] == '0',
        hexadecimal(v)[1] == 'x',
        hexadecimal(v).skip(2) == numeral(v, 16),
{
    reveal_strlit("0x");
    assert(hexadecimal(v).skip(2) =~= numeral(v, 16));
}

fn push_digit(text: &mut String, d: usize)
    requires
        d < 16,
    ensures
        final(text)@ == old(text)@.push(digit(d as int)),
{
    let digits = "0123456789abcdef";
    proof {
        reveal_strlit("0123456789abcdef");
    }
    text.append(digits.substring_ascii(d, d + 1));
}

fn push_numeral(text: &mut String, v: u64, base: u64)
    requires
        2 <= base <= 16,
    ensures
        final(text)@ == old(text)@ + numeral(v as nat, base as nat),
    decreases v,
{
    proof {
        lemma_mod_bound(v as int, base as int);
        if v >= base {
            lemma_div_decreases(v as int, base as int);
        } else {
            lemma_small_mod(v as nat, base as nat);
        }
    }
    if v >= base {
        push_numeral(text, v / base, base);
    }
    push_digit(text, (v % base) as usize);
    assert(text@ =~= old(text)@ + numeral(v as nat, base as nat));
}

/// Appends `v` in decimal digits.
pub fn push_decimal(text: &mut String, v: u64)
    ensures
        final(text)@ == old(text)@ + decimal(v as nat),
{
    push_numeral(text, v, 10);
}

/// Appends `v` in hexadecimal digits, behind `0x`.
pub fn push_hexadecimal(text: &mut String, v: u64)
    ensures
        final(text)@ == old(text)@ + hexadecimal(v as nat),
{
    text.append("0x");
    push_numeral(text, v, 16);
}

} // verus!

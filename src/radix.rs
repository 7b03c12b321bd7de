//! Rendering of unsigned values as digits in a radix from 2 to 16.

use vstd::arithmetic::div_mod::{lemma_div_decreases, lemma_small_mod};
use vstd::prelude::*;

verus! {

/// The character for digit `d` below 16: `0`-`9`, then upper-case `A`-`F`.
pub open spec fn digit_char(d: nat) -> char {
    if d < 10 {
        (48 + d) as u8 as char
    } else {
        (55 + d) as u8 as char
    }
}

/// The digits of `v` in radix `b`, most significant first, with no leading zeros
/// (zero is the single digit `0`).
pub open spec fn digits_of(v: nat, b: nat) -> Seq<char>
    recommends
        2 <= b <= 16,
    decreases v,
{
    if 2 <= b && b <= v {
        let q = v / b;
        // `q < v` always holds here; the test only makes the recursion visibly finite.
        if q < v {
            digits_of(q, b).push(digit_char(v % b))
        } else {
            seq![]
        }
    } else {
        seq![digit_char(v)]
    }
}

/// The character for digit `d`.
fn to_digit(d: u128) -> (c: char)
    requires
        d < 16,
    ensures
        c == digit_char(d as nat),
{
    if d < 10 {
        (48 + d as u8) as char
    } else {
        (55 + d as u8) as char
    }
}

/// Appends the digits of `v` in radix `b` to `out`.
pub fn push_digits(v: u128, b: u128, out: &mut Vec<char>)
    requires
        2 <= b <= 16,
    ensures
        final(out)@ == old(out)@ + digits_of(v as nat, b as nat),
    decreases v,
{
    let ghost start = out@;
    if v >= b {
        proof {
            lemma_div_decreases(v as int, b as int);
        }
        push_digits(v / b, b, out);
        out.push(to_digit(v % b));
        proof {
            let q = (v / b) as nat;
            assert(digits_of(v as nat, b as nat) == digits_of(q, b as nat).push(
                digit_char((v % b) as nat),
            ));
            assert(start + digits_of(v as nat, b as nat) =~= out@);
        }
    } else {
        out.push(to_digit(v % b));
        proof {
            lemma_small_mod(v as nat, b as nat);
            assert(start + digits_of(v as nat, b as nat) =~= out@);
        }
    }
}

/// Relies on `String`'s `FromIterator<char>`: the string holds the characters in order.
#[verifier::external_body]
pub(crate) fn string_of_chars(cs: &Vec<char>) -> (r: String)
    ensures
        r@ == cs@,
{
    cs.iter().collect()
}

} // verus!

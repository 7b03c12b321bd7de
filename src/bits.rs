//! Facts that connect the machine's shifts and masks on `u128` with powers of two.

use vstd::arithmetic::power2::*;
use vstd::arithmetic::div_mod::{
    lemma_mod_add_multiples_vanish, lemma_mod_breakdown, lemma_mod_mod, lemma_mul_mod_noop_left,
    lemma_small_mod,
};
use vstd::arithmetic::power::lemma_pow0;
use vstd::prelude::*;

verus! {

/// `v` keeps only its low `w` bits.
pub open spec fn mask_of(v: int, w: nat) -> int {
    v % (pow2(w) as int)
}

/// `v` has no bit set at or above position `w`.
pub open spec fn fits(v: int, w: nat) -> bool {
    0 <= v < pow2(w)
}

/// A one shifted left by `w` is two to the `w`.
pub proof fn lemma_shl_one(w: u8)
    requires
        w < 128,
    ensures
        (1u128 << w) as int == pow2(w as nat),
    decreases w,
{
    if w == 0 {
        assert(1u128 << 0u8 == 1u128) by (bit_vector);
        lemma_pow0(2);
    } else {
        let k: u8 = (w - 1) as u8;
        lemma_shl_one(k);
        assert((1u128 << w) == (1u128 << k) * 2) by (bit_vector)
            requires
                k < 127,
                w == k + 1,
        ;
        lemma_pow2_unfold(w as nat);
    }
}

/// Two to the 128 is one more than the largest `u128`.
pub proof fn lemma_pow2_128()
    ensures
        pow2(128) == u128::MAX as int + 1,
        pow2(64) == u64::MAX as int + 1,
{
    lemma2_to64();
    lemma_pow2_adds(64, 64);
}

/// The low `w` ones, as a `u128`.
pub open spec fn low_ones(w: u8) -> u128 {
    ((1u128 << w) - 1) as u128
}

/// Keeping the low `w` bits is the remainder modulo two to the `w`.
pub proof fn lemma_low_ones_mod(v: u128, w: u8)
    requires
        w < 128,
    ensures
        (v & low_ones(w)) as int == v as int % (pow2(w as nat) as int),
    decreases w,
{
    if w == 0 {
        assert(v & (((1u128 << 0u8) - 1) as u128) == 0) by (bit_vector);
        lemma_pow0(2);
    } else {
        let k: u8 = (w - 1) as u8;
        let h: u128 = v >> 1u8;
        lemma_low_ones_mod(h, k);
        assert(v & (((1u128 << w) - 1) as u128) == (v & 1) + 2 * (h & (((1u128 << k) - 1) as u128)))
            by (bit_vector)
            requires
                k < 127,
                w == k + 1,
                h == v >> 1u8,
        ;
        assert(h == v / 2 && v & 1 == v % 2) by (bit_vector)
            requires
                h == v >> 1u8,
        ;
        lemma_pow2_unfold(w as nat);
        lemma_pow2_pos(k as nat);
        lemma_mod_breakdown(v as int, 2, pow2(k as nat) as int);
    }
}

/// Masking with the low `w` ones keeps exactly `mask_of(v, w)`, which fits in `w` bits.
pub proof fn lemma_and_low_mask(v: u128, w: u8)
    requires
        w < 128,
    ensures
        (v & low_ones(w)) as int == mask_of(v as int, w as nat),
        fits(mask_of(v as int, w as nat), w as nat),
        (1u128 << w) >= 1,
{
    lemma_shl_one(w);
    lemma_low_ones_mod(v, w);
    lemma_pow2_pos(w as nat);
}

/// Every integer, reduced, fits in `w` bits; one that already fits is unchanged.
pub proof fn lemma_mask_of_bounds(v: int, w: nat)
    ensures
        fits(mask_of(v, w), w),
        fits(v, w) ==> mask_of(v, w) == v,
{
    lemma_pow2_pos(w);
    if fits(v, w) {
        lemma_small_mod(v as nat, pow2(w));
    }
}

/// Wrapping at 128 bits first changes nothing once the value is reduced to `w <= 128` bits.
pub proof fn lemma_mask_of_wrap(a: int, w: nat)
    requires
        w <= 128,
    ensures
        mask_of(a % pow2(128) as int, w) == mask_of(a, w),
{
    lemma_pow2_adds(w, (128 - w) as nat);
    lemma_pow2_pos(w);
    lemma_pow2_pos((128 - w) as nat);
    lemma_mod_mod(a, pow2(w) as int, pow2((128 - w) as nat) as int);
}

/// A left shift multiplies by a power of two and wraps at 128 bits.
pub proof fn lemma_shl_wrap(x: u128, n: u8)
    requires
        n < 128,
    ensures
        (x << n) as int == (x as int * pow2(n as nat)) % pow2(128) as int,
    decreases n,
{
    lemma_pow2_128();
    if n == 0 {
        lemma_pow0(2);
        assert(x << 0u8 == x) by (bit_vector);
        assert(pow2(n as nat) == 1);
        assert(x as int * pow2(n as nat) == x) by (nonlinear_arith)
            requires
                pow2(n as nat) == 1,
        ;
        lemma_small_mod(x as nat, pow2(128));
    } else {
        let k: u8 = (n - 1) as u8;
        let y: u128 = x << k;
        lemma_shl_wrap(x, k);
        let half: u128 = 0x8000_0000_0000_0000_0000_0000_0000_0000;
        assert(x << n == y << 1u8) by (bit_vector)
            requires
                k < 127,
                n == k + 1,
                y == x << k,
        ;
        assert(y < half ==> (y << 1u8) == y * 2) by (bit_vector)
            requires
                half == 0x8000_0000_0000_0000_0000_0000_0000_0000u128,
        ;
        assert(y >= half ==> (y << 1u8) == (y - half) * 2) by (bit_vector)
            requires
                half == 0x8000_0000_0000_0000_0000_0000_0000_0000u128,
        ;
        let p: int = pow2(128) as int;
        if y < half {
            lemma_small_mod((y * 2) as nat, p as nat);
        } else {
            lemma_mod_add_multiples_vanish(y * 2 - p, p);
            lemma_small_mod((y * 2 - p) as nat, p as nat);
        }
        assert((x << n) as int == (y as int * 2) % p);
        lemma_pow2_unfold(n as nat);
        lemma_mul_mod_noop_left(x as int * pow2(k as nat) as int, 2, pow2(128) as int);
        assert(x as int * pow2(k as nat) as int * 2 == x as int * pow2(n as nat) as int)
            by (nonlinear_arith)
            requires
                pow2(n as nat) == 2 * pow2(k as nat),
        ;
        assert((y as int * 2) % p == (x as int * pow2(n as nat)) % p);
    }
}

/// Below 128 bits, a value fits in `w` bits exactly when masking with the low `w` ones keeps it.
pub proof fn lemma_fits_low_ones(v: u128, w: u8)
    requires
        w < 128,
    ensures
        fits(v as int, w as nat) <==> (v & low_ones(w)) == v,
{
    lemma_low_ones_mod(v, w);
    lemma_mask_of_bounds(v as int, w as nat);
}

/// `&`, `|` and `^` of two values that fit in `w` bits fit too.
pub proof fn lemma_bitwise_fits(a: u128, b: u128, w: u8)
    requires
        1 <= w <= 128,
        fits(a as int, w as nat),
        fits(b as int, w as nat),
    ensures
        fits((a & b) as int, w as nat),
        fits((a | b) as int, w as nat),
        fits((a ^ b) as int, w as nat),
{
    if w == 128 {
        lemma_pow2_128();
    } else {
        lemma_fits_low_ones(a, w);
        lemma_fits_low_ones(b, w);
        lemma_fits_low_ones(a & b, w);
        lemma_fits_low_ones(a | b, w);
        lemma_fits_low_ones(a ^ b, w);
        let m = low_ones(w);
        assert((a & b) & m == a & b && (a | b) & m == a | b && (a ^ b) & m == a ^ b)
            by (bit_vector)
            requires
                a & m == a,
                b & m == b,
        ;
    }
}

} // verus!

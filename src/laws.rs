//! Laws that relate several engine operations.

use crate::bits::{fits, lemma_mask_of_bounds};
use crate::cpu::Hp16cCpu;
use vstd::arithmetic::power2::pow2;
use vstd::prelude::*;

verus! {

/// After the word size is set to `w` (1 to 128), a pushed `v` shows as `v` modulo `2^w`;
/// at 128 bits that is `v` itself.
pub proof fn lemma_push_after_word_size(c: Hp16cCpu, w: u8, v: u128)
    requires
        c.wf(),
        1 <= w <= 128,
    ensures
        c.after_set_word_size(w).after_push(v).x as int == v as int % pow2(w as nat) as int,
        w == 128 ==> c.after_set_word_size(w).after_push(v).x == v,
{
    lemma_mask_of_bounds(v as int, w as nat);
    if w == 128 {
        crate::bits::lemma_pow2_128();
        lemma_mask_of_bounds(v as int, 128);
    }
}

/// Four pushes fill the stack in order: the first value ends in `t`, the last in `x`,
/// each reduced to the word size, so values that fit the word come back unchanged.
pub proof fn lemma_four_pushes(c: Hp16cCpu, a: u128, b: u128, d: u128, e: u128)
    requires
        c.wf(),
    ensures
        ({
            let s = c.after_push(a).after_push(b).after_push(d).after_push(e);
            &&& s.t == c.masked(a as int)
            &&& s.z == c.masked(b as int)
            &&& s.y == c.masked(d as int)
            &&& s.x == c.masked(e as int)
        }),
        fits(a as int, c.ws()) && fits(b as int, c.ws()) && fits(d as int, c.ws()) && fits(
            e as int,
            c.ws(),
        ) ==> {
            let s = c.after_push(a).after_push(b).after_push(d).after_push(e);
            (s.t, s.z, s.y, s.x) == (a, b, d, e)
        },
{
    lemma_mask_of_bounds(a as int, c.ws());
    lemma_mask_of_bounds(b as int, c.ws());
    lemma_mask_of_bounds(d as int, c.ws());
    lemma_mask_of_bounds(e as int, c.ws());
}

/// Exchanging `x` and `y` twice gives back the state.
pub proof fn lemma_swap_xy_twice(c: Hp16cCpu)
    ensures
        c.after_swap_xy().after_swap_xy() == c,
{
}

/// Four rotations in the same direction give back the state.
pub proof fn lemma_roll_four_times(c: Hp16cCpu)
    ensures
        c.after_roll_down().after_roll_down().after_roll_down().after_roll_down() == c,
        c.after_roll_up().after_roll_up().after_roll_up().after_roll_up() == c,
{
}

} // verus!

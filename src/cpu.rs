//! The register engine: the four-level stack, word-size masking, flags and
//! the sixteen storage registers.

use crate::bits::{
    fits, lemma_and_low_mask, lemma_bitwise_fits, lemma_mask_of_bounds, lemma_mask_of_wrap,
    lemma_pow2_128, lemma_shl_wrap, low_ones, mask_of,
};
use vstd::arithmetic::div_mod::{
    lemma_basic_div, lemma_div_basics_5, lemma_div_non_zero, lemma_mod_add_multiples_vanish,
    lemma_small_mod,
};
use crate::radix::{digits_of, push_digits, string_of_chars};
use crate::rom::{load_lines, Rom};
use vstd::arithmetic::power2::*;
use vstd::array::spec_array_update;
use vstd::bits::lemma_u128_shr_is_div;
use vstd::prelude::*;

verus! {

/// The engine's state.
#[derive(Debug, Clone)]
pub struct Hp16cCpu {
    /// The display register, top of the stack.
    pub x: u128,
    /// The second level.
    pub y: u128,
    /// The third level.
    pub z: u128,
    /// The bottom of the stack.
    pub t: u128,
    /// Program counter; no operation here moves it.
    pub pc: u16,
    /// The address table.
    pub rom: Rom,
    /// Bits that count, from 1 to 128.
    pub word_size: u8,
    /// Display radix: 2, 8, 10 or 16.
    pub base: u8,
    /// Set by the last arithmetic operation or shift that carried or borrowed.
    pub carry: bool,
    /// Set by a division by zero.
    pub overflow: bool,
    /// The sixteen storage registers, kept as stored whatever the word size.
    pub memory: [u128; 16],
    /// Set while the calculator runs; no operation here clears it.
    pub running: bool,
}

/// Relies on `u128::overflowing_mul`: the product wrapped at 128 bits, and whether it wrapped.
pub assume_specification[ u128::overflowing_mul ](x: u128, rhs: u128) -> (r: (u128, bool))
    ensures
        r.0 as int == (x as int * rhs as int) % (u128::MAX as int + 1),
        r.1 == (x as int * rhs as int > u128::MAX as int),
;

/// The radices a value can be shown in.
pub open spec fn valid_base(b: u8) -> bool {
    b == 2 || b == 8 || b == 10 || b == 16
}

/// The radix that values are shown in: the base where it is valid, else 16.
pub open spec fn shown_radix(b: u8) -> nat {
    if valid_base(b) {
        b as nat
    } else {
        16
    }
}

/// The display radix as a divisor.
fn radix_of(base: u8) -> (r: u128)
    ensures
        r as nat == shown_radix(base),
{
    match base {
        2 => 2,
        8 => 8,
        10 => 10,
        _ => 16,
    }
}

/// `label`, a colon and a space, then `v` in radix `b`.
fn labelled(label: char, v: u128, b: u128) -> (r: String)
    requires
        2 <= b <= 16,
    ensures
        r@ == seq![label, ':', ' '] + digits_of(v as nat, b as nat),
{
    let mut cs: Vec<char> = Vec::new();
    cs.push(label);
    cs.push(':');
    cs.push(' ');
    push_digits(v, b, &mut cs);
    string_of_chars(&cs)
}

impl Hp16cCpu {
    /// The word size as a natural number.
    pub open spec fn ws(&self) -> nat {
        self.word_size as nat
    }

    /// The word size and base are valid and the four stack registers fit in the word.
    pub open spec fn wf(&self) -> bool {
        &&& 1 <= self.word_size <= 128
        &&& valid_base(self.base)
        &&& fits(self.x as int, self.ws())
        &&& fits(self.y as int, self.ws())
        &&& fits(self.z as int, self.ws())
        &&& fits(self.t as int, self.ws())
    }

    /// `v` reduced to the current word size.
    pub open spec fn masked(&self, v: int) -> u128 {
        mask_of(v, self.ws()) as u128
    }

    /// The state after pushing `v`: the stack moves up, `t` is lost.
    pub open spec fn after_push(self, v: u128) -> Self {
        Hp16cCpu { x: self.masked(v as int), y: self.x, z: self.y, t: self.z, ..self }
    }

    /// The state after discarding `x`: the stack moves down and `t` stays.
    pub open spec fn after_drop(self) -> Self {
        Hp16cCpu { x: self.y, y: self.z, z: self.t, ..self }
    }

    /// The state after exchanging `x` and `y`.
    pub open spec fn after_swap_xy(self) -> Self {
        Hp16cCpu { x: self.y, y: self.x, ..self }
    }

    /// The state after rotating `(x, y, z, t)` to `(y, z, t, x)`.
    pub open spec fn after_roll_down(self) -> Self {
        Hp16cCpu { x: self.y, y: self.z, z: self.t, t: self.x, ..self }
    }

    /// The state after rotating `(x, y, z, t)` to `(t, x, y, z)`.
    pub open spec fn after_roll_up(self) -> Self {
        Hp16cCpu { x: self.t, y: self.x, z: self.y, t: self.z, ..self }
    }

    /// The stack drops and `r`, reduced to the word size, becomes `x`; `carry` is `c`.
    pub open spec fn binary_result(self, r: int, c: bool) -> Self {
        Hp16cCpu { x: self.masked(r), carry: c, ..self.after_drop() }
    }

    /// `x + y` replaces both; `carry` tells whether the sum exceeds 128 bits.
    pub open spec fn after_add(self) -> Self {
        self.binary_result(self.x + self.y, self.x + self.y > u128::MAX)
    }

    /// `y - x` replaces both; `carry` tells whether it borrowed.
    pub open spec fn after_subtract(self) -> Self {
        self.binary_result(self.y - self.x, self.y < self.x)
    }

    /// `x * y` replaces both; `carry` tells whether the product exceeds 128 bits.
    pub open spec fn after_multiply(self) -> Self {
        self.binary_result(self.x * self.y, self.x * self.y > u128::MAX)
    }

    /// `y / x` replaces both and clears `carry`; for `x == 0` only `overflow` is set.
    pub open spec fn after_divide(self) -> Self {
        if self.x == 0 {
            Hp16cCpu { overflow: true, ..self }
        } else {
            self.binary_result(self.y as int / self.x as int, false)
        }
    }

    /// The stack drops and `r` becomes `x`, flags untouched.
    pub open spec fn bitwise_result(self, r: u128) -> Self {
        Hp16cCpu { x: r, ..self.after_drop() }
    }

    /// `x & y` replaces both.
    pub open spec fn after_and(self) -> Self {
        self.bitwise_result(self.x & self.y)
    }

    /// `x | y` replaces both.
    pub open spec fn after_or(self) -> Self {
        self.bitwise_result(self.x | self.y)
    }

    /// `x ^ y` replaces both.
    pub open spec fn after_xor(self) -> Self {
        self.bitwise_result(self.x ^ self.y)
    }

    /// `x` is complemented within the word size.
    pub open spec fn after_not(self) -> Self {
        Hp16cCpu { x: self.masked((!self.x) as int), ..self }
    }

    /// `x` moves `n` places up within the word; `carry` tells whether a set bit left it.
    pub open spec fn after_shift_left(self, n: u8) -> Self {
        Hp16cCpu {
            x: self.masked(self.x * pow2(n as nat)),
            carry: self.x >= pow2((self.word_size - n) as nat),
            ..self
        }
    }

    /// `x` moves `n` places down; `carry` tells whether a set bit fell off.
    pub open spec fn after_shift_right(self, n: u8) -> Self {
        Hp16cCpu {
            x: (self.x as int / pow2(n as nat) as int) as u128,
            carry: self.x as int % pow2(n as nat) as int != 0,
            ..self
        }
    }

    /// `x` is copied to storage register `r`; other indices change nothing.
    pub open spec fn after_store(self, r: usize) -> Self {
        if r < 16 {
            Hp16cCpu { memory: spec_array_update(self.memory, r as int, self.x), ..self }
        } else {
            self
        }
    }

    /// Storage register `r` is pushed; other indices change nothing.
    pub open spec fn after_recall(self, r: usize) -> Self {
        if r < 16 {
            self.after_push(self.memory[r as int])
        } else {
            self
        }
    }

    /// The base becomes `b` where it is 2, 8, 10 or 16; otherwise nothing changes.
    pub open spec fn after_set_base(self, b: u8) -> Self {
        if valid_base(b) {
            Hp16cCpu { base: b, ..self }
        } else {
            self
        }
    }

    /// The word size becomes `w` where it is 1 to 128, and the stack is reduced to it;
    /// otherwise nothing changes. Storage registers are left as they are.
    pub open spec fn after_set_word_size(self, w: u8) -> Self {
        if 1 <= w <= 128 {
            Hp16cCpu {
                word_size: w,
                x: mask_of(self.x as int, w as nat) as u128,
                y: mask_of(self.y as int, w as nat) as u128,
                z: mask_of(self.z as int, w as nat) as u128,
                t: mask_of(self.t as int, w as nat) as u128,
                ..self
            }
        } else {
            self
        }
    }

    /// A fresh engine: word size 16, base 16, everything zero.
    pub fn new() -> (r: Self)
        ensures
            r.wf(),
            r.x == 0 && r.y == 0 && r.z == 0 && r.t == 0,
            r.word_size == 16,
            r.base == 16,
            !r.carry && !r.overflow,
            forall|i: int| 0 <= i < 16 ==> #[trigger] r.memory[i] == 0,
            r.rom@ == Map::<u16, u16>::empty(),
            r.pc == 0,
            r.running,
    {
        proof {
            lemma_pow2_pos(16);
        }
        Hp16cCpu {
            x: 0,
            y: 0,
            z: 0,
            t: 0,
            pc: 0,
            rom: Rom::new(),
            word_size: 16,
            base: 16,
            carry: false,
            overflow: false,
            memory: [0; 16],
            running: true,
        }
    }

    /// Reduces `value` to the current word size.
    fn mask_value(&self, value: u128) -> (r: u128)
        requires
            1 <= self.word_size <= 128,
        ensures
            r as int == mask_of(value as int, self.ws()),
            fits(r as int, self.ws()),
    {
        if self.word_size == 128 {
            proof {
                lemma_pow2_128();
            }
            value
        } else if self.word_size == 64 {
            proof {
                lemma_and_low_mask(value, 64);
                assert(low_ones(64) == u64::MAX as u128) by (bit_vector);
            }
            value & u64::MAX as u128
        } else {
            proof {
                lemma_and_low_mask(value, self.word_size);
            }
            value & ((1u128 << self.word_size) - 1)
        }
    }

    /// Everything but the address table is as in `o`.
    pub open spec fn same_but_rom(&self, o: &Self) -> bool {
        &&& self.x == o.x && self.y == o.y && self.z == o.z && self.t == o.t
        &&& self.pc == o.pc && self.running == o.running
        &&& self.word_size == o.word_size && self.base == o.base
        &&& self.carry == o.carry && self.overflow == o.overflow
        &&& self.memory == o.memory
    }

    /// Loads the address table from the lines of a table file, in order.
    pub fn load_rom(&mut self, lines: &Vec<String>)
        ensures
            final(self).rom@ == load_lines(old(self).rom@, lines@.map_values(|l: String| l@)),
            final(self).same_but_rom(old(self)),
    {
        let ghost start = self.rom@;
        let ghost all = lines@.map_values(|l: String| l@);
        let mut i: usize = 0;
        assert(all.subrange(0, 0) =~= Seq::<Seq<char>>::empty());
        while i < lines.len()
            invariant
                i <= lines@.len(),
                all == lines@.map_values(|l: String| l@),
                self.rom@ == load_lines(start, all.subrange(0, i as int)),
                self.same_but_rom(old(self)),
            decreases lines@.len() - i,
        {
            let ghost before = self.rom@;
            self.rom.load_line(lines[i].as_str());
            proof {
                let done = all.subrange(0, i + 1);
                assert(done.drop_last() =~= all.subrange(0, i as int));
                assert(done.last() == lines@[i as int]@);
                assert(seq![lines@[i as int]@].drop_last() =~= Seq::<Seq<char>>::empty());
                assert(load_lines(before, Seq::<Seq<char>>::empty()) == before);
            }
            i = i + 1;
        }
        assert(all.subrange(0, i as int) =~= all);
    }

    /// Pushes `value`, reduced to the word size; the old `t` is lost.
    pub fn push(&mut self, value: u128)
        requires
            old(self).wf(),
        ensures
            final(self).wf(),
            *final(self) == old(self).after_push(value),
    {
        self.t = self.z;
        self.z = self.y;
        self.y = self.x;
        self.x = self.mask_value(value);
    }

    /// Removes and returns `x`; the stack drops and `t` is repeated into `z`.
    pub fn pop(&mut self) -> (r: u128)
        requires
            old(self).wf(),
        ensures
            r == old(self).x,
            final(self).wf(),
            *final(self) == old(self).after_drop(),
    {
        let result = self.x;
        self.x = self.y;
        self.y = self.z;
        self.z = self.t;
        result
    }

    /// Discards `x`; the stack drops and `t` is repeated into `z`.
    pub fn drop(&mut self)
        requires
            old(self).wf(),
        ensures
            final(self).wf(),
            *final(self) == old(self).after_drop(),
    {
        self.x = self.y;
        self.y = self.z;
        self.z = self.t;
    }

    /// Exchanges `x` and `y`.
    pub fn swap_xy(&mut self)
        requires
            old(self).wf(),
        ensures
            final(self).wf(),
            *final(self) == old(self).after_swap_xy(),
    {
        let temp = self.x;
        self.x = self.y;
        self.y = temp;
    }

    /// Rotates the stack down: `(x, y, z, t)` becomes `(y, z, t, x)`.
    pub fn roll_down(&mut self)
        requires
            old(self).wf(),
        ensures
            final(self).wf(),
            *final(self) == old(self).after_roll_down(),
    {
        let temp = self.x;
        self.x = self.y;
        self.y = self.z;
        self.z = self.t;
        self.t = temp;
    }

    /// Rotates the stack up: `(x, y, z, t)` becomes `(t, x, y, z)`.
    pub fn roll_up(&mut self)
        requires
            old(self).wf(),
        ensures
            final(self).wf(),
            *final(self) == old(self).after_roll_up(),
    {
        let temp = self.t;
        self.t = self.z;
        self.z = self.y;
        self.y = self.x;
        self.x = temp;
    }

    /// Adds `x` to `y`, wrapping, and reduces the sum to the word size.
    pub fn add(&mut self)
        requires
            old(self).wf(),
        ensures
            final(self).wf(),
            *final(self) == old(self).after_add(),
    {
        let result = self.x.wrapping_add(self.y);
        self.carry = result < self.x || result < self.y;
        self.drop();
        proof {
            lemma_pow2_128();
            let sum = old(self).x + old(self).y;
            if sum > u128::MAX {
                lemma_mod_add_multiples_vanish(sum - pow2(128), pow2(128) as int);
                lemma_small_mod((sum - pow2(128)) as nat, pow2(128));
            } else {
                lemma_small_mod(sum as nat, pow2(128));
            }
            lemma_mask_of_wrap(sum, self.ws());
        }
        self.x = self.mask_value(result);
    }

    /// Subtracts `x` from `y`, wrapping, and reduces the difference to the word size.
    pub fn subtract(&mut self)
        requires
            old(self).wf(),
        ensures
            final(self).wf(),
            *final(self) == old(self).after_subtract(),
    {
        let result = self.y.wrapping_sub(self.x);
        self.carry = self.y < self.x;
        self.drop();
        proof {
            lemma_pow2_128();
            let diff = old(self).y - old(self).x;
            if diff < 0 {
                lemma_mod_add_multiples_vanish(diff, pow2(128) as int);
                lemma_small_mod((diff + pow2(128)) as nat, pow2(128));
            } else {
                lemma_small_mod(diff as nat, pow2(128));
            }
            lemma_mask_of_wrap(diff, self.ws());
        }
        self.x = self.mask_value(result);
    }

    /// Multiplies `x` by `y`, wrapping, and reduces the product to the word size.
    pub fn multiply(&mut self)
        requires
            old(self).wf(),
        ensures
            final(self).wf(),
            *final(self) == old(self).after_multiply(),
    {
        let (result, overflow) = self.x.overflowing_mul(self.y);
        self.carry = overflow;
        self.drop();
        proof {
            lemma_pow2_128();
            lemma_mask_of_wrap(old(self).x * old(self).y, self.ws());
        }
        self.x = self.mask_value(result);
    }

    /// Divides `y` by `x`, truncating; a zero divisor only sets `overflow`.
    pub fn divide(&mut self)
        requires
            old(self).wf(),
        ensures
            final(self).wf(),
            *final(self) == old(self).after_divide(),
    {
        if self.x != 0 {
            let result = self.y / self.x;
            self.drop();
            proof {
                lemma_div_basics_5(old(self).y as int, old(self).x as int);
                lemma_mask_of_bounds(result as int, self.ws());
            }
            self.x = self.mask_value(result);
            self.carry = false;
        } else {
            self.overflow = true;
        }
    }

    /// Replaces `x` and `y` by `x & y`.
    pub fn and(&mut self)
        requires
            old(self).wf(),
        ensures
            final(self).wf(),
            *final(self) == old(self).after_and(),
    {
        let result = self.x & self.y;
        proof {
            lemma_bitwise_fits(self.x, self.y, self.word_size);
        }
        self.drop();
        self.x = result;
    }

    /// Replaces `x` and `y` by `x | y`.
    pub fn or(&mut self)
        requires
            old(self).wf(),
        ensures
            final(self).wf(),
            *final(self) == old(self).after_or(),
    {
        let result = self.x | self.y;
        proof {
            lemma_bitwise_fits(self.x, self.y, self.word_size);
        }
        self.drop();
        self.x = result;
    }

    /// Replaces `x` and `y` by `x ^ y`.
    pub fn xor(&mut self)
        requires
            old(self).wf(),
        ensures
            final(self).wf(),
            *final(self) == old(self).after_xor(),
    {
        let result = self.x ^ self.y;
        proof {
            lemma_bitwise_fits(self.x, self.y, self.word_size);
        }
        self.drop();
        self.x = result;
    }

    /// Complements `x` within the word size.
    pub fn not(&mut self)
        requires
            old(self).wf(),
        ensures
            final(self).wf(),
            *final(self) == old(self).after_not(),
    {
        self.x = self.mask_value(!self.x);
    }

    /// Shifts `x` left by `positions`, setting `carry` when a set bit leaves the word.
    /// The count must be below the word size.
    pub fn shift_left(&mut self, positions: u8)
        requires
            old(self).wf(),
            positions < old(self).word_size,
            old(self).word_size - positions < 128,
        ensures
            final(self).wf(),
            *final(self) == old(self).after_shift_left(positions),
    {
        let result = self.x << positions;
        let rest: u8 = self.word_size - positions;
        let x = self.x;
        proof {
            lemma_shl_wrap(x, positions);
            lemma_pow2_128();
            lemma_mask_of_wrap(x * pow2(positions as nat), self.ws());
            assert(x >> rest == x >> (rest as u128)) by (bit_vector);
            lemma_u128_shr_is_div(x, rest as u128);
            lemma_pow2_pos(rest as nat);
            if x >= pow2(rest as nat) {
                lemma_div_non_zero(x as int, pow2(rest as nat) as int);
            } else {
                lemma_basic_div(x as int, pow2(rest as nat) as int);
            }
        }
        self.carry = (self.x >> rest) != 0;
        self.x = self.mask_value(result);
    }

    /// Shifts `x` right by `positions`, setting `carry` when a set bit falls off.
    /// The count must be below the word size.
    pub fn shift_right(&mut self, positions: u8)
        requires
            old(self).wf(),
            positions < old(self).word_size,
        ensures
            final(self).wf(),
            *final(self) == old(self).after_shift_right(positions),
    {
        let x = self.x;
        proof {
            lemma_and_low_mask(x, positions);
            assert(x >> positions == x >> (positions as u128)) by (bit_vector);
            lemma_u128_shr_is_div(x, positions as u128);
            lemma_pow2_pos(positions as nat);
            lemma_div_basics_5(x as int, pow2(positions as nat) as int);
        }
        self.carry = (self.x & ((1u128 << positions) - 1)) != 0;
        self.x = self.x >> positions;
    }

    /// Copies `x` into storage register `register`, when it is below 16.
    pub fn store(&mut self, register: usize)
        requires
            old(self).wf(),
        ensures
            final(self).wf(),
            *final(self) == old(self).after_store(register),
    {
        if register < 16 {
            self.memory[register] = self.x;
        }
    }

    /// Pushes storage register `register`, when it is below 16.
    pub fn recall(&mut self, register: usize)
        requires
            old(self).wf(),
        ensures
            final(self).wf(),
            *final(self) == old(self).after_recall(register),
    {
        if register < 16 {
            self.push(self.memory[register]);
        }
    }

    /// Sets the display base, when it is 2, 8, 10 or 16.
    pub fn set_base(&mut self, base: u8)
        requires
            old(self).wf(),
        ensures
            final(self).wf(),
            *final(self) == old(self).after_set_base(base),
    {
        if base == 2 || base == 8 || base == 10 || base == 16 {
            self.base = base;
        }
    }

    /// Sets the word size, when it is 1 to 128, and reduces the stack to it.
    pub fn set_word_size(&mut self, size: u8)
        requires
            old(self).wf(),
        ensures
            final(self).wf(),
            *final(self) == old(self).after_set_word_size(size),
    {
        if size >= 1 && size <= 128 {
            self.word_size = size;
            self.x = self.mask_value(self.x);
            self.y = self.mask_value(self.y);
            self.z = self.mask_value(self.z);
            self.t = self.mask_value(self.t);
        }
    }

    /// `v` as it is shown: its digits in the display base, without leading zeros.
    pub open spec fn shown(&self, v: u128) -> Seq<char> {
        digits_of(v as nat, shown_radix(self.base))
    }

    /// `x` in the display base.
    pub fn format_display(&self) -> (r: String)
        ensures
            r@ == self.shown(self.x),
    {
        let mut cs: Vec<char> = Vec::new();
        push_digits(self.x, radix_of(self.base), &mut cs);
        string_of_chars(&cs)
    }

    /// The four stack levels in the display base, labelled, from `t` down to `x`.
    pub fn get_stack_display(&self) -> (r: [String; 4])
        ensures
            r[0]@ == seq!['T', ':', ' '] + self.shown(self.t),
            r[1]@ == seq!['Z', ':', ' '] + self.shown(self.z),
            r[2]@ == seq!['Y', ':', ' '] + self.shown(self.y),
            r[3]@ == seq!['X', ':', ' '] + self.shown(self.x),
    {
        let b = radix_of(self.base);
        [labelled('T', self.t, b), labelled('Z', self.z, b), labelled('Y', self.y, b), labelled('X', self.x, b)]
    }
}

} // verus!

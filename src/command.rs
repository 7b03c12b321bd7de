//! The calculator's command language: a line of input names an engine operation, and
//! executing it changes the engine and tells the caller what to do next.

use crate::cpu::{shown_radix, Hp16cCpu};
use crate::text::{numeral, parse_numeral, trim_bounds, trimmed};
use vstd::prelude::*;

verus! {

/// What a line of input asks for.
#[derive(Debug, Clone, Copy, PartialEq, Eq, Structural)]
pub enum Command {
    Quit,
    Help,
    Clear,
    Enter,
    Drop,
    Swap,
    RollDown,
    RollUp,
    Add,
    Subtract,
    Multiply,
    Divide,
    And,
    Or,
    Xor,
    Not,
    SetBase(u8),
    Store(usize),
    Recall(usize),
    WordSize(u8),
    ShiftLeft(u8),
    ShiftRight(u8),
    Number(u128),
    /// A blank line.
    Empty,
    /// `STO` or `RCL` with something other than a register number.
    BadRegister,
    /// `WS` with something other than a number from 0 to 255.
    BadWordSize,
    /// `SL` or `SR` with something other than a number from 0 to 255.
    BadShift,
    /// Neither a command nor a number in the display base.
    Unknown,
}

/// What the caller does after a command was executed.
#[derive(Debug, Clone, Copy, PartialEq, Eq, Structural)]
pub enum Reply {
    /// The command was carried out (or was blank); show the calculator again.
    Done,
    /// Leave the calculator.
    Quit,
    /// Show the help text.
    Help,
    /// Tell the user that the register number is invalid.
    InvalidRegister,
    /// Tell the user that the word size is invalid.
    InvalidWordSize,
    /// Tell the user that the shift count is invalid.
    InvalidShift,
    /// Tell the user that the input is neither a command nor a number.
    Unknown,
}

/// `s` begins with `p`.
pub open spec fn has_prefix(s: Seq<char>, p: Seq<char>) -> bool {
    p.len() <= s.len() && s.subrange(0, p.len() as int) == p
}

/// The command that a trimmed, upper-case line `s` names, with numbers read in `base`.
pub open spec fn command_of(s: Seq<char>, base: u8) -> Command {
    if s.len() == 0 {
        Command::Empty
    } else if s == "QUIT"@ || s == "Q"@ {
        Command::Quit
    } else if s == "HELP"@ || s == "H"@ || s == "?"@ {
        Command::Help
    } else if s == "CLR"@ || s == "CLEAR"@ {
        Command::Clear
    } else if s == "ENTER"@ {
        Command::Enter
    } else if s == "DROP"@ {
        Command::Drop
    } else if s == "SWAP"@ {
        Command::Swap
    } else if s == "RV"@ {
        Command::RollDown
    } else if s == "R^"@ {
        Command::RollUp
    } else if s == "+"@ {
        Command::Add
    } else if s == "-"@ {
        Command::Subtract
    } else if s == "*"@ {
        Command::Multiply
    } else if s == "/"@ {
        Command::Divide
    } else if s == "&"@ {
        Command::And
    } else if s == "|"@ {
        Command::Or
    } else if s == "^"@ {
        Command::Xor
    } else if s == "~"@ {
        Command::Not
    } else if s == "BIN"@ {
        Command::SetBase(2)
    } else if s == "OCT"@ {
        Command::SetBase(8)
    } else if s == "DEC"@ {
        Command::SetBase(10)
    } else if s == "HEX"@ {
        Command::SetBase(16)
    } else if has_prefix(s, "STO "@) {
        match numeral(s.subrange(4, s.len() as int), 10, usize::MAX as u128) {
            Some(n) => Command::Store(n as usize),
            None => Command::BadRegister,
        }
    } else if has_prefix(s, "RCL "@) {
        match numeral(s.subrange(4, s.len() as int), 10, usize::MAX as u128) {
            Some(n) => Command::Recall(n as usize),
            None => Command::BadRegister,
        }
    } else if has_prefix(s, "WS "@) {
        match numeral(s.subrange(3, s.len() as int), 10, 255) {
            Some(n) => Command::WordSize(n as u8),
            None => Command::BadWordSize,
        }
    } else if has_prefix(s, "SL "@) {
        match numeral(s.subrange(3, s.len() as int), 10, 255) {
            Some(n) => Command::ShiftLeft(n as u8),
            None => Command::BadShift,
        }
    } else if has_prefix(s, "SR "@) {
        match numeral(s.subrange(3, s.len() as int), 10, 255) {
            Some(n) => Command::ShiftRight(n as u8),
            None => Command::BadShift,
        }
    } else {
        match numeral(s, shown_radix(base), u128::MAX) {
            Some(v) => Command::Number(v),
            None => Command::Unknown,
        }
    }
}

/// `s` is exactly `w`.
fn text_is(s: &str, w: &str) -> (r: bool)
    ensures
        r == (s@ == w@),
{
    let n = s.unicode_len();
    if n != w.unicode_len() {
        return false;
    }
    let mut i: usize = 0;
    while i < n
        invariant
            n == s@.len() == w@.len(),
            i <= n,
            s@.subrange(0, i as int) == w@.subrange(0, i as int),
        decreases n - i,
    {
        if s.get_char(i) != w.get_char(i) {
            return false;
        }
        assert(s@.subrange(0, i + 1) =~= s@.subrange(0, i as int).push(s@[i as int]));
        assert(w@.subrange(0, i + 1) =~= w@.subrange(0, i as int).push(w@[i as int]));
        i = i + 1;
    }
    assert(s@ =~= s@.subrange(0, n as int));
    assert(w@ =~= w@.subrange(0, n as int));
    true
}

/// `s` begins with `p`.
pub(crate) fn starts_with(s: &str, p: &str) -> (r: bool)
    ensures
        r == has_prefix(s@, p@),
{
    let n = p.unicode_len();
    if n > s.unicode_len() {
        return false;
    }
    let mut i: usize = 0;
    while i < n
        invariant
            n == p@.len() <= s@.len(),
            i <= n,
            s@.subrange(0, i as int) == p@.subrange(0, i as int),
        decreases n - i,
    {
        if s.get_char(i) != p.get_char(i) {
            assert(s@.subrange(0, n as int)[i as int] != p@[i as int]);
            return false;
        }
        assert(s@.subrange(0, i + 1) =~= s@.subrange(0, i as int).push(s@[i as int]));
        assert(p@.subrange(0, i + 1) =~= p@.subrange(0, i as int).push(p@[i as int]));
        i = i + 1;
    }
    assert(p@ =~= p@.subrange(0, n as int));
    true
}

/// The command that the trimmed, upper-case line `s` names, with numbers read in `base`.
pub fn command_of_text(s: &str, base: u8) -> (r: Command)
    ensures
        r == command_of(s@, base),
{
    let n = s.unicode_len();
    if n == 0 {
        Command::Empty
    } else if text_is(s, "QUIT") || text_is(s, "Q") {
        Command::Quit
    } else if text_is(s, "HELP") || text_is(s, "H") || text_is(s, "?") {
        Command::Help
    } else if text_is(s, "CLR") || text_is(s, "CLEAR") {
        Command::Clear
    } else if text_is(s, "ENTER") {
        Command::Enter
    } else if text_is(s, "DROP") {
        Command::Drop
    } else if text_is(s, "SWAP") {
        Command::Swap
    } else if text_is(s, "RV") {
        Command::RollDown
    } else if text_is(s, "R^") {
        Command::RollUp
    } else if text_is(s, "+") {
        Command::Add
    } else if text_is(s, "-") {
        Command::Subtract
    } else if text_is(s, "*") {
        Command::Multiply
    } else if text_is(s, "/") {
        Command::Divide
    } else if text_is(s, "&") {
        Command::And
    } else if text_is(s, "|") {
        Command::Or
    } else if text_is(s, "^") {
        Command::Xor
    } else if text_is(s, "~") {
        Command::Not
    } else if text_is(s, "BIN") {
        Command::SetBase(2)
    } else if text_is(s, "OCT") {
        Command::SetBase(8)
    } else if text_is(s, "DEC") {
        Command::SetBase(10)
    } else if text_is(s, "HEX") {
        Command::SetBase(16)
    } else if starts_with(s, "STO ") {
        proof {
            reveal_strlit("STO ");
        }
        match parse_numeral(s, 4, n, 10, usize::MAX as u128) {
            Some(v) => Command::Store(v as usize),
            None => Command::BadRegister,
        }
    } else if starts_with(s, "RCL ") {
        proof {
            reveal_strlit("RCL ");
        }
        match parse_numeral(s, 4, n, 10, usize::MAX as u128) {
            Some(v) => Command::Recall(v as usize),
            None => Command::BadRegister,
        }
    } else if starts_with(s, "WS ") {
        proof {
            reveal_strlit("WS ");
        }
        match parse_numeral(s, 3, n, 10, 255) {
            Some(v) => Command::WordSize(v as u8),
            None => Command::BadWordSize,
        }
    } else if starts_with(s, "SL ") {
        proof {
            reveal_strlit("SL ");
        }
        match parse_numeral(s, 3, n, 10, 255) {
            Some(v) => Command::ShiftLeft(v as u8),
            None => Command::BadShift,
        }
    } else if starts_with(s, "SR ") {
        proof {
            reveal_strlit("SR ");
        }
        match parse_numeral(s, 3, n, 10, 255) {
            Some(v) => Command::ShiftRight(v as u8),
            None => Command::BadShift,
        }
    } else {
        let radix: u32 = if base == 2 {
            2
        } else if base == 8 {
            8
        } else if base == 10 {
            10
        } else {
            16
        };
        proof {
            assert(s@.subrange(0, n as int) =~= s@);
        }
        match parse_numeral(s, 0, n, radix, u128::MAX) {
            Some(v) => Command::Number(v),
            None => Command::Unknown,
        }
    }
}

/// The upper-case form of `s`, as Unicode defines it.
pub uninterp spec fn upper_of(s: Seq<char>) -> Seq<char>;

/// Relies on `str::to_uppercase`: the result depends on the characters of `s` alone.
#[verifier::external_body]
pub(crate) fn to_upper(s: &str) -> (r: String)
    ensures
        r@ == upper_of(s@),
{
    s.to_uppercase()
}

/// The command that a line of input names: the line is trimmed and put in upper case,
/// and numbers are read in `base`.
pub fn parse_command(line: &str, base: u8) -> (r: Command)
    ensures
        r == command_of(upper_of(trimmed(line@)), base),
{
    let (lo, hi) = trim_bounds(line);
    let text = line.substring_char(lo, hi);
    let upper = to_upper(text);
    command_of_text(upper.as_str(), base)
}

impl Hp16cCpu {
    /// A left shift by `n` is defined: `n` is below the word size, and so is the
    /// part of the word that stays.
    pub open spec fn can_shift_left(self, n: u8) -> bool {
        n < self.word_size && self.word_size - n < 128
    }

    /// A right shift by `n` is defined: `n` is below the word size.
    pub open spec fn can_shift_right(self, n: u8) -> bool {
        n < self.word_size
    }

    /// The state after command `c`. A shift whose count is not defined changes nothing.
    pub open spec fn after_command(self, c: Command) -> Self {
        match c {
            Command::Clear => Hp16cCpu { x: 0, y: 0, z: 0, t: 0, ..self },
            Command::Enter => self.after_push(self.x),
            Command::Drop => self.after_drop(),
            Command::Swap => self.after_swap_xy(),
            Command::RollDown => self.after_roll_down(),
            Command::RollUp => self.after_roll_up(),
            Command::Add => self.after_add(),
            Command::Subtract => self.after_subtract(),
            Command::Multiply => self.after_multiply(),
            Command::Divide => self.after_divide(),
            Command::And => self.after_and(),
            Command::Or => self.after_or(),
            Command::Xor => self.after_xor(),
            Command::Not => self.after_not(),
            Command::SetBase(b) => self.after_set_base(b),
            Command::Store(r) => self.after_store(r),
            Command::Recall(r) => self.after_recall(r),
            Command::WordSize(w) => self.after_set_word_size(w),
            Command::ShiftLeft(n) => if self.can_shift_left(n) {
                self.after_shift_left(n)
            } else {
                self
            },
            Command::ShiftRight(n) => if self.can_shift_right(n) {
                self.after_shift_right(n)
            } else {
                self
            },
            Command::Number(v) => self.after_push(v),
            _ => self,
        }
    }

    /// What the caller is told after command `c`.
    pub open spec fn reply_to(self, c: Command) -> Reply {
        match c {
            Command::Quit => Reply::Quit,
            Command::Help => Reply::Help,
            Command::BadRegister => Reply::InvalidRegister,
            Command::BadWordSize => Reply::InvalidWordSize,
            Command::BadShift => Reply::InvalidShift,
            Command::ShiftLeft(n) => if self.can_shift_left(n) {
                Reply::Done
            } else {
                Reply::InvalidShift
            },
            Command::ShiftRight(n) => if self.can_shift_right(n) {
                Reply::Done
            } else {
                Reply::InvalidShift
            },
            Command::Unknown => Reply::Unknown,
            _ => Reply::Done,
        }
    }

    /// Carries out command `c`.
    pub fn execute(&mut self, c: Command) -> (r: Reply)
        requires
            old(self).wf(),
        ensures
            final(self).wf(),
            *final(self) == old(self).after_command(c),
            r == old(self).reply_to(c),
    {
        match c {
            Command::Quit => Reply::Quit,
            Command::Help => Reply::Help,
            Command::Clear => {
                proof {
                    vstd::arithmetic::power2::lemma_pow2_pos(self.ws());
                }
                self.x = 0;
                self.y = 0;
                self.z = 0;
                self.t = 0;
                Reply::Done
            },
            Command::Enter => {
                let x = self.x;
                self.push(x);
                Reply::Done
            },
            Command::Drop => {
                self.drop();
                Reply::Done
            },
            Command::Swap => {
                self.swap_xy();
                Reply::Done
            },
            Command::RollDown => {
                self.roll_down();
                Reply::Done
            },
            Command::RollUp => {
                self.roll_up();
                Reply::Done
            },
            Command::Add => {
                self.add();
                Reply::Done
            },
            Command::Subtract => {
                self.subtract();
                Reply::Done
            },
            Command::Multiply => {
                self.multiply();
                Reply::Done
            },
            Command::Divide => {
                self.divide();
                Reply::Done
            },
            Command::And => {
                self.and();
                Reply::Done
            },
            Command::Or => {
                self.or();
                Reply::Done
            },
            Command::Xor => {
                self.xor();
                Reply::Done
            },
            Command::Not => {
                self.not();
                Reply::Done
            },
            Command::SetBase(b) => {
                self.set_base(b);
                Reply::Done
            },
            Command::Store(r) => {
                self.store(r);
                Reply::Done
            },
            Command::Recall(r) => {
                self.recall(r);
                Reply::Done
            },
            Command::WordSize(w) => {
                self.set_word_size(w);
                Reply::Done
            },
            Command::ShiftLeft(n) => {
                if n < self.word_size && self.word_size - n < 128 {
                    self.shift_left(n);
                    Reply::Done
                } else {
                    Reply::InvalidShift
                }
            },
            Command::ShiftRight(n) => {
                if n < self.word_size {
                    self.shift_right(n);
                    Reply::Done
                } else {
                    Reply::InvalidShift
                }
            },
            Command::Number(v) => {
                self.push(v);
                Reply::Done
            },
            Command::Empty => Reply::Done,
            Command::BadRegister => Reply::InvalidRegister,
            Command::BadWordSize => Reply::InvalidWordSize,
            Command::BadShift => Reply::InvalidShift,
            Command::Unknown => Reply::Unknown,
        }
    }

    /// Reads a line of input as a command, with numbers in the display base, and carries
    /// it out.
    pub fn run_command(&mut self, line: &str) -> (r: (Command, Reply))
        requires
            old(self).wf(),
        ensures
            final(self).wf(),
            r.0 == command_of(upper_of(trimmed(line@)), old(self).base),
            *final(self) == old(self).after_command(r.0),
            r.1 == old(self).reply_to(r.0),
    {
        let c = parse_command(line, self.base);
        let reply = self.execute(c);
        (c, reply)
    }
}

} // verus!

//! Completion of the word under the cursor against the calculator's command words.

use crate::command::{has_prefix, starts_with, to_upper, upper_of};
use crate::radix::{digits_of, push_digits, string_of_chars};
use vstd::arithmetic::power2::pow2;
use vstd::prelude::*;

verus! {

/// `prefix` followed by `n` in decimal.
pub open spec fn numbered(prefix: Seq<char>, n: nat) -> Seq<char> {
    prefix + digits_of(n, 10)
}

/// The command words that take no parameter.
pub open spec fn plain_words() -> Seq<Seq<char>> {
    seq![
        "HELP"@, "QUIT"@, "CLEAR"@, "CLR"@, "ENTER"@, "DROP"@, "SWAP"@, "RV"@, "R^"@, "HEX"@,
        "DEC"@, "OCT"@, "BIN"@,
    ]
}

/// `prefix` followed by each of `from`, `from + 1`, ..., in decimal, `count` of them.
pub open spec fn numbered_run(prefix: Seq<char>, from: nat, count: nat) -> Seq<Seq<char>> {
    Seq::new(count, |i: int| numbered(prefix, (from + i) as nat))
}

/// Every word offered for completion: the plain commands, storing to and recalling from
/// each of the 16 registers, the power-of-two word sizes and shifts by 1 to 8.
pub open spec fn completion_words() -> Seq<Seq<char>> {
    plain_words() + numbered_run("STO "@, 0, 16) + numbered_run("RCL "@, 0, 16) + Seq::new(
        8,
        |k: int| numbered("WS "@, pow2(k as nat)),
    ) + numbered_run("SL "@, 1, 8) + numbered_run("SR "@, 1, 8)
}

/// Where the word that ends at `pos` starts: just after the last space before `pos`, or 0.
pub open spec fn word_start(line: Seq<char>, pos: int) -> int
    decreases pos,
{
    if pos <= 0 {
        0
    } else if line[pos - 1] == ' ' {
        pos
    } else {
        word_start(line, pos - 1)
    }
}

/// The words of `words` that begin with `w`, in their order.
pub open spec fn matching(words: Seq<Seq<char>>, w: Seq<char>) -> Seq<Seq<char>>
    decreases words.len(),
{
    if words.len() == 0 {
        Seq::empty()
    } else {
        let m = matching(words.drop_last(), w);
        if has_prefix(words.last(), w) {
            m.push(words.last())
        } else {
            m
        }
    }
}

/// The text of each string.
pub open spec fn texts(v: Seq<String>) -> Seq<Seq<char>> {
    v.map_values(|s: String| s@)
}

/// Appends `prefix` followed by `n` in decimal.
fn push_numbered(out: &mut Vec<String>, prefix: &str, n: u128)
    ensures
        texts(final(out)@) == texts(old(out)@).push(numbered(prefix@, n as nat)),
{
    let mut cs: Vec<char> = Vec::new();
    push_digits(n, 10, &mut cs);
    let digits = string_of_chars(&cs);
    let word = String::from_str(prefix).concat(digits.as_str());
    out.push(word);
    assert(texts(final(out)@) =~= texts(old(out)@).push(numbered(prefix@, n as nat)));
}

/// Appends `prefix` followed by each of `from` to `from + count - 1` in decimal.
fn push_run(out: &mut Vec<String>, prefix: &str, from: u128, count: u128)
    requires
        from + count <= u128::MAX,
    ensures
        texts(final(out)@) == texts(old(out)@) + numbered_run(prefix@, from as nat, count as nat),
{
    let mut i: u128 = 0;
    while i < count
        invariant
            i <= count,
            from + count <= u128::MAX,
            texts(out@) == texts(old(out)@) + numbered_run(prefix@, from as nat, i as nat),
        decreases count - i,
    {
        push_numbered(out, prefix, from + i);
        assert(numbered_run(prefix@, from as nat, (i + 1) as nat) =~= numbered_run(
            prefix@,
            from as nat,
            i as nat,
        ).push(numbered(prefix@, (from + i) as nat)));
        i = i + 1;
    }
}

/// Completes command words.
pub struct Hp16cCompleter {
    commands: Vec<String>,
}

impl View for Hp16cCompleter {
    type V = Seq<Seq<char>>;

    closed spec fn view(&self) -> Seq<Seq<char>> {
        texts(self.commands@)
    }
}

impl Hp16cCompleter {
    /// A completer that offers every command word.
    pub fn new() -> (r: Self)
        ensures
            r@ == completion_words(),
    {
        let mut commands: Vec<String> = Vec::new();
        commands.push(String::from_str("HELP"));
        commands.push(String::from_str("QUIT"));
        commands.push(String::from_str("CLEAR"));
        commands.push(String::from_str("CLR"));
        commands.push(String::from_str("ENTER"));
        commands.push(String::from_str("DROP"));
        commands.push(String::from_str("SWAP"));
        commands.push(String::from_str("RV"));
        commands.push(String::from_str("R^"));
        commands.push(String::from_str("HEX"));
        commands.push(String::from_str("DEC"));
        commands.push(String::from_str("OCT"));
        commands.push(String::from_str("BIN"));
        assert(texts(commands@) =~= plain_words());
        push_run(&mut commands, "STO ", 0, 16);
        push_run(&mut commands, "RCL ", 0, 16);
        let ghost before_sizes = texts(commands@);
        let mut size: u128 = 1;
        let mut k: u128 = 0;
        proof {
            vstd::arithmetic::power::lemma_pow0(2);
            assert(before_sizes + Seq::new(0, |j: int| numbered("WS "@, pow2(j as nat))) =~= before_sizes);
        }
        while k < 8
            invariant
                k <= 8,
                size as nat == pow2(k as nat),
                texts(commands@) == before_sizes + Seq::new(
                    k as nat,
                    |j: int| numbered("WS "@, pow2(j as nat)),
                ),
            decreases 8 - k,
        {
            proof {
                vstd::arithmetic::power2::lemma_pow2_unfold((k + 1) as nat);
                vstd::arithmetic::power2::lemma_pow2_strictly_increases(k as nat, 8);
                vstd::arithmetic::power2::lemma2_to64();
            }
            push_numbered(&mut commands, "WS ", size);
            assert(Seq::new((k + 1) as nat, |j: int| numbered("WS "@, pow2(j as nat))) =~= Seq::new(
                k as nat,
                |j: int| numbered("WS "@, pow2(j as nat)),
            ).push(numbered("WS "@, pow2(k as nat))));
            size = size * 2;
            k = k + 1;
        }
        push_run(&mut commands, "SL ", 1, 8);
        push_run(&mut commands, "SR ", 1, 8);
        let r = Hp16cCompleter { commands };
        assert(r@ =~= completion_words());
        r
    }

    /// The start of the word that ends at `pos` (a count of characters), and the command
    /// words that begin with that word in upper case.
    pub fn complete(&self, line: &str, pos: usize) -> (r: (usize, Vec<String>))
        requires
            pos <= line@.len(),
        ensures
            r.0 == word_start(line@, pos as int),
            texts(r.1@) == matching(self@, upper_of(line@.subrange(r.0 as int, pos as int))),
    {
        let mut start: usize = pos;
        while start > 0 && line.get_char(start - 1) != ' '
            invariant
                start <= pos <= line@.len(),
                word_start(line@, pos as int) == word_start(line@, start as int),
            decreases start,
        {
            start = start - 1;
        }
        let word = to_upper(line.substring_char(start, pos));
        let ghost w = word@;
        let mut matches: Vec<String> = Vec::new();
        let mut i: usize = 0;
        while i < self.commands.len()
            invariant
                i <= self.commands@.len(),
                w == word@,
                texts(matches@) == matching(texts(self.commands@).subrange(0, i as int), w),
            decreases self.commands@.len() - i,
        {
            let ghost all = texts(self.commands@);
            assert(all.subrange(0, i + 1).drop_last() =~= all.subrange(0, i as int));
            if starts_with(self.commands[i].as_str(), word.as_str()) {
                matches.push(self.commands[i].clone());
            }
            assert(texts(matches@) =~= matching(all.subrange(0, i + 1), w));
            i = i + 1;
        }
        assert(texts(self.commands@).subrange(0, i as int) =~= texts(self.commands@));
        (start, matches)
    }
}

} // verus!

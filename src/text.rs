//! White space, trimming and unsigned numerals in a radix, over the characters of a string.

use vstd::prelude::*;

verus! {

/// White space as Unicode defines it (the characters `char::is_whitespace` accepts).
pub open spec fn is_space(c: char) -> bool {
    let u = c as u32;
    (0x9 <= u <= 0xd) || u == 0x20 || u == 0x85 || u == 0xa0 || u == 0x1680 || (0x2000 <= u
        <= 0x200a) || u == 0x2028 || u == 0x2029 || u == 0x202f || u == 0x205f || u == 0x3000
}

/// `s` without its leading white space.
pub open spec fn trim_start(s: Seq<char>) -> Seq<char>
    decreases s.len(),
{
    if s.len() > 0 && is_space(s[0]) {
        trim_start(s.drop_first())
    } else {
        s
    }
}

/// `s` without its trailing white space.
pub open spec fn trim_end(s: Seq<char>) -> Seq<char>
    decreases s.len(),
{
    if s.len() > 0 && is_space(s.last()) {
        trim_end(s.drop_last())
    } else {
        s
    }
}

/// `s` without white space at either end.
pub open spec fn trimmed(s: Seq<char>) -> Seq<char> {
    trim_end(trim_start(s))
}

/// The value of `c` as a digit in `radix`: `0`-`9`, then letters of either case from 10 on.
pub open spec fn digit_value(c: char, radix: nat) -> Option<nat> {
    let v = if '0' <= c && c <= '9' {
        Some((c as u32 - '0' as u32) as nat)
    } else if 'a' <= c && c <= 'z' {
        Some((c as u32 - 'a' as u32 + 10) as nat)
    } else if 'A' <= c && c <= 'Z' {
        Some((c as u32 - 'A' as u32 + 10) as nat)
    } else {
        None
    };
    match v {
        Some(d) => if d < radix {
            Some(d)
        } else {
            None
        },
        None => None,
    }
}

/// Every character of `s` is a digit in `radix`.
pub open spec fn all_digits(s: Seq<char>, radix: nat) -> bool {
    forall|i: int| 0 <= i < s.len() ==> (#[trigger] digit_value(s[i], radix)).is_some()
}

/// The number that the digits `s` spell in `radix`.
pub open spec fn digits_value(s: Seq<char>, radix: nat) -> nat
    decreases s.len(),
{
    if s.len() == 0 {
        0
    } else {
        digits_value(s.drop_last(), radix) * radix + digit_value(s.last(), radix).unwrap_or(0)
    }
}

/// `s` without a leading `+`.
pub open spec fn unsigned_digits(s: Seq<char>) -> Seq<char> {
    if s.len() > 0 && s[0] == '+' {
        s.drop_first()
    } else {
        s
    }
}

/// The number that `s` writes in `radix`: an optional `+`, then at least one digit, with a
/// value of at most `max`. Anything else is no number.
pub open spec fn numeral(s: Seq<char>, radix: nat, max: u128) -> Option<u128> {
    let d = unsigned_digits(s);
    if d.len() > 0 && all_digits(d, radix) && digits_value(d, radix) <= max {
        Some(digits_value(d, radix) as u128)
    } else {
        None
    }
}

/// Whether `c` is white space.
pub fn is_space_char(c: char) -> (r: bool)
    ensures
        r == is_space(c),
{
    let u = c as u32;
    (0x9 <= u && u <= 0xd) || u == 0x20 || u == 0x85 || u == 0xa0 || u == 0x1680 || (0x2000 <= u
        && u <= 0x200a) || u == 0x2028 || u == 0x2029 || u == 0x202f || u == 0x205f || u == 0x3000
}

/// The value of `c` as a digit in `radix`, if it is one.
fn digit_of(c: char, radix: u32) -> (r: Option<u32>)
    requires
        2 <= radix <= 36,
    ensures
        r.is_some() == digit_value(c, radix as nat).is_some(),
        r.is_some() ==> r.unwrap() as nat == digit_value(c, radix as nat).unwrap() && r.unwrap()
            < radix,
{
    let v = if '0' <= c && c <= '9' {
        c as u32 - '0' as u32
    } else if 'a' <= c && c <= 'z' {
        c as u32 - 'a' as u32 + 10
    } else if 'A' <= c && c <= 'Z' {
        c as u32 - 'A' as u32 + 10
    } else {
        return None;
    };
    if v < radix {
        Some(v)
    } else {
        None
    }
}

/// The number that `s` writes in `radix` between `from` and `to`, if it is at most `max`.
pub fn parse_numeral(s: &str, from: usize, to: usize, radix: u32, max: u128) -> (r: Option<u128>)
    requires
        2 <= radix <= 36,
        from <= to <= s@.len(),
    ensures
        r == numeral(s@.subrange(from as int, to as int), radix as nat, max),
{
    let ghost whole = s@.subrange(from as int, to as int);
    let ghost rad = radix as nat;
    let mut start = from;
    if start < to && s.get_char(start) == '+' {
        start = start + 1;
    }
    let ghost d = s@.subrange(start as int, to as int);
    assert(d =~= unsigned_digits(whole));
    if start == to {
        return None;
    }
    let mut acc: u128 = 0;
    let mut over = false;
    let mut i = start;
    while i < to
        invariant
            2 <= radix <= 36,
            rad == radix as nat,
            from <= start <= i <= to <= s@.len(),
            d == s@.subrange(start as int, to as int),
            d == unsigned_digits(whole),
            whole == s@.subrange(from as int, to as int),
            all_digits(s@.subrange(start as int, i as int), rad),
            over == (digits_value(s@.subrange(start as int, i as int), rad) > max),
            !over ==> acc as nat == digits_value(s@.subrange(start as int, i as int), rad),
        decreases to - i,
    {
        let c = s.get_char(i);
        let ghost before = s@.subrange(start as int, i as int);
        let ghost after = s@.subrange(start as int, i + 1);
        assert(after.drop_last() =~= before);
        assert(after.last() == c);
        match digit_of(c, radix) {
            None => {
                assert(d[i - start] == c);
                assert(digit_value(d[i - start], rad).is_none());
                assert(!all_digits(d, rad));
                return None;
            },
            Some(v) => {
                let ghost next = digits_value(before, rad) * rad + v;
                assert(digits_value(after, rad) == next);
                if !over {
                    match acc.checked_mul(radix as u128) {
                        Some(m) => match m.checked_add(v as u128) {
                            Some(n) => {
                                if n > max {
                                    over = true;
                                } else {
                                    acc = n;
                                }
                            },
                            None => {
                                over = true;
                            },
                        },
                        None => {
                            proof {
                                assert(digits_value(before, rad) * rad <= next) by (nonlinear_arith)
                                    requires
                                        next == digits_value(before, rad) * rad + v,
                                ;
                            }
                            over = true;
                        },
                    }
                } else {
                    proof {
                        assert(digits_value(before, rad) <= next) by (nonlinear_arith)
                            requires
                                next == digits_value(before, rad) * rad + v,
                                rad >= 2,
                        ;
                    }
                }
                i = i + 1;
                assert forall|j: int| 0 <= j < after.len() implies (#[trigger] digit_value(
                    after[j],
                    rad,
                )).is_some() by {
                    if j < before.len() {
                        assert(after[j] == before[j]);
                    }
                }
            },
        }
    }
    assert(s@.subrange(start as int, i as int) =~= d);
    if over {
        None
    } else {
        Some(acc)
    }
}

/// Where the text of `line` starts and ends once the white space around it is left out.
pub fn trim_bounds(line: &str) -> (r: (usize, usize))
    ensures
        r.0 <= r.1 <= line@.len(),
        trimmed(line@) == line@.subrange(r.0 as int, r.1 as int),
{
    let n = line.unicode_len();
    let ghost s = line@;
    let mut lo: usize = 0;
    assert(s.subrange(0, n as int) =~= s);
    while lo < n && is_space_char(line.get_char(lo))
        invariant
            lo <= n == s.len(),
            s == line@,
            trim_start(s) == trim_start(s.subrange(lo as int, n as int)),
        decreases n - lo,
    {
        assert(s.subrange(lo as int, n as int).drop_first() =~= s.subrange(lo + 1, n as int));
        lo = lo + 1;
    }
    let ghost rest = s.subrange(lo as int, n as int);
    assert(trim_start(s) == rest);
    let mut hi: usize = n;
    assert(rest =~= s.subrange(lo as int, hi as int));
    while hi > lo && is_space_char(line.get_char(hi - 1))
        invariant
            lo <= hi <= n == s.len(),
            s == line@,
            rest == s.subrange(lo as int, n as int),
            trim_end(rest) == trim_end(s.subrange(lo as int, hi as int)),
        decreases hi - lo,
    {
        assert(s.subrange(lo as int, hi as int).drop_last() =~= s.subrange(lo as int, hi - 1));
        hi = hi - 1;
    }
    (lo, hi)
}

} // verus!

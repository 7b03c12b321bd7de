//! A table of 16-bit values keyed by 16-bit addresses.

use std::collections::HashMap;
use crate::text::{numeral, parse_numeral, trim_bounds, trimmed};
use vstd::prelude::*;

verus! {

broadcast use vstd::std_specs::hash::group_hash_axioms;

/// `k` is the first colon of `t`.
pub open spec fn first_colon(t: Seq<char>, k: int) -> bool {
    &&& 0 <= k < t.len()
    &&& t[k] == ':'
    &&& forall|j: int| 0 <= j < k ==> t[j] != ':'
}

/// What a line of a table file holds. White space around the line is ignored; an empty
/// line or one that starts with `#` holds nothing; otherwise the line is `address:value`,
/// split at its first colon, both in hexadecimal. A line of any other shape holds nothing.
pub open spec fn rom_entry(line: Seq<char>) -> Option<(u16, u16)> {
    let t = trimmed(line);
    if t.len() == 0 || t[0] == '#' {
        None
    } else if exists|k: int| first_colon(t, k) {
        let k = choose|k: int| first_colon(t, k);
        match (numeral(t.subrange(0, k), 16, 0xffff), numeral(t.subrange(k + 1, t.len() as int), 16, 0xffff)) {
            (Some(a), Some(v)) => Some((a as u16, v as u16)),
            _ => None,
        }
    } else {
        None
    }
}

/// The table `m` after the entries of `lines` were loaded in order; a later entry for an
/// address replaces an earlier one.
pub open spec fn load_lines(m: Map<u16, u16>, lines: Seq<Seq<char>>) -> Map<u16, u16>
    decreases lines.len(),
{
    if lines.len() == 0 {
        m
    } else {
        let before = load_lines(m, lines.drop_last());
        match rom_entry(lines.last()) {
            Some((a, v)) => before.insert(a, v),
            None => before,
        }
    }
}

/// The index of the first colon of `line` between `lo` and `hi`, or `hi` if there is none.
fn find_colon(line: &str, lo: usize, hi: usize) -> (k: usize)
    requires
        lo <= hi <= line@.len(),
    ensures
        lo <= k <= hi,
        forall|j: int| lo <= j < k ==> line@[j] != ':',
        k < hi ==> line@[k as int] == ':',
{
    let mut k: usize = lo;
    while k < hi && line.get_char(k) != ':'
        invariant
            lo <= k <= hi <= line@.len(),
            forall|j: int| lo <= j < k ==> line@[j] != ':',
        decreases hi - k,
    {
        k = k + 1;
    }
    k
}

/// The entry that `line` holds, if any.
pub fn line_entry(line: &str) -> (r: Option<(u16, u16)>)
    ensures
        r == rom_entry(line@),
{
    let (lo, hi) = trim_bounds(line);
    let ghost t = line@.subrange(lo as int, hi as int);
    if lo == hi || line.get_char(lo) == '#' {
        return None;
    }
    let k = find_colon(line, lo, hi);
    if k == hi {
        assert forall|c: int| !first_colon(t, c) by {
            if 0 <= c < t.len() {
                assert(t[c] == line@[lo + c]);
            }
        }
        return None;
    }
    let ghost c = (k - lo) as int;
    assert forall|j: int| 0 <= j < c implies t[j] != ':' by {
        assert(t[j] == line@[lo + j]);
    }
    assert(first_colon(t, c));
    let ghost chosen = choose|c: int| first_colon(t, c);
    assert(chosen == c) by {
        if chosen < c {
            assert(t[chosen] != ':');
        } else if chosen > c {
            assert(t[c] != ':');
        }
    }
    assert(t.subrange(0, c) =~= line@.subrange(lo as int, k as int));
    assert(t.subrange(c + 1, t.len() as int) =~= line@.subrange(k + 1, hi as int));
    let address = parse_numeral(line, lo, k, 16, 0xffff);
    let value = parse_numeral(line, k + 1, hi, 16, 0xffff);
    match (address, value) {
        (Some(a), Some(v)) => Some((a as u16, v as u16)),
        _ => None,
    }
}

/// The address table: each address that was loaded maps to its value.
#[derive(Debug, Clone)]
pub struct Rom {
    data: HashMap<u16, u16>,
}

impl View for Rom {
    type V = Map<u16, u16>;

    closed spec fn view(&self) -> Map<u16, u16> {
        self.data@
    }
}

impl Rom {
    /// An empty table.
    pub fn new() -> (r: Self)
        ensures
            r@ == Map::<u16, u16>::empty(),
    {
        Rom { data: HashMap::new() }
    }

    /// The value stored at `address`, or zero where nothing was loaded.
    pub fn read(&self, address: u16) -> (r: u16)
        ensures
            r == (if self@.contains_key(address) { self@[address] } else { 0 }),
    {
        match self.data.get(&address) {
            Some(v) => *v,
            None => 0,
        }
    }

    /// Loads the entry that `line` holds, if any; it replaces an earlier value at its address.
    pub fn load_line(&mut self, line: &str)
        ensures
            final(self)@ == load_lines(old(self)@, seq![line@]),
    {
        proof {
            assert(seq![line@].drop_last() =~= Seq::<Seq<char>>::empty());
            assert(load_lines(self@, Seq::<Seq<char>>::empty()) == self@);
            assert(seq![line@].last() == line@);
        }
        match line_entry(line) {
            Some((a, v)) => {
                self.data.insert(a, v);
            },
            None => {},
        }
    }

    /// How many addresses hold a value.
    pub fn size(&self) -> (r: usize)
        ensures
            r == self@.len(),
    {
        self.data.len()
    }
}

} // verus!

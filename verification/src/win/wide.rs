//! Text as the system takes it: UTF-16, up to a zero.

use vstd::prelude::*;

use crate::pty::command::{push_utf16, utf16, utf16_units};
use crate::term::cell::char_from_u32;

verus! {

/// Is this the first half of a surrogate pair?
pub open spec fn is_high(unit: u16) -> bool {
    0xD800 <= unit <= 0xDBFF
}

/// Is this the second half of a surrogate pair?
pub open spec fn is_low(unit: u16) -> bool {
    0xDC00 <= unit <= 0xDFFF
}

/// The character that a surrogate pair stands for.
pub open spec fn paired(high: u16, low: u16) -> char {
    (0x1_0000 + (high - 0xD800) * 0x400 + (low - 0xDC00)) as char
}

/// The text of some code units, with a replacement character for each half of a pair that stands
/// alone.
pub open spec fn text_of(units: Seq<u16>) -> Seq<char>
    decreases units.len(),
{
    if units.len() == 0 {
        Seq::empty()
    } else if is_high(units[0]) && units.len() > 1 && is_low(units[1]) {
        seq![paired(units[0], units[1])] + text_of(units.skip(2))
    } else if is_high(units[0]) || is_low(units[0]) {
        seq!['\u{FFFD}'] + text_of(units.skip(1))
    } else {
        seq![units[0] as char] + text_of(units.skip(1))
    }
}

/// What comes before the first zero.
pub open spec fn before_zero(units: Seq<u16>) -> Seq<u16>
    decreases units.len(),
{
    if units.len() == 0 || units[0] == 0 {
        Seq::empty()
    } else {
        seq![units[0]] + before_zero(units.skip(1))
    }
}

/// Read a text.
pub fn units_text(units: &[u16]) -> (s: String)
    ensures
        s@ == text_of(units@),
{
    let mut s = String::new();
    let mut i: usize = 0;
    assert(units@.skip(0) =~= units@);
    assert(s@ + text_of(units@) =~= text_of(units@));
    while i < units.len()
        invariant
            i <= units@.len(),
            s@ + text_of(units@.skip(i as int)) == text_of(units@),
        decreases units@.len() - i,
    {
        let ghost before = s@;
        let ghost rest = units@.skip(i as int);
        assert(rest[0] == units@[i as int]);
        assert(rest.len() > 1 ==> rest[1] == units@[i + 1]);
        assert(rest.skip(1) =~= units@.skip(i + 1));
        let unit: u16 = units[i];
        let high: bool = 0xD800 <= unit && unit <= 0xDBFF;
        let low: bool = 0xDC00 <= unit && unit <= 0xDFFF;
        if high && units.len() - i > 1 && 0xDC00 <= units[i + 1] && units[i + 1] <= 0xDFFF {
            assert(rest.skip(2) =~= units@.skip(i + 2));
            let n: u32 = 0x1_0000 + (unit - 0xD800) as u32 * 0x400 + (units[i + 1] - 0xDC00) as u32;
            match char_from_u32(n) {
                Some(c) => s.push(c),
                None => {},
            }
            assert(s@ =~= before.push(paired(rest[0], rest[1])));
            i += 2;
        } else {
            if high || low {
                s.push('\u{FFFD}');
            } else {
                match char_from_u32(unit as u32) {
                    Some(c) => s.push(c),
                    None => {},
                }
            }
            i += 1;
        }
        assert(s@ + text_of(units@.skip(i as int)) =~= before + text_of(rest));
    }
    assert(units@.skip(i as int) =~= Seq::<u16>::empty());
    assert(s@ + Seq::<char>::empty() =~= s@);
    s
}

/// Read a text that ends at the first zero, if there is one.
pub fn wide_text(units: &[u16]) -> (s: String)
    ensures
        s@ == text_of(before_zero(units@)),
{
    let mut n: usize = 0;
    assert(units@.skip(0) =~= units@);
    assert(units@.take(0) + before_zero(units@) =~= before_zero(units@));
    while n < units.len() && units[n] != 0
        invariant
            n <= units@.len(),
            units@.take(n as int) + before_zero(units@.skip(n as int)) == before_zero(units@),
        decreases units@.len() - n,
    {
        let ghost rest = units@.skip(n as int);
        assert(rest[0] == units@[n as int]);
        assert(rest.skip(1) =~= units@.skip(n + 1));
        assert(units@.take(n as int) + (seq![rest[0]] + before_zero(rest.skip(1)))
            =~= units@.take(n + 1) + before_zero(units@.skip(n + 1)));
        n += 1;
    }
    let ghost rest = units@.skip(n as int);
    assert(rest.len() > 0 ==> rest[0] == units@[n as int]);
    assert(units@.take(n as int) + Seq::<u16>::empty() =~= units@.take(n as int));
    let start = &units[0..n];
    assert(start@ =~= units@.take(n as int));
    units_text(start)
}

/// Write a text, with a zero at its end.
pub fn wide(s: &str) -> (units: Vec<u16>)
    ensures
        units@ == utf16(s@).push(0),
{
    let mut units: Vec<u16> = Vec::new();
    push_utf16(&mut units, s);
    assert(units@ =~= utf16(s@));
    units.push(0);
    units
}

/// The code units that some bytes hold, the low byte of each first. An odd byte is left over.
pub open spec fn units_of(bytes: Seq<u8>) -> Seq<u16> {
    Seq::new(bytes.len() / 2, |i: int| (bytes[2 * i] + 0x100 * bytes[2 * i + 1]) as u16)
}

/// The bytes of some code units, the low byte of each first.
pub open spec fn bytes_of(units: Seq<u16>) -> Seq<u8> {
    Seq::new(
        2 * units.len(),
        |i: int|
            if i % 2 == 0 {
                (units[i / 2] % 0x100) as u8
            } else {
                (units[i / 2] / 0x100) as u8
            },
    )
}

/// The text of a value in the registry.
pub fn value_text(bytes: &[u8]) -> (s: String)
    ensures
        s@ == text_of(before_zero(units_of(bytes@))),
{
    let mut units: Vec<u16> = Vec::new();
    let mut i: usize = 0;
    while i < bytes.len() / 2
        invariant
            i <= bytes@.len() / 2,
            units@ =~= units_of(bytes@).take(i as int),
        decreases bytes@.len() / 2 - i,
    {
        units.push(bytes[2 * i] as u16 + 0x100 * bytes[2 * i + 1] as u16);
        i += 1;
    }
    assert(units@ =~= units_of(bytes@));
    wide_text(units.as_slice())
}

/// The bytes of a text as a value in the registry.
pub fn value_bytes(s: &str) -> (bytes: Vec<u8>)
    ensures
        bytes@ == bytes_of(utf16(s@).push(0)),
{
    let units = wide(s);
    let mut bytes: Vec<u8> = Vec::new();
    let mut i: usize = 0;
    while i < units.len()
        invariant
            i <= units@.len(),
            bytes@ =~= bytes_of(units@).take(2 * i),
        decreases units@.len() - i,
    {
        bytes.push((units[i] % 0x100) as u8);
        bytes.push((units[i] / 0x100) as u8);
        i += 1;
    }
    assert(bytes@ =~= bytes_of(units@));
    bytes
}

// ---------------------------------------------------------------------------
// Laws
// ---------------------------------------------------------------------------

/// A character at the front is read back.
proof fn lemma_first_reads_back(c: char, rest: Seq<u16>)
    ensures
        text_of(utf16_units(c) + rest) == seq![c] + text_of(rest),
{
    let all = utf16_units(c) + rest;
    let n = c as int;
    if n < 0x1_0000 {
        assert(all.skip(1) =~= rest);
    } else {
        assert(all.skip(2) =~= rest);
        assert(n <= 0x10_FFFF);
        assert(is_high(all[0]) && is_low(all[1]));
        assert(paired(all[0], all[1]) == c);
    }
}

/// The first character of a text comes first in UTF-16.
proof fn lemma_first_unit(s: Seq<char>)
    requires
        s.len() > 0,
    ensures
        utf16(s) == utf16_units(s[0]) + utf16(s.skip(1)),
    decreases s.len(),
{
    if s.len() == 1 {
        assert(s.drop_last() =~= Seq::<char>::empty());
        assert(s.skip(1) =~= Seq::<char>::empty());
        assert(utf16(s) =~= utf16_units(s[0]) + utf16(s.skip(1)));
    } else {
        lemma_first_unit(s.drop_last());
        assert(s.drop_last().skip(1) =~= s.skip(1).drop_last());
        assert(utf16(s) =~= utf16_units(s[0]) + (utf16(s.skip(1).drop_last()) + utf16_units(
            s.last(),
        )));
    }
}

/// Every text is read back from its code units.
pub proof fn units_read_back(s: Seq<char>)
    ensures
        text_of(utf16(s)) == s,
    decreases s.len(),
{
    if s.len() > 0 {
        lemma_first_unit(s);
        lemma_first_reads_back(s[0], utf16(s.skip(1)));
        units_read_back(s.skip(1));
        assert(s =~= seq![s[0]] + s.skip(1));
    } else {
        assert(s =~= Seq::<char>::empty());
    }
}

/// No other character has a zero among its code units.
proof fn lemma_units_not_zero(c: char)
    requires
        c != '\0',
    ensures
        forall|i: int| 0 <= i < utf16_units(c).len() ==> utf16_units(c)[i] != 0,
{
    assert(0 < c as int <= 0x10_FFFF);
}

/// A text without a zero has no zero among its code units.
proof fn lemma_no_zero(s: Seq<char>)
    requires
        !s.contains('\0'),
    ensures
        forall|i: int| 0 <= i < utf16(s).len() ==> utf16(s)[i] != 0,
    decreases s.len(),
{
    if s.len() > 0 {
        let start = s.drop_last();
        assert forall|i: int| 0 <= i < start.len() implies start[i] != '\0' by {
            assert(start[i] == s[i]);
        }
        lemma_no_zero(start);
        let end = utf16_units(s.last());
        assert(s.last() != '\0');
        lemma_units_not_zero(s.last());
        assert forall|i: int| 0 <= i < utf16(s).len() implies utf16(s)[i] != 0 by {
            if i < utf16(start).len() {
                assert(utf16(s)[i] == utf16(start)[i]);
            } else {
                assert(utf16(s)[i] == end[i - utf16(start).len()]);
            }
        }
    }
}

/// What comes before the zero that ends it.
proof fn lemma_before_zero(units: Seq<u16>)
    requires
        forall|i: int| 0 <= i < units.len() ==> units[i] != 0,
    ensures
        before_zero(units.push(0)) == units,
    decreases units.len(),
{
    let all = units.push(0);
    if units.len() > 0 {
        lemma_before_zero(units.skip(1));
        assert(all.skip(1) =~= units.skip(1).push(0));
        assert(seq![units[0]] + units.skip(1) =~= units);
    } else {
        assert(units =~= Seq::<u16>::empty());
    }
}

/// A text that is handed to the system, and holds no zero of its own, is read back as it was: from
/// its code units and from the bytes of a value in the registry.
pub proof fn wide_texts_read_back(s: Seq<char>)
    requires
        !s.contains('\0'),
    ensures
        text_of(before_zero(utf16(s).push(0))) == s,
        text_of(before_zero(units_of(bytes_of(utf16(s).push(0))))) == s,
{
    lemma_no_zero(s);
    lemma_before_zero(utf16(s));
    units_read_back(s);
    assert(units_of(bytes_of(utf16(s).push(0))) =~= utf16(s).push(0));
}

} // verus!

//! The values that settings take, and what is said of those that cannot be read.

use vstd::prelude::*;
use vstd::string::StringExecFns;

use super::{Antialias, Backdrop, Reading, ReadingView, Single};
use crate::text::{decimal_text, parse_whole, push_all, push_number, reads, whole_number};

verus! {

/// A text between two others.
pub open spec fn framed(before: Seq<char>, v: Seq<char>, after: Seq<char>) -> Seq<char> {
    before + v + after
}

/// Put a text between two others.
pub(crate) fn frame(before: &str, v: &[char], after: &str) -> (s: String)
    ensures
        s@ == framed(before@, v@, after@),
{
    let mut s = String::from_str(before);
    push_all(&mut s, v);
    s.append(after);
    s
}

/// The complaint about a number that is out of range.
pub open spec fn outside(shown: Seq<char>, lo: Seq<char>, hi: Seq<char>) -> Seq<char> {
    shown + " is outside "@ + lo + "..="@ + hi
}

/// A number with a fraction, within bounds.
pub open spec fn number_value(
    value: Seq<char>,
    reading: ReadingView,
    lo: (u32, Seq<char>),
    hi: (u32, Seq<char>),
) -> Result<Single, Seq<char>> {
    match reading.number {
        None => Err(framed("`"@, value, "` is not a number"@)),
        Some(n) => if n.between(lo.0, hi.0) {
            Ok(n)
        } else {
            Err(outside(reading.shown, lo.1, hi.1))
        },
    }
}

/// Does an executable result say what a ghost one does?
pub open spec fn agrees<T>(r: Result<T, String>, s: Result<T, Seq<char>>) -> bool {
    match r {
        Ok(v) => s == Ok::<T, Seq<char>>(v),
        Err(e) => s == Err::<T, Seq<char>>(e@),
    }
}

/// Take a number with a fraction, within bounds.
pub(crate) fn parse_single(
    value: &[char],
    reading: &Reading,
    lo: (u32, &str),
    hi: (u32, &str),
) -> (r: Result<Single, String>)
    ensures
        agrees(r, number_value(value@, reading@, (lo.0, lo.1@), (hi.0, hi.1@))),
{
    match reading.number {
        None => Err(frame("`", value, "` is not a number")),
        Some(n) => {
            if n.is_between(lo.0, hi.0) {
                Ok(n)
            } else {
                let mut s = String::new();
                s.append(reading.shown.as_str());
                s.append(" is outside ");
                s.append(lo.1);
                s.append("..=");
                s.append(hi.1);
                assert(s@ =~= outside(reading.shown@, lo.1@, hi.1@));
                Err(s)
            }
        },
    }
}

/// A whole number within bounds.
pub open spec fn count_value(value: Seq<char>, lo: usize, hi: usize) -> Result<usize, Seq<char>> {
    match whole_number(value) {
        None => Err(framed("`"@, value, "` is not an integer"@)),
        Some(n) => if lo <= n <= hi {
            Ok(n)
        } else {
            Err(outside(decimal_text(n as nat), decimal_text(lo as nat), decimal_text(hi as nat)))
        },
    }
}

pub(crate) fn parse_usize(value: &[char], lo: usize, hi: usize) -> (r: Result<usize, String>)
    ensures
        agrees(r, count_value(value@, lo, hi)),
{
    match parse_whole(value) {
        None => Err(frame("`", value, "` is not an integer")),
        Some(n) => {
            if lo <= n && n <= hi {
                Ok(n)
            } else {
                let mut s = String::new();
                push_number(&mut s, n);
                s.append(" is outside ");
                push_number(&mut s, lo);
                s.append("..=");
                push_number(&mut s, hi);
                assert(s@ =~= outside(
                    decimal_text(n as nat),
                    decimal_text(lo as nat),
                    decimal_text(hi as nat),
                ));
                Err(s)
            }
        },
    }
}

/// Yes or no.
pub open spec fn flag_value(value: Seq<char>) -> Result<bool, Seq<char>> {
    if value == "true"@ || value == "yes"@ || value == "on"@ || value == "1"@ {
        Ok(true)
    } else if value == "false"@ || value == "no"@ || value == "off"@ || value == "0"@ {
        Ok(false)
    } else {
        Err(framed("`"@, value, "` is not a boolean"@))
    }
}

pub(crate) fn parse_bool(value: &[char]) -> (r: Result<bool, String>)
    ensures
        agrees(r, flag_value(value@)),
{
    if reads(value, "true") || reads(value, "yes") || reads(value, "on") || reads(value, "1") {
        Ok(true)
    } else if reads(value, "false") || reads(value, "no") || reads(value, "off") || reads(
        value,
        "0",
    ) {
        Ok(false)
    } else {
        Err(frame("`", value, "` is not a boolean"))
    }
}

/// The value of a hexadecimal digit.
pub open spec fn hex_digit(c: char) -> Option<u8> {
    if '0' <= c <= '9' {
        Some((c as int - 48) as u8)
    } else if 'a' <= c <= 'f' {
        Some((c as int - 87) as u8)
    } else if 'A' <= c <= 'F' {
        Some((c as int - 55) as u8)
    } else {
        None
    }
}

pub(crate) fn parse_hex_digit(c: char) -> (d: Option<u8>)
    ensures
        d == hex_digit(c),
        d is Some ==> d->0 < 16,
{
    let n: u32 = c as u32;
    if c >= '0' && c <= '9' {
        Some((n - 48) as u8)
    } else if c >= 'a' && c <= 'f' {
        Some((n - 87) as u8)
    } else if c >= 'A' && c <= 'F' {
        Some((n - 55) as u8)
    } else {
        None
    }
}

/// A byte of two hexadecimal digits.
pub open spec fn hex_byte(s: Seq<char>, i: int) -> u8 {
    (16 * hex_digit(s[i])->0 + hex_digit(s[i + 1])->0) as u8
}

/// Are these six hexadecimal digits?
pub open spec fn six_hex_digits(s: Seq<char>) -> bool {
    s.len() == 6 && forall|i: int| 0 <= i < 6 ==> hex_digit(#[trigger] s[i]) is Some
}

/// `#rrggbb`, the number sign optional.
pub open spec fn color_value(value: Seq<char>) -> Result<[u8; 3], Seq<char>> {
    let s = if value.len() > 0 && value[0] == '#' {
        value.skip(1)
    } else {
        value
    };
    if six_hex_digits(s) {
        Ok([hex_byte(s, 0), hex_byte(s, 2), hex_byte(s, 4)])
    } else {
        Err(framed("`"@, value, "` is not a #rrggbb colour"@))
    }
}

pub(crate) fn parse_hex(value: &[char]) -> (r: Result<[u8; 3], String>)
    ensures
        agrees(r, color_value(value@)),
{
    let s = if value.len() > 0 && value[0] == '#' {
        let rest = &value[1..value.len()];
        assert(rest@ =~= value@.skip(1));
        rest
    } else {
        value
    };
    if s.len() == 6 {
        match (
            parse_hex_digit(s[0]),
            parse_hex_digit(s[1]),
            parse_hex_digit(s[2]),
            parse_hex_digit(s[3]),
            parse_hex_digit(s[4]),
            parse_hex_digit(s[5]),
        ) {
            (Some(a), Some(b), Some(c), Some(d), Some(e), Some(f)) => {
                return Ok([16 * a + b, 16 * c + d, 16 * e + f]);
            },
            _ => {
                assert(hex_digit(s@[0]) is None || hex_digit(s@[1]) is None || hex_digit(s@[2]) is None
                    || hex_digit(s@[3]) is None || hex_digit(s@[4]) is None || hex_digit(
                    s@[5],
                ) is None);
            },
        }
    }
    Err(frame("`", value, "` is not a #rrggbb colour"))
}

/// The antialiasing that a value names.
pub open spec fn antialias_value(value: Seq<char>) -> Result<Antialias, Seq<char>> {
    if value == "subpixel"@ || value == "cleartype"@ || value == "rgb"@ {
        Ok(Antialias::Subpixel)
    } else if value == "grayscale"@ || value == "greyscale"@ || value == "gray"@ {
        Ok(Antialias::Grayscale)
    } else {
        Err(framed("unknown antialias mode `"@, value, "`"@))
    }
}

pub(crate) fn parse_antialias(value: &[char]) -> (r: Result<Antialias, String>)
    ensures
        agrees(r, antialias_value(value@)),
{
    if reads(value, "subpixel") || reads(value, "cleartype") || reads(value, "rgb") {
        Ok(Antialias::Subpixel)
    } else if reads(value, "grayscale") || reads(value, "greyscale") || reads(value, "gray") {
        Ok(Antialias::Grayscale)
    } else {
        Err(frame("unknown antialias mode `", value, "`"))
    }
}

/// The backdrop that a value names.
pub open spec fn backdrop_value(value: Seq<char>) -> Result<Backdrop, Seq<char>> {
    if value == "none"@ || value == "off"@ {
        Ok(Backdrop::NoBackdrop)
    } else if value == "acrylic"@ || value == "glass"@ {
        Ok(Backdrop::Acrylic)
    } else if value == "blur"@ {
        Ok(Backdrop::Blur)
    } else if value == "mica"@ {
        Ok(Backdrop::Mica)
    } else if value == "tabbed"@ {
        Ok(Backdrop::Tabbed)
    } else {
        Err(framed("unknown backdrop `"@, value, "`"@))
    }
}

pub(crate) fn parse_backdrop(value: &[char]) -> (r: Result<Backdrop, String>)
    ensures
        agrees(r, backdrop_value(value@)),
{
    if reads(value, "none") || reads(value, "off") {
        Ok(Backdrop::NoBackdrop)
    } else if reads(value, "acrylic") || reads(value, "glass") {
        Ok(Backdrop::Acrylic)
    } else if reads(value, "blur") {
        Ok(Backdrop::Blur)
    } else if reads(value, "mica") {
        Ok(Backdrop::Mica)
    } else if reads(value, "tabbed") {
        Ok(Backdrop::Tabbed)
    } else {
        Err(frame("unknown backdrop `", value, "`"))
    }
}

} // verus!

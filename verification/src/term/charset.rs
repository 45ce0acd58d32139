//! DEC Special Graphics.

use vstd::prelude::*;

verus! {

/// The character that DEC Special Graphics shows for `c`: 0x5F to 0x7E are box-drawing and symbol
/// characters, everything else stands for itself.
pub open spec fn graphics_of(c: char) -> char {
    if c == '_' {
        ' '
    } else if c == '`' {
        '\u{25C6}'
    } else if c == 'a' {
        '\u{2592}'
    } else if c == 'b' {
        '\u{2409}'
    } else if c == 'c' {
        '\u{240C}'
    } else if c == 'd' {
        '\u{240D}'
    } else if c == 'e' {
        '\u{240A}'
    } else if c == 'f' {
        '\u{00B0}'
    } else if c == 'g' {
        '\u{00B1}'
    } else if c == 'h' {
        '\u{2424}'
    } else if c == 'i' {
        '\u{240B}'
    } else if c == 'j' {
        '\u{2518}'
    } else if c == 'k' {
        '\u{2510}'
    } else if c == 'l' {
        '\u{250C}'
    } else if c == 'm' {
        '\u{2514}'
    } else if c == 'n' {
        '\u{253C}'
    } else if c == 'o' {
        '\u{23BA}'
    } else if c == 'p' {
        '\u{23BB}'
    } else if c == 'q' {
        '\u{2500}'
    } else if c == 'r' {
        '\u{23BC}'
    } else if c == 's' {
        '\u{23BD}'
    } else if c == 't' {
        '\u{251C}'
    } else if c == 'u' {
        '\u{2524}'
    } else if c == 'v' {
        '\u{2534}'
    } else if c == 'w' {
        '\u{252C}'
    } else if c == 'x' {
        '\u{2502}'
    } else if c == 'y' {
        '\u{2264}'
    } else if c == 'z' {
        '\u{2265}'
    } else if c == '{' {
        '\u{03C0}'
    } else if c == '|' {
        '\u{2260}'
    } else if c == '}' {
        '\u{00A3}'
    } else if c == '~' {
        '\u{00B7}'
    } else {
        c
    }
}

/// What DEC Special Graphics shows for `c`.
pub fn dec_graphics(c: char) -> (g: char)
    ensures
        g == graphics_of(c),
{
    match c {
        '_' => ' ',
        '`' => '◆',
        'a' => '▒',
        'b' => '\u{2409}',
        'c' => '\u{240C}',
        'd' => '\u{240D}',
        'e' => '\u{240A}',
        'f' => '°',
        'g' => '±',
        'h' => '\u{2424}',
        'i' => '\u{240B}',
        'j' => '┘',
        'k' => '┐',
        'l' => '┌',
        'm' => '└',
        'n' => '┼',
        'o' => '⎺',
        'p' => '⎻',
        'q' => '─',
        'r' => '⎼',
        's' => '⎽',
        't' => '├',
        'u' => '┤',
        'v' => '┴',
        'w' => '┬',
        'x' => '│',
        'y' => '≤',
        'z' => '≥',
        '{' => 'π',
        '|' => '≠',
        '}' => '£',
        '~' => '·',
        _ => c,
    }
}

} // verus!

//! Choosing faces and preparing coverage.
//!
//! What asks the system for fonts works at the level of single glyphs: a terminal has already
//! decided where every character goes. Here stand the rules that need no font: which families are
//! tried and in which order, which characters are pictures, and how coverage samples become texels.

use vstd::prelude::*;
use vstd::string::StringExecFns;

use crate::text::{chars_of, eq_ignoring_case, same_ignoring_case, texts};

verus! {

/// Which face within a family a cell wants.
#[derive(Clone, Copy, PartialEq, Eq, Structural, Hash, Debug)]
pub struct FaceKey {
    pub bold: bool,
    pub italic: bool,
    /// 0 is the primary family; higher values index the fallback chain.
    pub fallback: u8,
}

impl FaceKey {
    /// The upright face of ordinary weight in the primary family.
    #[verifier::allow_in_spec]
    pub fn regular() -> FaceKey
        returns
            (FaceKey { bold: false, italic: false, fallback: 0 }),
    {
        FaceKey { bold: false, italic: false, fallback: 0 }
    }
}

/// A rasterized glyph: four bytes for each texel, tightly packed, and where it sits relative to the
/// pen position.
pub struct GlyphBitmap {
    pub width: u32,
    pub height: u32,
    /// For a monochrome glyph RGB coverage with peak coverage in alpha; for a colour glyph
    /// straight-alpha sRGB.
    pub pixels: Vec<u8>,
    /// Offset from the pen position, in pixels.
    pub left: i32,
    pub top: i32,
    /// The glyph carries its own colour and must not be tinted.
    pub color: bool,
}

/// The family that carries the colour pictures.
pub const EMOJI_FAMILY: &'static str = "Segoe UI Emoji";

/// How many families stand behind the configured one.
pub const FALLBACKS: usize = 21;

/// The families tried, in order, when the configured font has no glyph for a character: icon fonts
/// for prompts first, then the stock coverage of symbols, pictures and the larger scripts.
pub open spec fn fallback_name(i: int) -> Seq<char> {
    if i == 0 {
        "Symbols Nerd Font Mono"@
    } else if i == 1 {
        "Symbols Nerd Font"@
    } else if i == 2 {
        "CaskaydiaCove Nerd Font Mono"@
    } else if i == 3 {
        "CaskaydiaCove Nerd Font"@
    } else if i == 4 {
        "JetBrainsMono Nerd Font Mono"@
    } else if i == 5 {
        "JetBrainsMono Nerd Font"@
    } else if i == 6 {
        "FiraCode Nerd Font Mono"@
    } else if i == 7 {
        "Hack Nerd Font Mono"@
    } else if i == 8 {
        "MesloLGS NF"@
    } else if i == 9 {
        "Cascadia Mono PL"@
    } else if i == 10 {
        "Cascadia Code PL"@
    } else if i == 11 {
        "Cascadia Mono"@
    } else if i == 12 {
        "Consolas"@
    } else if i == 13 {
        "Segoe UI Emoji"@
    } else if i == 14 {
        "Segoe UI Symbol"@
    } else if i == 15 {
        "Segoe MDL2 Assets"@
    } else if i == 16 {
        "Microsoft YaHei"@
    } else if i == 17 {
        "Meiryo"@
    } else if i == 18 {
        "Malgun Gothic"@
    } else if i == 19 {
        "Nirmala UI"@
    } else {
        "Segoe UI"@
    }
}

/// The name of one of the families behind the configured one.
pub fn fallback_family(i: usize) -> (name: &'static str)
    requires
        i < FALLBACKS,
    ensures
        name@ == fallback_name(i as int),
{
    match i {
        0 => "Symbols Nerd Font Mono",
        1 => "Symbols Nerd Font",
        2 => "CaskaydiaCove Nerd Font Mono",
        3 => "CaskaydiaCove Nerd Font",
        4 => "JetBrainsMono Nerd Font Mono",
        5 => "JetBrainsMono Nerd Font",
        6 => "FiraCode Nerd Font Mono",
        7 => "Hack Nerd Font Mono",
        8 => "MesloLGS NF",
        9 => "Cascadia Mono PL",
        10 => "Cascadia Code PL",
        11 => "Cascadia Mono",
        12 => "Consolas",
        13 => "Segoe UI Emoji",
        14 => "Segoe UI Symbol",
        15 => "Segoe MDL2 Assets",
        16 => "Microsoft YaHei",
        17 => "Meiryo",
        18 => "Malgun Gothic",
        19 => "Nirmala UI",
        _ => "Segoe UI",
    }
}

/// Is a family in a list, whatever the case of its letters?
pub open spec fn listed(families: Seq<Seq<char>>, name: Seq<char>) -> bool {
    exists|i: int| 0 <= i < families.len() && same_ignoring_case(#[trigger] families[i], name)
}

/// The configured family, followed by those of the first `n` others that are not in the list yet.
pub open spec fn families_upto(configured: Seq<char>, n: int) -> Seq<Seq<char>>
    decreases n,
{
    if n <= 0 {
        seq![configured]
    } else {
        let before = families_upto(configured, n - 1);
        if listed(before, fallback_name(n - 1)) {
            before
        } else {
            before.push(fallback_name(n - 1))
        }
    }
}

/// Every family that is consulted, in order.
pub open spec fn families_of(configured: Seq<char>) -> Seq<Seq<char>> {
    families_upto(configured, FALLBACKS as int)
}

/// Where a family stands in a list, whatever the case of its letters.
fn position(families: &Vec<String>, name: &str) -> (i: Option<usize>)
    ensures
        match i {
            Some(i) => i < families@.len() && same_ignoring_case(texts(families@)[i as int], name@)
                && forall|j: int|
                0 <= j < i ==> !same_ignoring_case(#[trigger] texts(families@)[j], name@),
            None => !listed(texts(families@), name@),
        },
{
    let wanted = chars_of(name);
    let mut i: usize = 0;
    while i < families.len()
        invariant
            i <= families@.len(),
            wanted@ == name@,
            forall|j: int|
                0 <= j < i ==> !same_ignoring_case(#[trigger] texts(families@)[j], name@),
        decreases families@.len() - i,
    {
        let one = chars_of(families[i].as_str());
        assert(texts(families@)[i as int] == one@);
        if eq_ignoring_case(one.as_slice(), wanted.as_slice()) {
            return Some(i);
        }
        i += 1;
    }
    None
}

/// The families to consult for a configured one, each once.
pub fn font_families(configured: &str) -> (v: Vec<String>)
    ensures
        texts(v@) == families_of(configured@),
{
    let mut v: Vec<String> = Vec::new();
    v.push(String::from_str(configured));
    assert(texts(v@) =~= seq![configured@]);
    let mut n: usize = 0;
    while n < FALLBACKS
        invariant
            n <= FALLBACKS,
            texts(v@) == families_upto(configured@, n as int),
        decreases FALLBACKS - n,
    {
        let name = fallback_family(n);
        let ghost before = texts(v@);
        match position(&v, name) {
            Some(i) => {
                assert(same_ignoring_case(before[i as int], name@));
            },
            None => {
                v.push(String::from_str(name));
                assert(texts(v@) =~= before.push(name@));
            },
        }
        n += 1;
    }
    v
}

/// Where the family with the colour pictures stands, if it is among the first 256.
pub fn emoji_family(families: &Vec<String>) -> (i: Option<u8>)
    ensures
        match i {
            Some(i) => i < families@.len() && same_ignoring_case(
                texts(families@)[i as int],
                EMOJI_FAMILY@,
            ) && forall|j: int|
                0 <= j < i ==> !same_ignoring_case(#[trigger] texts(families@)[j], EMOJI_FAMILY@),
            None => forall|j: int|
                0 <= j < families@.len() && j < 256 ==> !same_ignoring_case(
                    #[trigger] texts(families@)[j],
                    EMOJI_FAMILY@,
                ),
        },
{
    match position(families, EMOJI_FAMILY) {
        Some(i) => if i < 256 {
            Some(i as u8)
        } else {
            None
        },
        None => None,
    }
}

/// The families asked for a character, in order: the one with the colour pictures first where a
/// picture is wanted, then all of them as far as a byte counts.
pub open spec fn families_tried(
    count: int,
    emoji: Option<u8>,
    c: char,
    prefer_color: bool,
) -> Seq<u8> {
    let pictures = if (prefer_color || pictured(c as u32)) && emoji is Some {
        seq![emoji->0]
    } else {
        Seq::empty()
    };
    pictures + Seq::new(
        (if count < 255 {
            count
        } else {
            255
        }) as nat,
        |i: int| i as u8,
    )
}

/// The order in which the families are asked for a character.
///
/// Putting the picture family in front matters: several fonts hold outlines without colour for the
/// same characters, and a plain walk would find one of those first.
pub fn families_to_try(count: usize, emoji: Option<u8>, c: char, prefer_color: bool) -> (v: Vec<u8>)
    ensures
        v@ == families_tried(count as int, emoji, c, prefer_color),
{
    let mut v: Vec<u8> = Vec::new();
    if prefer_color || wants_emoji_presentation(c) {
        if let Some(i) = emoji {
            v.push(i);
        }
    }
    let ghost pictures = v@;
    let n: u8 = if count < 255 {
        count as u8
    } else {
        255
    };
    let mut i: u8 = 0;
    while i < n
        invariant
            i <= n,
            v@ =~= pictures + Seq::new(i as nat, |j: int| j as u8),
        decreases n - i,
    {
        v.push(i);
        i += 1;
    }
    assert(v@ =~= families_tried(count as int, emoji, c, prefer_color));
    v
}

/// Where a picture is wanted, the family with the colour pictures is asked before any other.
pub proof fn pictures_come_first(count: int, emoji: u8, c: char, prefer_color: bool)
    requires
        prefer_color || pictured(c as u32),
    ensures
        families_tried(count, Some(emoji), c, prefer_color)[0] == emoji,
{
}

/// Every family that a byte can number is asked.
pub proof fn every_family_is_tried(
    count: int,
    emoji: Option<u8>,
    c: char,
    prefer_color: bool,
    i: int,
)
    requires
        0 <= i < count,
        i < 255,
    ensures
        families_tried(count, emoji, c, prefer_color).contains(i as u8),
{
    let all = families_tried(count, emoji, c, prefer_color);
    let n: int = if count < 255 {
        count
    } else {
        255
    };
    assert(all[all.len() - n + i] == i as u8);
}

/// The characters that are pictures unless told otherwise: the supplementary blocks as one range,
/// and those of the symbol blocks whose neighbours are text.
pub open spec fn pictured(n: u32) -> bool {
    ||| 0x1F000 <= n <= 0x1FAFF
    ||| n == 0x231A || n == 0x231B
    ||| 0x23E9 <= n <= 0x23EC
    ||| n == 0x23F0 || n == 0x23F3
    ||| n == 0x25FD || n == 0x25FE
    ||| n == 0x2614 || n == 0x2615
    ||| 0x2648 <= n <= 0x2653
    ||| n == 0x267F || n == 0x2693 || n == 0x26A1
    ||| n == 0x26AA || n == 0x26AB
    ||| n == 0x26BD || n == 0x26BE
    ||| n == 0x26C4 || n == 0x26C5 || n == 0x26CE || n == 0x26D4 || n == 0x26EA
    ||| n == 0x26F2 || n == 0x26F3 || n == 0x26F5 || n == 0x26FA || n == 0x26FD
    ||| n == 0x2705 || n == 0x270A || n == 0x270B || n == 0x2728
    ||| n == 0x274C || n == 0x274E
    ||| 0x2753 <= n <= 0x2755
    ||| n == 0x2757
    ||| 0x2795 <= n <= 0x2797
    ||| n == 0x27B0 || n == 0x27BF
    ||| n == 0x2B1B || n == 0x2B1C || n == 0x2B50 || n == 0x2B55
}

/// Whether a character defaults to emoji (colour) presentation.
pub fn wants_emoji_presentation(c: char) -> (r: bool)
    ensures
        r == pictured(c as u32),
{
    let n: u32 = c as u32;
    match n {
        0x1F000..=0x1FAFF => true,
        0x231A | 0x231B => true,
        0x23E9..=0x23EC | 0x23F0 | 0x23F3 => true,
        0x25FD | 0x25FE => true,
        0x2614 | 0x2615 => true,
        0x2648..=0x2653 => true,
        0x267F | 0x2693 | 0x26A1 => true,
        0x26AA | 0x26AB => true,
        0x26BD | 0x26BE => true,
        0x26C4 | 0x26C5 | 0x26CE | 0x26D4 | 0x26EA => true,
        0x26F2 | 0x26F3 | 0x26F5 | 0x26FA | 0x26FD => true,
        0x2705 | 0x270A | 0x270B | 0x2728 => true,
        0x274C | 0x274E => true,
        0x2753..=0x2755 | 0x2757 => true,
        0x2795..=0x2797 => true,
        0x27B0 | 0x27BF => true,
        0x2B1B | 0x2B1C | 0x2B50 | 0x2B55 => true,
        _ => false,
    }
}

/// Asks for the colour presentation of the character before it.
pub const COLOR_SELECTOR: char = '\u{FE0F}';

/// Asks for the text presentation of the character before it.
pub const TEXT_SELECTOR: char = '\u{FE0E}';

/// The characters that control presentation but draw nothing themselves: the two selectors above,
/// the zero-width joiner, non-joiner and space, and the byte-order mark.
pub open spec fn invisible(c: char) -> bool {
    c == TEXT_SELECTOR || c == COLOR_SELECTOR || c == '\u{200D}' || c == '\u{200C}' || c
        == '\u{200B}' || c == '\u{FEFF}'
}

/// Characters that control presentation but draw nothing themselves.
pub fn is_invisible_format(c: char) -> (r: bool)
    ensures
        r == invisible(c),
{
    c == TEXT_SELECTOR || c == COLOR_SELECTOR || c == '\u{200D}' || c == '\u{200C}' || c
        == '\u{200B}' || c == '\u{FEFF}'
}

} // verus!

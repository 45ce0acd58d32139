//! What becomes of glyphs, titles and colours on their way to the screen.

use vstd::prelude::*;

use super::atlas::AtlasView;
use super::chars::stacked;
use super::coverage::{mean_sample, span, texel_byte};
use super::font::{
    fallback_name, families_of, families_tried, families_upto, listed, pictured, GlyphBitmap,
};
use super::title::elided;
use crate::term::color::standard_color;
use crate::text::same_ignoring_case;

verus! {

/// A pixel keeps its three samples, and its fourth byte is the largest of them.
pub proof fn pixels_keep_their_samples(raw: Seq<u8>, i: int)
    requires
        0 <= i,
        3 * i + 3 <= raw.len(),
    ensures
        texel_byte(raw, 4 * i) == raw[3 * i],
        texel_byte(raw, 4 * i + 1) == raw[3 * i + 1],
        texel_byte(raw, 4 * i + 2) == raw[3 * i + 2],
        ({
            let top = texel_byte(raw, 4 * i + 3);
            let (r, g, b) = (raw[3 * i], raw[3 * i + 1], raw[3 * i + 2]);
            top >= r && top >= g && top >= b && (top == r || top == g || top == b)
        }),
{
    assert((4 * i) / 4 == i && (4 * i) % 4 == 0);
    assert((4 * i + 1) / 4 == i && (4 * i + 1) % 4 == 1);
    assert((4 * i + 2) / 4 == i && (4 * i + 2) % 4 == 2);
    assert((4 * i + 3) / 4 == i && (4 * i + 3) % 4 == 3);
}

/// Collapsed samples are the mean of three, rounded down: alike samples stay as they are.
pub proof fn samples_are_averaged(raw: Seq<u8>, i: int)
    requires
        0 <= i,
        3 * i + 3 <= raw.len(),
    ensures
        ({
            let sum = raw[3 * i] + raw[3 * i + 1] + raw[3 * i + 2];
            3 * mean_sample(raw, i) <= sum < 3 * mean_sample(raw, i) + 3
        }),
        raw[3 * i] == raw[3 * i + 1] && raw[3 * i] == raw[3 * i + 2] ==> mean_sample(raw, i) == raw[3
            * i],
{
}

/// The room between two coordinates is their distance, or none where the second comes first.
pub proof fn room_is_a_distance(from: i32, to: i32)
    ensures
        from <= to ==> span(from, to) == to - from,
        to <= from ==> span(from, to) == 0,
{
}

/// A glyph that has a place keeps its size, its offset and whether it has colours of its own. It goes
/// where the pen is if the shelf is long enough, else to the start of the next one, and everything is
/// dropped only where that has no room for it.
pub proof fn glyphs_get_the_next_place(a: AtlasView, bmp: GlyphBitmap)
    requires
        a.wf(),
        bmp.width <= 1022,
        bmp.height <= 1022,
    ensures
        ({
            let e = a.entry_for(bmp)->0;
            let after = a.with_bitmap(bmp);
            let along = a.shelf.pen_x + bmp.width < 1024;
            let row = if along {
                a.shelf.y as int
            } else {
                a.shelf.y + a.shelf.height + 1
            };
            let room = row + bmp.height < 1024;
            &&& a.entry_for(bmp) is Some
            &&& e.width == bmp.width && e.height == bmp.height
            &&& e.left == bmp.left && e.top == bmp.top && e.color == bmp.color
            &&& room && along ==> e.u == a.shelf.pen_x && e.v == a.shelf.y
            &&& room && !along ==> e.u == 0 && e.v == a.shelf.y + a.shelf.height + 1
            &&& !room ==> e.u == 0 && e.v == 0
            &&& room ==> after.known == a.known && after.generation == a.generation
            &&& !room ==> after.known == Map::<u64, Option<super::atlas::AtlasEntry>>::empty()
            &&& !room && a.generation < u32::MAX ==> after.generation == a.generation + 1
            &&& after.shelf.pen_x == e.u + e.width + 1
            &&& after.shelf.y == e.v
            &&& after.shelf.height >= e.height
        }),
{
}

/// A glyph that is larger than the texture has no place, and nothing is dropped for it.
pub proof fn large_glyphs_have_no_place(a: AtlasView, bmp: GlyphBitmap)
    requires
        bmp.width > 1022 || bmp.height > 1022,
    ensures
        a.entry_for(bmp) is None,
        a.with_bitmap(bmp) == a,
{
}

/// What is cut from a title is its start: behind the mark of the cut stands its end, and the whole is
/// as wide as it may be.
pub proof fn titles_keep_their_end(s: Seq<char>, width: int)
    requires
        0 < width < s.len(),
    ensures
        ({
            let r = elided(s, width);
            &&& r.len() == width
            &&& r[0] == '\u{2026}'
            &&& forall|i: int| 1 <= i < width ==> #[trigger] r[i] == s[s.len() - width + i]
        }),
{
}

/// The first family asked for is the configured one; every other is among them, and none comes twice.
pub proof fn families_are_all_there(configured: Seq<char>, n: int)
    requires
        0 <= n < 21,
    ensures
        families_of(configured)[0] == configured,
        listed(families_of(configured), fallback_name(n)),
        forall|i: int, j: int|
            0 <= i < j < families_of(configured).len() ==> !same_ignoring_case(
                #[trigger] families_of(configured)[i],
                #[trigger] families_of(configured)[j],
            ),
{
    lemma_families(configured, 21);
    lemma_family_listed(configured, n, 21);
}

proof fn lemma_families(configured: Seq<char>, n: int)
    requires
        0 <= n,
    ensures
        families_upto(configured, n).len() > 0,
        families_upto(configured, n)[0] == configured,
        forall|i: int, j: int|
            0 <= i < j < families_upto(configured, n).len() ==> !same_ignoring_case(
                #[trigger] families_upto(configured, n)[i],
                #[trigger] families_upto(configured, n)[j],
            ),
    decreases n,
{
    if n > 0 {
        lemma_families(configured, n - 1);
        let before = families_upto(configured, n - 1);
        let after = families_upto(configured, n);
        if !listed(before, fallback_name(n - 1)) {
            assert(after == before.push(fallback_name(n - 1)));
            assert forall|i: int, j: int| 0 <= i < j < after.len() implies !same_ignoring_case(
                #[trigger] after[i],
                #[trigger] after[j],
            ) by {
                if j < before.len() {
                    assert(after[i] == before[i] && after[j] == before[j]);
                } else {
                    assert(after[i] == before[i]);
                }
            }
        }
    }
}

proof fn lemma_family_listed(configured: Seq<char>, i: int, n: int)
    requires
        0 <= i < n,
    ensures
        listed(families_upto(configured, n), fallback_name(i)),
    decreases n,
{
    let before = families_upto(configured, n - 1);
    let after = families_upto(configured, n);
    if i < n - 1 {
        lemma_family_listed(configured, i, n - 1);
        let k = choose|k: int|
            0 <= k < before.len() && same_ignoring_case(#[trigger] before[k], fallback_name(i));
        assert(after[k] == before[k]);
    } else if !listed(before, fallback_name(i)) {
        assert(after[before.len() as int] == fallback_name(i));
    }
}

/// Icon fonts come before those for symbols, and pictures before the fonts of other scripts.
pub proof fn families_stand_in_order()
    ensures
        fallback_name(0) == "Symbols Nerd Font Mono"@,
        fallback_name(1) == "Symbols Nerd Font"@,
        fallback_name(2) == "CaskaydiaCove Nerd Font Mono"@,
        fallback_name(3) == "CaskaydiaCove Nerd Font"@,
        fallback_name(4) == "JetBrainsMono Nerd Font Mono"@,
        fallback_name(5) == "JetBrainsMono Nerd Font"@,
        fallback_name(6) == "FiraCode Nerd Font Mono"@,
        fallback_name(7) == "Hack Nerd Font Mono"@,
        fallback_name(8) == "MesloLGS NF"@,
        fallback_name(9) == "Cascadia Mono PL"@,
        fallback_name(10) == "Cascadia Code PL"@,
        fallback_name(11) == "Cascadia Mono"@,
        fallback_name(12) == "Consolas"@,
        fallback_name(13) == "Segoe UI Emoji"@,
        fallback_name(14) == "Segoe UI Symbol"@,
        fallback_name(15) == "Segoe MDL2 Assets"@,
        fallback_name(16) == "Microsoft YaHei"@,
        fallback_name(17) == "Meiryo"@,
        fallback_name(18) == "Malgun Gothic"@,
        fallback_name(19) == "Nirmala UI"@,
        fallback_name(20) == "Segoe UI"@,
{
}

/// A character that is no picture is looked for in the families in their order, the configured one
/// first; one that is, in the family with the pictures before that.
pub proof fn families_are_tried_in_order(
    count: int,
    emoji: Option<u8>,
    c: char,
    prefer_color: bool,
    i: int,
)
    requires
        0 <= i < count <= 255,
    ensures
        ({
            let tried = families_tried(count, emoji, c, prefer_color);
            let picture = (prefer_color || pictured(c as u32)) && emoji is Some;
            &&& !picture ==> tried.len() == count && tried[i] == i
            &&& picture ==> tried.len() == count + 1 && tried[0] == emoji->0 && tried[i + 1] == i
        }),
{
}

/// Letters, digits and the signs of old are text; the blocks made for pictures are pictures; and of
/// the symbols between them some are.
pub proof fn pictures_are_few(n: u32)
    ensures
        n < 0x231A ==> !pictured(n),
        0x2B56 <= n < 0x1F000 ==> !pictured(n),
        0x1F000 <= n <= 0x1FAFF ==> pictured(n),
        0x1FB00 <= n ==> !pictured(n),
        n == 0x231A || n == 0x231B || n == 0x23E9 || n == 0x23EA || n == 0x23EB || n == 0x23EC || n
            == 0x23F0 || n == 0x23F3 ==> pictured(n),
        n == 0x25FD || n == 0x25FE || n == 0x2614 || n == 0x2615 || 0x2648 <= n <= 0x2653 || n == 0x267F
            || n == 0x2693 || n == 0x26A1 ==> pictured(n),
        n == 0x26AA || n == 0x26AB || n == 0x26BD || n == 0x26BE || n == 0x26C4 || n == 0x26C5 || n
            == 0x26CE || n == 0x26D4 || n == 0x26EA ==> pictured(n),
        n == 0x26F2 || n == 0x26F3 || n == 0x26F5 || n == 0x26FA || n == 0x26FD || n == 0x2705 || n
            == 0x270A || n == 0x270B || n == 0x2728 ==> pictured(n),
        n == 0x274C || n == 0x274E || 0x2753 <= n <= 0x2755 || n == 0x2757 || 0x2795 <= n <= 0x2797 || n
            == 0x27B0 || n == 0x27BF ==> pictured(n),
        n == 0x2B1B || n == 0x2B1C || n == 0x2B50 || n == 0x2B55 ==> pictured(n),
        0x231C <= n < 0x23E9 || 0x23F4 <= n < 0x25FD || 0x25FF <= n < 0x2614 || 0x2616 <= n < 0x2648
            ==> !pictured(n),
        0x2654 <= n < 0x267F || 0x2680 <= n < 0x2693 || 0x2694 <= n < 0x26A1 || 0x26A2 <= n < 0x26AA
            ==> !pictured(n),
        0x26AC <= n < 0x26BD || 0x26D5 <= n < 0x26EA || 0x26EB <= n < 0x26F2 || 0x26FE <= n < 0x2705
            ==> !pictured(n),
        0x270C <= n < 0x2728 || 0x2729 <= n < 0x274C || 0x2758 <= n < 0x2795 || 0x2798 <= n < 0x27B0
            ==> !pictured(n),
        0x27B1 <= n < 0x27BF || 0x27C0 <= n < 0x2B1B || 0x2B1D <= n < 0x2B50 ==> !pictured(n),
{
}

/// The colours from the seventeenth on are a cube of six levels, each a byte, red outermost; and the
/// last twenty-four are grays in equal steps.
pub proof fn colors_fill_a_cube(r: int, g: int, b: int, step: int)
    requires
        0 <= r < 6,
        0 <= g < 6,
        0 <= b < 6,
        0 <= step < 24,
    ensures
        ({
            let c = standard_color(16 + 36 * r + 6 * g + b)@;
            let levels = seq![0x00u8, 0x5F, 0x87, 0xAF, 0xD7, 0xFF];
            c[0] == levels[r] && c[1] == levels[g] && c[2] == levels[b]
        }),
        ({
            let gray = standard_color(232 + step)@;
            gray[0] == 8 + 10 * step && gray[1] == gray[0] && gray[2] == gray[0]
        }),
{
    let n = 36 * r + 6 * g + b;
    assert(n / 36 == r) by (nonlinear_arith)
        requires
            n == 36 * r + 6 * g + b,
            0 <= 6 * g + b < 36,
    ;
    assert(n / 6 == 6 * r + g);
    assert((6 * r + g) % 6 == g);
    assert(n % 6 == b);
}

/// The sixteen colours that have names, in their order: black, red, green, yellow, blue, magenta,
/// cyan and white, and then the bright ones.
pub open spec fn named_colors() -> Seq<[u8; 3]> {
    seq![
        [0x14u8, 0x18, 0x1F],
        [0xF2u8, 0x60, 0x6B],
        [0x6Fu8, 0xD0, 0x8C],
        [0xE8u8, 0xC1, 0x6B],
        [0x63u8, 0xA8, 0xF0],
        [0xB0u8, 0x84, 0xEB],
        [0x5Eu8, 0xD2, 0xD8],
        [0xC4u8, 0xCB, 0xD8],
        [0x46u8, 0x50, 0x62],
        [0xFFu8, 0x7A, 0x85],
        [0x89u8, 0xE8, 0xA6],
        [0xFFu8, 0xD9, 0x85],
        [0x82u8, 0xBF, 0xFF],
        [0xC9u8, 0x9C, 0xFF],
        [0x7Au8, 0xEC, 0xF2],
        [0xE8u8, 0xEE, 0xF7],
    ]
}

/// The first sixteen colours are those that have names.
pub proof fn named_colors_come_first(i: int)
    requires
        0 <= i < 16,
    ensures
        standard_color(i) == named_colors()[i],
{
}

/// Of the scalars of one character the first eight are drawn.
pub proof fn eight_scalars_are_drawn(s: Seq<char>)
    ensures
        s.len() <= 8 ==> stacked(s) == s,
        s.len() > 8 ==> stacked(s).len() == 8,
        forall|i: int| 0 <= i < s.len() && i < 8 ==> #[trigger] stacked(s)[i] == s[i],
{
}

/// A glyph that was stored is known, with its place or without one; every other that was known still
/// is, unless all were dropped to make room.
pub proof fn stored_glyphs_are_known(a: AtlasView, key: u64, bitmap: Option<GlyphBitmap>, other: u64)
    requires
        a.wf(),
        other != key,
    ensures
        ({
            let after = a.stored(key, bitmap);
            &&& after.known.dom().contains(key)
            &&& bitmap is None ==> after.known[key] is None
            &&& bitmap is Some ==> after.known[key] == a.entry_for(bitmap->0)
            &&& after.generation == a.generation ==> (after.known.dom().contains(other)
                <==> a.known.dom().contains(other)) && after.place_of(other) == a.place_of(other)
            &&& after.generation != a.generation ==> !after.known.dom().contains(other)
            &&& bitmap is None ==> after.generation == a.generation && after.shelf == a.shelf
        }),
{
}

} // verus!

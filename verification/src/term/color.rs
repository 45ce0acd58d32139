//! Packed colours and the 256-entry palette.

use vstd::prelude::*;

verus! {

/// A colour packed into one word, so that comparing two cells compares integers.
///
/// ```text
///   0x00_00_00_00                 default (the theme's own colour)
///   0x01_00_00_II                 palette slot II
///   0x02_RR_GG_BB                 direct truecolour
/// ```
#[derive(Clone, Copy, PartialEq, Eq, Structural, Hash, Debug)]
pub struct Color(pub u32);

/// The tag byte of a palette colour.
pub const TAG_INDEXED: u32 = 0x0100_0000;

/// The tag byte of a truecolour value.
pub const TAG_RGB: u32 = 0x0200_0000;

/// What a packed colour stands for.
pub enum Meaning {
    /// Whatever the theme says.
    Theme,
    /// A slot of the palette.
    Slot(u8),
    /// Red, green and blue, given outright.
    Direct(u8, u8, u8),
}

impl Color {
    /// The reading of a packed word, in plain arithmetic: the top byte is the tag, and each
    /// component is one byte below it.
    pub open spec fn meaning(self) -> Meaning {
        let tag = self.0 as int / 0x100_0000;
        if tag == 2 {
            Meaning::Direct(
                ((self.0 as int / 0x1_0000) % 0x100) as u8,
                ((self.0 as int / 0x100) % 0x100) as u8,
                (self.0 as int % 0x100) as u8,
            )
        } else if tag == 1 {
            Meaning::Slot((self.0 as int % 0x100) as u8)
        } else {
            Meaning::Theme
        }
    }

    /// The palette colour in slot `i`.
    pub open spec fn spec_indexed(i: u8) -> Color {
        Color((0x0100_0000 + i) as u32)
    }

    /// The truecolour value with the given components.
    pub open spec fn spec_rgb(r: u8, g: u8, b: u8) -> Color {
        Color((0x0200_0000 + r * 0x1_0000 + g * 0x100 + b) as u32)
    }

    #[verifier::when_used_as_spec(spec_indexed)]
    pub fn indexed(i: u8) -> (c: Color)
        ensures
            c == Color::spec_indexed(i),
            c.meaning() == Meaning::Slot(i),
    {
        let n: u32 = i as u32;
        assert(n < 0x100 ==> 0x0100_0000u32 | n == 0x0100_0000 + n) by (bit_vector);
        Color(TAG_INDEXED | n)
    }

    #[verifier::when_used_as_spec(spec_rgb)]
    pub fn rgb(r: u8, g: u8, b: u8) -> (c: Color)
        ensures
            c == Color::spec_rgb(r, g, b),
            c.meaning() == Meaning::Direct(r, g, b),
    {
        let (rr, gg, bb): (u32, u32, u32) = (r as u32, g as u32, b as u32);
        assert(rr < 0x100 && gg < 0x100 && bb < 0x100 ==> 0x0200_0000u32 | (rr << 16) | (gg << 8)
            | bb == 0x0200_0000 + rr * 0x1_0000 + gg * 0x100 + bb) by (bit_vector);
        proof {
            lemma_components(r as int, g as int, b as int);
        }
        Color(TAG_RGB | (rr << 16) | (gg << 8) | bb)
    }

    pub fn is_default(self) -> (r: bool)
        ensures
            r == (self == Color(0)),
    {
        self.0 == 0
    }

    /// Resolve to a concrete sRGB triple against `palette`.
    ///
    /// `default` comes from the caller, so that one routine serves foreground and background.
    pub fn resolve(self, palette: &Palette, default: [u8; 3]) -> (rgb: [u8; 3])
        ensures
            rgb == self.resolved(*palette, default),
    {
        proof {
            self.lemma_fields();
        }
        let tag: u32 = self.0 & 0xFF00_0000;
        if tag == TAG_RGB {
            [((self.0 >> 16) & 0xFF) as u8, ((self.0 >> 8) & 0xFF) as u8, (self.0 & 0xFF) as u8]
        } else if tag == TAG_INDEXED {
            palette.0[(self.0 & 0xFF) as usize]
        } else {
            default
        }
    }

    /// The triple that `self` shows as.
    pub open spec fn resolved(self, palette: Palette, default: [u8; 3]) -> [u8; 3] {
        match self.meaning() {
            Meaning::Direct(r, g, b) => [r, g, b],
            Meaning::Slot(i) => palette.0@[i as int],
            Meaning::Theme => default,
        }
    }

    /// The palette slot, if this colour names one.
    pub fn index(self) -> (slot: Option<u8>)
        ensures
            slot == self.slot(),
    {
        proof {
            self.lemma_fields();
        }
        if self.0 & 0xFF00_0000 == TAG_INDEXED {
            Some((self.0 & 0xFF) as u8)
        } else {
            None
        }
    }

    /// The palette slot that a colour names.
    pub open spec fn slot(self) -> Option<u8> {
        match self.meaning() {
            Meaning::Slot(i) => Some(i),
            _ => None,
        }
    }

    /// Map slots 0-7 onto 8-15, leaving every other colour alone.
    ///
    /// Done while resolving rather than while storing, so the behaviour can be switched off
    /// without touching stored cells.
    pub fn brighten(self) -> (c: Color)
        ensures
            c == self.brightened(),
    {
        match self.index() {
            Some(i) => if i < 8 {
                Color::indexed(i + 8)
            } else {
                self
            },
            None => self,
        }
    }

    /// The bright variant of one of the eight basic colours.
    pub open spec fn brightened(self) -> Color {
        match self.slot() {
            Some(i) => if i < 8 {
                Color::spec_indexed((i + 8) as u8)
            } else {
                self
            },
            None => self,
        }
    }

    /// The bit fields of the packed word agree with its arithmetic reading.
    proof fn lemma_fields(self)
        ensures
            (self.0 & 0xFF00_0000 == TAG_RGB) == (self.0 as int / 0x100_0000 == 2),
            (self.0 & 0xFF00_0000 == TAG_INDEXED) == (self.0 as int / 0x100_0000 == 1),
            (self.0 >> 16) & 0xFF == (self.0 as int / 0x1_0000) % 0x100,
            (self.0 >> 8) & 0xFF == (self.0 as int / 0x100) % 0x100,
            self.0 & 0xFF == self.0 as int % 0x100,
            self.0 & 0xFF < 0x100,
    {
        let w = self.0;
        assert((w & 0xFF00_0000 == 0x0200_0000u32) == (w / 0x100_0000 == 2) && (w & 0xFF00_0000
            == 0x0100_0000u32) == (w / 0x100_0000 == 1) && (w >> 16) & 0xFF == (w / 0x1_0000)
            % 0x100 && (w >> 8) & 0xFF == (w / 0x100) % 0x100 && w & 0xFF == w % 0x100) by (bit_vector);
    }
}

impl Default for Color {
    /// The theme's own colour.
    fn default() -> (c: Color)
        ensures
            c == Color(0),
    {
        Color(0)
    }
}

/// The 256-colour palette.
pub struct Palette(pub [[u8; 3]; 256]);

impl Clone for Palette {
    fn clone(&self) -> (p: Palette)
        ensures
            p == *self,
    {
        Palette(self.0)
    }
}

/// The sixteen basic colours: a slightly desaturated, higher-contrast take on the classic set.
pub open spec fn ansi_color(i: int) -> [u8; 3] {
    if i == 0 {
        [0x14, 0x18, 0x1F]
    } else if i == 1 {
        [0xF2, 0x60, 0x6B]
    } else if i == 2 {
        [0x6F, 0xD0, 0x8C]
    } else if i == 3 {
        [0xE8, 0xC1, 0x6B]
    } else if i == 4 {
        [0x63, 0xA8, 0xF0]
    } else if i == 5 {
        [0xB0, 0x84, 0xEB]
    } else if i == 6 {
        [0x5E, 0xD2, 0xD8]
    } else if i == 7 {
        [0xC4, 0xCB, 0xD8]
    } else if i == 8 {
        [0x46, 0x50, 0x62]
    } else if i == 9 {
        [0xFF, 0x7A, 0x85]
    } else if i == 10 {
        [0x89, 0xE8, 0xA6]
    } else if i == 11 {
        [0xFF, 0xD9, 0x85]
    } else if i == 12 {
        [0x82, 0xBF, 0xFF]
    } else if i == 13 {
        [0xC9, 0x9C, 0xFF]
    } else if i == 14 {
        [0x7A, 0xEC, 0xF2]
    } else {
        [0xE8, 0xEE, 0xF7]
    }
}

/// One component of the 6x6x6 cube: 0, then 95 to 255 in steps of 40.
pub open spec fn cube_level(i: int) -> u8 {
    if i == 0 {
        0
    } else {
        (55 + 40 * i) as u8
    }
}

/// The standard palette: 16 basic colours, a 6x6x6 colour cube, a 24-step grey ramp.
pub open spec fn standard_color(i: int) -> [u8; 3] {
    if i < 16 {
        ansi_color(i)
    } else if i < 232 {
        [cube_level((i - 16) / 36), cube_level(((i - 16) / 6) % 6), cube_level((i - 16) % 6)]
    } else {
        [(8 + 10 * (i - 232)) as u8, (8 + 10 * (i - 232)) as u8, (8 + 10 * (i - 232)) as u8]
    }
}

impl Palette {
    /// Build the standard palette.
    pub fn new() -> (p: Palette)
        ensures
            forall|i: int| 0 <= i < 256 ==> #[trigger] p.0@[i] == standard_color(i),
    {
        let mut p: [[u8; 3]; 256] = [[0u8; 3]; 256];
        p[0] = [0x14, 0x18, 0x1F];  // black
        p[1] = [0xF2, 0x60, 0x6B];  // red
        p[2] = [0x6F, 0xD0, 0x8C];  // green
        p[3] = [0xE8, 0xC1, 0x6B];  // yellow
        p[4] = [0x63, 0xA8, 0xF0];  // blue
        p[5] = [0xB0, 0x84, 0xEB];  // magenta
        p[6] = [0x5E, 0xD2, 0xD8];  // cyan
        p[7] = [0xC4, 0xCB, 0xD8];  // white
        p[8] = [0x46, 0x50, 0x62];  // bright black
        p[9] = [0xFF, 0x7A, 0x85];  // bright red
        p[10] = [0x89, 0xE8, 0xA6];  // bright green
        p[11] = [0xFF, 0xD9, 0x85];  // bright yellow
        p[12] = [0x82, 0xBF, 0xFF];  // bright blue
        p[13] = [0xC9, 0x9C, 0xFF];  // bright magenta
        p[14] = [0x7A, 0xEC, 0xF2];  // bright cyan
        p[15] = [0xE8, 0xEE, 0xF7];  // bright white

        let mut i: usize = 16;
        while i < 232
            invariant
                16 <= i <= 232,
                forall|j: int| 0 <= j < i ==> #[trigger] p@[j] == standard_color(j),
            decreases 232 - i,
        {
            let k: usize = i - 16;
            p[i] = [cube_component(k / 36), cube_component((k / 6) % 6), cube_component(k % 6)];
            i += 1;
        }

        while i < 256
            invariant
                232 <= i <= 256,
                forall|j: int| 0 <= j < i ==> #[trigger] p@[j] == standard_color(j),
            decreases 256 - i,
        {
            let v: u8 = 8 + 10 * ((i - 232) as u8);
            p[i] = [v, v, v];
            i += 1;
        }
        Palette(p)
    }
}

fn cube_component(i: usize) -> (v: u8)
    requires
        i < 6,
    ensures
        v == cube_level(i as int),
{
    if i == 0 {
        0
    } else {
        55 + 40 * (i as u8)
    }
}

impl Default for Palette {
    fn default() -> (p: Palette)
        ensures
            forall|i: int| 0 <= i < 256 ==> #[trigger] p.0@[i] == standard_color(i),
    {
        Palette::new()
    }
}

/// Packing a truecolour value and resolving it gives the components back, whatever the palette
/// and the theme.
pub proof fn rgb_resolves_to_its_components(r: u8, g: u8, b: u8, palette: Palette, default: [u8; 3])
    ensures
        Color::spec_rgb(r, g, b).resolved(palette, default) == [r, g, b],
{
    let (red, green, blue) = (r as int, g as int, b as int);
    let n = 0x0200_0000 + red * 0x1_0000 + green * 0x100 + blue;
    let c = Color::spec_rgb(r, g, b);
    assert(c.0 as int == n);
    lemma_components(red, green, blue);
    assert(c.meaning() == Meaning::Direct(r, g, b));
}

/// Dividing a packed word takes it apart.
proof fn lemma_components(r: int, g: int, b: int)
    requires
        0 <= r < 0x100,
        0 <= g < 0x100,
        0 <= b < 0x100,
    ensures
        ({
            let n = 0x0200_0000 + r * 0x1_0000 + g * 0x100 + b;
            n / 0x100_0000 == 2 && (n / 0x1_0000) % 0x100 == r && (n / 0x100) % 0x100 == g && n
                % 0x100 == b
        }),
{
    let n = 0x0200_0000 + r * 0x1_0000 + g * 0x100 + b;
    assert(n / 0x100 == 0x2_0000 + r * 0x100 + g);
    assert(n / 0x1_0000 == 0x200 + r);
}

/// Packing a palette slot and reading it gives the slot back, and it resolves to that slot.
pub proof fn indexed_names_its_slot(i: u8, palette: Palette, default: [u8; 3])
    ensures
        Color::spec_indexed(i).slot() == Some(i),
        Color::spec_indexed(i).resolved(palette, default) == palette.0@[i as int],
{
}

/// Brightening twice is brightening once.
pub proof fn brightening_is_idempotent(c: Color)
    ensures
        c.brightened().brightened() == c.brightened(),
{
}

} // verus!

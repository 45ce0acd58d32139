//! Where glyphs live in the glyph texture.
//!
//! Every distinct glyph is rasterized once and put into one texture; from then on drawing a
//! character samples it. Packing is a shelf allocator: glyphs go left to right on a shelf as high
//! as its highest glyph, which for glyphs of one size is close to optimal. When the texture is full
//! everything is dropped and packing starts over.

use rustc_hash::{FxBuildHasher, FxHashMap};
use vstd::prelude::*;

use super::font::{FaceKey, GlyphBitmap};

verus! {

/// Width and height of the texture, in texels.
pub const ATLAS_SIZE: u32 = 1024;

/// Identifies a rasterized glyph.
#[derive(Clone, Copy, PartialEq, Eq, Structural, Hash, Debug)]
pub struct GlyphKey {
    pub face: FaceKey,
    pub glyph: u16,
}

/// One for `true`.
pub open spec fn bit(b: bool) -> int {
    if b {
        1
    } else {
        0
    }
}

impl GlyphKey {
    /// The key as one number: glyph, family and the two face attributes side by side.
    pub open spec fn spec_number(self) -> int {
        self.glyph + 0x1_0000 * self.face.fallback + 0x100_0000 * bit(self.face.italic)
            + 0x200_0000 * bit(self.face.bold)
    }

    /// The key as one number.
    pub fn number(&self) -> (n: u64)
        ensures
            n == self.spec_number(),
    {
        let mut n: u64 = self.glyph as u64 + 0x1_0000 * (self.face.fallback as u64);
        if self.face.italic {
            n += 0x100_0000;
        }
        if self.face.bold {
            n += 0x200_0000;
        }
        n
    }
}

/// Different keys have different numbers.
pub proof fn keys_are_told_apart(a: GlyphKey, b: GlyphKey)
    ensures
        a.spec_number() == b.spec_number() ==> a == b,
{
}

/// Where a glyph lives in the texture and how to place it in a cell.
#[derive(Clone, Copy, PartialEq, Eq, Structural, Debug)]
pub struct AtlasEntry {
    /// Top-left corner, in texels.
    pub u: u32,
    pub v: u32,
    pub width: u32,
    pub height: u32,
    /// Offset from the glyph's pen position.
    pub left: i32,
    pub top: i32,
    /// The glyph carries its own colour and is drawn as it is rather than tinted.
    pub color: bool,
}

impl AtlasEntry {
    /// Does a glyph lie within the texture?
    pub open spec fn inside(self) -> bool {
        self.u + self.width <= ATLAS_SIZE && self.v + self.height <= ATLAS_SIZE
    }

    /// Is there a free texel between two glyphs, in one direction or the other?
    pub open spec fn apart(self, other: AtlasEntry) -> bool {
        ||| self.u + self.width < other.u
        ||| other.u + other.width < self.u
        ||| self.v + self.height < other.v
        ||| other.v + other.height < self.v
    }
}

/// Where the next glyph goes.
#[derive(Clone, Copy, PartialEq, Eq, Structural, Debug)]
pub struct Shelf {
    /// Top of the shelf in use.
    pub y: u32,
    /// Its highest glyph so far.
    pub height: u32,
    /// Where its next glyph starts.
    pub pen_x: u32,
}

/// The shelf of an empty texture.
pub open spec fn first_shelf() -> Shelf {
    Shelf { y: 0, height: 0, pen_x: 0 }
}

impl Shelf {
    /// Every placement keeps this.
    pub open spec fn wf(self) -> bool {
        self.y + self.height <= ATLAS_SIZE && self.pen_x <= ATLAS_SIZE
    }

    /// Is a glyph among those placed so far: above the shelf, or on it before the pen?
    pub open spec fn holds(self, e: AtlasEntry) -> bool {
        ||| e.v + e.height < self.y
        ||| e.v == self.y && e.height <= self.height && e.u + e.width < self.pen_x
    }

    /// The shelf on which a glyph of a given width goes: this one, or the next.
    pub open spec fn for_width(self, w: int) -> Shelf {
        if self.pen_x + w + 1 > ATLAS_SIZE {
            Shelf { y: (self.y + self.height + 1) as u32, height: 0, pen_x: 0 }
        } else {
            self
        }
    }

    /// Does a glyph force packing to start over?
    pub open spec fn overflows(self, w: int, h: int) -> bool {
        self.for_width(w).y + h + 1 > ATLAS_SIZE
    }

    /// Where a glyph goes: the shelf as it is then, with the pen at the place.
    pub open spec fn place(self, w: int, h: int) -> Shelf {
        if self.overflows(w, h) {
            first_shelf()
        } else {
            self.for_width(w)
        }
    }

    /// The shelf once the glyph is there. One texel stays free beside it, so that neighbours do not
    /// bleed into each other.
    pub open spec fn placed(self, w: int, h: int) -> Shelf {
        let at = self.place(w, h);
        Shelf {
            y: at.y,
            height: if h > at.height {
                h as u32
            } else {
                at.height
            },
            pen_x: (at.pen_x + w + 1) as u32,
        }
    }
}

/// Does a glyph of this size fit into the texture at all, with its padding?
pub open spec fn fits(w: int, h: int) -> bool {
    w + 2 <= ATLAS_SIZE && h + 2 <= ATLAS_SIZE
}

/// A map without entries.
pub open spec fn nothing_known() -> Map<u64, Option<AtlasEntry>> {
    Map::empty()
}

/// The hasher of an `FxHashMap`.
#[verifier::external_type_specification]
#[verifier::external_body]
pub struct ExFxBuildHasher(FxBuildHasher);

/// `FxHashMap::default` makes an empty map.
#[verifier::external_body]
fn empty_map() -> (m: FxHashMap<u64, Option<AtlasEntry>>)
    ensures
        m@ == nothing_known(),
{
    FxHashMap::default()
}

/// `HashMap::get` on an `FxHashMap`: the value stored under a key, if one is. The hasher and the
/// equality of `u64` are functions of the number alone, so two equal keys are one entry.
#[verifier::external_body]
fn map_get(m: &FxHashMap<u64, Option<AtlasEntry>>, key: u64) -> (v: Option<Option<AtlasEntry>>)
    ensures
        v == (if m@.dom().contains(key) {
            Some(m@[key])
        } else {
            None
        }),
{
    m.get(&key).copied()
}

/// `HashMap::insert` on an `FxHashMap`: the map with one value set, whatever stood there before.
#[verifier::external_body]
fn map_insert(m: &mut FxHashMap<u64, Option<AtlasEntry>>, key: u64, value: Option<AtlasEntry>)
    ensures
        final(m)@ == old(m)@.insert(key, value),
{
    m.insert(key, value);
}

/// `HashMap::clear` on an `FxHashMap`: nothing is left.
#[verifier::external_body]
fn map_clear(m: &mut FxHashMap<u64, Option<AtlasEntry>>)
    ensures
        final(m)@ == nothing_known(),
{
    m.clear();
}

/// What the atlas knows.
#[verifier::ext_equal]
pub ghost struct AtlasView {
    pub shelf: Shelf,
    /// The glyphs seen so far, by number; `None` for one that has no place.
    pub known: Map<u64, Option<AtlasEntry>>,
    pub generation: u32,
}

impl AtlasView {
    /// The place of a glyph, if it has one.
    pub open spec fn place_of(self, n: u64) -> Option<AtlasEntry> {
        if self.known.dom().contains(n) {
            self.known[n]
        } else {
            None
        }
    }

    /// Every operation keeps this: glyphs with a place lie in the part of the texture that was
    /// given away, and no two of them touch.
    pub open spec fn wf(self) -> bool {
        &&& self.shelf.wf()
        &&& forall|n: u64|
            #![trigger self.place_of(n)]
            match self.place_of(n) {
                Some(e) => e.inside() && self.shelf.holds(e),
                None => true,
            }
        &&& forall|m: u64, n: u64|
            #![trigger self.place_of(m), self.place_of(n)]
            m != n ==> match (self.place_of(m), self.place_of(n)) {
                (Some(a), Some(b)) => a.apart(b),
                _ => true,
            }
    }

    /// Everything dropped.
    pub open spec fn dropped(self) -> AtlasView {
        AtlasView {
            shelf: first_shelf(),
            known: nothing_known(),
            generation: if self.generation == u32::MAX {
                0
            } else {
                (self.generation + 1) as u32
            },
        }
    }

    /// The entry that a bitmap of this size gets.
    pub open spec fn entry_for(self, bmp: GlyphBitmap) -> Option<AtlasEntry> {
        if fits(bmp.width as int, bmp.height as int) {
            let at = self.shelf.place(bmp.width as int, bmp.height as int);
            Some(
                AtlasEntry {
                    u: at.pen_x,
                    v: at.y,
                    width: bmp.width,
                    height: bmp.height,
                    left: bmp.left,
                    top: bmp.top,
                    color: bmp.color,
                },
            )
        } else {
            None
        }
    }

    /// The atlas once a bitmap has its place.
    pub open spec fn with_bitmap(self, bmp: GlyphBitmap) -> AtlasView {
        let (w, h) = (bmp.width as int, bmp.height as int);
        if fits(w, h) {
            let base = if self.shelf.overflows(w, h) {
                self.dropped()
            } else {
                self
            };
            AtlasView { shelf: self.shelf.placed(w, h), ..base }
        } else {
            self
        }
    }
}

impl AtlasView {
    /// The atlas once a glyph is remembered, with the place that its bitmap has.
    pub open spec fn stored(self, key: u64, bitmap: Option<GlyphBitmap>) -> AtlasView {
        let (base, place) = match bitmap {
            Some(bmp) => (self.with_bitmap(bmp), self.entry_for(bmp)),
            None => (self, None),
        };
        AtlasView { known: base.known.insert(key, place), ..base }
    }
}

/// Glyphs lie within the texture, and between any two of them there is a free texel, so sampling
/// one never shows another.
pub proof fn glyphs_do_not_touch(a: AtlasView, m: u64, n: u64)
    requires
        a.wf(),
        m != n,
        a.place_of(m) is Some,
        a.place_of(n) is Some,
    ensures
        a.place_of(m)->0.inside(),
        a.place_of(m)->0.apart(a.place_of(n)->0),
{
}

/// A glyph that fits gets a place whatever is in the texture, and keeps it until everything is
/// dropped.
pub proof fn places_last(a: AtlasView, bmp: GlyphBitmap, n: u64)
    requires
        a.wf(),
        fits(bmp.width as int, bmp.height as int),
    ensures
        a.entry_for(bmp) is Some,
        a.with_bitmap(bmp).generation == a.generation ==> a.with_bitmap(bmp).place_of(n)
            == a.place_of(n),
{
}

/// Giving a bitmap its place keeps the atlas in order, and the place touches none of those that are
/// still known.
proof fn lemma_room(a: AtlasView, bmp: GlyphBitmap)
    requires
        a.wf(),
        fits(bmp.width as int, bmp.height as int),
    ensures
        a.with_bitmap(bmp).wf(),
        a.entry_for(bmp)->0.inside(),
        a.with_bitmap(bmp).shelf.holds(a.entry_for(bmp)->0),
        forall|n: u64|
            (#[trigger] a.with_bitmap(bmp).place_of(n)) is Some ==> a.with_bitmap(bmp).place_of(
                n,
            )->0.apart(a.entry_for(bmp)->0),
{
    let b = a.with_bitmap(bmp);
    let e = a.entry_for(bmp)->0;
    assert forall|n: u64| #[trigger] b.place_of(n) is Some implies a.place_of(n) == b.place_of(n)
        && b.place_of(n)->0.inside() && b.shelf.holds(b.place_of(n)->0) && b.place_of(n)->0.apart(
        e,
    ) by {
        assert(a.place_of(n) == b.place_of(n));
    }
}

/// Recording a place that touches no other keeps the atlas in order.
proof fn lemma_recorded(a: AtlasView, key: u64, e: Option<AtlasEntry>)
    requires
        a.wf(),
        e is Some ==> e->0.inside() && a.shelf.holds(e->0) && forall|n: u64|
            (#[trigger] a.place_of(n)) is Some ==> a.place_of(n)->0.apart(e->0),
    ensures
        (AtlasView { known: a.known.insert(key, e), ..a }).wf(),
{
    let b = AtlasView { known: a.known.insert(key, e), ..a };
    assert forall|n: u64| n != key implies #[trigger] b.place_of(n) == a.place_of(n) by {}
    assert(b.place_of(key) == e);
}

/// The bookkeeping of the glyph texture.
pub struct Atlas {
    shelf: Shelf,
    /// `None` marks a glyph with no ink, so that spaces are not rasterized again.
    map: FxHashMap<u64, Option<AtlasEntry>>,
    /// Bumped on every reset, so that callers can discard what they looked up before.
    generation: u32,
}

impl View for Atlas {
    type V = AtlasView;

    closed spec fn view(&self) -> AtlasView {
        AtlasView { shelf: self.shelf, known: self.map@, generation: self.generation }
    }
}

impl Atlas {
    /// Nothing placed yet.
    pub fn new() -> (a: Atlas)
        ensures
            a@ == (AtlasView { shelf: first_shelf(), known: nothing_known(), generation: 0 }),
            a@.wf(),
    {
        Atlas { shelf: Shelf { y: 0, height: 0, pen_x: 0 }, map: empty_map(), generation: 0 }
    }

    /// How often everything was dropped, modulo 2^32.
    pub fn generation(&self) -> (n: u32)
        ensures
            n == self@.generation,
    {
        self.generation
    }

    /// Drop every glyph. Needed when the font or its size changes.
    pub fn reset(&mut self)
        ensures
            final(self)@ == old(self)@.dropped(),
            final(self)@.wf(),
    {
        map_clear(&mut self.map);
        self.shelf = Shelf { y: 0, height: 0, pen_x: 0 };
        self.generation = self.generation.wrapping_add(1);
    }

    /// What is known of a glyph: `None` if nothing is, and then it has to be rasterized and stored.
    pub fn get(&self, key: &GlyphKey) -> (e: Option<Option<AtlasEntry>>)
        ensures
            e == (if self@.known.dom().contains(key.spec_number() as u64) {
                Some(self@.known[key.spec_number() as u64])
            } else {
                None
            }),
    {
        map_get(&self.map, key.number())
    }

    /// Give a bitmap its place. `None` if it is larger than the texture.
    fn insert(&mut self, bmp: &GlyphBitmap) -> (e: Option<AtlasEntry>)
        requires
            old(self)@.wf(),
        ensures
            e == old(self)@.entry_for(*bmp),
            final(self)@ == old(self)@.with_bitmap(*bmp),
            final(self)@.wf(),
            e is Some ==> e->0.inside() && final(self)@.shelf.holds(e->0) && forall|n: u64|
                (#[trigger] final(self)@.place_of(n)) is Some ==> final(self)@.place_of(n)->0.apart(
                    e->0,
                ),
    {
        let (w, h): (u32, u32) = (bmp.width, bmp.height);
        if w > ATLAS_SIZE - 2 || h > ATLAS_SIZE - 2 {
            return None;
        }
        let ghost before = self@;
        proof {
            lemma_room(before, *bmp);
        }
        let mut at: Shelf = self.shelf;
        if at.pen_x + w + 1 > ATLAS_SIZE {
            at = Shelf { y: at.y + at.height + 1, height: 0, pen_x: 0 };
        }
        if at.y + h + 1 > ATLAS_SIZE {
            self.reset();
            at = self.shelf;
        }
        assert(at == before.shelf.place(w as int, h as int));
        let (x, y): (u32, u32) = (at.pen_x, at.y);
        self.shelf = Shelf {
            y,
            height: if h > at.height {
                h
            } else {
                at.height
            },
            pen_x: x + w + 1,
        };
        assert(self@ =~= before.with_bitmap(*bmp));
        Some(
            AtlasEntry {
                u: x,
                v: y,
                width: w,
                height: h,
                left: bmp.left,
                top: bmp.top,
                color: bmp.color,
            },
        )
    }

    /// Remember a glyph that was not known yet. `bitmap` is what rasterizing it gave; a glyph
    /// without ink, or larger than the texture, is remembered as having no place.
    pub fn store(&mut self, key: &GlyphKey, bitmap: Option<&GlyphBitmap>) -> (e: Option<AtlasEntry>)
        requires
            old(self)@.wf(),
        ensures
            final(self)@.wf(),
            final(self)@ == old(self)@.stored(
                key.spec_number() as u64,
                match bitmap {
                    Some(bmp) => Some(*bmp),
                    None => None,
                },
            ),
            e == (match bitmap {
                Some(bmp) => old(self)@.entry_for(*bmp),
                None => None,
            }),
            final(self)@ == ({
                let base = match bitmap {
                    Some(bmp) => old(self)@.with_bitmap(*bmp),
                    None => old(self)@,
                };
                AtlasView { known: base.known.insert(key.spec_number() as u64, e), ..base }
            }),
    {
        let e = match bitmap {
            Some(bmp) => self.insert(bmp),
            None => None,
        };
        proof {
            lemma_recorded(self@, key.spec_number() as u64, e);
        }
        map_insert(&mut self.map, key.number(), e);
        e
    }
}

} // verus!

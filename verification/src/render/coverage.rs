//! From coverage samples to texels.
//!
//! A rasterizer gives three coverage samples for each pixel, one for each subpixel.

use vstd::prelude::*;

verus! {

/// The largest of three samples.
pub open spec fn peak(r: u8, g: u8, b: u8) -> u8 {
    if r >= g && r >= b {
        r
    } else if g >= b {
        g
    } else {
        b
    }
}

/// Byte `k` of the texels of `raw`: its three samples as they are, then the largest of them.
pub open spec fn texel_byte(raw: Seq<u8>, k: int) -> u8 {
    let i = 3 * (k / 4);
    if k % 4 < 3 {
        raw[i + k % 4]
    } else {
        peak(raw[i], raw[i + 1], raw[i + 2])
    }
}

/// Widen three samples for each pixel to four bytes, so that there is one texel format. The fourth
/// carries peak coverage, on which every way of blending agrees.
pub fn widen_coverage(raw: &[u8]) -> (v: Vec<u8>)
    ensures
        v@.len() == 4 * (raw@.len() / 3),
        forall|k: int| 0 <= k < v@.len() ==> #[trigger] v@[k] == texel_byte(raw@, k),
{
    let n: usize = raw.len() / 3;
    let mut v: Vec<u8> = Vec::new();
    let mut i: usize = 0;
    while i < n
        invariant
            i <= n,
            n == raw@.len() / 3,
            3 * n <= usize::MAX,
            v@.len() == 4 * i,
            forall|k: int| 0 <= k < v@.len() ==> #[trigger] v@[k] == texel_byte(raw@, k),
        decreases n - i,
    {
        let (r, g, b): (u8, u8, u8) = (raw[i * 3], raw[i * 3 + 1], raw[i * 3 + 2]);
        let larger: u8 = if r >= g {
            r
        } else {
            g
        };
        let top: u8 = if larger >= b {
            larger
        } else {
            b
        };
        let ghost before = v@;
        v.push(r);
        v.push(g);
        v.push(b);
        v.push(top);
        proof {
            assert(v@ =~= before + seq![r, g, b, top]);
            assert forall|k: int| 0 <= k < v@.len() implies #[trigger] v@[k] == texel_byte(
                raw@,
                k,
            ) by {
                if k < before.len() {
                    assert(v@[k] == before[k]);
                } else {
                    assert(k / 4 == i && k % 4 == k - 4 * i);
                }
            }
        }
        i += 1;
    }
    v
}

/// The mean of the three samples of pixel `i`, rounded down.
pub open spec fn mean_sample(raw: Seq<u8>, i: int) -> u8 {
    ((raw[3 * i] + raw[3 * i + 1] + raw[3 * i + 2]) / 3) as u8
}

/// Collapse the three samples of each pixel to one. A coloured layer is tinted, and separate
/// samples would fringe the tint.
pub fn collapse_coverage(raw: &[u8]) -> (v: Vec<u8>)
    ensures
        v@.len() == raw@.len() / 3,
        forall|i: int| 0 <= i < v@.len() ==> #[trigger] v@[i] == mean_sample(raw@, i),
{
    let n: usize = raw.len() / 3;
    let mut v: Vec<u8> = Vec::new();
    let mut i: usize = 0;
    while i < n
        invariant
            i <= n,
            n == raw@.len() / 3,
            3 * n <= usize::MAX,
            v@.len() == i,
            forall|k: int| 0 <= k < i ==> #[trigger] v@[k] == mean_sample(raw@, k),
        decreases n - i,
    {
        let sum: u16 = raw[i * 3] as u16 + raw[i * 3 + 1] as u16 + raw[i * 3 + 2] as u16;
        v.push((sum / 3) as u8);
        i += 1;
    }
    v
}

/// A rectangle of pixels; `right` and `bottom` are outside.
#[derive(Clone, Copy, PartialEq, Eq, Structural, Debug)]
pub struct Bounds {
    pub left: i32,
    pub top: i32,
    pub right: i32,
    pub bottom: i32,
}

/// How far one coordinate lies beyond another, if at all.
pub open spec fn span(from: i32, to: i32) -> int {
    if to > from {
        to - from
    } else {
        0
    }
}

impl Bounds {
    pub open spec fn columns(self) -> int {
        span(self.left, self.right)
    }

    pub open spec fn lines(self) -> int {
        span(self.top, self.bottom)
    }

    /// Does a rectangle lie within another?
    pub open spec fn within(self, other: Bounds) -> bool {
        other.left <= self.left && self.right <= other.right && other.top <= self.top && self.bottom
            <= other.bottom
    }

    /// Width and height in pixels; an inverted rectangle has none.
    pub fn size(&self) -> (s: (u32, u32))
        ensures
            s.0 == self.columns(),
            s.1 == self.lines(),
    {
        (length(self.left, self.right), length(self.top, self.bottom))
    }
}

fn length(from: i32, to: i32) -> (n: u32)
    ensures
        n == span(from, to),
{
    if to > from {
        (to as i64 - from as i64) as u32
    } else {
        0
    }
}

/// The smallest rectangle around all layers of a picture.
pub fn union_of(layers: &[Bounds]) -> (all: Bounds)
    requires
        layers@.len() > 0,
    ensures
        forall|i: int| 0 <= i < layers@.len() ==> (#[trigger] layers@[i]).within(all),
        exists|i: int| 0 <= i < layers@.len() && (#[trigger] layers@[i]).left == all.left,
        exists|i: int| 0 <= i < layers@.len() && (#[trigger] layers@[i]).top == all.top,
        exists|i: int| 0 <= i < layers@.len() && (#[trigger] layers@[i]).right == all.right,
        exists|i: int| 0 <= i < layers@.len() && (#[trigger] layers@[i]).bottom == all.bottom,
{
    let mut all: Bounds = layers[0];
    let mut n: usize = 1;
    assert(layers@[0].left == all.left);
    while n < layers.len()
        invariant
            1 <= n <= layers@.len(),
            forall|i: int| 0 <= i < n ==> (#[trigger] layers@[i]).within(all),
            exists|i: int| 0 <= i < n && (#[trigger] layers@[i]).left == all.left,
            exists|i: int| 0 <= i < n && (#[trigger] layers@[i]).top == all.top,
            exists|i: int| 0 <= i < n && (#[trigger] layers@[i]).right == all.right,
            exists|i: int| 0 <= i < n && (#[trigger] layers@[i]).bottom == all.bottom,
        decreases layers@.len() - n,
    {
        let one: Bounds = layers[n];
        if one.left < all.left {
            all.left = one.left;
        }
        if one.top < all.top {
            all.top = one.top;
        }
        if one.right > all.right {
            all.right = one.right;
        }
        if one.bottom > all.bottom {
            all.bottom = one.bottom;
        }
        assert(layers@[n as int] == one);
        n += 1;
    }
    all
}

/// Where pixel (`x`, `y`) of a layer lands in the picture, counted row by row.
pub fn texel_of(all: &Bounds, layer: &Bounds, x: u32, y: u32) -> (i: usize)
    requires
        layer.within(*all),
        x < layer.columns(),
        y < layer.lines(),
        all.columns() * all.lines() <= u32::MAX,
    ensures
        i == (layer.top - all.top + y) * all.columns() + (layer.left - all.left + x),
        i < all.columns() * all.lines(),
{
    let (width, height): (u32, u32) = all.size();
    let column: u32 = length(all.left, layer.left) + x;
    let line: u32 = length(all.top, layer.top) + y;
    proof {
        let (c, l, w, h) = (column as int, line as int, width as int, height as int);
        assert(0 <= c < w && 0 <= l < h);
        assert(l * w + c < w * h) by (nonlinear_arith)
            requires
                0 <= c < w,
                0 <= l < h,
        ;
        assert(0 <= l * w) by (nonlinear_arith)
            requires
                0 <= l,
                0 <= w,
        ;
    }
    (line * width + column) as usize
}

/// Two pixels of one layer land on one texel only if they are the same pixel.
pub proof fn layer_pixels_stay_apart(
    all: Bounds,
    layer: Bounds,
    a: (int, int),
    b: (int, int),
)
    requires
        layer.within(all),
        0 <= a.0 < layer.columns(),
        0 <= b.0 < layer.columns(),
        (layer.top - all.top + a.1) * all.columns() + (layer.left - all.left + a.0) == (layer.top
            - all.top + b.1) * all.columns() + (layer.left - all.left + b.0),
    ensures
        a == b,
{
    let w = all.columns();
    let d = a.1 - b.1;
    let (ca, cb) = (layer.left - all.left + a.0, layer.left - all.left + b.0);
    assert(d * w == cb - ca) by (nonlinear_arith)
        requires
            (layer.top - all.top + a.1) * w + ca == (layer.top - all.top + b.1) * w + cb,
            d == a.1 - b.1,
    ;
    assert(d == 0) by (nonlinear_arith)
        requires
            d * w == cb - ca,
            -w < cb - ca < w,
    ;
}

} // verus!

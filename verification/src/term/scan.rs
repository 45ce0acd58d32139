//! Finding the end of a run of printable ASCII, eight bytes at a time.

use vstd::prelude::*;

verus! {

/// Is this byte printable ASCII?
pub open spec fn printable(b: u8) -> bool {
    0x20 <= b <= 0x7E
}

/// Byte `k` of a little-endian word.
spec fn lane(w: u64, k: u64) -> u64 {
    (w >> (8 * k)) & 0xFF
}

/// Does byte `k` of a word hold printable ASCII?
spec fn lane_ok(w: u64, k: u64) -> bool {
    0x20 <= lane(w, k) <= 0x7E
}

/// The word made of the eight bytes at `i`, the first one lowest.
fn word_at(b: &[u8], i: usize) -> (w: u64)
    requires
        i + 8 <= b@.len(),
    ensures
        lane(w, 0) == b@[i as int],
        lane(w, 1) == b@[i + 1],
        lane(w, 2) == b@[i + 2],
        lane(w, 3) == b@[i + 3],
        lane(w, 4) == b@[i + 4],
        lane(w, 5) == b@[i + 5],
        lane(w, 6) == b@[i + 6],
        lane(w, 7) == b@[i + 7],
{
    let (b0, b1, b2, b3): (u8, u8, u8, u8) = (b[i], b[i + 1], b[i + 2], b[i + 3]);
    let (b4, b5, b6, b7): (u8, u8, u8, u8) = (b[i + 4], b[i + 5], b[i + 6], b[i + 7]);
    let w: u64 = (b0 as u64) | ((b1 as u64) << 8) | ((b2 as u64) << 16) | ((b3 as u64) << 24) | ((
    b4 as u64) << 32) | ((b5 as u64) << 40) | ((b6 as u64) << 48) | ((b7 as u64) << 56);
    assert((w >> 0) & 0xFF == b0 && (w >> 8) & 0xFF == b1 && (w >> 16) & 0xFF == b2 && (w >> 24)
        & 0xFF == b3 && (w >> 32) & 0xFF == b4 && (w >> 40) & 0xFF == b5 && (w >> 48) & 0xFF == b6
        && (w >> 56) & 0xFF == b7) by (bit_vector)
        requires
            w == (b0 as u64) | ((b1 as u64) << 8) | ((b2 as u64) << 16) | ((b3 as u64) << 24) | ((
            b4 as u64) << 32) | ((b5 as u64) << 40) | ((b6 as u64) << 48) | ((b7 as u64) << 56),
    ;
    w
}

/// Up to and including the first byte of a word that is not printable, the top bits of `bad` tell
/// which bytes are printable. (A borrow between bytes can only mislead after a real hit.)
proof fn lemma_first_hit(w: u64, below: u64, seven_f: u64, bad: u64)
    by (bit_vector)
    requires
        below == (if w & 0x7F7F_7F7F_7F7F_7F7F >= 0x2020_2020_2020_2020 {
            (w & 0x7F7F_7F7F_7F7F_7F7F) - 0x2020_2020_2020_2020
        } else {
            (w & 0x7F7F_7F7F_7F7F_7F7F) - 0x2020_2020_2020_2020 + 0x1_0000_0000_0000_0000
        }),
        seven_f == (if w ^ 0x7F7F_7F7F_7F7F_7F7F >= 0x0101_0101_0101_0101 {
            (w ^ 0x7F7F_7F7F_7F7F_7F7F) - 0x0101_0101_0101_0101
        } else {
            (w ^ 0x7F7F_7F7F_7F7F_7F7F) - 0x0101_0101_0101_0101 + 0x1_0000_0000_0000_0000
        }),
        bad == (w & 0x8080_8080_8080_8080) | (below & !(w & 0x7F7F_7F7F_7F7F_7F7F)
            & 0x8080_8080_8080_8080) | (seven_f & !(w ^ 0x7F7F_7F7F_7F7F_7F7F)
            & 0x8080_8080_8080_8080),
    ensures
        bad & 0x7F7F_7F7F_7F7F_7F7F == 0,
        ((bad >> 7) & 1 == 1) == !(0x20 <= (w >> 0) & 0xFF <= 0x7E),
        bad & 0x80 == 0 ==> ((bad >> 15) & 1 == 1) == !(0x20 <= (w >> 8) & 0xFF <= 0x7E),
        bad & 0x8080 == 0 ==> ((bad >> 23) & 1 == 1) == !(0x20 <= (w >> 16) & 0xFF <= 0x7E),
        bad & 0x80_8080 == 0 ==> ((bad >> 31) & 1 == 1) == !(0x20 <= (w >> 24) & 0xFF <= 0x7E),
        bad & 0x8080_8080 == 0 ==> ((bad >> 39) & 1 == 1) == !(0x20 <= (w >> 32) & 0xFF <= 0x7E),
        bad & 0x80_8080_8080 == 0 ==> ((bad >> 47) & 1 == 1) == !(0x20 <= (w >> 40) & 0xFF <= 0x7E),
        bad & 0x8080_8080_8080 == 0 ==> ((bad >> 55) & 1 == 1) == !(0x20 <= (w >> 48) & 0xFF
            <= 0x7E),
        bad & 0x80_8080_8080_8080 == 0 ==> ((bad >> 63) & 1 == 1) == !(0x20 <= (w >> 56) & 0xFF
            <= 0x7E),
{
}

/// The lowest set bit of a word whose only bits are the top bits of its bytes.
proof fn lemma_lowest_flag(bad: u64, tz: u64)
    by (bit_vector)
    requires
        bad & 0x7F7F_7F7F_7F7F_7F7F == 0,
        tz < 64,
        (bad >> tz) & 1 == 1,
        tz > 7 ==> (bad >> 7) & 1 == 0,
        tz > 15 ==> (bad >> 15) & 1 == 0,
        tz > 23 ==> (bad >> 23) & 1 == 0,
        tz > 31 ==> (bad >> 31) & 1 == 0,
        tz > 39 ==> (bad >> 39) & 1 == 0,
        tz > 47 ==> (bad >> 47) & 1 == 0,
        tz > 55 ==> (bad >> 55) & 1 == 0,
    ensures
        tz % 8 == 7,
        tz > 7 ==> bad & 0x80 == 0,
        tz > 15 ==> bad & 0x8080 == 0,
        tz > 23 ==> bad & 0x80_8080 == 0,
        tz > 31 ==> bad & 0x8080_8080 == 0,
        tz > 39 ==> bad & 0x80_8080_8080 == 0,
        tz > 47 ==> bad & 0x8080_8080_8080 == 0,
        tz > 55 ==> bad & 0x80_8080_8080_8080 == 0,
{
}

/// How many of the first bytes of a word are printable ASCII.
fn printable_lanes(w: u64) -> (n: u32)
    ensures
        n <= 8,
        forall|k: u64| k < n ==> #[trigger] lane_ok(w, k),
        n < 8 ==> !lane_ok(w, n as u64),
{
    // Any byte with the high bit set.
    let high: u64 = w & 0x8080_8080_8080_8080;
    // Any byte below 0x20, on the low seven bits.
    let lo7: u64 = w & 0x7F7F_7F7F_7F7F_7F7F;
    let below: u64 = lo7.wrapping_sub(0x2020_2020_2020_2020);
    // Any byte equal to 0x7F, the one remaining excluded value.
    let x: u64 = w ^ 0x7F7F_7F7F_7F7F_7F7F;
    let seven_f: u64 = x.wrapping_sub(0x0101_0101_0101_0101);
    let bad: u64 = high | (below & !lo7 & 0x8080_8080_8080_8080) | (seven_f & !x
        & 0x8080_8080_8080_8080);
    proof {
        lemma_first_hit(w, below, seven_f, bad);
    }
    if bad == 0 {
        assert(0u64 & 0x80 == 0 && 0u64 & 0x8080 == 0 && 0u64 & 0x80_8080 == 0 && 0u64 & 0x8080_8080
            == 0 && 0u64 & 0x80_8080_8080 == 0 && 0u64 & 0x8080_8080_8080 == 0 && 0u64
            & 0x80_8080_8080_8080 == 0 && (0u64 >> 7) & 1 == 0 && (0u64 >> 15) & 1 == 0 && (0u64
            >> 23) & 1 == 0 && (0u64 >> 31) & 1 == 0 && (0u64 >> 39) & 1 == 0 && (0u64 >> 47) & 1
            == 0 && (0u64 >> 55) & 1 == 0 && (0u64 >> 63) & 1 == 0) by (bit_vector);
        assert forall|k: u64| k < 8 implies #[trigger] lane_ok(w, k) by {
            lemma_lane_cases(w, k);
        }
        return 8;
    }
    let tz: u32 = bad.trailing_zeros();
    proof {
        vstd::std_specs::bits::axiom_u64_trailing_zeros(bad);
        let t = tz as u64;
        assert(t > 7 ==> (bad >> 7u64) & 1u64 == 0);
        assert(t > 15 ==> (bad >> 15u64) & 1u64 == 0);
        assert(t > 23 ==> (bad >> 23u64) & 1u64 == 0);
        assert(t > 31 ==> (bad >> 31u64) & 1u64 == 0);
        assert(t > 39 ==> (bad >> 39u64) & 1u64 == 0);
        assert(t > 47 ==> (bad >> 47u64) & 1u64 == 0);
        assert(t > 55 ==> (bad >> 55u64) & 1u64 == 0);
        lemma_lowest_flag(bad, t);
        assert forall|k: u64| k < tz / 8 implies #[trigger] lane_ok(w, k) by {
            lemma_lane_cases(w, k);
        }
        lemma_lane_cases(w, (tz / 8) as u64);
    }
    tz / 8
}

/// The eight bytes of a word, spelt out.
proof fn lemma_lane_cases(w: u64, k: u64)
    requires
        k < 8,
    ensures
        k == 0 ==> lane_ok(w, k) == (0x20 <= (w >> 0) & 0xFF <= 0x7E),
        k == 1 ==> lane_ok(w, k) == (0x20 <= (w >> 8) & 0xFF <= 0x7E),
        k == 2 ==> lane_ok(w, k) == (0x20 <= (w >> 16) & 0xFF <= 0x7E),
        k == 3 ==> lane_ok(w, k) == (0x20 <= (w >> 24) & 0xFF <= 0x7E),
        k == 4 ==> lane_ok(w, k) == (0x20 <= (w >> 32) & 0xFF <= 0x7E),
        k == 5 ==> lane_ok(w, k) == (0x20 <= (w >> 40) & 0xFF <= 0x7E),
        k == 6 ==> lane_ok(w, k) == (0x20 <= (w >> 48) & 0xFF <= 0x7E),
        k == 7 ==> lane_ok(w, k) == (0x20 <= (w >> 56) & 0xFF <= 0x7E),
{
}

/// Number of leading bytes in `0x20..=0x7E`.
pub fn scan_printable_ascii(b: &[u8]) -> (n: usize)
    ensures
        n <= b@.len(),
        forall|i: int| 0 <= i < n ==> printable(#[trigger] b@[i]),
        n < b@.len() ==> !printable(b@[n as int]),
{
    scan_swar(b)
}

/// Number of leading bytes in `0x20..=0x7E`, found eight bytes at a time.
pub fn scan_swar(b: &[u8]) -> (n: usize)
    ensures
        n <= b@.len(),
        forall|i: int| 0 <= i < n ==> printable(#[trigger] b@[i]),
        n < b@.len() ==> !printable(b@[n as int]),
{
    let mut i: usize = 0;
    while b.len() - i >= 8
        invariant
            i <= b@.len(),
            forall|j: int| 0 <= j < i ==> printable(#[trigger] b@[j]),
        decreases b@.len() - i,
    {
        let w: u64 = word_at(b, i);
        let n: u32 = printable_lanes(w);
        proof {
            assert forall|j: int| 0 <= j < i + n implies printable(#[trigger] b@[j]) by {
                if j >= i {
                    let k = (j - i) as u64;
                    assert(lane_ok(w, k));
                }
            }
            if n < 8 {
                assert(lane(w, n as u64) == b@[i + n]);
            }
        }
        if n < 8 {
            return i + n as usize;
        }
        i += 8;
    }
    while i < b.len() && b[i] >= 0x20 && b[i] < 0x7F
        invariant
            i <= b@.len(),
            forall|j: int| 0 <= j < i ==> printable(#[trigger] b@[j]),
        decreases b@.len() - i,
    {
        i += 1;
    }
    i
}

} // verus!

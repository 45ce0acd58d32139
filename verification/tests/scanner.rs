//! Finding the end of a run of printable characters.

use tachyon::term::parser::{scan_printable_ascii, scan_swar};

/// A plain scan that the faster ones must agree with.
fn scan_ref(b: &[u8]) -> usize {
    b.iter().position(|&c| !(0x20..0x7F).contains(&c)).unwrap_or(b.len())
}

#[test]
fn scanner_matches_reference_on_edge_bytes() {
    for bad in [0x00u8, 0x07, 0x08, 0x09, 0x0A, 0x0D, 0x1B, 0x1F, 0x7F, 0x80, 0xC3, 0xFF] {
        for prefix in [0usize, 1, 3, 7, 8, 15, 16, 31, 32, 33, 63, 64, 100] {
            let mut v = vec![b'x'; prefix];
            v.push(bad);
            v.extend_from_slice(b"trailing");
            assert_eq!(scan_printable_ascii(&v), prefix, "bad={bad:#04x} prefix={prefix}");
            assert_eq!(scan_swar(&v), prefix, "swar bad={bad:#04x} prefix={prefix}");
            assert_eq!(scan_ref(&v), prefix);
        }
    }
}

#[test]
fn scanner_accepts_full_printable_range() {
    let all: Vec<u8> = (0x20u8..=0x7E).collect();
    assert_eq!(scan_printable_ascii(&all), all.len());
    assert_eq!(scan_swar(&all), all.len());
}

#[test]
fn scanner_handles_empty_and_short() {
    assert_eq!(scan_printable_ascii(&[]), 0);
    assert_eq!(scan_printable_ascii(b"a"), 1);
    assert_eq!(scan_printable_ascii(b"\n"), 0);
}

#[test]
fn scanner_fuzz_against_reference() {
    // A cheap deterministic generator.
    let mut state = 0x2545_F491_4F6C_DD1Du64;
    let mut next = || {
        state ^= state << 13;
        state ^= state >> 7;
        state ^= state << 17;
        state
    };
    for _ in 0..2000 {
        let len = (next() % 200) as usize;
        let buf: Vec<u8> = (0..len)
            .map(|_| {
                let r = next();
                // Bias heavily towards printable so runs are long.
                if r % 8 == 0 {
                    (r >> 8) as u8
                } else {
                    0x20 + ((r >> 8) % 0x5F) as u8
                }
            })
            .collect();
        let want = scan_ref(&buf);
        assert_eq!(scan_printable_ascii(&buf), want, "buf={buf:?}");
        assert_eq!(scan_swar(&buf), want, "swar buf={buf:?}");
    }
}

//! Pasting.

use vstd::prelude::*;
use vstd::utf8::encode_utf8;

use crate::term::TermMode;
use crate::text::{chars_of, string_of};

verus! {

/// A text with its lines ended as a keyboard ends them: applications expect a carriage return, and
/// would read a line feed after it as a second one.
pub open spec fn keyed(s: Seq<char>) -> Seq<char>
    decreases s.len(),
{
    if s.len() == 0 {
        s
    } else if s.last() == '\n' {
        if s.len() > 1 && s[s.len() - 2] == '\r' {
            keyed(s.drop_last())
        } else {
            keyed(s.drop_last()).push('\r')
        }
    } else {
        keyed(s.drop_last()).push(s.last())
    }
}

/// The bytes that pasting a text sends. An application that asked for it is told where a paste
/// starts and ends.
pub open spec fn paste_bytes(text: Seq<char>, mode: TermMode) -> Seq<u8> {
    let bytes = encode_utf8(keyed(text));
    if mode.contains(TermMode::BRACKETED_PASTE) {
        bracket('0') + bytes + bracket('1')
    } else {
        bytes
    }
}

/// The sequence at the start (`0`) or the end (`1`) of a paste.
pub open spec fn bracket(which: char) -> Seq<u8> {
    seq![0x1bu8, 0x5b, 0x32, 0x30, which as u8, 0x7e]
}

/// End lines as a keyboard ends them.
fn normalise(text: &str) -> (r: String)
    ensures
        r@ == keyed(text@),
{
    let chars = chars_of(text);
    let mut out: Vec<char> = Vec::new();
    let mut i: usize = 0;
    assert(chars@.take(0) =~= Seq::<char>::empty());
    while i < chars.len()
        invariant
            i <= chars@.len(),
            out@ == keyed(chars@.take(i as int)),
        decreases chars@.len() - i,
    {
        let c: char = chars[i];
        proof {
            assert(chars@.take(i + 1).drop_last() =~= chars@.take(i as int));
            assert(chars@.take(i + 1).last() == c);
            if i > 0 {
                assert(chars@.take(i + 1)[i - 1] == chars@[i - 1]);
            }
        }
        if c == '\n' {
            if i == 0 || chars[i - 1] != '\r' {
                out.push('\r');
            }
        } else {
            out.push(c);
        }
        i += 1;
    }
    assert(chars@.take(i as int) =~= chars@);
    string_of(out.as_slice())
}

/// Append the sequence at the start or the end of a paste.
fn push_bracket(out: &mut Vec<u8>, last: bool)
    ensures
        final(out)@ == old(out)@ + bracket(
            if last {
                '1'
            } else {
                '0'
            },
        ),
{
    let ghost before = out@;
    out.push(0x1b);
    out.push(0x5b);
    out.push(0x32);
    out.push(0x30);
    out.push(
        if last {
            0x31
        } else {
            0x30
        },
    );
    out.push(0x7e);
    assert(out@ =~= before + bracket(
        if last {
            '1'
        } else {
            '0'
        },
    ));
}

/// The bytes that pasting a text sends.
pub fn paste_input(text: &str, mode: TermMode) -> (bytes: Vec<u8>)
    ensures
        bytes@ == paste_bytes(text@, mode),
{
    let lines = normalise(text);
    let mut out: Vec<u8> = Vec::new();
    if mode.contains(TermMode::BRACKETED_PASTE) {
        push_bracket(&mut out, false);
        let ghost before = out@;
        out.extend_from_slice(lines.as_str().as_bytes());
        assert(out@ =~= before + encode_utf8(lines@));
        push_bracket(&mut out, true);
    } else {
        out.extend_from_slice(lines.as_str().as_bytes());
    }
    assert(out@ =~= paste_bytes(text@, mode));
    out
}

/// A pasted text holds no line feed, and pasting it again changes nothing.
pub proof fn pasted_lines_end_once(s: Seq<char>)
    ensures
        forall|i: int| 0 <= i < keyed(s).len() ==> #[trigger] keyed(s)[i] != '\n',
        keyed(s).len() <= s.len(),
        keyed(keyed(s)) == keyed(s),
    decreases s.len(),
{
    if s.len() > 0 {
        pasted_lines_end_once(s.drop_last());
        let before = keyed(s.drop_last());
        let after = keyed(s);
        assert(after == before || after.drop_last() =~= before);
    }
}

} // verus!

//! Stream processing: a fast path for printable ASCII in front of a strict parser.
//!
//! Essentially all terminal traffic is printable ASCII. While the escape-sequence parser is known
//! to be in its ground state, a whole run of such bytes goes to the grid at once, and a control
//! byte that does not change the parser's state is executed at once. Only the remainder (escape
//! sequences, UTF-8) goes through the parser, a byte at a time. It is back in its ground state
//! when it dispatches a terminating action, unless the byte that made it do so begins something
//! itself: an escape that ends a string goes on to its terminator, and a lead byte that breaks
//! another character off waits for the rest of its own. A sequence cut off at the end of a chunk
//! leaves it out of the ground state, and the next chunk resumes there.

use vstd::prelude::*;

pub use super::scan::{scan_printable_ascii, scan_swar};

use super::model::TermView;
use super::scan::printable;
use super::terminal::Term;
use super::vt::{bytes_fed, events, feed, new_parser, vt_findings};

verus! {

/// A terminal together with the state of the stream that drives it.
#[verifier::ext_equal]
pub ghost struct Stream {
    pub term: TermView,
    /// The parser is known to be in its ground state: the last byte it was fed ended something and
    /// began nothing.
    pub in_ground: bool,
    /// What the parser has been fed.
    pub fed: Seq<u8>,
}

/// May this byte begin a sequence or a character of several bytes?
pub open spec fn opens(b: u8) -> bool {
    b == 0x1B || b >= 0xC0
}

impl Stream {
    /// Does this byte go to the terminal without passing through the parser?
    pub open spec fn direct(self, b: u8) -> bool {
        self.in_ground && (printable(b) || b < 0x20 && b != 0x1B)
    }

    /// One byte of the stream.
    #[verifier::opaque]
    pub open spec fn step(self, b: u8) -> Stream {
        if self.direct(b) {
            Stream {
                term: if printable(b) {
                    self.term.typed(b)
                } else {
                    self.term.execute(b)
                },
                ..self
            }
        } else {
            let after = self.term.performed_all(vt_findings(self.fed, b));
            Stream {
                term: TermView { ground_signal: false, ..after },
                in_ground: after.ground_signal && !opens(b),
                fed: self.fed.push(b),
            }
        }
    }

    /// Several bytes, one after the other.
    pub open spec fn run(self, bytes: Seq<u8>) -> Stream
        decreases bytes.len(),
    {
        if bytes.len() == 0 {
            self
        } else {
            self.run(bytes.drop_last()).step(bytes.last())
        }
    }
}

/// Drives a [`Term`] from a raw byte stream.
pub struct Processor {
    parser: vte::Parser,
    /// True when the parser is known to be in its ground state.
    in_ground: bool,
}

impl Processor {
    /// The stream that this processor drives `term` with.
    pub closed spec fn stream(&self, term: TermView) -> Stream {
        Stream { term, in_ground: self.in_ground, fed: bytes_fed(self.parser) }
    }

    pub fn new() -> (p: Processor)
        ensures
            forall|t: TermView| #[trigger]
                p.stream(t) == (Stream { term: t, in_ground: true, fed: Seq::empty() }),
    {
        Processor { parser: new_parser(), in_ground: true }
    }

    /// Feed a chunk of output.
    pub fn advance(&mut self, term: &mut Term, bytes: &[u8])
        requires
            old(term).wf(),
        ensures
            final(term).wf(),
            final(self).stream(final(term)@) == old(self).stream(old(term)@).run(bytes@),
            forall|t: TermView| (#[trigger] final(self).stream(t)).term == t,
    {
        let ghost start = self.stream(term@);
        let mut i: usize = 0;
        assert(bytes@.take(0) =~= Seq::<u8>::empty());
        while i < bytes.len()
            invariant
                term.wf(),
                i <= bytes@.len(),
                self.stream(term@) == start.run(bytes@.take(i as int)),
            decreases bytes@.len() - i,
        {
            let took: usize = if self.in_ground {
                self.direct(term, &bytes[i..bytes.len()])
            } else {
                0
            };
            let ghost so_far = bytes@.take(i as int);
            if took > 0 {
                proof {
                    let chunk = bytes@.subrange(i as int, bytes@.len() as int).take(took as int);
                    assert(bytes@.take(i + took) =~= so_far + chunk);
                    chunks_can_be_split(start, so_far, chunk);
                }
                i += took;
            } else {
                proof {
                    assert(bytes@.take(i + 1).drop_last() =~= so_far);
                    assert(bytes@.take(i + 1).last() == bytes@[i as int]);
                    assert(bytes@.subrange(i as int, bytes@.len() as int)[0] == bytes@[i as int]);
                }
                let b: u8 = bytes[i];
                self.parse(term, b);
                i += 1;
            }
        }
        assert(bytes@.take(i as int) =~= bytes@);
    }

    /// Deal with what can go to the terminal directly, and tell how many bytes that was.
    fn direct(&mut self, term: &mut Term, rest: &[u8]) -> (took: usize)
        requires
            old(term).wf(),
            old(self).in_ground,
            rest@.len() > 0,
        ensures
            final(term).wf(),
            took <= rest@.len(),
            took == 0 ==> !old(self).stream(old(term)@).direct(rest@[0]),
            final(self).stream(final(term)@) == old(self).stream(old(term)@).run(
                rest@.take(took as int),
            ),
    {
        let ghost start = self.stream(term@);
        // Bulk-consume printable ASCII.
        let n: usize = scan_printable_ascii(rest);
        if n > 0 {
            let run = &rest[0..n];
            assert(run@ =~= rest@.take(n as int));
            proof {
                lemma_printable_run(start, run@);
            }
            term.write_ascii_run(run);
            return n;
        }
        assert(rest@.take(0) =~= Seq::<u8>::empty());
        // A C0 control that does not change parser state.
        let b: u8 = rest[0];
        if b < 0x20 && b != 0x1B {
            proof {
                reveal(Stream::step);
                assert(rest@.take(1).drop_last() =~= Seq::<u8>::empty());
                assert(start.run(rest@.take(1).drop_last()) == start);
                assert(rest@.take(1).last() == b);
            }
            term.execute_c0(b);
            1
        } else {
            0
        }
    }

    /// Feed one byte through the parser.
    fn parse(&mut self, term: &mut Term, b: u8)
        requires
            old(term).wf(),
            !old(self).stream(old(term)@).direct(b),
        ensures
            final(term).wf(),
            final(self).stream(final(term)@) == old(self).stream(old(term)@).step(b),
    {
        let ghost before = term@;
        proof {
            reveal(Stream::step);
        }
        let actions = feed(&mut self.parser, b);
        let ghost all = events(actions@);
        let mut i: usize = 0;
        assert(all.take(0) =~= Seq::empty());
        while i < actions.len()
            invariant
                term.wf(),
                i <= actions@.len(),
                all == events(actions@),
                term@ == before.performed_all(all.take(i as int)),
            decreases actions@.len() - i,
        {
            proof {
                assert(all.take(i + 1).drop_last() =~= all.take(i as int));
                assert(all.take(i + 1).last() == actions@[i as int]@);
            }
            term.perform(&actions[i]);
            i += 1;
        }
        assert(all.take(i as int) =~= all);
        self.in_ground = term.take_ground_signal() && b != 0x1B && b < 0xC0;
    }
}

impl Default for Processor {
    fn default() -> (p: Processor)
        ensures
            forall|t: TermView| #[trigger]
                p.stream(t) == (Stream { term: t, in_ground: true, fed: Seq::empty() }),
    {
        Processor::new()
    }
}

/// A run of printable bytes in the ground state is typed.
proof fn lemma_printable_run(s: Stream, bytes: Seq<u8>)
    requires
        s.in_ground,
        forall|i: int| 0 <= i < bytes.len() ==> printable(#[trigger] bytes[i]),
    ensures
        s.run(bytes) == (Stream { term: s.term.typed_run(bytes), ..s }),
    decreases bytes.len(),
{
    if bytes.len() > 0 {
        let before = bytes.drop_last();
        assert forall|i: int| 0 <= i < before.len() implies printable(#[trigger] before[i]) by {
            assert(before[i] == bytes[i]);
        }
        lemma_printable_run(s, before);
        reveal(Stream::step);
        assert(printable(bytes.last()));
    }
}

/// A processor's stream is about the terminal that it drives: where two streams are the same, so
/// are the terminals.
pub proof fn streams_show_their_terminal(p: Processor, t: TermView)
    ensures
        p.stream(t).term == t,
{
}

/// Feeding a stream in two pieces is feeding it in one: the outcome does not depend on where the
/// stream is cut, not even inside an escape sequence or a run of text.
pub proof fn chunks_can_be_split(s: Stream, a: Seq<u8>, b: Seq<u8>)
    ensures
        s.run(a + b) == s.run(a).run(b),
    decreases b.len(),
{
    if b.len() == 0 {
        assert(a + b =~= a);
    } else {
        chunks_can_be_split(s, a, b.drop_last());
        assert((a + b).drop_last() =~= a + b.drop_last());
    }
}

} // verus!

//! A tiny inline character buffer, so that drawing a cell does not allocate.

use vstd::prelude::*;

verus! {

/// The most scalars of one cell that are drawn.
pub const MAX_STACK: usize = 8;

/// The scalars of one cell.
pub struct Chars {
    buf: [char; 8],
    len: usize,
}

/// The first eight of some characters.
pub open spec fn stacked(s: Seq<char>) -> Seq<char> {
    if s.len() <= MAX_STACK {
        s
    } else {
        s.take(MAX_STACK as int)
    }
}

impl View for Chars {
    type V = Seq<char>;

    closed spec fn view(&self) -> Seq<char> {
        self.buf@.take(self.len as int)
    }
}

impl Chars {
    /// The buffer holds no more than it can.
    pub closed spec fn wf(&self) -> bool {
        self.len <= MAX_STACK
    }

    /// One character.
    pub fn one(c: char) -> (r: Chars)
        ensures
            r.wf(),
            r@ == seq![c],
    {
        let mut buf: [char; 8] = [' '; 8];
        buf[0] = c;
        let r = Chars { buf, len: 1 };
        assert(r@ =~= seq![c]);
        r
    }

    /// As many characters as there is room for.
    pub fn from_slice(s: &[char]) -> (r: Chars)
        ensures
            r.wf(),
            r@ == stacked(s@),
    {
        let mut buf: [char; 8] = [' '; 8];
        let len: usize = if s.len() < MAX_STACK {
            s.len()
        } else {
            MAX_STACK
        };
        let mut i: usize = 0;
        while i < len
            invariant
                i <= len,
                len <= s@.len(),
                len <= MAX_STACK,
                forall|j: int| 0 <= j < i ==> buf@[j] == s@[j],
            decreases len - i,
        {
            buf[i] = s[i];
            i += 1;
        }
        let r = Chars { buf, len };
        assert(r@ =~= stacked(s@));
        r
    }

    pub fn as_slice(&self) -> (s: &[char])
        requires
            self.wf(),
        ensures
            s@ == self@,
    {
        let all: &[char] = self.buf.as_slice();
        let s = &all[0..self.len];
        assert(s@ =~= self@);
        s
    }
}

} // verus!

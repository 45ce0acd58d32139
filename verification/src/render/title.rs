//! Titles in the tab strip.

use vstd::prelude::*;

use crate::text::{chars_of, copied, string_of};

verus! {

/// The mark of a cut.
pub const ELLIPSIS: char = '\u{2026}';

/// A title in at most `width` characters. What does not fit is cut from the front: a shell's title
/// is usually a path, and the leaf matters most.
pub open spec fn elided(s: Seq<char>, width: int) -> Seq<char> {
    if width == 0 {
        Seq::empty()
    } else if s.len() <= width {
        s
    } else {
        seq![ELLIPSIS] + s.skip(s.len() - (width - 1))
    }
}

/// Shorten a title to `width` characters, marking the cut with an ellipsis.
pub fn elide(s: &str, width: usize) -> (r: String)
    ensures
        r@ == elided(s@, width as int),
{
    if width == 0 {
        let r = String::new();
        assert(r@ =~= elided(s@, 0));
        return r;
    }
    let chars = chars_of(s);
    let count: usize = chars.len();
    if count <= width {
        return string_of(chars.as_slice());
    }
    let skip: usize = count - (width - 1);
    let tail = copied(&chars[skip..count]);
    let mut out: Vec<char> = Vec::new();
    out.push(ELLIPSIS);
    out.extend_from_slice(tail.as_slice());
    assert(out@ =~= elided(s@, width as int));
    string_of(out.as_slice())
}

/// A title never takes more room than it is given, and loses nothing when there is room enough.
pub proof fn titles_fit(s: Seq<char>, width: int)
    requires
        0 <= width,
    ensures
        elided(s, width).len() <= width,
        s.len() <= width ==> elided(s, width) == s,
{
    if s.len() == 0 {
        assert(elided(s, width) =~= s);
    }
}

} // verus!

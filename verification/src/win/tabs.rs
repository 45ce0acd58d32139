//! Tabs and their titles.

use vstd::prelude::*;
use vstd::string::StringExecFns;

use crate::text::{chars_of, copied, string_of, trim, trimmed};
use crate::APP_NAME;

verus! {

/// Does a character separate the parts of a path?
pub open spec fn separates(c: char) -> bool {
    c == '\\' || c == '/'
}

/// What follows the last separator.
pub open spec fn leaf(s: Seq<char>) -> Seq<char>
    decreases s.len(),
{
    if s.len() == 0 || separates(s.last()) {
        Seq::empty()
    } else {
        leaf(s.drop_last()).push(s.last())
    }
}

/// The label of a tab with a given title.
pub open spec fn label_of(title: Seq<char>) -> Seq<char> {
    let t = trim(title);
    if t.len() == 0 {
        "shell"@
    } else if leaf(t).len() == 0 {
        t
    } else {
        leaf(t)
    }
}

/// The leaf of a text is a part of it at its end.
proof fn lemma_leaf(s: Seq<char>, n: int)
    requires
        0 <= n <= s.len(),
        forall|i: int| n <= i < s.len() ==> !separates(#[trigger] s[i]),
        n == 0 || separates(s[n - 1]),
    ensures
        leaf(s) == s.skip(n),
    decreases s.len(),
{
    if s.len() > n {
        let shorter = s.drop_last();
        assert forall|i: int| n <= i < shorter.len() implies !separates(#[trigger] shorter[i]) by {
            assert(shorter[i] == s[i]);
        }
        assert(!separates(s[s.len() - 1]));
        lemma_leaf(shorter, n);
        assert(shorter.skip(n).push(s.last()) =~= s.skip(n));
    } else {
        assert(s.skip(n) =~= Seq::empty());
    }
}

/// Condense a window title into something that fits a tab.
///
/// The system reports a program's full path, so every tab would otherwise start the same. The leaf
/// is what tells one session from another.
pub fn tab_label(title: &str) -> (r: String)
    ensures
        r@ == label_of(title@),
{
    let chars = chars_of(title);
    let t = trimmed(chars.as_slice());
    if t.len() == 0 {
        return String::from_str("shell");
    }
    let mut n: usize = t.len();
    while n > 0 && t[n - 1] != '\\' && t[n - 1] != '/'
        invariant
            n <= t@.len(),
            forall|i: int| n <= i < t@.len() ==> !separates(#[trigger] t@[i]),
        decreases n,
    {
        n -= 1;
    }
    proof {
        lemma_leaf(t@, n as int);
    }
    if n == t.len() {
        string_of(t)
    } else {
        let tail = copied(&t[n..t.len()]);
        assert(tail@ =~= t@.skip(n as int));
        string_of(tail.as_slice())
    }
}

/// A label is never empty, and only the whole title can be a label with a separator in it.
pub proof fn labels_can_be_read(title: Seq<char>)
    ensures
        label_of(title).len() > 0,
        forall|i: int|
            0 <= i < label_of(title).len() && separates(#[trigger] label_of(title)[i])
                ==> label_of(title) == trim(title),
{
    reveal_strlit("shell");
    let t = trim(title);
    lemma_leaf_plain(t);
}

proof fn lemma_leaf_plain(s: Seq<char>)
    ensures
        forall|i: int| 0 <= i < leaf(s).len() ==> !separates(#[trigger] leaf(s)[i]),
    decreases s.len(),
{
    if s.len() > 0 && !separates(s.last()) {
        lemma_leaf_plain(s.drop_last());
        let before = leaf(s.drop_last());
        assert(leaf(s) == before.push(s.last()));
        assert forall|i: int| 0 <= i < leaf(s).len() implies !separates(#[trigger] leaf(s)[i]) by {
            if i < before.len() {
                assert(leaf(s)[i] == before[i]);
            }
        }
    }
}

/// What the title bar says for a session with a given title.
pub open spec fn title_bar(title: Seq<char>) -> Seq<char> {
    if title.len() == 0 {
        APP_NAME@
    } else {
        title + " - "@ + APP_NAME@
    }
}

/// What the title bar says for a session with a given title.
pub fn window_title(title: &str) -> (r: String)
    ensures
        r@ == title_bar(title@),
{
    let chars = chars_of(title);
    if chars.len() == 0 {
        String::from_str(APP_NAME)
    } else {
        let mut r = string_of(chars.as_slice());
        r.append(" - ");
        r.append(APP_NAME);
        r
    }
}

/// The title of one session, and the revision it was read at.
pub struct SessionTitle {
    pub title: String,
    pub revision: u64,
}

impl SessionTitle {
    pub fn new() -> (t: SessionTitle)
        ensures
            t.title@ == Seq::<char>::empty(),
            t.revision == 0,
    {
        SessionTitle { title: String::new(), revision: 0 }
    }

    /// Take over a title whose revision is another than the one seen last. A title that was taken
    /// away leaves none. Tells whether anything changed.
    pub fn refresh(&mut self, revision: u64, title: Option<String>) -> (changed: bool)
        ensures
            changed == (revision != old(self).revision),
            final(self).revision == revision,
            !changed ==> final(self).title == old(self).title,
            changed ==> final(self).title@ == (match title {
                Some(t) => t@,
                None => Seq::empty(),
            }),
    {
        if revision == self.revision {
            return false;
        }
        self.revision = revision;
        self.title = match title {
            Some(t) => t,
            None => String::new(),
        };
        true
    }
}

/// How many tabs there are, and which one is shown.
#[derive(Clone, Copy, PartialEq, Eq, Structural, Debug)]
pub struct Tabs {
    pub count: usize,
    pub active: usize,
}

/// What closing a tab leads to.
#[derive(Clone, Copy, PartialEq, Eq, Structural, Debug)]
pub enum Closed {
    /// There is no such tab.
    NoSuchTab,
    /// That was the last one: the window goes too.
    LastTab,
    /// Another tab is shown, perhaps at another size.
    TabsLeft,
}

impl Tabs {
    /// Every operation keeps this: the tab that is shown exists.
    pub open spec fn wf(self) -> bool {
        self.count > 0 ==> self.active < self.count
    }

    /// One tab more at the end, which is shown.
    pub open spec fn opened(self) -> Tabs {
        Tabs { count: (self.count + 1) as usize, active: self.count }
    }

    /// One tab less. The position that is shown stays, as far as there still is one.
    pub open spec fn closed(self, index: int) -> Tabs {
        if index < self.count {
            Tabs {
                count: (self.count - 1) as usize,
                active: if self.count > 1 && self.active >= self.count - 1 {
                    (self.count - 2) as usize
                } else {
                    self.active
                },
            }
        } else {
            self
        }
    }

    /// What closing a tab leads to.
    pub open spec fn closing(self, index: int) -> Closed {
        if index >= self.count {
            Closed::NoSuchTab
        } else if self.count == 1 {
            Closed::LastTab
        } else {
            Closed::TabsLeft
        }
    }

    /// Another tab shown, if there is one at `index`.
    pub open spec fn selected(self, index: int) -> Tabs {
        if index < self.count {
            Tabs { active: index as usize, ..self }
        } else {
            self
        }
    }

    /// The tab after the one shown, or before it; the ends meet.
    pub open spec fn neighbour(self, forward: bool) -> int {
        if forward {
            if self.active + 1 == self.count {
                0
            } else {
                self.active + 1
            }
        } else {
            if self.active == 0 {
                self.count - 1
            } else {
                self.active - 1
            }
        }
    }

    /// The neighbouring tab shown, if there are two at least.
    pub open spec fn cycled(self, forward: bool) -> Tabs {
        if self.count < 2 {
            self
        } else {
            self.selected(self.neighbour(forward))
        }
    }

    /// A tab was added.
    pub fn open(&mut self)
        requires
            old(self).wf(),
            old(self).count < usize::MAX,
        ensures
            *final(self) == old(self).opened(),
            final(self).wf(),
    {
        self.active = self.count;
        self.count = self.count + 1;
    }

    /// A tab is to be closed.
    pub fn close(&mut self, index: usize) -> (r: Closed)
        requires
            old(self).wf(),
        ensures
            *final(self) == old(self).closed(index as int),
            final(self).wf(),
            r == old(self).closing(index as int),
            r == (if index >= old(self).count {
                Closed::NoSuchTab
            } else if old(self).count == 1 {
                Closed::LastTab
            } else {
                Closed::TabsLeft
            }),
    {
        if index >= self.count {
            return Closed::NoSuchTab;
        }
        self.count = self.count - 1;
        if self.count == 0 {
            return Closed::LastTab;
        }
        if self.active >= self.count {
            self.active = self.count - 1;
        }
        Closed::TabsLeft
    }

    /// A tab is to be shown. Tells whether it is another than before.
    pub fn select(&mut self, index: usize) -> (changed: bool)
        requires
            old(self).wf(),
        ensures
            *final(self) == old(self).selected(index as int),
            final(self).wf(),
            changed == (*final(self) != *old(self)),
    {
        if index < self.count && index != self.active {
            self.active = index;
            true
        } else {
            false
        }
    }

    /// The next tab is to be shown, or the one before. Tells whether it is another than before.
    pub fn cycle(&mut self, forward: bool) -> (changed: bool)
        requires
            old(self).wf(),
        ensures
            *final(self) == old(self).cycled(forward),
            final(self).wf(),
            changed == (old(self).count >= 2),
    {
        if self.count < 2 {
            return false;
        }
        let next: usize = if forward {
            if self.active + 1 == self.count {
                0
            } else {
                self.active + 1
            }
        } else {
            if self.active == 0 {
                self.count - 1
            } else {
                self.active - 1
            }
        };
        self.select(next)
    }
}

/// Cycling one way and then the other shows the same tab again.
pub proof fn cycling_back_undoes_cycling(t: Tabs, forward: bool)
    requires
        t.wf(),
    ensures
        t.cycled(forward).cycled(!forward) == t,
{
}

/// Cycling is counting modulo the number of tabs, so that it reaches every one of them.
pub proof fn cycling_counts_around(t: Tabs)
    requires
        t.wf(),
        t.count > 0,
    ensures
        t.neighbour(true) == (t.active + 1) % (t.count as int),
        t.neighbour(false) == (t.active + t.count - 1) % (t.count as int),
{
    let (a, n) = (t.active as int, t.count as int);
    assert((a + 1) % n == (if a + 1 == n {
        0
    } else {
        a + 1
    })) by (nonlinear_arith)
        requires
            0 <= a < n,
    ;
    assert((a + n - 1) % n == (if a == 0 {
        n - 1
    } else {
        a - 1
    })) by (nonlinear_arith)
        requires
            0 <= a < n,
    ;
}

/// A new tab can be closed again, and then there are as many as before.
pub proof fn closing_undoes_opening(t: Tabs)
    requires
        t.wf(),
        t.count < usize::MAX,
    ensures
        t.opened().closed(t.count as int).count == t.count,
{
}

} // verus!

//! Registering the program with the user's search path.

use vstd::prelude::*;
use vstd::string::StringExecFns;

use crate::text::{
    chars_of, eq_ignoring_case, find, part_views, parts, parts_from, same_ignoring_case,
    split_parts, string_of, trim, trim_end, trim_start, trimmed,
};

verus! {

/// Separates the entries of a search path.
pub const SEPARATOR: char = ';';

/// A directory without backslashes at its end.
pub open spec fn bare(s: Seq<char>) -> Seq<char>
    decreases s.len(),
{
    if s.len() > 0 && s.last() == '\\' {
        bare(s.drop_last())
    } else {
        s
    }
}

/// Does an entry name a directory? White space around the entry does not count, nor do backslashes
/// at the end of either, nor the case of letters.
pub open spec fn names(entry: Seq<char>, dir: Seq<char>) -> bool {
    same_ignoring_case(bare(trim(entry)), bare(dir))
}

/// Is a directory in a search path?
pub open spec fn searched(path: Seq<char>, dir: Seq<char>) -> bool {
    exists|i: int|
        0 <= i < parts(path, SEPARATOR).len() && names(#[trigger] parts(path, SEPARATOR)[i], dir)
}

/// A search path with a directory at its end.
pub open spec fn with_dir(path: Seq<char>, dir: Seq<char>) -> Seq<char> {
    if path.len() == 0 || path.last() == SEPARATOR {
        path + dir
    } else {
        path.push(SEPARATOR) + dir
    }
}

/// The entries that do not name a directory.
pub open spec fn others(entries: Seq<Seq<char>>, dir: Seq<char>) -> Seq<Seq<char>>
    decreases entries.len(),
{
    if entries.len() == 0 {
        Seq::empty()
    } else if names(entries.last(), dir) {
        others(entries.drop_last(), dir)
    } else {
        others(entries.drop_last(), dir).push(entries.last())
    }
}

/// Entries put together, separated.
pub open spec fn joined(entries: Seq<Seq<char>>) -> Seq<char>
    decreases entries.len(),
{
    if entries.len() == 0 {
        Seq::empty()
    } else if entries.len() == 1 {
        entries[0]
    } else {
        joined(entries.drop_last()).push(SEPARATOR) + entries.last()
    }
}

/// Cut backslashes off the end.
fn bared(s: &[char]) -> (r: &[char])
    ensures
        r@ == bare(s@),
{
    let mut n: usize = s.len();
    assert(s@.take(n as int) =~= s@);
    while n > 0 && s[n - 1] == '\\'
        invariant
            n <= s@.len(),
            bare(s@.take(n as int)) == bare(s@),
        decreases n,
    {
        assert(s@.take(n as int).drop_last() =~= s@.take(n - 1));
        assert(s@.take(n as int).last() == s@[n - 1]);
        n -= 1;
    }
    assert(n > 0 ==> s@.take(n as int).last() == s@[n - 1]);
    let r = &s[0..n];
    assert(r@ =~= s@.take(n as int));
    r
}

fn entry_names(entry: &[char], dir: &[char]) -> (r: bool)
    ensures
        r == names(entry@, dir@),
{
    eq_ignoring_case(bared(trimmed(entry)), bared(dir))
}

/// The search path with a directory added, or nothing if it is already there.
pub fn add_to_path(path: &str, dir: &str) -> (r: Option<String>)
    ensures
        r is None <==> searched(path@, dir@),
        r is Some ==> r->0@ == with_dir(path@, dir@),
{
    let chars = chars_of(path);
    let target = chars_of(dir);
    let entries = split_parts(chars.as_slice(), SEPARATOR);
    let mut i: usize = 0;
    while i < entries.len()
        invariant
            i <= entries@.len(),
            target@ == dir@,
            part_views(entries@) == parts(path@, SEPARATOR),
            forall|j: int|
                0 <= j < i ==> !names(#[trigger] parts(path@, SEPARATOR)[j], dir@),
        decreases entries@.len() - i,
    {
        assert(part_views(entries@)[i as int] == entries@[i as int]@);
        if entry_names(entries[i].as_slice(), target.as_slice()) {
            assert(names(parts(path@, SEPARATOR)[i as int], dir@));
            return None;
        }
        i += 1;
    }
    let mut updated = string_of(chars.as_slice());
    if chars.len() > 0 && chars[chars.len() - 1] != SEPARATOR {
        updated.push(SEPARATOR);
    }
    updated.append(dir);
    Some(updated)
}

/// The search path without a directory, or nothing if it is not there.
pub fn remove_from_path(path: &str, dir: &str) -> (r: Option<String>)
    ensures
        r is Some <==> path@.len() > 0 && searched(path@, dir@),
        r is Some ==> r->0@ == joined(others(parts(path@, SEPARATOR), dir@)),
{
    let chars = chars_of(path);
    if chars.len() == 0 {
        return None;
    }
    let target = chars_of(dir);
    let entries = split_parts(chars.as_slice(), SEPARATOR);
    let ghost all = parts(path@, SEPARATOR);
    let mut kept = String::new();
    let ghost mut list: Seq<Seq<char>> = Seq::empty();
    let mut count: usize = 0;
    let mut i: usize = 0;
    assert(all.take(0) =~= Seq::<Seq<char>>::empty());
    assert(kept@ =~= joined(list));
    while i < entries.len()
        invariant
            i <= entries@.len(),
            target@ == dir@,
            all == parts(path@, SEPARATOR),
            part_views(entries@) == all,
            list == others(all.take(i as int), dir@),
            kept@ == joined(list),
            count == list.len(),
            count <= i,
            count == i <==> forall|j: int| 0 <= j < i ==> !names(#[trigger] all[j], dir@),
        decreases entries@.len() - i,
    {
        proof {
            assert(part_views(entries@)[i as int] == entries@[i as int]@);
            assert(all.take(i + 1).drop_last() =~= all.take(i as int));
            assert(all.take(i + 1).last() == all[i as int]);
        }
        if !entry_names(entries[i].as_slice(), target.as_slice()) {
            let ghost before = list;
            proof {
                list = before.push(all[i as int]);
                assert(list.drop_last() =~= before);
            }
            if count > 0 {
                kept.push(SEPARATOR);
            }
            let one = string_of(entries[i].as_slice());
            let ghost so_far = kept@;
            kept.append(one.as_str());
            count += 1;
            assert(kept@ =~= joined(list));
        } else {
            assert(names(all[i as int], dir@));
        }
        i += 1;
    }
    assert(all.take(i as int) =~= all);
    if count == entries.len() {
        return None;
    }
    Some(kept)
}

/// What the user is told after installing.
pub open spec fn install_text(program: Seq<char>, shortcut: Seq<char>) -> Seq<char> {
    "Tachyon installed.\n\nProgram:  "@ + program + "\nShortcut: "@ + shortcut
        + "\n\nTo pin it: open the Start menu, search for Tachyon, right-click it and choose \"Pin to taskbar\".\n\nThe install directory was added to your PATH, so `tachyon` works as a command in any new shell -- for example `tachyon -e wsl.exe` to open a window running WSL. Run `tachyon --uninstall` to undo both."@
}

/// What the user is told after installing a program, with its Start menu entry.
pub fn describe_install(program: &str, shortcut: &str) -> (s: String)
    ensures
        s@ == install_text(program@, shortcut@),
{
    let mut s = String::from_str("Tachyon installed.\n\nProgram:  ");
    s.append(program);
    s.append("\nShortcut: ");
    s.append(shortcut);
    s.append(
        "\n\nTo pin it: open the Start menu, search for Tachyon, right-click it and choose \"Pin to taskbar\".\n\nThe install directory was added to your PATH, so `tachyon` works as a command in any new shell -- for example `tachyon -e wsl.exe` to open a window running WSL. Run `tachyon --uninstall` to undo both.",
    );
    s
}

/// Does a text hold no separator?
pub open spec fn unseparated(s: Seq<char>) -> bool {
    forall|i: int| 0 <= i < s.len() ==> s[i] != SEPARATOR
}

proof fn lemma_find(s: Seq<char>, from: int)
    requires
        0 <= from <= s.len(),
    ensures
        from <= find(s, SEPARATOR, from) <= s.len(),
        forall|i: int| from <= i < find(s, SEPARATOR, from) ==> s[i] != SEPARATOR,
        find(s, SEPARATOR, from) < s.len() ==> s[find(s, SEPARATOR, from)] == SEPARATOR,
    decreases s.len() - from,
{
    if from < s.len() && s[from] != SEPARATOR {
        lemma_find(s, from + 1);
    }
}

proof fn lemma_find_is(s: Seq<char>, from: int, r: int)
    requires
        0 <= from <= r <= s.len(),
        forall|i: int| from <= i < r ==> s[i] != SEPARATOR,
        r < s.len() ==> s[r] == SEPARATOR,
    ensures
        find(s, SEPARATOR, from) == r,
    decreases r - from,
{
    if from < r {
        lemma_find_is(s, from + 1, r);
    }
}

/// One more entry at the end of a path is one more part.
proof fn lemma_parts_push(a: Seq<char>, b: Seq<char>, pos: int)
    requires
        0 <= pos <= a.len(),
        unseparated(b),
    ensures
        parts_from(a.push(SEPARATOR) + b, SEPARATOR, pos) == parts_from(a, SEPARATOR, pos).push(b),
    decreases a.len() - pos,
{
    let s = a.push(SEPARATOR) + b;
    let end = find(a, SEPARATOR, pos);
    lemma_find(a, pos);
    assert forall|i: int| 0 <= i < a.len() implies s[i] == a[i] by {}
    assert(s[a.len() as int] == SEPARATOR);
    lemma_find_is(s, pos, end);
    assert(s.subrange(pos, end) =~= a.subrange(pos, end));
    if end < a.len() {
        lemma_parts_push(a, b, end + 1);
        assert(parts_from(s, SEPARATOR, pos) =~= parts_from(a, SEPARATOR, pos).push(b));
    } else {
        let n = a.len() + 1;
        assert forall|i: int| n <= i < s.len() implies s[i] != SEPARATOR by {
            assert(s[i] == b[i - n]);
        }
        lemma_find_is(s, n as int, s.len() as int);
        assert(s.subrange(n as int, s.len() as int) =~= b);
        assert(parts_from(s, SEPARATOR, n as int) =~= seq![b]);
        assert(parts_from(s, SEPARATOR, pos) =~= seq![a.subrange(pos, end)] + seq![b]);
        assert(parts_from(a, SEPARATOR, pos) =~= seq![a.subrange(pos, end)]);
    }
}

/// A text without a separator is one part.
proof fn lemma_parts_single(s: Seq<char>)
    requires
        unseparated(s),
    ensures
        parts(s, SEPARATOR) == seq![s],
{
    lemma_find_is(s, 0, s.len() as int);
    assert(s.subrange(0, s.len() as int) =~= s);
}

/// No part holds a separator, and there is at least one.
proof fn lemma_parts_plain(s: Seq<char>, pos: int)
    requires
        0 <= pos <= s.len(),
    ensures
        parts_from(s, SEPARATOR, pos).len() > 0,
        forall|i: int|
            0 <= i < parts_from(s, SEPARATOR, pos).len() ==> unseparated(
                #[trigger] parts_from(s, SEPARATOR, pos)[i],
            ),
    decreases s.len() - pos,
{
    let end = find(s, SEPARATOR, pos);
    lemma_find(s, pos);
    assert(unseparated(s.subrange(pos, end)));
    if end < s.len() {
        lemma_parts_plain(s, end + 1);
        let rest = parts_from(s, SEPARATOR, end + 1);
        let all = parts_from(s, SEPARATOR, pos);
        assert(all == seq![s.subrange(pos, end)] + rest);
        assert forall|i: int| 0 <= i < all.len() implies unseparated(#[trigger] all[i]) by {
            if i > 0 {
                assert(all[i] == rest[i - 1]);
            }
        }
    }
}

proof fn lemma_joined_front(x: Seq<char>, rest: Seq<Seq<char>>)
    requires
        rest.len() > 0,
    ensures
        joined(seq![x] + rest) == x.push(SEPARATOR) + joined(rest),
    decreases rest.len(),
{
    let all = seq![x] + rest;
    assert(all.drop_last() =~= seq![x] + rest.drop_last());
    assert(all.last() == rest.last());
    if rest.len() == 1 {
        assert(all.drop_last() =~= seq![x]);
        assert(joined(all.drop_last()) == x);
        assert(joined(rest) == rest[0]);
    } else {
        lemma_joined_front(x, rest.drop_last());
        assert(joined(all) =~= x.push(SEPARATOR) + joined(rest));
    }
}

/// Taking a path apart and putting it together gives it back.
proof fn lemma_parts_joined(s: Seq<char>, pos: int)
    requires
        0 <= pos <= s.len(),
    ensures
        joined(parts_from(s, SEPARATOR, pos)) == s.skip(pos),
    decreases s.len() - pos,
{
    let end = find(s, SEPARATOR, pos);
    lemma_find(s, pos);
    if end < s.len() {
        lemma_parts_joined(s, end + 1);
        lemma_parts_plain(s, end + 1);
        let rest = parts_from(s, SEPARATOR, end + 1);
        lemma_joined_front(s.subrange(pos, end), rest);
        assert(s.skip(pos) =~= s.subrange(pos, end).push(SEPARATOR) + s.skip(end + 1));
    } else {
        assert(s.subrange(pos, s.len() as int) =~= s.skip(pos));
    }
}

/// Putting entries together and taking them apart gives them back.
proof fn lemma_joined_parts(entries: Seq<Seq<char>>)
    requires
        entries.len() > 0,
        forall|i: int| 0 <= i < entries.len() ==> unseparated(#[trigger] entries[i]),
    ensures
        parts(joined(entries), SEPARATOR) == entries,
    decreases entries.len(),
{
    assert(unseparated(entries[entries.len() - 1]));
    if entries.len() == 1 {
        lemma_parts_single(entries[0]);
        assert(entries =~= seq![entries[0]]);
    } else {
        let before = entries.drop_last();
        assert forall|i: int| 0 <= i < before.len() implies unseparated(#[trigger] before[i]) by {
            assert(before[i] == entries[i]);
        }
        lemma_joined_parts(before);
        lemma_parts_push(joined(before), entries.last(), 0);
        assert(before.push(entries.last()) =~= entries);
    }
}

/// Where no entry names a directory, all of them stay.
proof fn lemma_others_all(entries: Seq<Seq<char>>, dir: Seq<char>)
    requires
        forall|i: int| 0 <= i < entries.len() ==> !names(#[trigger] entries[i], dir),
    ensures
        others(entries, dir) == entries,
    decreases entries.len(),
{
    if entries.len() > 0 {
        let before = entries.drop_last();
        assert forall|i: int| 0 <= i < before.len() implies !names(#[trigger] before[i], dir) by {
            assert(before[i] == entries[i]);
        }
        lemma_others_all(before, dir);
        assert(!names(entries[entries.len() - 1], dir));
        assert(before.push(entries.last()) =~= entries);
    } else {
        assert(entries =~= Seq::empty());
    }
}

/// Of those that stay none names the directory, and each was there before.
proof fn lemma_others(entries: Seq<Seq<char>>, dir: Seq<char>)
    requires
        forall|i: int| 0 <= i < entries.len() ==> unseparated(#[trigger] entries[i]),
    ensures
        forall|i: int|
            0 <= i < others(entries, dir).len() ==> !names(#[trigger] others(entries, dir)[i], dir)
                && unseparated(others(entries, dir)[i]),
    decreases entries.len(),
{
    if entries.len() > 0 {
        let before = entries.drop_last();
        assert forall|i: int| 0 <= i < before.len() implies unseparated(#[trigger] before[i]) by {
            assert(before[i] == entries[i]);
        }
        lemma_others(before, dir);
        assert(unseparated(entries[entries.len() - 1]));
        let kept = others(before, dir);
        if !names(entries.last(), dir) {
            assert(others(entries, dir) == kept.push(entries.last()));
            assert forall|i: int| 0 <= i < others(entries, dir).len() implies !names(
                #[trigger] others(entries, dir)[i],
                dir,
            ) && unseparated(others(entries, dir)[i]) by {
                if i < kept.len() {
                    assert(others(entries, dir)[i] == kept[i]);
                }
            }
        }
    }
}

/// The parts of a path with a directory at its end: the directory is the last of them.
proof fn lemma_with_dir(path: Seq<char>, dir: Seq<char>)
    requires
        unseparated(dir),
    ensures
        path.len() == 0 ==> parts(with_dir(path, dir), SEPARATOR) == seq![dir],
        path.len() > 0 && path.last() != SEPARATOR ==> parts(with_dir(path, dir), SEPARATOR)
            == parts(path, SEPARATOR).push(dir),
        parts(with_dir(path, dir), SEPARATOR).len() > 0,
        parts(with_dir(path, dir), SEPARATOR).last() == dir,
{
    if path.len() == 0 {
        assert(with_dir(path, dir) =~= dir);
        lemma_parts_single(dir);
    } else if path.last() == SEPARATOR {
        let a = path.drop_last();
        assert(a.push(SEPARATOR) =~= path);
        lemma_parts_push(a, dir, 0);
    } else {
        lemma_parts_push(path, dir, 0);
    }
}

/// A directory that was added is searched, so that adding it again changes nothing. It has to hold
/// no separator, and no white space around it.
pub proof fn added_directories_are_searched(path: Seq<char>, dir: Seq<char>)
    requires
        unseparated(dir),
        trim(dir) == dir,
    ensures
        searched(with_dir(path, dir), dir),
{
    lemma_with_dir(path, dir);
    let all = parts(with_dir(path, dir), SEPARATOR);
    assert(names(all[all.len() - 1], dir));
}

/// A directory that was removed is no longer searched, however often it was there.
pub proof fn removed_directories_are_not_searched(path: Seq<char>, dir: Seq<char>)
    requires
        bare(dir).len() > 0,
    ensures
        !searched(joined(others(parts(path, SEPARATOR), dir)), dir),
{
    let all = parts(path, SEPARATOR);
    let kept = others(all, dir);
    lemma_parts_plain(path, 0);
    lemma_others(all, dir);
    if kept.len() > 0 {
        lemma_joined_parts(kept);
    } else {
        let nothing = joined(kept);
        lemma_parts_single(nothing);
        assert(trim_end(nothing) == nothing);
        assert(trim_start(nothing) == nothing);
        assert(bare(nothing) == nothing);
    }
}

/// Removing a directory that was just added gives the path back as it was. The path must not end in
/// a separator, which removing would tidy away.
pub proof fn removing_undoes_adding(path: Seq<char>, dir: Seq<char>)
    requires
        unseparated(dir),
        trim(dir) == dir,
        path.len() > 0 ==> path.last() != SEPARATOR,
        !searched(path, dir),
    ensures
        joined(others(parts(with_dir(path, dir), SEPARATOR), dir)) == path,
{
    lemma_with_dir(path, dir);
    let before = parts(path, SEPARATOR);
    let all = parts(with_dir(path, dir), SEPARATOR);
    assert(names(dir, dir));
    assert forall|i: int| 0 <= i < before.len() implies !names(#[trigger] before[i], dir) by {}
    lemma_others_all(before, dir);
    if path.len() == 0 {
        assert(all.drop_last() =~= Seq::<Seq<char>>::empty());
        assert(others(all.drop_last(), dir) =~= Seq::<Seq<char>>::empty());
        assert(all.last() == dir);
        assert(others(all, dir) =~= Seq::<Seq<char>>::empty());
        assert(joined(others(all, dir)) =~= path);
    } else {
        assert(all.drop_last() =~= before);
        lemma_parts_joined(path, 0);
        assert(path.skip(0) =~= path);
    }
}

} // verus!

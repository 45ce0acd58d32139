//! The lines of a configuration file.

use vstd::prelude::*;

use crate::text::{find, find_char, trim, trim_end, trimmed, trimmed_end};

verus! {

/// Is place `i` inside quotes?
pub open spec fn quoted(line: Seq<char>, i: int) -> bool
    decreases i,
{
    if i <= 0 {
        false
    } else if line[i - 1] == '"' {
        !quoted(line, i - 1)
    } else {
        quoted(line, i - 1)
    }
}

/// Is this ASCII white space?
pub open spec fn ascii_space(c: char) -> bool {
    c == ' ' || c == '\t' || c == '\n' || c == '\r' || c as u32 == 0x0C
}

/// Does a comment start at place `i`?
///
/// A number sign opens a comment, but it also introduces a colour. A comment starts a token: it is
/// at the beginning of the line or follows white space. What follows the equals sign is a value,
/// though, and within quotes a number sign is always itself.
pub open spec fn comment_at(line: Seq<char>, i: int) -> bool {
    let before = trim_end(line.take(i));
    &&& line[i] == '#'
    &&& !quoted(line, i)
    &&& i == 0 || ascii_space(line[i - 1])
    &&& !(before.len() > 0 && before.last() == '=')
}

/// Where the comment of a line starts, at or after `from`; the end if it has none.
pub open spec fn comment_start(line: Seq<char>, from: int) -> int
    decreases line.len() - from,
{
    if from >= line.len() || comment_at(line, from) {
        from
    } else {
        comment_start(line, from + 1)
    }
}

/// A line without its comment.
pub open spec fn uncommented(line: Seq<char>) -> Seq<char> {
    line.take(comment_start(line, 0))
}

pub(crate) fn strip_comment(line: &[char]) -> (r: &[char])
    ensures
        r@ == uncommented(line@),
{
    let mut in_quotes = false;
    let mut i: usize = 0;
    while i < line.len()
        invariant
            i <= line@.len(),
            in_quotes == quoted(line@, i as int),
            comment_start(line@, i as int) == comment_start(line@, 0),
        decreases line@.len() - i,
    {
        let c: char = line[i];
        if c == '"' {
            in_quotes = !in_quotes;
        } else if c == '#' && !in_quotes {
            let starts_token = i == 0 || is_ascii_space(line[i - 1]);
            let before = trimmed_end(&line[0..i]);
            assert(line@.subrange(0, i as int) =~= line@.take(i as int));
            let after_assign = before.len() > 0 && before[before.len() - 1] == '=';
            if starts_token && !after_assign {
                let r = &line[0..i];
                assert(r@ =~= line@.take(i as int));
                return r;
            }
        }
        i += 1;
    }
    assert(line@.take(i as int) =~= line@);
    line
}

fn is_ascii_space(c: char) -> (r: bool)
    ensures
        r == ascii_space(c),
{
    c == ' ' || c == '\t' || c == '\n' || c == '\r' || c as u32 == 0x0C
}

/// A value without the quotes around it.
pub open spec fn unquoted(v: Seq<char>) -> Seq<char> {
    if v.len() >= 2 && v[0] == '"' && v.last() == '"' {
        v.subrange(1, v.len() - 1)
    } else {
        v
    }
}

pub(crate) fn unquote(v: &[char]) -> (r: &[char])
    ensures
        r@ == unquoted(v@),
{
    if v.len() >= 2 && v[0] == '"' && v[v.len() - 1] == '"' {
        &v[1..v.len() - 1]
    } else {
        v
    }
}

/// What a line says.
pub enum Line<'a> {
    /// Nothing, or only a comment.
    Blank,
    /// Something that is no `key = value`.
    Malformed,
    /// A key and its value.
    Setting(&'a [char], &'a [char]),
}

/// What a line says, in contents.
pub ghost enum LineView {
    Blank,
    Malformed,
    Setting(Seq<char>, Seq<char>),
}

impl<'a> View for Line<'a> {
    type V = LineView;

    open spec fn view(&self) -> LineView {
        match *self {
            Line::Blank => LineView::Blank,
            Line::Malformed => LineView::Malformed,
            Line::Setting(key, value) => LineView::Setting(key@, value@),
        }
    }
}

/// What a line says: nothing, a key and a value on either side of the first equals sign, or
/// something else.
pub open spec fn line_says(raw: Seq<char>) -> LineView {
    let body = trim(uncommented(raw));
    let at = find(body, '=', 0);
    if body.len() == 0 {
        LineView::Blank
    } else if at >= body.len() {
        LineView::Malformed
    } else {
        LineView::Setting(trim(body.take(at)), unquoted(trim(body.skip(at + 1))))
    }
}

/// Read a line.
pub(crate) fn read_line<'a>(raw: &'a [char]) -> (line: Line<'a>)
    ensures
        line@ == line_says(raw@),
{
    let body = trimmed(strip_comment(raw));
    if body.len() == 0 {
        return Line::Blank;
    }
    let at: usize = find_char(body, '=', 0);
    if at == body.len() {
        return Line::Malformed;
    }
    let key = &body[0..at];
    let value = &body[at + 1..body.len()];
    assert(key@ =~= body@.take(at as int));
    assert(value@ =~= body@.skip(at + 1));
    Line::Setting(trimmed(key), unquote(trimmed(value)))
}

/// A colour right after the equals sign is no comment, whatever precedes the equals sign.
pub proof fn colors_are_not_comments(line: Seq<char>, i: int)
    requires
        0 < i < line.len(),
        line[i] == '#',
        ({
            let before = trim_end(line.take(i));
            before.len() > 0 && before.last() == '='
        }),
    ensures
        !comment_at(line, i),
{
}

/// A number sign within quotes is no comment.
pub proof fn quoted_signs_are_not_comments(line: Seq<char>, i: int)
    requires
        0 <= i < line.len(),
        quoted(line, i),
    ensures
        !comment_at(line, i),
{
}

} // verus!

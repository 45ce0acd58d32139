//! Command lines.
//!
//! A program receives its arguments as one line of text and takes it apart again by rules in which
//! backslashes are special, but only before a quote.

use vstd::prelude::*;

use crate::text::{chars_of, texts};

verus! {

/// Does an argument have to be quoted?
pub open spec fn needs_quotes(arg: Seq<char>) -> bool {
    arg.len() == 0 || exists|i: int|
        0 <= i < arg.len() && (#[trigger] arg[i] == ' ' || arg[i] == '\t' || arg[i] == '"' || arg[i]
            == '\n')
}

/// `n` backslashes.
pub open spec fn backslashes(n: nat) -> Seq<char> {
    Seq::new(n, |i: int| '\\')
}

/// The rest of a quoted argument from character `i` on, up to the closing quote, when `run`
/// backslashes stand right before it: those before a quote are doubled.
pub open spec fn escaped_from(arg: Seq<char>, i: int, run: nat) -> Seq<char>
    decreases arg.len() - i,
{
    if i >= arg.len() {
        backslashes(run) + seq!['"']
    } else if arg[i] == '\\' {
        seq!['\\'] + escaped_from(arg, i + 1, run + 1)
    } else if arg[i] == '"' {
        backslashes(run) + seq!['\\', '"'] + escaped_from(arg, i + 1, 0)
    } else {
        seq![arg[i]] + escaped_from(arg, i + 1, 0)
    }
}

/// An argument as it stands on a command line.
pub open spec fn quoted_arg(arg: Seq<char>) -> Seq<char> {
    if needs_quotes(arg) {
        seq!['"'] + escaped_from(arg, 0, 0)
    } else {
        arg
    }
}

/// Append `n` backslashes.
fn push_backslashes(out: &mut String, n: usize)
    ensures
        final(out)@ == old(out)@ + backslashes(n as nat),
{
    let ghost before = out@;
    let mut i: usize = 0;
    assert(out@ =~= before + backslashes(0));
    while i < n
        invariant
            i <= n,
            out@ == before + backslashes(i as nat),
        decreases n - i,
    {
        out.push('\\');
        i += 1;
        assert(out@ =~= before + backslashes(i as nat));
    }
}

/// Quote an argument so that the usual rules give it back.
pub fn quote_arg(arg: &str, out: &mut String)
    ensures
        final(out)@ == old(out)@ + quoted_arg(arg@),
{
    let chars = chars_of(arg);
    if !must_quote(chars.as_slice()) {
        crate::text::push_all(out, chars.as_slice());
        return ;
    }
    let ghost before = out@;
    out.push('"');
    let ghost target = before + quoted_arg(arg@);
    let mut run: usize = 0;
    let mut i: usize = 0;
    assert(out@ + escaped_from(chars@, 0, 0) =~= target);
    while i < chars.len()
        invariant
            i <= chars@.len(),
            run <= i,
            out@ + escaped_from(chars@, i as int, run as nat) == target,
        decreases chars@.len() - i,
    {
        let ghost so_far = out@;
        let c: char = chars[i];
        match c {
            '\\' => {
                out.push('\\');
                assert(so_far + escaped_from(chars@, i as int, run as nat) =~= out@ + escaped_from(
                    chars@,
                    i + 1,
                    (run + 1) as nat,
                ));
                run += 1;
            },
            '"' => {
                // Backslashes immediately before a quote must be doubled.
                push_backslashes(out, run);
                out.push('\\');
                out.push('"');
                assert(so_far + escaped_from(chars@, i as int, run as nat) =~= out@ + escaped_from(
                    chars@,
                    i + 1,
                    0,
                ));
                run = 0;
            },
            _ => {
                out.push(c);
                assert(so_far + escaped_from(chars@, i as int, run as nat) =~= out@ + escaped_from(
                    chars@,
                    i + 1,
                    0,
                ));
                run = 0;
            },
        }
        i += 1;
    }
    // ...and again before the closing quote.
    let ghost so_far = out@;
    push_backslashes(out, run);
    out.push('"');
    assert(out@ =~= so_far + escaped_from(chars@, i as int, run as nat));
}

/// Does an argument have to be quoted?
fn must_quote(arg: &[char]) -> (r: bool)
    ensures
        r == needs_quotes(arg@),
{
    if arg.len() == 0 {
        return true;
    }
    let mut i: usize = 0;
    while i < arg.len()
        invariant
            i <= arg@.len(),
            arg@.len() > 0,
            forall|j: int|
                0 <= j < i ==> !(#[trigger] arg@[j] == ' ' || arg@[j] == '\t' || arg@[j] == '"'
                    || arg@[j] == '\n'),
        decreases arg@.len() - i,
    {
        let c: char = arg[i];
        if c == ' ' || c == '\t' || c == '"' || c == '\n' {
            assert(arg@[i as int] == c);
            return true;
        }
        i += 1;
    }
    false
}

/// The UTF-16 code units of a character.
pub open spec fn utf16_units(c: char) -> Seq<u16> {
    let n = c as int;
    if n < 0x1_0000 {
        seq![n as u16]
    } else {
        seq![
            (0xD800 + (n - 0x1_0000) / 0x400) as u16,
            (0xDC00 + (n - 0x1_0000) % 0x400) as u16,
        ]
    }
}

/// A text in UTF-16.
pub open spec fn utf16(s: Seq<char>) -> Seq<u16>
    decreases s.len(),
{
    if s.len() == 0 {
        Seq::empty()
    } else {
        utf16(s.drop_last()) + utf16_units(s.last())
    }
}

/// Append a character in UTF-16.
fn push_units(out: &mut Vec<u16>, c: char)
    ensures
        final(out)@ == old(out)@ + utf16_units(c),
{
    let ghost before = out@;
    let n: u32 = c as u32;
    assert(n == c as int && n <= 0x10_FFFF);
    if n < 0x1_0000 {
        out.push(n as u16);
    } else {
        let m: u32 = n - 0x1_0000;
        out.push((0xD800 + m / 0x400) as u16);
        out.push((0xDC00 + m % 0x400) as u16);
    }
    assert(out@ =~= before + utf16_units(c));
}

/// Append a text in UTF-16.
pub fn push_utf16(out: &mut Vec<u16>, s: &str)
    ensures
        final(out)@ == old(out)@ + utf16(s@),
{
    let chars = chars_of(s);
    let ghost before = out@;
    let mut i: usize = 0;
    assert(chars@.take(0) =~= Seq::<char>::empty());
    while i < chars.len()
        invariant
            i <= chars@.len(),
            out@ == before + utf16(chars@.take(i as int)),
        decreases chars@.len() - i,
    {
        let ghost so_far = out@;
        push_units(out, chars[i]);
        i += 1;
        proof {
            let done = chars@.take(i as int);
            assert(done.drop_last() =~= chars@.take(i - 1));
            assert(done.last() == chars@[i - 1]);
            assert(out@ =~= before + utf16(done));
        }
    }
    assert(chars@.take(i as int) =~= chars@);
}

/// The arguments after the program: each after a space, quoted.
pub open spec fn arguments_text(args: Seq<Seq<char>>) -> Seq<char>
    decreases args.len(),
{
    if args.len() == 0 {
        Seq::empty()
    } else {
        arguments_text(args.drop_last()) + seq![' '] + quoted_arg(args.last())
    }
}

/// The command line of a program and its arguments.
pub open spec fn command_text(program: Seq<char>, args: Seq<Seq<char>>) -> Seq<char> {
    quoted_arg(program) + arguments_text(args)
}

/// Make the command line of a program and its arguments, in UTF-16 and ending in a zero.
pub fn build_command_line(program: &str, args: &Vec<String>) -> (line: Vec<u16>)
    ensures
        line@ == utf16(command_text(program@, texts(args@))).push(0),
{
    let mut s = String::new();
    quote_arg(program, &mut s);
    let ghost all = texts(args@);
    let mut i: usize = 0;
    assert(all.take(0) =~= Seq::<Seq<char>>::empty());
    assert(s@ =~= command_text(program@, all.take(0)));
    while i < args.len()
        invariant
            i <= args@.len(),
            all == texts(args@),
            s@ == command_text(program@, all.take(i as int)),
        decreases args@.len() - i,
    {
        s.push(' ');
        quote_arg(args[i].as_str(), &mut s);
        i += 1;
        proof {
            assert(all.take(i as int).drop_last() =~= all.take(i - 1));
            assert(all.take(i as int).last() == args@[i - 1]@);
            assert(s@ =~= command_text(program@, all.take(i as int)));
        }
    }
    assert(all.take(i as int) =~= all);
    let mut line: Vec<u16> = Vec::new();
    push_utf16(&mut line, s.as_str());
    assert(line@ =~= utf16(s@));
    line.push(0);
    line
}

// ---------------------------------------------------------------------------
// Taking a command line apart
// ---------------------------------------------------------------------------

/// How many backslashes stand at the start of `s`.
pub open spec fn leading_backslashes(s: Seq<char>) -> nat
    decreases s.len(),
{
    if s.len() > 0 && s[0] == '\\' {
        1 + leading_backslashes(s.skip(1))
    } else {
        0
    }
}

/// One argument at the start of `s`, and what is left after it. `quoted` tells whether a quote is
/// open.
///
/// Outside quotes, a space or a tab ends the argument. Backslashes stand for themselves, but for
/// those before a quote: two of them make one, and one left over makes the quote an ordinary
/// character. Any other quote opens or closes.
pub open spec fn read_argument(s: Seq<char>, quoted: bool) -> (Seq<char>, Seq<char>)
    decreases s.len(),
{
    if s.len() == 0 {
        (Seq::empty(), s)
    } else if s[0] == '\\' {
        let n = leading_backslashes(s);
        if 0 < n < s.len() && s[n as int] == '"' {
            let (arg, rest) = read_argument(s.skip(n as int + 1), if n % 2 == 1 {
                    quoted
                } else {
                    !quoted
                });
            if n % 2 == 1 {
                (backslashes(n / 2) + seq!['"'] + arg, rest)
            } else {
                (backslashes(n / 2) + arg, rest)
            }
        } else {
            let (arg, rest) = read_argument(s.skip(1), quoted);
            (seq!['\\'] + arg, rest)
        }
    } else if s[0] == '"' {
        read_argument(s.skip(1), !quoted)
    } else if !quoted && (s[0] == ' ' || s[0] == '\t') {
        (Seq::empty(), s)
    } else {
        let (arg, rest) = read_argument(s.skip(1), quoted);
        (seq![s[0]] + arg, rest)
    }
}

/// Does `s` end an argument that is not quoted?
pub open spec fn ends_argument(s: Seq<char>) -> bool {
    s.len() == 0 || s[0] == ' ' || s[0] == '\t'
}

/// Counting backslashes counts a run of them that something else follows.
proof fn lemma_count(n: nat, tail: Seq<char>)
    requires
        tail.len() == 0 || tail[0] != '\\',
    ensures
        leading_backslashes(backslashes(n) + tail) == n,
    decreases n,
{
    let s = backslashes(n) + tail;
    if n == 0 {
        assert(s =~= tail);
    } else {
        lemma_count((n - 1) as nat, tail);
        assert(s.skip(1) =~= backslashes((n - 1) as nat) + tail);
    }
}

/// Backslashes that no quote follows stand for themselves.
proof fn lemma_plain_backslashes(n: nat, tail: Seq<char>, quoted: bool)
    requires
        tail.len() == 0 || (tail[0] != '\\' && tail[0] != '"'),
    ensures
        ({
            let (arg, rest) = read_argument(tail, quoted);
            read_argument(backslashes(n) + tail, quoted) == (backslashes(n) + arg, rest)
        }),
    decreases n,
{
    let s = backslashes(n) + tail;
    let (arg, rest) = read_argument(tail, quoted);
    if n == 0 {
        assert(s =~= tail);
        assert(backslashes(0) + arg =~= arg);
    } else {
        lemma_count(n, tail);
        lemma_plain_backslashes((n - 1) as nat, tail, quoted);
        assert(s.skip(1) =~= backslashes((n - 1) as nat) + tail);
        assert(s[0] == '\\');
        assert(n < s.len() ==> s[n as int] == tail[0]);
        assert(seq!['\\'] + (backslashes((n - 1) as nat) + arg) =~= backslashes(n) + arg);
    }
}

/// A quoted argument reads back from character `i` on.
proof fn lemma_reads_back(arg: Seq<char>, i: int, run: nat, rest: Seq<char>)
    requires
        0 <= i <= arg.len(),
        ends_argument(rest),
    ensures
        read_argument(backslashes(run) + escaped_from(arg, i, run) + rest, true) == (
            backslashes(run) + arg.skip(i),
            rest,
        ),
    decreases arg.len() - i,
{
    let s = backslashes(run) + escaped_from(arg, i, run) + rest;
    if i == arg.len() {
        assert(arg.skip(i) =~= Seq::<char>::empty());
        assert(backslashes(run) + arg.skip(i) =~= backslashes(run));
        let closing = seq!['"'] + rest;
        assert(s =~= backslashes(run + run) + closing);
        assert(closing.skip(1) =~= rest);
        assert(read_argument(rest, false) == (Seq::<char>::empty(), rest));
        if run == 0 {
            assert(s =~= closing);
        } else {
            lemma_count(run + run, closing);
            assert(s[0] == '\\');
            assert(s[(run + run) as int] == '"');
            assert(s.skip((run + run) as int + 1) =~= rest);
            assert((run + run) / 2 == run);
            assert((run + run) % 2 == 0);
            assert(backslashes(run) + Seq::<char>::empty() =~= backslashes(run));
        }
    } else if arg[i] == '\\' {
        lemma_reads_back(arg, i + 1, run + 1, rest);
        assert(s =~= backslashes(run + 1) + escaped_from(arg, i + 1, run + 1) + rest);
        assert(backslashes(run + 1) + arg.skip(i + 1) =~= backslashes(run) + arg.skip(i));
    } else if arg[i] == '"' {
        lemma_reads_back(arg, i + 1, 0, rest);
        let after = escaped_from(arg, i + 1, 0) + rest;
        assert(backslashes(0) + escaped_from(arg, i + 1, 0) + rest =~= after);
        let n = run + run + 1;
        let tail = seq!['"'] + after;
        assert(s =~= backslashes(n) + tail);
        lemma_count(n, tail);
        assert(s[0] == '\\');
        assert(s[n as int] == '"');
        assert(s.skip(n as int + 1) =~= after);
        assert(n / 2 == run);
        assert(n % 2 == 1);
        assert(backslashes(0) + arg.skip(i + 1) =~= arg.skip(i + 1));
        assert(backslashes(run) + seq!['"'] + arg.skip(i + 1) =~= backslashes(run) + arg.skip(i));
    } else {
        lemma_reads_back(arg, i + 1, 0, rest);
        let after = escaped_from(arg, i + 1, 0) + rest;
        assert(backslashes(0) + escaped_from(arg, i + 1, 0) + rest =~= after);
        assert(backslashes(0) + arg.skip(i + 1) =~= arg.skip(i + 1));
        let tail = seq![arg[i]] + after;
        assert(s =~= backslashes(run) + tail);
        assert(tail.skip(1) =~= after);
        assert(seq![arg[i]] + arg.skip(i + 1) =~= arg.skip(i));
        lemma_plain_backslashes(run, tail, true);
    }
}

/// An argument that needs no quotes reads back.
proof fn lemma_plain_reads_back(arg: Seq<char>, rest: Seq<char>)
    requires
        ends_argument(rest),
        forall|i: int|
            0 <= i < arg.len() ==> #[trigger] arg[i] != ' ' && arg[i] != '\t' && arg[i] != '"',
    ensures
        read_argument(arg + rest, false) == (arg, rest),
    decreases arg.len(),
{
    let s = arg + rest;
    if arg.len() == 0 {
        assert(s =~= rest);
    } else {
        let tail = arg.skip(1);
        assert forall|i: int| 0 <= i < tail.len() implies #[trigger] tail[i] != ' ' && tail[i]
            != '\t' && tail[i] != '"' by {
            assert(tail[i] == arg[i + 1]);
        }
        lemma_plain_reads_back(tail, rest);
        assert(s.skip(1) =~= tail + rest);
        assert(seq![arg[0]] + tail =~= arg);
        if s[0] == '\\' {
            lemma_no_quote_follows(s, arg.len() as int);
        }
    }
}

/// Where the first `m` characters hold no quote and what follows ends an argument, no quote follows
/// a run of backslashes.
proof fn lemma_no_quote_follows(s: Seq<char>, m: int)
    requires
        0 <= m <= s.len(),
        forall|i: int| 0 <= i < m ==> #[trigger] s[i] != '"',
        ends_argument(s.skip(m)),
    ensures
        leading_backslashes(s) <= m,
        leading_backslashes(s) < s.len() ==> s[leading_backslashes(s) as int] != '"',
    decreases s.len(),
{
    if m < s.len() {
        assert(s.skip(m)[0] == s[m]);
    }
    if s.len() > 0 && s[0] == '\\' {
        let t = s.skip(1);
        assert(m > 0);
        assert forall|i: int| 0 <= i < m - 1 implies #[trigger] t[i] != '"' by {
            assert(t[i] == s[i + 1]);
        }
        assert(t.skip(m - 1) =~= s.skip(m));
        lemma_no_quote_follows(t, m - 1);
    }
}

/// Quoting is undone by reading: whatever an argument holds, the usual rules give it back from the
/// command line, and leave what stands after it.
pub proof fn quoted_arguments_read_back(arg: Seq<char>, rest: Seq<char>)
    requires
        ends_argument(rest),
    ensures
        read_argument(quoted_arg(arg) + rest, false) == (arg, rest),
{
    if needs_quotes(arg) {
        lemma_reads_back(arg, 0, 0, rest);
        let s = quoted_arg(arg) + rest;
        assert(s.skip(1) =~= backslashes(0) + escaped_from(arg, 0, 0) + rest);
        assert(backslashes(0) + arg.skip(0) =~= arg);
    } else {
        lemma_plain_reads_back(arg, rest);
    }
}

/// Every argument of a line: between spaces and tabs.
pub open spec fn read_arguments(s: Seq<char>) -> Seq<Seq<char>>
    decreases s.len(),
{
    if s.len() == 0 {
        Seq::empty()
    } else if s[0] == ' ' || s[0] == '\t' {
        read_arguments(s.skip(1))
    } else {
        let (arg, rest) = read_argument(s, false);
        if rest.len() < s.len() {
            seq![arg] + read_arguments(rest)
        } else {
            seq![arg]
        }
    }
}

/// The arguments of a command line read back, all of them and in order.
pub proof fn command_lines_read_back(args: Seq<Seq<char>>)
    ensures
        read_arguments(arguments_text(args)) == args,
    decreases args.len(),
{
    if args.len() == 0 {
        assert(read_arguments(arguments_text(args)) =~= args);
    } else {
        let first = args[0];
        let others = args.skip(1);
        let line = arguments_text(others);
        let quoted = quoted_arg(first);
        let s = arguments_text(args);
        lemma_arguments_from_front(args);
        lemma_arguments_start(others);
        lemma_quoted_start(first);
        command_lines_read_back(others);
        quoted_arguments_read_back(first, line);
        assert(s.skip(1) =~= quoted + line);
        assert(read_arguments(s) == read_arguments(quoted + line));
        assert((quoted + line)[0] == quoted[0]);
        assert(read_arguments(quoted + line) == seq![first] + read_arguments(line));
        assert(seq![first] + others =~= args);
    }
}

/// The text of some arguments, from the front.
proof fn lemma_arguments_from_front(args: Seq<Seq<char>>)
    requires
        args.len() > 0,
    ensures
        arguments_text(args) == seq![' '] + quoted_arg(args[0]) + arguments_text(args.skip(1)),
    decreases args.len(),
{
    if args.len() == 1 {
        assert(args.drop_last() =~= Seq::<Seq<char>>::empty());
        assert(args.skip(1) =~= Seq::<Seq<char>>::empty());
        assert(arguments_text(args) =~= seq![' '] + quoted_arg(args[0]) + arguments_text(
            args.skip(1),
        ));
    } else {
        let before = args.drop_last();
        lemma_arguments_from_front(before);
        assert(before.skip(1) =~= args.skip(1).drop_last());
        assert(arguments_text(args) =~= seq![' '] + quoted_arg(args[0]) + arguments_text(
            args.skip(1),
        ));
    }
}

/// The text of some arguments is empty or starts with a space.
proof fn lemma_arguments_start(args: Seq<Seq<char>>)
    ensures
        arguments_text(args).len() == 0 || arguments_text(args)[0] == ' ',
{
    if args.len() > 0 {
        lemma_arguments_from_front(args);
    }
}

/// A quoted argument is not empty and does not start with a space or a tab.
proof fn lemma_quoted_start(arg: Seq<char>)
    ensures
        quoted_arg(arg).len() > 0,
        quoted_arg(arg)[0] != ' ',
        quoted_arg(arg)[0] != '\t',
{
    if !needs_quotes(arg) {
        assert(arg[0] == arg[0]);
    }
}

} // verus!

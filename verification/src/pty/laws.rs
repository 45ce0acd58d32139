//! What a shell is started with.

use vstd::prelude::*;

use super::command::{arguments_text, command_text, quoted_arg, utf16, utf16_units};
use super::{chosen_shell, started, started_in};
use super::environment::{
    block_of, environment, inherited, own_diagnostics, precedes, setting_a_variable_sets_it_alone,
    shells_know_their_terminal, value_of, with_shared_name, with_shared_names, with_terminal,
    VariableView,
};
use crate::text::parts;
use crate::text_laws::{separators_part_texts, unseparated_texts_are_parts};

verus! {

/// An argument that holds neither a blank nor a quote stands on the command line as it is.
pub proof fn plain_arguments_stay(arg: Seq<char>)
    requires
        arg.len() > 0,
        forall|i: int|
            0 <= i < arg.len() ==> #[trigger] arg[i] != ' ' && arg[i] != '\t' && arg[i] != '\n'
                && arg[i] != '"',
    ensures
        quoted_arg(arg) == arg,
{
}

/// An argument with a blank in it, or none at all, stands between quotes.
pub proof fn other_arguments_are_quoted(arg: Seq<char>, i: int)
    requires
        arg.len() == 0 || 0 <= i < arg.len() && (arg[i] == ' ' || arg[i] == '\t' || arg[i] == '\n'),
    ensures
        quoted_arg(arg).len() >= 2,
        quoted_arg(arg)[0] == '"',
        quoted_arg(arg).last() == '"',
        (forall|k: int| 0 <= k < arg.len() ==> #[trigger] arg[k] != '"' && arg[k] != '\\')
            ==> quoted_arg(arg) == seq!['"'] + arg + seq!['"'],
{
    lemma_escaped_end(arg, 0, 0);
    if forall|k: int| 0 <= k < arg.len() ==> #[trigger] arg[k] != '"' && arg[k] != '\\' {
        lemma_escaped_plain(arg, 0);
        assert(arg.skip(0) =~= arg);
        assert(seq!['"'] + (arg + seq!['"']) =~= seq!['"'] + arg + seq!['"']);
    }
}

proof fn lemma_escaped_end(arg: Seq<char>, i: int, run: nat)
    requires
        0 <= i <= arg.len(),
    ensures
        super::command::escaped_from(arg, i, run).len() > 0,
        super::command::escaped_from(arg, i, run).last() == '"',
    decreases arg.len() - i,
{
    if i < arg.len() {
        if arg[i] == '\\' {
            lemma_escaped_end(arg, i + 1, run + 1);
        } else {
            lemma_escaped_end(arg, i + 1, 0);
        }
    }
}

proof fn lemma_escaped_plain(arg: Seq<char>, i: int)
    requires
        0 <= i <= arg.len(),
        forall|k: int| 0 <= k < arg.len() ==> #[trigger] arg[k] != '"' && arg[k] != '\\',
    ensures
        super::command::escaped_from(arg, i, 0) == arg.skip(i) + seq!['"'],
    decreases arg.len() - i,
{
    if i < arg.len() {
        lemma_escaped_plain(arg, i + 1);
        assert(seq![arg[i]] + (arg.skip(i + 1) + seq!['"']) =~= arg.skip(i) + seq!['"']);
    } else {
        assert(super::command::escaped_from(arg, i, 0) =~= arg.skip(i) + seq!['"']);
    }
}

/// A command line is the program, and each argument after a blank.
pub proof fn arguments_come_in_turn(program: Seq<char>, args: Seq<Seq<char>>, arg: Seq<char>)
    ensures
        command_text(program, Seq::empty()) == quoted_arg(program),
        command_text(program, args.push(arg)) == command_text(program, args) + seq![' '] + quoted_arg(
            arg,
        ),
{
    assert(args.push(arg).drop_last() =~= args);
    assert(arguments_text(Seq::empty()) =~= Seq::<char>::empty());
    assert(command_text(program, Seq::empty()) =~= quoted_arg(program));
    assert(command_text(program, args.push(arg)) =~= command_text(program, args) + seq![' ']
        + quoted_arg(arg));
}

/// A character has one code unit, its number, or two that hold ten bits each of what is above it.
pub proof fn characters_have_code_units(c: char, s: Seq<char>)
    ensures
        (c as u32) < 0x1_0000 ==> utf16_units(c).len() == 1 && utf16_units(c)[0] == c as u32,
        (c as u32) >= 0x1_0000 ==> utf16_units(c).len() == 2 && c as u32 == 0x1_0000 + 0x400 * (
        utf16_units(c)[0] - 0xD800) + (utf16_units(c)[1] - 0xDC00) && 0xD800 <= utf16_units(c)[0]
            < 0xDC00 && 0xDC00 <= utf16_units(c)[1] < 0xE000,
        utf16(s.push(c)) == utf16(s) + utf16_units(c),
        utf16(Seq::empty()) == Seq::<u16>::empty(),
{
    assert(s.push(c).drop_last() =~= s);
    assert(c as u32 <= 0x10_FFFF);
}

/// A shell is told that it runs in a terminal with 256 colours and more, and in which.
pub proof fn shells_are_told_their_terminal(found: Seq<VariableView>)
    ensures
        value_of(environment(found), "TERM"@) == "xterm-256color"@,
        value_of(environment(found), "COLORTERM"@) == "truecolor"@,
        value_of(environment(found), "TERM_PROGRAM"@) == "Tachyon"@,
        value_of(environment(found), "TERM_PROGRAM_VERSION"@) == "0.1.0"@,
{
    shells_know_their_terminal(found, 0);
    shells_know_their_terminal(found, 1);
    shells_know_their_terminal(found, 2);
    shells_know_their_terminal(found, 3);
}

/// Of inherited variables with one name the last counts, but for this program's own.
pub proof fn the_last_inherited_counts(found: Seq<VariableView>, v: VariableView, key: Seq<char>)
    ensures
        ({
            let n = found.len() as int;
            let before = value_of(inherited(found, n), key);
            value_of(inherited(found.push(v), n + 1), key) == (if key == v.key && !own_diagnostics(
                v.name,
            ) {
                v.value
            } else {
                before
            })
        }),
{
    let n = found.len() as int;
    lemma_inherited_prefix(found, found.push(v), n);
    assert(found.push(v)[n] == v);
    setting_a_variable_sets_it_alone(inherited(found, n), v, key);
}

proof fn lemma_inherited_prefix(a: Seq<VariableView>, b: Seq<VariableView>, n: int)
    requires
        n <= a.len(),
        n <= b.len(),
        forall|i: int| 0 <= i < n ==> a[i] == b[i],
    ensures
        inherited(a, n) == inherited(b, n),
    decreases n,
{
    if n > 0 {
        lemma_inherited_prefix(a, b, n - 1);
    }
}

/// This program's own variables are those that start with its name in capitals and an underscore.
pub proof fn own_variables_have_a_prefix(name: Seq<char>)
    ensures
        own_diagnostics(name) <==> name.len() >= 8 && name[0] == 'T' && name[1] == 'A' && name[2] == 'C'
            && name[3] == 'H' && name[4] == 'Y' && name[5] == 'O' && name[6] == 'N' && name[7] == '_',
{
    reveal_strlit("TACHYON_");
    let prefix = "TACHYON_"@;
    if name.len() >= 8 {
        let head = name.take(8);
        if name[0] == 'T' && name[1] == 'A' && name[2] == 'C' && name[3] == 'H' && name[4] == 'Y'
            && name[5] == 'O' && name[6] == 'N' && name[7] == '_' {
            assert(head =~= prefix);
        }
        if head == prefix {
            assert(head[0] == 'T' && head[1] == 'A' && head[2] == 'C' && head[3] == 'H' && head[4]
                == 'Y' && head[5] == 'O' && head[6] == 'N' && head[7] == '_');
        }
    }
}

/// One more name for the Linux subsystem keeps those that are there, in their order, and is there
/// itself.
pub proof fn names_are_shared(list: Seq<char>, name: Seq<char>, part: Seq<char>)
    requires
        forall|i: int| 0 <= i < name.len() ==> #[trigger] name[i] != ':',
        list.len() > 0,
    ensures
        ({
            let after = parts(with_shared_name(list, name), ':');
            let entry = name + seq!['/', 'u'];
            &&& after.contains(entry)
            &&& parts(list, ':').contains(part) ==> after.contains(part)
            &&& parts(list, ':').contains(entry) ==> with_shared_name(list, name) == list
            &&& !parts(list, ':').contains(entry) ==> after == parts(list, ':').push(entry)
        }),
{
    reveal_strlit("/u");
    let entry = name + seq!['/', 'u'];
    assert("/u"@ =~= seq!['/', 'u']);
    let before = parts(list, ':');
    if !before.contains(entry) {
        assert forall|i: int| 0 <= i < entry.len() implies entry[i] != ':' by {
            if i < name.len() {
                assert(entry[i] == name[i]);
            }
        }
        unseparated_texts_are_parts(entry, ':');
        separators_part_texts(list, entry, ':');
        assert(before + seq![entry] =~= before.push(entry));
        let after = before.push(entry);
        assert(after[before.len() as int] == entry);
        if before.contains(part) {
            let k = choose|k: int| 0 <= k < before.len() && before[k] == part;
            assert(after[k] == part);
        }
    }
}

/// Without a list the Linux subsystem is given the four names of the terminal; and whatever the list,
/// the environment has one.
pub proof fn terminal_names_are_shared(found: Seq<VariableView>)
    ensures
        ({
            let own = with_terminal(inherited(found, found.len() as int), 4);
            value_of(environment(found), "WSLENV"@) == with_shared_names(
                value_of(own, "WSLENV"@),
                4,
            )
        }),
        forall|list: Seq<char>|
            #![trigger with_shared_names(list, 4)]
            with_shared_names(list, 4) == with_shared_name(
                with_shared_name(
                    with_shared_name(with_shared_name(list, "TERM"@), "COLORTERM"@),
                    "TERM_PROGRAM"@,
                ),
                "TERM_PROGRAM_VERSION"@,
            ),
        with_shared_name(Seq::empty(), "TERM"@) == "TERM"@ + "/u"@,
{
    let own = with_terminal(inherited(found, found.len() as int), 4);
    setting_a_variable_sets_it_alone(
        own,
        VariableView {
            key: "WSLENV"@,
            name: "WSLENV"@,
            value: with_shared_names(value_of(own, "WSLENV"@), 4),
        },
        "WSLENV"@,
    );
    reveal_with_fuel(with_shared_names, 5);
    reveal_strlit("TERM");
    reveal_strlit("/u");
    let empty = Seq::<char>::empty();
    unseparated_texts_are_parts(empty, ':');
    let entry = "TERM"@ + "/u"@;
    assert(entry.len() == 6);
    assert(!seq![empty].contains(entry)) by {
        if seq![empty].contains(entry) {
            let k = choose|k: int| 0 <= k < seq![empty].len() && seq![empty][k] == entry;
            assert(seq![empty][k] == empty);
        }
    }
}

/// The block holds each variable as its name, an equals sign, its value and a zero, in order.
pub proof fn blocks_list_variables(s: Seq<VariableView>, v: VariableView)
    ensures
        block_of(Seq::empty()) == Seq::<u16>::empty(),
        block_of(s.push(v)) == block_of(s) + utf16(v.name) + seq!['=' as u16] + utf16(v.value) + seq![
            0u16,
        ],
{
    assert(s.push(v).drop_last() =~= s);
}

/// Names are ordered by the first character in which they differ; a shorter one that is the start of
/// another comes first.
pub proof fn names_are_ordered(head: Seq<char>, a: Seq<char>, b: Seq<char>)
    requires
        b.len() > 0,
        a.len() == 0 || a[0] < b[0],
    ensures
        precedes(head + a, head + b),
        !precedes(head + b, head + a),
    decreases head.len(),
{
    if head.len() == 0 {
        assert(head + a =~= a);
        assert(head + b =~= b);
    } else {
        assert((head + a).skip(1) =~= head.skip(1) + a);
        assert((head + b).skip(1) =~= head.skip(1) + b);
        names_are_ordered(head.skip(1), a, b);
    }
}

/// The newer PowerShell is started where there is one, else the older, either without its banner;
/// else the command interpreter of the system, else the one that is always there.
pub proof fn the_newest_shell_is_chosen(path: Seq<char>, other: Option<Seq<char>>, last: Option<Seq<char>>)
    ensures
        chosen_shell(Some(path), other, last) == (path, seq!["-NoLogo"@]),
        chosen_shell(None, Some(path), last) == (path, seq!["-NoLogo"@]),
        chosen_shell(None, None, Some(path)) == (path, Seq::<Seq<char>>::empty()),
        chosen_shell(None, None, None) == ("cmd.exe"@, Seq::<Seq<char>>::empty()),
{
}

/// A program that is configured is started, with the arguments that are; without a program they go to
/// the default shell, which has its own where none are configured.
pub proof fn configured_programs_are_started(
    program: Seq<char>,
    args: Seq<Seq<char>>,
    shell: Seq<char>,
    own: Seq<Seq<char>>,
)
    requires
        program.len() > 0,
        args.len() > 0,
    ensures
        started(program, args, (shell, own)) == (program, args),
        started(program, Seq::empty(), (shell, own)) == (program, Seq::<Seq<char>>::empty()),
        started(Seq::empty(), args, (shell, own)) == (shell, args),
        started(Seq::empty(), Seq::empty(), (shell, own)) == (shell, own),
{
}

/// A shell starts where it was asked to, else in the user's own directory; an empty name is none.
pub proof fn shells_start_at_home(asked: Seq<char>, home: Option<Seq<char>>)
    ensures
        asked.len() > 0 ==> started_in(Some(asked), home) == Some(asked),
        asked.len() > 0 ==> started_in(None, Some(asked)) == Some(asked),
        asked.len() == 0 ==> started_in(Some(asked), home) is None && started_in(None, Some(asked))
            is None,
        started_in(None, None) is None,
{
}

} // verus!

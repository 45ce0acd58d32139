//! The command line.

use vstd::prelude::*;

use crate::text::{chars_of, reads, string_of, texts};

verus! {

/// What the command line asks for.
#[derive(Clone, Copy, PartialEq, Eq, Structural, Debug)]
pub enum Request {
    Start,
    Install,
    Uninstall,
    Version,
    Help,
}

/// The command line, understood.
pub struct Launch {
    pub request: Request,
    /// Say nothing on the screen.
    pub quiet: bool,
    /// Read the settings from here.
    pub config: Option<String>,
    /// Run this program with these arguments in place of a shell.
    pub command: Option<Vec<String>>,
}

/// The command line, with texts as runs of characters.
#[verifier::ext_equal]
pub ghost struct LaunchView {
    pub request: Request,
    pub quiet: bool,
    pub config: Option<Seq<char>>,
    pub command: Option<Seq<Seq<char>>>,
}

impl View for Launch {
    type V = LaunchView;

    open spec fn view(&self) -> LaunchView {
        LaunchView {
            request: self.request,
            quiet: self.quiet,
            config: match self.config {
                Some(s) => Some(s@),
                None => None,
            },
            command: match self.command {
                Some(v) => Some(texts(v@)),
                None => None,
            },
        }
    }
}

/// Is there a request for silence anywhere?
pub open spec fn silenced(args: Seq<Seq<char>>) -> bool {
    exists|i: int| 0 <= i < args.len() && #[trigger] args[i] == "--quiet"@
}

/// The request that one argument makes by itself, if it makes one.
pub open spec fn request_of(arg: Seq<char>) -> Option<Request> {
    if arg == "--install"@ {
        Some(Request::Install)
    } else if arg == "--uninstall"@ {
        Some(Request::Uninstall)
    } else if arg == "--version"@ || arg == "-V"@ {
        Some(Request::Version)
    } else if arg == "--help"@ || arg == "-h"@ {
        Some(Request::Help)
    } else {
        None
    }
}

/// The arguments from `pos` on, with the settings file named so far. The first argument that makes a
/// request ends the reading, and so does a program to run, to which everything behind it belongs.
/// Of several settings files the last one counts. What is not known is passed over.
pub open spec fn understood(
    args: Seq<Seq<char>>,
    pos: int,
    config: Option<Seq<char>>,
) -> LaunchView
    decreases args.len() - pos,
{
    let so_far = LaunchView {
        request: Request::Start,
        quiet: silenced(args),
        config,
        command: None,
    };
    if pos >= args.len() {
        so_far
    } else if args[pos] == "--config"@ {
        if pos + 1 < args.len() {
            understood(args, pos + 2, Some(args[pos + 1]))
        } else {
            so_far
        }
    } else if args[pos] == "-e"@ || args[pos] == "--command"@ {
        LaunchView {
            command: if pos + 1 < args.len() {
                Some(args.skip(pos + 1))
            } else {
                None
            },
            ..so_far
        }
    } else if request_of(args[pos]) is Some {
        LaunchView { request: request_of(args[pos])->0, ..so_far }
    } else {
        understood(args, pos + 1, config)
    }
}

fn is_silenced(args: &Vec<String>) -> (r: bool)
    ensures
        r == silenced(texts(args@)),
{
    let mut i: usize = 0;
    while i < args.len()
        invariant
            i <= args@.len(),
            forall|j: int| 0 <= j < i ==> #[trigger] texts(args@)[j] != "--quiet"@,
        decreases args@.len() - i,
    {
        let arg = chars_of(args[i].as_str());
        assert(texts(args@)[i as int] == arg@);
        if reads(arg.as_slice(), "--quiet") {
            return true;
        }
        i += 1;
    }
    false
}

fn requested(arg: &[char]) -> (r: Option<Request>)
    ensures
        r == request_of(arg@),
{
    if reads(arg, "--install") {
        Some(Request::Install)
    } else if reads(arg, "--uninstall") {
        Some(Request::Uninstall)
    } else if reads(arg, "--version") || reads(arg, "-V") {
        Some(Request::Version)
    } else if reads(arg, "--help") || reads(arg, "-h") {
        Some(Request::Help)
    } else {
        None
    }
}

/// The arguments from `pos` on, if there are any.
fn remaining(args: &Vec<String>, pos: usize) -> (v: Option<Vec<String>>)
    requires
        pos <= args@.len(),
    ensures
        pos == args@.len() ==> v is None,
        pos < args@.len() ==> v is Some && texts(v->0@) == texts(args@).skip(pos as int),
{
    if pos == args.len() {
        return None;
    }
    let mut v: Vec<String> = Vec::new();
    let mut i: usize = pos;
    while i < args.len()
        invariant
            pos <= i <= args@.len(),
            texts(v@) =~= texts(args@).subrange(pos as int, i as int),
        decreases args@.len() - i,
    {
        let one = chars_of(args[i].as_str());
        let ghost before = texts(v@);
        v.push(string_of(one.as_slice()));
        assert(texts(v@) =~= before.push(texts(args@)[i as int]));
        i += 1;
    }
    assert(texts(v@) =~= texts(args@).skip(pos as int));
    Some(v)
}

/// Understand the command line. The first argument is the program itself.
pub fn parse_arguments(args: &Vec<String>) -> (launch: Launch)
    ensures
        launch@ == understood(texts(args@), 1, None),
{
    let ghost all = texts(args@);
    let quiet = is_silenced(args);
    let mut config: Option<String> = None;
    let ghost mut named: Option<Seq<char>> = None;
    let mut pos: usize = 1;
    while pos < args.len()
        invariant
            1 <= pos,
            all == texts(args@),
            all.len() == args@.len(),
            quiet == silenced(all),
            named == (match config {
                Some(s) => Some(s@),
                None => None,
            }),
            understood(all, pos as int, named) == understood(all, 1, None),
        decreases args@.len() - pos,
    {
        let arg = chars_of(args[pos].as_str());
        assert(all[pos as int] == arg@);
        if reads(arg.as_slice(), "--config") {
            if pos + 1 < args.len() {
                let path = chars_of(args[pos + 1].as_str());
                assert(all[pos + 1] == path@);
                config = Some(string_of(path.as_slice()));
                proof {
                    named = Some(all[pos + 1]);
                }
                pos += 2;
            } else {
                return Launch { request: Request::Start, quiet, config, command: None };
            }
        } else if reads(arg.as_slice(), "-e") || reads(arg.as_slice(), "--command") {
            let command = remaining(args, pos + 1);
            return Launch { request: Request::Start, quiet, config, command };
        } else {
            if let Some(request) = requested(arg.as_slice()) {
                return Launch { request, quiet, config, command: None };
            }
            pos += 1;
        }
    }
    Launch { request: Request::Start, quiet, config, command: None }
}

/// Everything behind `-e` belongs to the program to run, whatever it looks like.
pub proof fn commands_keep_their_arguments(args: Seq<Seq<char>>, rest: Seq<Seq<char>>)
    requires
        args.len() == 2,
        args[1] == "-e"@,
        rest.len() > 0,
    ensures
        understood(args + rest, 1, None).command == Some(rest),
        understood(args + rest, 1, None).request == Request::Start,
{
    reveal_strlit("-e");
    reveal_strlit("--config");
    let all = args + rest;
    assert(all[1] == "-e"@);
    assert("--config"@.len() != "-e"@.len());
    assert(all.skip(2) =~= rest);
}

/// Is this one of the words that the command line knows?
pub open spec fn known_word(arg: Seq<char>) -> bool {
    arg == "--config"@ || arg == "-e"@ || arg == "--command"@ || arg == "--install"@ || arg
        == "--uninstall"@ || arg == "--version"@ || arg == "-V"@ || arg == "--help"@ || arg == "-h"@
}

/// The words that the command line knows are all different.
proof fn lemma_words_differ()
    ensures
        "--config"@.len() == 8 && "-e"@.len() == 2 && "--command"@.len() == 9,
        "--install"@.len() == 9 && "--uninstall"@.len() == 11 && "--version"@.len() == 9,
        "-V"@.len() == 2 && "--help"@.len() == 6 && "-h"@.len() == 2,
        "-e"@[1] == 'e' && "-V"@[1] == 'V' && "-h"@[1] == 'h',
        "--command"@[2] == 'c' && "--install"@[2] == 'i' && "--version"@[2] == 'v',
{
    reveal_strlit("--config");
    reveal_strlit("-e");
    reveal_strlit("--command");
    reveal_strlit("--install");
    reveal_strlit("--uninstall");
    reveal_strlit("--version");
    reveal_strlit("-V");
    reveal_strlit("--help");
    reveal_strlit("-h");
}

/// Words that are not known are passed over, and so are settings files but for the last.
proof fn lemma_passed_over(args: Seq<Seq<char>>, pos: int, n: int, config: Option<Seq<char>>)
    requires
        0 <= pos <= n <= args.len(),
        forall|i: int| pos <= i < n ==> !known_word(#[trigger] args[i]),
    ensures
        understood(args, pos, config) == understood(args, n, config),
    decreases n - pos,
{
    if pos < n {
        assert(!known_word(args[pos]));
        lemma_passed_over(args, pos + 1, n, config);
    }
}

/// The first word that is known says what is asked for, whatever unknown ones stand before it and
/// whatever stands behind it; without one the program starts, with a shell.
pub proof fn the_first_known_word_counts(args: Seq<Seq<char>>, n: int)
    requires
        1 <= n <= args.len(),
        forall|i: int| 1 <= i < n ==> !known_word(#[trigger] args[i]),
    ensures
        ({
            let u = understood(args, 1, None);
            let word = args[n];
            &&& n == args.len() ==> u.request == Request::Start && u.command is None && u.config is None
            &&& n < args.len() && word == "--install"@ ==> u.request == Request::Install
            &&& n < args.len() && word == "--uninstall"@ ==> u.request == Request::Uninstall
            &&& n < args.len() && (word == "--version"@ || word == "-V"@) ==> u.request
                == Request::Version
            &&& n < args.len() && (word == "--help"@ || word == "-h"@) ==> u.request == Request::Help
            &&& n + 1 < args.len() && (word == "-e"@ || word == "--command"@) ==> u.request
                == Request::Start && u.command == Some(args.skip(n + 1)) && u.config is None
            &&& n + 1 < args.len() && word == "--config"@ ==> u == understood(
                args,
                n + 2,
                Some(args[n + 1]),
            )
        }),
{
    lemma_words_differ();
    lemma_passed_over(args, 1, n, None);
}

/// A settings file that was named is read unless another is named behind it.
pub proof fn the_settings_file_is_kept(args: Seq<Seq<char>>, pos: int, path: Seq<char>)
    requires
        0 <= pos,
        forall|i: int| pos <= i < args.len() ==> #[trigger] args[i] != "--config"@,
    ensures
        understood(args, pos, Some(path)).config == Some(path),
    decreases args.len() - pos,
{
    if pos < args.len() {
        assert(args[pos] != "--config"@);
        the_settings_file_is_kept(args, pos + 1, path);
    }
}

/// Of two settings files the one that is named later is read, whatever stands between them.
pub proof fn the_last_settings_file_counts(
    args: Seq<Seq<char>>,
    pos: int,
    config: Option<Seq<char>>,
)
    requires
        0 <= pos,
        pos + 1 < args.len(),
        args[pos] == "--config"@,
        forall|i: int| pos + 2 <= i < args.len() ==> #[trigger] args[i] != "--config"@,
    ensures
        understood(args, pos, config).config == Some(args[pos + 1]),
{
    the_settings_file_is_kept(args, pos + 2, args[pos + 1]);
}

/// Silence may be asked for anywhere, and is nothing else.
pub proof fn silence_is_asked_for(args: Seq<Seq<char>>, i: int)
    ensures
        0 <= i < args.len() && args[i] == "--quiet"@ ==> understood(args, 1, None).quiet,
        (forall|k: int| 0 <= k < args.len() ==> #[trigger] args[k] != "--quiet"@) ==> !understood(
            args,
            1,
            None,
        ).quiet,
{
    lemma_quiet(args, 1, None);
}

proof fn lemma_quiet(args: Seq<Seq<char>>, pos: int, config: Option<Seq<char>>)
    ensures
        understood(args, pos, config).quiet == silenced(args),
    decreases args.len() - pos,
{
    if pos < args.len() {
        if args[pos] == "--config"@ {
            if pos + 1 < args.len() {
                lemma_quiet(args, pos + 2, Some(args[pos + 1]));
            }
        } else {
            lemma_quiet(args, pos + 1, config);
        }
    }
}

} // verus!

//! Starting a shell: its command line and its environment.

pub mod command;
pub mod environment;
pub mod laws;

use vstd::prelude::*;
use vstd::string::StringExecFns;

pub use command::{build_command_line, quote_arg};
pub use environment::build_environment;

verus! {

/// The text of a string, if there is one.
pub open spec fn text_in(s: Option<String>) -> Option<Seq<char>> {
    match s {
        Some(t) => Some(t@),
        None => None,
    }
}

/// The shell to start, and its arguments.
pub open spec fn chosen_shell(
    pwsh: Option<Seq<char>>,
    powershell: Option<Seq<char>>,
    comspec: Option<Seq<char>>,
) -> (Seq<char>, Seq<Seq<char>>) {
    let found = if pwsh is Some {
        pwsh
    } else {
        powershell
    };
    match found {
        Some(path) => (path, seq!["-NoLogo"@]),
        None => (
            match comspec {
                Some(c) => c,
                None => "cmd.exe"@,
            },
            Seq::empty(),
        ),
    }
}

/// The program and arguments to start, with those of the default shell given.
pub open spec fn started(
    program: Seq<char>,
    args: Seq<Seq<char>>,
    fallback: (Seq<char>, Seq<Seq<char>>),
) -> (Seq<char>, Seq<Seq<char>>) {
    (
        if program.len() > 0 {
            program
        } else {
            fallback.0
        },
        if args.len() > 0 {
            args
        } else if program.len() > 0 {
            Seq::empty()
        } else {
            fallback.1
        },
    )
}

/// The directory to start in.
pub open spec fn started_in(
    asked: Option<Seq<char>>,
    profile: Option<Seq<char>>,
) -> Option<Seq<char>> {
    let chosen = if asked is Some {
        asked
    } else {
        profile
    };
    match chosen {
        Some(d) => if d.len() > 0 {
            Some(d)
        } else {
            None
        },
        None => None,
    }
}

/// Pick a shell: the newer PowerShell if it was found, else the older one, else the command
/// interpreter that the system names, else `cmd.exe`. Either PowerShell is told to leave its
/// banner out.
pub fn default_shell(
    pwsh: Option<String>,
    powershell: Option<String>,
    comspec: Option<String>,
) -> (r: (String, Vec<String>))
    ensures
        (r.0@, crate::text::texts(r.1@)) == chosen_shell(
            text_in(pwsh),
            text_in(powershell),
            text_in(comspec),
        ),
        ({
            let found = if pwsh is Some {
                pwsh
            } else {
                powershell
            };
            match found {
                Some(path) => r.0@ == path@ && r.1@.len() == 1 && r.1@[0]@ == "-NoLogo"@,
                None => r.1@.len() == 0 && r.0@ == (match comspec {
                    Some(c) => c@,
                    None => "cmd.exe"@,
                }),
            }
        }),
{
    let found = match pwsh {
        Some(path) => Some(path),
        None => powershell,
    };
    match found {
        Some(path) => {
            let mut args: Vec<String> = Vec::new();
            args.push(String::from_str("-NoLogo"));
            assert(crate::text::texts(args@) =~= seq!["-NoLogo"@]);
            (path, args)
        },
        None => {
            let none: Vec<String> = Vec::new();
            assert(crate::text::texts(none@) =~= Seq::<Seq<char>>::empty());
            match comspec {
                Some(c) => (c, none),
                None => (String::from_str("cmd.exe"), none),
            }
        },
    }
}

/// The program and arguments to start: the configured ones, where there are any, else those of the
/// default shell.
pub fn shell_command(
    program: &String,
    args: &Vec<String>,
    fallback: (String, Vec<String>),
) -> (r: (String, Vec<String>))
    ensures
        (r.0@, crate::text::texts(r.1@)) == started(
            program@,
            crate::text::texts(args@),
            (fallback.0@, crate::text::texts(fallback.1@)),
        ),
        r.0@ == (if program@.len() > 0 {
            program@
        } else {
            fallback.0@
        }),
        crate::text::texts(r.1@) == (if args@.len() > 0 {
            crate::text::texts(args@)
        } else if program@.len() > 0 {
            Seq::empty()
        } else {
            crate::text::texts(fallback.1@)
        }),
{
    let (shell, shell_args) = if program.as_str().is_empty() {
        fallback
    } else {
        (program.clone(), Vec::new())
    };
    assert(program@.len() > 0 ==> crate::text::texts(shell_args@) =~= Seq::empty());
    if args.len() > 0 {
        (shell, clone_texts(args))
    } else {
        (shell, shell_args)
    }
}

/// A copy of a list of strings.
fn clone_texts(v: &Vec<String>) -> (r: Vec<String>)
    ensures
        crate::text::texts(r@) == crate::text::texts(v@),
{
    let mut r: Vec<String> = Vec::new();
    while r.len() < v.len()
        invariant
            r@.len() <= v@.len(),
            forall|i: int| 0 <= i < r@.len() ==> (#[trigger] r@[i])@ == v@[i]@,
        decreases v@.len() - r@.len(),
    {
        r.push(v[r.len()].clone());
    }
    assert(crate::text::texts(r@) =~= crate::text::texts(v@));
    r
}

/// The directory to start in: the one asked for, else the user's own. Without one that is not
/// empty, the child starts where this program did.
pub fn start_directory(asked: Option<String>, profile: Option<String>) -> (r: Option<String>)
    ensures
        text_in(r) == started_in(text_in(asked), text_in(profile)),
        ({
            let chosen = if asked is Some {
                asked
            } else {
                profile
            };
            match r {
                Some(d) => chosen is Some && d@ == chosen->0@ && d@.len() > 0,
                None => chosen is None || chosen->0@.len() == 0,
            }
        }),
{
    let chosen = match asked {
        Some(d) => Some(d),
        None => profile,
    };
    match chosen {
        Some(d) => {
            if d.as_str().is_empty() {
                None
            } else {
                Some(d)
            }
        },
        None => None,
    }
}

} // verus!

//! Command lines and environments.

use tachyon::pty::environment::{environment_block, Variable};
use tachyon::pty::{
    build_command_line, build_environment, default_shell, quote_arg, shell_command,
    start_directory,
};

fn q(s: &str) -> String {
    let mut out = String::new();
    quote_arg(s, &mut out);
    out
}

#[test]
fn simple_arguments_are_not_quoted() {
    assert_eq!(q("hello"), "hello");
    assert_eq!(q("-NoLogo"), "-NoLogo");
}

#[test]
fn spaces_and_quotes_are_escaped() {
    assert_eq!(q("hello world"), "\"hello world\"");
    assert_eq!(q("say \"hi\""), "\"say \\\"hi\\\"\"");
    assert_eq!(q("C:\\Program Files\\"), "\"C:\\Program Files\\\\\"");
    assert_eq!(q(""), "\"\"");
}

fn strings(v: &[&str]) -> Vec<String> {
    v.iter().map(|s| s.to_string()).collect()
}

#[test]
fn command_lines_end_in_a_zero() {
    let line = build_command_line("pwsh.exe", &strings(&["-c", "echo \u{1F600}"]));
    let (end, text) = line.split_last().unwrap();
    assert_eq!(*end, 0);
    assert_eq!(
        String::from_utf16(text).unwrap(),
        "pwsh.exe -c \"echo \u{1F600}\""
    );
}

fn variables(block: &[u16]) -> Vec<String> {
    let text = String::from_utf16(block).unwrap();
    assert!(text.ends_with("\0\0"));
    text[..text.len() - 2].split('\0').map(str::to_string).collect()
}

fn pairs(v: &[(&str, &str)]) -> Vec<(String, String)> {
    v.iter().map(|(k, x)| (k.to_string(), x.to_string())).collect()
}

#[test]
fn terminal_variables_replace_inherited_ones() {
    let block = build_environment(&pairs(&[
        ("Path", "C:\\bin"),
        ("Term", "dumb"),
        ("term_Program", "other"),
        ("TACHYON_DUMP", "x"),
        ("alpha", "1"),
    ]));
    assert_eq!(
        variables(&block),
        vec![
            "alpha=1",
            "COLORTERM=truecolor",
            "Path=C:\\bin",
            "TERM=xterm-256color",
            "TERM_PROGRAM=Tachyon",
            "TERM_PROGRAM_VERSION=0.1.0",
            "WSLENV=TERM/u:COLORTERM/u:TERM_PROGRAM/u:TERM_PROGRAM_VERSION/u",
        ]
    );
}

#[test]
fn shared_names_are_added_to_those_there_are() {
    let block = build_environment(&pairs(&[("WSLENV", "GOPATH/l:TERM/u")]));
    assert_eq!(
        variables(&block).last().unwrap(),
        "WSLENV=GOPATH/l:TERM/u:COLORTERM/u:TERM_PROGRAM/u:TERM_PROGRAM_VERSION/u"
    );
}

#[test]
fn names_differ_by_more_than_case() {
    // The later spelling wins, and one variable is left. Folding goes beyond ASCII.
    let block = build_environment(&pairs(&[("\u{e4}b", "1"), ("\u{c4}B", "2")]));
    let found: Vec<String> = variables(&block)
        .into_iter()
        .filter(|v| v.contains('\u{c4}') || v.contains('\u{e4}'))
        .collect();
    assert_eq!(found, vec!["\u{c4}B=2"]);
}

#[test]
fn variables_are_found_by_their_keys() {
    let variable = |key: &str, name: &str, value: &str| Variable {
        key: key.chars().collect(),
        name: name.to_string(),
        value: value.to_string(),
    };
    let block = environment_block(vec![
        variable("Z", "z", "last"),
        variable("A", "a", "first"),
        variable("A", "A", "again"),
        variable("TERM", "term", "dumb"),
        variable("TACHYON_LOG", "TACHYON_LOG", "x"),
    ]);
    assert_eq!(
        variables(&block),
        vec![
            "A=again",
            "COLORTERM=truecolor",
            "TERM=xterm-256color",
            "TERM_PROGRAM=Tachyon",
            "TERM_PROGRAM_VERSION=0.1.0",
            "WSLENV=TERM/u:COLORTERM/u:TERM_PROGRAM/u:TERM_PROGRAM_VERSION/u",
            "z=last",
        ]
    );
}

#[test]
fn the_best_shell_there_is_gets_started() {
    let found = |s: &str| Some(s.to_string());
    assert_eq!(
        default_shell(found("p7"), found("p5"), found("cmd")),
        ("p7".to_string(), strings(&["-NoLogo"]))
    );
    assert_eq!(
        default_shell(None, found("p5"), None),
        ("p5".to_string(), strings(&["-NoLogo"]))
    );
    assert_eq!(
        default_shell(None, None, found("C:\\cmd.exe")),
        ("C:\\cmd.exe".to_string(), vec![])
    );
    assert_eq!(
        default_shell(None, None, None),
        ("cmd.exe".to_string(), vec![])
    );
}

#[test]
fn settings_replace_the_default_shell() {
    let fallback = || ("p7".to_string(), strings(&["-NoLogo"]));
    assert_eq!(
        shell_command(&String::new(), &vec![], fallback()),
        ("p7".to_string(), strings(&["-NoLogo"]))
    );
    assert_eq!(
        shell_command(&"fish".to_string(), &vec![], fallback()),
        ("fish".to_string(), vec![])
    );
    assert_eq!(
        shell_command(&String::new(), &strings(&["-x"]), fallback()),
        ("p7".to_string(), strings(&["-x"]))
    );
}

#[test]
fn shells_start_at_home() {
    let dir = |s: &str| Some(s.to_string());
    assert_eq!(start_directory(None, dir("C:\\me")), dir("C:\\me"));
    assert_eq!(start_directory(dir("D:\\x"), dir("C:\\me")), dir("D:\\x"));
    assert_eq!(start_directory(dir(""), dir("C:\\me")), None);
    assert_eq!(start_directory(None, None), None);
}

//! The environment of the shell.

use vstd::prelude::*;
use vstd::string::StringExecFns;

use super::command::{push_utf16, utf16};
use crate::text::{chars_of, copied, part_views, parts, reads, same_chars, split_parts};
use crate::{APP_NAME, APP_VERSION};

verus! {

/// A variable: its name in capitals, by which it is found, its name, and its value.
pub struct Variable {
    pub key: Vec<char>,
    pub name: String,
    pub value: String,
}

/// The contents of a variable.
pub ghost struct VariableView {
    pub key: Seq<char>,
    pub name: Seq<char>,
    pub value: Seq<char>,
}

impl View for Variable {
    type V = VariableView;

    open spec fn view(&self) -> VariableView {
        VariableView { key: self.key@, name: self.name@, value: self.value@ }
    }
}

/// The contents of a list of variables.
pub open spec fn variable_views(v: Seq<Variable>) -> Seq<VariableView> {
    Seq::new(v.len(), |i: int| v[i]@)
}

/// A text in capitals.
pub uninterp spec fn uppercase(s: Seq<char>) -> Seq<char>;

/// Is every character of the text an ASCII character?
pub open spec fn is_plain(s: Seq<char>) -> bool {
    forall|i: int| 0 <= i < s.len() ==> (#[trigger] s[i] as u32) < 0x80
}

/// A letter from `a` to `z` as its capital; any other character as it is.
pub open spec fn capital(c: char) -> char {
    if 'a' <= c <= 'z' {
        (c as u32 - 0x20) as char
    } else {
        c
    }
}

/// An ASCII text in capitals: `a` to `z` moved up, and all else kept.
pub open spec fn capitals(s: Seq<char>) -> Seq<char> {
    Seq::new(s.len(), |i: int| capital(s[i]))
}

/// `str::to_uppercase`: a text in capitals, as Unicode defines them. Of ASCII text that moves `a`
/// to `z` up, and keeps all else.
#[verifier::external_body]
fn to_capitals(s: &str) -> (r: String)
    ensures
        r@ == uppercase(s@),
        is_plain(s@) ==> r@ == capitals(s@),
{
    s.to_uppercase()
}

/// The key by which a variable is found: its name in capitals.
pub open spec fn key_of(name: Seq<char>) -> Seq<char> {
    if is_plain(name) {
        capitals(name)
    } else {
        uppercase(name)
    }
}

/// Does `a` come before `b` in the order of their characters' numbers?
pub open spec fn precedes(a: Seq<char>, b: Seq<char>) -> bool
    decreases b.len(),
{
    if b.len() == 0 {
        false
    } else if a.len() == 0 {
        true
    } else if a[0] != b[0] {
        a[0] < b[0]
    } else {
        precedes(a.skip(1), b.skip(1))
    }
}

/// Does `a` come before `b`?
fn comes_before(a: &Vec<char>, b: &Vec<char>) -> (r: bool)
    ensures
        r == precedes(a@, b@),
{
    let mut i: usize = 0;
    assert(a@.skip(0) =~= a@);
    assert(b@.skip(0) =~= b@);
    while i < a.len() && i < b.len()
        invariant
            i <= a@.len(),
            i <= b@.len(),
            precedes(a@.skip(i as int), b@.skip(i as int)) == precedes(a@, b@),
        decreases a@.len() - i,
    {
        if a[i] != b[i] {
            return a[i] < b[i];
        }
        assert(a@.skip(i as int).skip(1) =~= a@.skip(i + 1));
        assert(b@.skip(i as int).skip(1) =~= b@.skip(i + 1));
        i += 1;
    }
    i < b.len()
}

/// The variables with one set: in place of one of the same key, or where its key belongs.
pub open spec fn with_variable(s: Seq<VariableView>, v: VariableView) -> Seq<VariableView>
    decreases s.len(),
{
    if s.len() == 0 {
        seq![v]
    } else if s[0].key == v.key {
        seq![v] + s.skip(1)
    } else if precedes(v.key, s[0].key) {
        seq![v] + s
    } else {
        seq![s[0]] + with_variable(s.skip(1), v)
    }
}

/// Set a variable.
fn set_variable(vars: &mut Vec<Variable>, v: Variable)
    ensures
        variable_views(final(vars)@) == with_variable(variable_views(old(vars)@), v@),
{
    let ghost all = variable_views(vars@);
    let mut i: usize = 0;
    assert(all.skip(0) =~= all);
    assert(all.take(0) + with_variable(all, v@) =~= with_variable(all, v@));
    while i < vars.len()
        invariant
            i <= vars@.len(),
            all == variable_views(vars@),
            all == variable_views(old(vars)@),
            all.take(i as int) + with_variable(all.skip(i as int), v@) == with_variable(all, v@),
        decreases vars@.len() - i,
    {
        let ghost rest = all.skip(i as int);
        assert(rest[0] == vars@[i as int]@);
        if same_chars(vars[i].key.as_slice(), v.key.as_slice()) {
            let ghost new = v@;
            vars.set(i, v);
            assert(variable_views(vars@) =~= all.take(i as int) + (seq![new] + rest.skip(1)));
            return ;
        }
        if comes_before(&v.key, &vars[i].key) {
            let ghost new = v@;
            vars.insert(i, v);
            assert(variable_views(vars@) =~= all.take(i as int) + (seq![new] + rest));
            return ;
        }
        assert(rest.skip(1) =~= all.skip(i + 1));
        assert(all.take(i as int) + (seq![rest[0]] + with_variable(all.skip(i + 1), v@))
            =~= all.take(i + 1) + with_variable(all.skip(i + 1), v@));
        i += 1;
    }
    let ghost new = v@;
    vars.push(v);
    assert(all.skip(i as int) =~= Seq::<VariableView>::empty());
    assert(variable_views(vars@) =~= all.take(i as int) + seq![new]);
}

/// The value of the variable with a key; empty where there is none.
pub open spec fn value_of(s: Seq<VariableView>, key: Seq<char>) -> Seq<char>
    decreases s.len(),
{
    if s.len() == 0 {
        Seq::empty()
    } else if s[0].key == key {
        s[0].value
    } else {
        value_of(s.skip(1), key)
    }
}

/// Look a variable up.
fn find_value(vars: &Vec<Variable>, key: &str) -> (value: String)
    ensures
        value@ == value_of(variable_views(vars@), key@),
{
    let ghost all = variable_views(vars@);
    let mut i: usize = 0;
    assert(all.skip(0) =~= all);
    while i < vars.len()
        invariant
            i <= vars@.len(),
            all == variable_views(vars@),
            value_of(all.skip(i as int), key@) == value_of(all, key@),
        decreases vars@.len() - i,
    {
        let ghost rest = all.skip(i as int);
        assert(rest[0] == vars@[i as int]@);
        if reads(vars[i].key.as_slice(), key) {
            return vars[i].value.clone();
        }
        assert(rest.skip(1) =~= all.skip(i + 1));
        i += 1;
    }
    let none = String::new();
    assert(none@ =~= Seq::<char>::empty());
    none
}

/// The variables that every shell gets, and what they say: which terminal this is, that it does
/// 24-bit colour, and its name and version.
pub open spec fn terminal_variables() -> Seq<(Seq<char>, Seq<char>)> {
    seq![
        ("TERM"@, "xterm-256color"@),
        ("COLORTERM"@, "truecolor"@),
        ("TERM_PROGRAM"@, APP_NAME@),
        ("TERM_PROGRAM_VERSION"@, APP_VERSION@),
    ]
}

/// Is this one of this program's own diagnostics variables?
pub open spec fn own_diagnostics(name: Seq<char>) -> bool {
    name.len() >= "TACHYON_"@.len() && name.take("TACHYON_"@.len() as int) == "TACHYON_"@
}

/// Is this one of this program's own diagnostics variables? A shell has no use for them.
fn is_own_diagnostics(name: &[char]) -> (r: bool)
    ensures
        r == own_diagnostics(name@),
{
    let prefix = chars_of("TACHYON_");
    if name.len() < prefix.len() {
        return false;
    }
    let start = &name[0..prefix.len()];
    assert(start@ =~= name@.take(prefix@.len() as int));
    reads(start, "TACHYON_")
}

/// Variables with their keys.
pub open spec fn keyed(vars: Seq<(Seq<char>, Seq<char>)>) -> Seq<VariableView> {
    Seq::new(
        vars.len(),
        |i: int| VariableView { key: key_of(vars[i].0), name: vars[i].0, value: vars[i].1 },
    )
}

/// The first `n` inherited variables, by their keys, so that one replaces another that differs only
/// in case.
pub open spec fn inherited(found: Seq<VariableView>, n: int) -> Seq<VariableView>
    decreases n,
{
    if n <= 0 {
        Seq::empty()
    } else {
        let before = inherited(found, n - 1);
        if own_diagnostics(found[n - 1].name) {
            before
        } else {
            with_variable(before, found[n - 1])
        }
    }
}

/// The variables with the first `n` of the terminal's own set.
pub open spec fn with_terminal(s: Seq<VariableView>, n: int) -> Seq<VariableView>
    decreases n,
{
    if n <= 0 {
        s
    } else {
        let (name, value) = terminal_variables()[n - 1];
        with_variable(with_terminal(s, n - 1), VariableView { key: name, name, value })
    }
}

/// A list of names for the Linux subsystem with one more, unless it is there.
pub open spec fn with_shared_name(list: Seq<char>, name: Seq<char>) -> Seq<char> {
    let entry = name + "/u"@;
    if parts(list, ':').contains(entry) {
        list
    } else if list.len() == 0 {
        entry
    } else {
        list.push(':') + entry
    }
}

/// A list of names for the Linux subsystem with the first `n` of the terminal's own.
pub open spec fn with_shared_names(list: Seq<char>, n: int) -> Seq<char>
    decreases n,
{
    if n <= 0 {
        list
    } else {
        with_shared_name(with_shared_names(list, n - 1), terminal_variables()[n - 1].0)
    }
}

/// The environment that a shell gets: what is inherited, the terminal's own variables, and those
/// named in `WSLENV`, so that they cross into the Linux subsystem too. A list that is there stays.
pub open spec fn environment(found: Seq<VariableView>) -> Seq<VariableView> {
    let own = with_terminal(inherited(found, found.len() as int), 4);
    with_variable(
        own,
        VariableView {
            key: "WSLENV"@,
            name: "WSLENV"@,
            value: with_shared_names(value_of(own, "WSLENV"@), 4),
        },
    )
}

/// The variables as one block: `NAME=VALUE` and a zero each.
pub open spec fn block_of(s: Seq<VariableView>) -> Seq<u16>
    decreases s.len(),
{
    if s.len() == 0 {
        Seq::empty()
    } else {
        block_of(s.drop_last()) + utf16(s.last().name) + seq![0x3Du16] + utf16(s.last().value)
            + seq![0u16]
    }
}

/// The contents of a list of names and values.
pub open spec fn pair_views(v: Seq<(String, String)>) -> Seq<(Seq<char>, Seq<char>)> {
    Seq::new(v.len(), |i: int| (v[i].0@, v[i].1@))
}

/// A terminal's own variable.
fn terminal_variable(i: usize) -> (v: (&'static str, &'static str))
    requires
        i < 4,
    ensures
        (v.0@, v.1@) == terminal_variables()[i as int],
{
    match i {
        0 => ("TERM", "xterm-256color"),
        1 => ("COLORTERM", "truecolor"),
        2 => ("TERM_PROGRAM", APP_NAME),
        _ => ("TERM_PROGRAM_VERSION", APP_VERSION),
    }
}

/// Add a name to a list for the Linux subsystem, unless it is there.
fn share_name(list: &mut String, name: &str)
    ensures
        final(list)@ == with_shared_name(old(list)@, name@),
{
    let mut entry = String::from_str(name);
    entry.append("/u");
    let wanted = chars_of(entry.as_str());
    let there = split_parts(chars_of(list.as_str()).as_slice(), ':');
    let ghost all = parts(list@, ':');
    let mut i: usize = 0;
    while i < there.len()
        invariant
            i <= there@.len(),
            all == part_views(there@),
            all == parts(list@, ':'),
            wanted@ == name@ + "/u"@,
            forall|j: int| 0 <= j < i ==> all[j] != wanted@,
        decreases there@.len() - i,
    {
        assert(all[i as int] == there@[i as int]@);
        if same_chars(there[i].as_slice(), wanted.as_slice()) {
            assert(all.contains(wanted@));
            return ;
        }
        i += 1;
    }
    assert(!all.contains(wanted@));
    let ghost before = list@;
    if !list.as_str().is_empty() {
        list.push(':');
        list.append(entry.as_str());
    } else {
        list.append(entry.as_str());
        assert(list@ =~= wanted@);
    }
}

/// Build the child's environment block: the inherited variables, and the terminal's own. It is
/// sorted by name, and ends in one more zero.
pub fn build_environment(vars: &Vec<(String, String)>) -> (block: Vec<u16>)
    ensures
        block@ == block_of(environment(keyed(pair_views(vars@)))).push(0),
{
    let ghost all = keyed(pair_views(vars@));
    let mut found: Vec<Variable> = Vec::new();
    let mut i: usize = 0;
    assert(variable_views(found@) =~= all.take(0));
    while i < vars.len()
        invariant
            i <= vars@.len(),
            all == keyed(pair_views(vars@)),
            variable_views(found@) == all.take(i as int),
        decreases vars@.len() - i,
    {
        let name = vars[i].0.clone();
        let value = vars[i].1.clone();
        let key = chars_of(to_capitals(name.as_str()).as_str());
        let v = Variable { key, name, value };
        assert(v@ == all[i as int]);
        let ghost before = found@;
        found.push(v);
        i += 1;
        assert(variable_views(found@) =~= variable_views(before).push(all[i - 1]));
        assert(all.take(i as int) =~= all.take(i - 1).push(all[i - 1]));
    }
    assert(all.take(i as int) =~= all);
    environment_block(found)
}

/// The environment block of a shell, from the inherited variables with their keys.
pub fn environment_block(found: Vec<Variable>) -> (block: Vec<u16>)
    ensures
        block@ == block_of(environment(variable_views(found@))).push(0),
{
    let mut env = inherit(found);
    let ghost base = variable_views(env@);
    let mut i: usize = 0;
    while i < 4
        invariant
            i <= 4,
            variable_views(env@) == with_terminal(base, i as int),
        decreases 4 - i,
    {
        let (name, value) = terminal_variable(i);
        let v = Variable {
            key: chars_of(name),
            name: String::from_str(name),
            value: String::from_str(value),
        };
        set_variable(&mut env, v);
        i += 1;
    }
    let mut list = find_value(&env, "WSLENV");
    let ghost start = list@;
    i = 0;
    while i < 4
        invariant
            i <= 4,
            list@ == with_shared_names(start, i as int),
        decreases 4 - i,
    {
        let (name, _) = terminal_variable(i);
        share_name(&mut list, name);
        i += 1;
    }
    set_variable(
        &mut env,
        Variable { key: chars_of("WSLENV"), name: String::from_str("WSLENV"), value: list },
    );
    write_block(&env)
}

/// Take the inherited variables over.
fn inherit(found: Vec<Variable>) -> (env: Vec<Variable>)
    ensures
        variable_views(env@) == inherited(variable_views(found@), found@.len() as int),
{
    let ghost all = variable_views(found@);
    let mut env: Vec<Variable> = Vec::new();
    let mut i: usize = 0;
    assert(variable_views(env@) =~= inherited(all, 0));
    while i < found.len()
        invariant
            i <= found@.len(),
            all == variable_views(found@),
            variable_views(env@) == inherited(all, i as int),
        decreases found@.len() - i,
    {
        let v = Variable {
            key: copied(found[i].key.as_slice()),
            name: found[i].name.clone(),
            value: found[i].value.clone(),
        };
        assert(all[i as int] == v@);
        if !is_own_diagnostics(chars_of(v.name.as_str()).as_slice()) {
            set_variable(&mut env, v);
        }
        i += 1;
    }
    env
}

/// Write the variables as one block.
fn write_block(env: &Vec<Variable>) -> (block: Vec<u16>)
    ensures
        block@ == block_of(variable_views(env@)).push(0),
{
    let ghost all = variable_views(env@);
    let mut block: Vec<u16> = Vec::new();
    let mut i: usize = 0;
    assert(all.take(0) =~= Seq::<VariableView>::empty());
    assert(block@ =~= block_of(all.take(0)));
    while i < env.len()
        invariant
            i <= env@.len(),
            all == variable_views(env@),
            block@ == block_of(all.take(i as int)),
        decreases env@.len() - i,
    {
        push_utf16(&mut block, env[i].name.as_str());
        block.push(0x3D);
        push_utf16(&mut block, env[i].value.as_str());
        block.push(0);
        i += 1;
        proof {
            let done = all.take(i as int);
            assert(done.drop_last() =~= all.take(i - 1));
            assert(done.last() == env@[i - 1]@);
            assert(block@ =~= block_of(done));
        }
    }
    assert(all.take(i as int) =~= all);
    block.push(0);
    block
}

// ---------------------------------------------------------------------------
// Laws
// ---------------------------------------------------------------------------

/// Setting a variable gives it that value and leaves every other as it was.
pub proof fn setting_a_variable_sets_it_alone(s: Seq<VariableView>, v: VariableView, key: Seq<char>)
    ensures
        value_of(with_variable(s, v), key) == (if key == v.key {
            v.value
        } else {
            value_of(s, key)
        }),
    decreases s.len(),
{
    let after = with_variable(s, v);
    if s.len() == 0 {
        assert(after.skip(1) =~= s);
    } else if s[0].key == v.key {
        assert(after.skip(1) =~= s.skip(1));
    } else if precedes(v.key, s[0].key) {
        assert(after.skip(1) =~= s);
    } else {
        setting_a_variable_sets_it_alone(s.skip(1), v, key);
        assert(after.skip(1) =~= with_variable(s.skip(1), v));
    }
}

/// Are the variables in order, each key once?
pub open spec fn sorted(s: Seq<VariableView>) -> bool
    decreases s.len(),
{
    s.len() < 2 || precedes(s[0].key, s[1].key) && sorted(s.skip(1))
}

/// Of two different texts, one comes before the other.
proof fn lemma_precedes_total(a: Seq<char>, b: Seq<char>)
    ensures
        a == b || precedes(a, b) || precedes(b, a),
    decreases b.len(),
{
    if a.len() > 0 && b.len() > 0 && a[0] == b[0] {
        lemma_precedes_total(a.skip(1), b.skip(1));
        if a.skip(1) == b.skip(1) {
            assert(a =~= seq![a[0]] + a.skip(1));
            assert(b =~= seq![b[0]] + b.skip(1));
        }
    } else if a.len() == 0 && b.len() == 0 {
        assert(a =~= b);
    }
}

/// Setting a variable keeps the order.
proof fn lemma_stays_sorted(s: Seq<VariableView>, v: VariableView)
    requires
        sorted(s),
    ensures
        sorted(with_variable(s, v)),
        with_variable(s, v).len() > 0,
        with_variable(s, v)[0] == v || s.len() > 0 && with_variable(s, v)[0] == s[0],
    decreases s.len(),
{
    let after = with_variable(s, v);
    if s.len() == 0 {
    } else if s[0].key == v.key {
        if s.len() >= 2 {
            assert(after[1] == s[1]);
            assert(after.skip(1) =~= s.skip(1));
        }
    } else if precedes(v.key, s[0].key) {
        assert(after.skip(1) =~= s);
    } else {
        lemma_precedes_total(v.key, s[0].key);
        lemma_stays_sorted(s.skip(1), v);
        assert(after.skip(1) =~= with_variable(s.skip(1), v));
        assert(after[1] == with_variable(s.skip(1), v)[0]);
    }
}

/// The environment is sorted by key, a name in capitals, and holds no key twice.
pub proof fn environment_is_sorted(found: Seq<VariableView>)
    ensures
        sorted(environment(found)),
{
    lemma_inherited_sorted(found, found.len() as int);
    let base = inherited(found, found.len() as int);
    lemma_terminal_sorted(base, 4);
    let own = with_terminal(base, 4);
    lemma_stays_sorted(
        own,
        VariableView {
            key: "WSLENV"@,
            name: "WSLENV"@,
            value: with_shared_names(value_of(own, "WSLENV"@), 4),
        },
    );
}

proof fn lemma_inherited_sorted(found: Seq<VariableView>, n: int)
    ensures
        sorted(inherited(found, n)),
    decreases n,
{
    if n > 0 {
        lemma_inherited_sorted(found, n - 1);
        lemma_stays_sorted(inherited(found, n - 1), found[n - 1]);
    }
}

proof fn lemma_terminal_sorted(s: Seq<VariableView>, n: int)
    requires
        sorted(s),
    ensures
        sorted(with_terminal(s, n)),
    decreases n,
{
    if n > 0 {
        lemma_terminal_sorted(s, n - 1);
        let (name, value) = terminal_variables()[n - 1];
        lemma_stays_sorted(with_terminal(s, n - 1), VariableView { key: name, name, value });
    }
}

/// The value of a variable after the first `n` of the terminal's own are set.
proof fn lemma_terminal_value(s: Seq<VariableView>, n: int, key: Seq<char>)
    requires
        0 <= n <= 4,
    ensures
        forall|i: int| 0 <= i < n && key == (#[trigger] terminal_variables()[i]).0
            ==> value_of(with_terminal(s, n), key) == terminal_variables()[i].1,
        (forall|i: int| 0 <= i < n ==> key != (#[trigger] terminal_variables()[i]).0)
            ==> value_of(with_terminal(s, n), key) == value_of(s, key),
    decreases n,
{
    if n > 0 {
        lemma_terminal_value(s, n - 1, key);
        let (name, value) = terminal_variables()[n - 1];
        setting_a_variable_sets_it_alone(
            with_terminal(s, n - 1),
            VariableView { key: name, name, value },
            key,
        );
        lemma_names_differ();
    }
}

/// The variables that the terminal sets are all different.
proof fn lemma_names_differ()
    ensures
        forall|i: int, j: int|
            0 <= i < j < 4 ==> (#[trigger] terminal_variables()[i]).0 != (
            #[trigger] terminal_variables()[j]).0,
        forall|i: int| 0 <= i < 4 ==> (#[trigger] terminal_variables()[i]).0 != "WSLENV"@,
{
    reveal_strlit("TERM");
    reveal_strlit("COLORTERM");
    reveal_strlit("TERM_PROGRAM");
    reveal_strlit("TERM_PROGRAM_VERSION");
    reveal_strlit("WSLENV");
    assert("TERM"@.len() == 4);
    assert("COLORTERM"@.len() == 9);
    assert("TERM_PROGRAM"@.len() == 12);
    assert("TERM_PROGRAM_VERSION"@.len() == 20);
    assert("WSLENV"@.len() == 6);
}

/// Whatever is inherited, a shell is told which terminal it runs in.
pub proof fn shells_know_their_terminal(found: Seq<VariableView>, i: int)
    requires
        0 <= i < 4,
    ensures
        value_of(environment(found), terminal_variables()[i].0) == terminal_variables()[i].1,
{
    let base = inherited(found, found.len() as int);
    let own = with_terminal(base, 4);
    let key = terminal_variables()[i].0;
    lemma_terminal_value(base, 4, key);
    lemma_names_differ();
    setting_a_variable_sets_it_alone(
        own,
        VariableView {
            key: "WSLENV"@,
            name: "WSLENV"@,
            value: with_shared_names(value_of(own, "WSLENV"@), 4),
        },
        key,
    );
}

/// The terminal touches no variable but its own: every other is as it was inherited.
pub proof fn other_variables_are_inherited(found: Seq<VariableView>, key: Seq<char>)
    requires
        key != "WSLENV"@,
        forall|i: int| 0 <= i < 4 ==> key != (#[trigger] terminal_variables()[i]).0,
    ensures
        value_of(environment(found), key) == value_of(
            inherited(found, found.len() as int),
            key,
        ),
{
    let base = inherited(found, found.len() as int);
    let own = with_terminal(base, 4);
    lemma_terminal_value(base, 4, key);
    setting_a_variable_sets_it_alone(
        own,
        VariableView {
            key: "WSLENV"@,
            name: "WSLENV"@,
            value: with_shared_names(value_of(own, "WSLENV"@), 4),
        },
        key,
    );
}

/// The order of texts is transitive, and no text comes before itself.
proof fn lemma_precedes_order(a: Seq<char>, b: Seq<char>, c: Seq<char>)
    ensures
        !precedes(a, a),
        precedes(a, b) && precedes(b, c) ==> precedes(a, c),
    decreases a.len(),
{
    if a.len() > 0 {
        if b.len() > 0 && c.len() > 0 {
            lemma_precedes_order(a.skip(1), b.skip(1), c.skip(1));
        } else {
            lemma_precedes_order(a.skip(1), a.skip(1), a.skip(1));
        }
    }
}

/// In sorted variables the first key comes before every other.
proof fn lemma_first_key(s: Seq<VariableView>, j: int)
    requires
        sorted(s),
        0 < j < s.len(),
    ensures
        precedes(s[0].key, s[j].key),
    decreases s.len(),
{
    if j > 1 {
        let rest = s.skip(1);
        lemma_first_key(rest, j - 1);
        assert(rest[0] == s[1]);
        assert(rest[j - 1] == s[j]);
        lemma_precedes_order(s[0].key, s[1].key, s[j].key);
    }
}

/// Sorted variables have different keys.
proof fn lemma_keys_differ(s: Seq<VariableView>, i: int, j: int)
    requires
        sorted(s),
        0 <= i < j < s.len(),
    ensures
        s[i].key != s[j].key,
    decreases s.len(),
{
    if i == 0 {
        lemma_first_key(s, j);
        lemma_precedes_order(s[0].key, s[0].key, s[0].key);
    } else {
        let rest = s.skip(1);
        lemma_keys_differ(rest, i - 1, j - 1);
        assert(rest[i - 1] == s[i] && rest[j - 1] == s[j]);
    }
}

/// Is every one of these found by its own name?
pub open spec fn own_keys(s: Seq<VariableView>) -> bool {
    forall|j: int| 0 <= j < s.len() ==> (#[trigger] s[j]).key == key_of(s[j].name)
}

/// Setting a variable that is found by its own name keeps that so.
proof fn lemma_own_keys(s: Seq<VariableView>, v: VariableView)
    requires
        own_keys(s),
        v.key == key_of(v.name),
    ensures
        own_keys(with_variable(s, v)),
    decreases s.len(),
{
    if s.len() > 0 && s[0].key != v.key && !precedes(v.key, s[0].key) {
        lemma_own_keys(s.skip(1), v);
    }
}

/// Setting a variable puts it among the others, each of which is as it was.
proof fn lemma_where_set(s: Seq<VariableView>, v: VariableView)
    ensures
        with_variable(s, v).contains(v),
        forall|w: VariableView|
            s.contains(w) && w.key != v.key ==> #[trigger] with_variable(s, v).contains(w),
    decreases s.len(),
{
    let after = with_variable(s, v);
    if s.len() == 0 {
        assert(after[0] == v);
    } else if s[0].key == v.key {
        assert(after[0] == v);
        assert forall|w: VariableView|
            s.contains(w) && w.key != v.key implies #[trigger] after.contains(w) by {
            let j = choose|j: int| 0 <= j < s.len() && s[j] == w;
            assert(after[j] == s[j]);
        }
    } else if precedes(v.key, s[0].key) {
        assert(after[0] == v);
        assert forall|w: VariableView|
            s.contains(w) && w.key != v.key implies #[trigger] after.contains(w) by {
            let j = choose|j: int| 0 <= j < s.len() && s[j] == w;
            assert(after[j + 1] == s[j]);
        }
    } else {
        let rest = s.skip(1);
        lemma_where_set(rest, v);
        let tail = with_variable(rest, v);
        let k = choose|k: int| 0 <= k < tail.len() && tail[k] == v;
        assert(after[k + 1] == v);
        assert forall|w: VariableView|
            s.contains(w) && w.key != v.key implies #[trigger] after.contains(w) by {
            let j = choose|j: int| 0 <= j < s.len() && s[j] == w;
            if j == 0 {
                assert(after[0] == w);
            } else {
                assert(rest[j - 1] == w);
                assert(tail.contains(w));
                let m = choose|m: int| 0 <= m < tail.len() && tail[m] == w;
                assert(after[m + 1] == w);
            }
        }
    }
}

/// The terminal's own variables are found by their own names.
proof fn lemma_terminal_keys()
    ensures
        forall|i: int| 0 <= i < 4 ==> key_of((#[trigger] terminal_variables()[i]).0)
            == terminal_variables()[i].0,
        key_of("WSLENV"@) == "WSLENV"@,
{
    reveal_strlit("TERM");
    reveal_strlit("COLORTERM");
    reveal_strlit("TERM_PROGRAM");
    reveal_strlit("TERM_PROGRAM_VERSION");
    reveal_strlit("WSLENV");
    assert(capitals("TERM"@) =~= "TERM"@);
    assert(capitals("COLORTERM"@) =~= "COLORTERM"@);
    assert(capitals("TERM_PROGRAM"@) =~= "TERM_PROGRAM"@);
    assert(capitals("TERM_PROGRAM_VERSION"@) =~= "TERM_PROGRAM_VERSION"@);
    assert(capitals("WSLENV"@) =~= "WSLENV"@);
}

proof fn lemma_inherited_keys(found: Seq<VariableView>, n: int)
    requires
        own_keys(found),
        n <= found.len(),
    ensures
        own_keys(inherited(found, n)),
    decreases n,
{
    if n > 0 {
        lemma_inherited_keys(found, n - 1);
        if !own_diagnostics(found[n - 1].name) {
            lemma_own_keys(inherited(found, n - 1), found[n - 1]);
        }
    }
}

/// The first `n` of the terminal's own variables are there once set, and every key is that of its
/// name.
proof fn lemma_terminal_there(s: Seq<VariableView>, n: int)
    requires
        own_keys(s),
        0 <= n <= 4,
    ensures
        own_keys(with_terminal(s, n)),
        forall|i: int| 0 <= i < n ==> with_terminal(s, n).contains(#[trigger] terminal_entry(i)),
    decreases n,
{
    if n > 0 {
        lemma_terminal_there(s, n - 1);
        lemma_terminal_keys();
        lemma_names_differ();
        let before = with_terminal(s, n - 1);
        let v = terminal_entry(n - 1);
        lemma_own_keys(before, v);
        lemma_where_set(before, v);
        assert forall|i: int| 0 <= i < n implies with_terminal(s, n).contains(
            #[trigger] terminal_entry(i),
        ) by {
            if i < n - 1 {
                assert(before.contains(terminal_entry(i)));
                assert(terminal_variables()[i].0 != terminal_variables()[n - 1].0);
            }
        }
    }
}

/// One of the terminal's own variables, as the environment holds it.
pub open spec fn terminal_entry(i: int) -> VariableView {
    let (name, value) = terminal_variables()[i];
    VariableView { key: name, name, value }
}

/// Everything in the environment is found by its own name, and the terminal's variables are there.
proof fn lemma_environment_entries(vars: Seq<(Seq<char>, Seq<char>)>)
    ensures
        own_keys(environment(keyed(vars))),
        forall|i: int|
            0 <= i < 4 ==> environment(keyed(vars)).contains(#[trigger] terminal_entry(i)),
{
    let found = keyed(vars);
    let base = inherited(found, found.len() as int);
    lemma_inherited_keys(found, found.len() as int);
    lemma_terminal_there(base, 4);
    lemma_terminal_keys();
    lemma_names_differ();
    let own = with_terminal(base, 4);
    let shared = VariableView {
        key: "WSLENV"@,
        name: "WSLENV"@,
        value: with_shared_names(value_of(own, "WSLENV"@), 4),
    };
    lemma_own_keys(own, shared);
    lemma_where_set(own, shared);
    assert forall|i: int| 0 <= i < 4 implies environment(found).contains(
        #[trigger] terminal_entry(i),
    ) by {
        assert(own.contains(terminal_entry(i)));
        assert(terminal_variables()[i].0 != "WSLENV"@);
    }
}

/// No two variables that a shell gets have names that differ only in case.
pub proof fn names_come_once(vars: Seq<(Seq<char>, Seq<char>)>, i: int, j: int)
    requires
        0 <= i < j < environment(keyed(vars)).len(),
    ensures
        ({
            let env = environment(keyed(vars));
            &&& key_of(env[i].name) != key_of(env[j].name)
            &&& is_plain(env[i].name) && is_plain(env[j].name) ==> capitals(env[i].name)
                != capitals(env[j].name)
        }),
{
    let env = environment(keyed(vars));
    environment_is_sorted(keyed(vars));
    lemma_environment_entries(vars);
    lemma_keys_differ(env, i, j);
}

/// An inherited variable that has the name of one of the terminal's own, in whatever case, is
/// replaced: what a shell gets under that name is the terminal's, and that alone.
pub proof fn inherited_terminals_are_replaced(
    vars: Seq<(Seq<char>, Seq<char>)>,
    i: int,
    j: int,
)
    requires
        0 <= i < 4,
        0 <= j < environment(keyed(vars)).len(),
    ensures
        ({
            let env = environment(keyed(vars));
            &&& env.contains(terminal_entry(i))
            &&& key_of(env[j].name) == terminal_variables()[i].0 ==> env[j] == terminal_entry(i)
            &&& is_plain(env[j].name) && capitals(env[j].name) == terminal_variables()[i].0
                ==> env[j] == terminal_entry(i)
        }),
{
    let env = environment(keyed(vars));
    environment_is_sorted(keyed(vars));
    lemma_environment_entries(vars);
    assert(env.contains(terminal_entry(i)));
    let k = choose|k: int| 0 <= k < env.len() && env[k] == terminal_entry(i);
    if env[j].key == env[k].key && j != k {
        if j < k {
            lemma_keys_differ(env, j, k);
        } else {
            lemma_keys_differ(env, k, j);
        }
    }
}

/// Is none of these one of this program's own diagnostics variables?
pub open spec fn no_diagnostics(s: Seq<VariableView>) -> bool {
    forall|j: int| 0 <= j < s.len() ==> !own_diagnostics((#[trigger] s[j]).name)
}

/// Setting another variable brings no diagnostics variable in.
proof fn lemma_no_diagnostics(s: Seq<VariableView>, v: VariableView)
    requires
        no_diagnostics(s),
        !own_diagnostics(v.name),
    ensures
        no_diagnostics(with_variable(s, v)),
    decreases s.len(),
{
    if s.len() > 0 && s[0].key != v.key && !precedes(v.key, s[0].key) {
        lemma_no_diagnostics(s.skip(1), v);
    }
}

proof fn lemma_inherited_no_diagnostics(found: Seq<VariableView>, n: int)
    ensures
        no_diagnostics(inherited(found, n)),
    decreases n,
{
    if n > 0 {
        lemma_inherited_no_diagnostics(found, n - 1);
        if !own_diagnostics(found[n - 1].name) {
            lemma_no_diagnostics(inherited(found, n - 1), found[n - 1]);
        }
    }
}

/// No shell gets this program's own diagnostics variables.
pub proof fn diagnostics_are_not_handed_on(found: Seq<VariableView>)
    ensures
        no_diagnostics(environment(found)),
{
    reveal_strlit("TACHYON_");
    reveal_strlit("TERM");
    reveal_strlit("COLORTERM");
    reveal_strlit("TERM_PROGRAM");
    reveal_strlit("TERM_PROGRAM_VERSION");
    reveal_strlit("WSLENV");
    let base = inherited(found, found.len() as int);
    lemma_inherited_no_diagnostics(found, found.len() as int);
    assert forall|i: int| 0 <= i < 4 implies !own_diagnostics(
        (#[trigger] terminal_variables()[i]).0,
    ) by {
        let name = terminal_variables()[i].0;
        assert("TACHYON_"@[1] == 'A');
        assert(name[1] != 'A');
        if own_diagnostics(name) {
            assert(name.take("TACHYON_"@.len() as int)[1] == name[1]);
        }
    }
    lemma_terminal_no_diagnostics(base, 4);
    assert("WSLENV"@.len() < "TACHYON_"@.len());
    let own = with_terminal(base, 4);
    lemma_no_diagnostics(
        own,
        VariableView {
            key: "WSLENV"@,
            name: "WSLENV"@,
            value: with_shared_names(value_of(own, "WSLENV"@), 4),
        },
    );
}

proof fn lemma_terminal_no_diagnostics(s: Seq<VariableView>, n: int)
    requires
        n <= 4,
        no_diagnostics(s),
        forall|i: int| 0 <= i < 4 ==> !own_diagnostics((#[trigger] terminal_variables()[i]).0),
    ensures
        no_diagnostics(with_terminal(s, n)),
    decreases n,
{
    if n > 0 {
        lemma_terminal_no_diagnostics(s, n - 1);
        let (name, value) = terminal_variables()[n - 1];
        lemma_no_diagnostics(with_terminal(s, n - 1), VariableView { key: name, name, value });
    }
}

/// A list for the Linux subsystem that is there survives: names are only added after it.
pub proof fn shared_names_are_appended(list: Seq<char>, n: int)
    ensures
        with_shared_names(list, n).len() >= list.len(),
        with_shared_names(list, n).take(list.len() as int) == list,
    decreases n,
{
    if n > 0 {
        shared_names_are_appended(list, n - 1);
        let before = with_shared_names(list, n - 1);
        let after = with_shared_names(list, n);
        assert(after.take(before.len() as int) =~= before);
        assert(after.take(list.len() as int) =~= before.take(list.len() as int));
    } else {
        assert(list.take(list.len() as int) =~= list);
    }
}

} // verus!

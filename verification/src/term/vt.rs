//! The escape-sequence parser and the tables of character widths, as the terminal sees them.

use vstd::prelude::*;

use unicode_width::UnicodeWidthChar;

verus! {

/// One finding of the escape-sequence parser.
pub ghost enum VtEvent {
    /// A character to print.
    Print(char),
    /// A control byte.
    Execute(u8),
    /// A control sequence: parameters with their sub-parameters, intermediate bytes, whether it
    /// was too long to be kept, and its final character.
    Csi { params: Seq<Seq<u16>>, intermediates: Seq<u8>, ignore: bool, action: char },
    /// An escape sequence.
    Esc { intermediates: Seq<u8>, ignore: bool, byte: u8 },
    /// An operating-system command.
    Osc(Seq<Seq<u8>>),
    /// A device control string begins.
    Hook,
    /// A byte of a device control string.
    Put(u8),
    /// A device control string ends.
    Unhook,
}

/// One finding of the escape-sequence parser, as a value.
pub enum VtAction {
    Print(char),
    Execute(u8),
    Csi { params: Vec<Vec<u16>>, intermediates: Vec<u8>, ignore: bool, action: char },
    Esc { intermediates: Vec<u8>, ignore: bool, byte: u8 },
    Osc(Vec<Vec<u8>>),
    Hook,
    Put(u8),
    Unhook,
}

/// The contents of a list of parameters.
pub open spec fn groups(params: Seq<Vec<u16>>) -> Seq<Seq<u16>> {
    Seq::new(params.len(), |i: int| params[i]@)
}

/// The contents of a list of byte strings.
pub open spec fn strings(params: Seq<Vec<u8>>) -> Seq<Seq<u8>> {
    Seq::new(params.len(), |i: int| params[i]@)
}

impl View for VtAction {
    type V = VtEvent;

    open spec fn view(&self) -> VtEvent {
        match *self {
            VtAction::Print(c) => VtEvent::Print(c),
            VtAction::Execute(byte) => VtEvent::Execute(byte),
            VtAction::Csi { params, intermediates, ignore, action } => VtEvent::Csi {
                params: groups(params@),
                intermediates: intermediates@,
                ignore,
                action,
            },
            VtAction::Esc { intermediates, ignore, byte } => VtEvent::Esc {
                intermediates: intermediates@,
                ignore,
                byte,
            },
            VtAction::Osc(params) => VtEvent::Osc(strings(params@)),
            VtAction::Hook => VtEvent::Hook,
            VtAction::Put(byte) => VtEvent::Put(byte),
            VtAction::Unhook => VtEvent::Unhook,
        }
    }
}

/// How many columns a character takes; `None` for a control character.
pub uninterp spec fn display_width(c: char) -> Option<usize>;

/// `unicode_width::UnicodeWidthChar::width`: the number of columns of `c` by the Unicode tables.
/// The control characters have none, and only they; printable ASCII takes one, and no character
/// takes more than three.
#[verifier::external_body]
pub(crate) fn char_width(c: char) -> (w: Option<usize>)
    ensures
        w == display_width(c),
        w is None <==> (c as u32) < 0x20 || 0x7F <= (c as u32) <= 0x9F,
        0x20 <= c as u32 <= 0x7E ==> w == Some(1usize),
        w is Some ==> w->0 <= 3,
{
    c.width()
}

/// The text that some bytes stand for, read as UTF-8.
pub uninterp spec fn lossy_text(bytes: Seq<u8>) -> Seq<char>;

/// `String::from_utf8_lossy`: the text of `bytes` as UTF-8, with a replacement character for what
/// is not.
#[verifier::external_body]
pub(crate) fn text_from_utf8_lossy(bytes: &[u8]) -> (s: String)
    ensures
        s@ == lossy_text(bytes@),
{
    String::from_utf8_lossy(bytes).into_owned()
}

/// The parser of the `vte` crate.
#[verifier::external_type_specification]
#[verifier::external_body]
pub struct ExParser<const OSC_RAW_BUF_SIZE: usize>(vte::Parser<OSC_RAW_BUF_SIZE>);

/// The parameters of a control sequence, as the `vte` crate hands them over.
#[verifier::external_type_specification]
#[verifier::external_body]
pub struct ExParams(vte::Params);

/// The bytes that a parser has been fed since it was made.
pub uninterp spec fn bytes_fed(parser: vte::Parser) -> Seq<u8>;

/// What a parser that was fed `before` finds when it is fed one more byte.
pub uninterp spec fn vt_findings(before: Seq<u8>, byte: u8) -> Seq<VtEvent>;

/// The groups of sub-parameters of a control sequence.
pub uninterp spec fn param_groups(params: vte::Params) -> Seq<Seq<u16>>;

/// The findings in a list of actions.
pub open spec fn events(actions: Seq<VtAction>) -> Seq<VtEvent> {
    Seq::new(actions.len(), |i: int| actions[i]@)
}

/// `vte::Params::iter`: the parameters in order, each with its sub-parameters.
#[verifier::external_body]
fn params_vec(params: &vte::Params) -> (v: Vec<Vec<u16>>)
    ensures
        groups(v@) == param_groups(*params),
{
    params.iter().map(|group| group.to_vec()).collect()
}

/// Writes down what the parser finds.
pub(crate) struct Recorder {
    actions: Vec<VtAction>,
}

impl Recorder {
    /// What has been found so far.
    pub closed spec fn found(self) -> Seq<VtEvent> {
        events(self.actions@)
    }

    /// Write down one more finding.
    fn note(&mut self, action: VtAction)
        ensures
            final(self).found() == old(self).found().push(action@),
    {
        self.actions.push(action);
        assert(final(self).found() =~= old(self).found().push(action@));
    }
}

/// A copy of some bytes.
fn bytes_vec(bytes: &[u8]) -> (v: Vec<u8>)
    ensures
        v@ == bytes@,
{
    let mut v: Vec<u8> = Vec::new();
    v.extend_from_slice(bytes);
    assert(v@ =~= bytes@);
    v
}

impl vte::Perform for Recorder {
    fn print(&mut self, c: char)
        ensures
            final(self).found() == old(self).found().push(VtEvent::Print(c)),
    {
        self.note(VtAction::Print(c));
    }

    fn execute(&mut self, byte: u8)
        ensures
            final(self).found() == old(self).found().push(VtEvent::Execute(byte)),
    {
        self.note(VtAction::Execute(byte));
    }

    fn hook(&mut self, _params: &vte::Params, _intermediates: &[u8], _ignore: bool, _action: char)
        ensures
            final(self).found() == old(self).found().push(VtEvent::Hook),
    {
        self.note(VtAction::Hook);
    }

    fn put(&mut self, byte: u8)
        ensures
            final(self).found() == old(self).found().push(VtEvent::Put(byte)),
    {
        self.note(VtAction::Put(byte));
    }

    fn unhook(&mut self)
        ensures
            final(self).found() == old(self).found().push(VtEvent::Unhook),
    {
        self.note(VtAction::Unhook);
    }

    fn osc_dispatch(&mut self, params: &[&[u8]], _bell_terminated: bool)
        ensures
            final(self).found() == old(self).found().push(
                VtEvent::Osc(Seq::new(params@.len(), |i: int| params@[i]@)),
            ),
    {
        let mut copied: Vec<Vec<u8>> = Vec::new();
        while copied.len() < params.len()
            invariant
                copied@.len() <= params@.len(),
                forall|i: int| 0 <= i < copied@.len() ==> (#[trigger] copied@[i])@ == params@[i]@,
            decreases params@.len() - copied@.len(),
        {
            copied.push(bytes_vec(params[copied.len()]));
        }
        assert(strings(copied@) =~= Seq::new(params@.len(), |i: int| params@[i]@));
        self.note(VtAction::Osc(copied));
    }

    fn csi_dispatch(
        &mut self,
        params: &vte::Params,
        intermediates: &[u8],
        ignore: bool,
        action: char,
    )
        ensures
            final(self).found() == old(self).found().push(
                VtEvent::Csi {
                    params: param_groups(*params),
                    intermediates: intermediates@,
                    ignore,
                    action,
                },
            ),
    {
        self.note(
            VtAction::Csi {
                params: params_vec(params),
                intermediates: bytes_vec(intermediates),
                ignore,
                action,
            },
        );
    }

    fn esc_dispatch(&mut self, intermediates: &[u8], ignore: bool, byte: u8)
        ensures
            final(self).found() == old(self).found().push(
                VtEvent::Esc { intermediates: intermediates@, ignore, byte },
            ),
    {
        self.note(VtAction::Esc { intermediates: bytes_vec(intermediates), ignore, byte });
    }
}

/// `vte::Parser::new`: a parser in its ground state, which has not been fed anything.
#[verifier::external_body]
pub(crate) fn new_parser() -> (p: vte::Parser)
    ensures
        bytes_fed(p) == Seq::<u8>::empty(),
{
    vte::Parser::new()
}

/// `vte::Parser::advance` on one byte. What the parser finds is a function of the bytes it was fed
/// before and of this one; it cannot be influenced by what is done with its findings.
#[verifier::external_body]
pub(crate) fn feed(parser: &mut vte::Parser, byte: u8) -> (actions: Vec<VtAction>)
    ensures
        bytes_fed(*final(parser)) == bytes_fed(*old(parser)).push(byte),
        events(actions@) == vt_findings(bytes_fed(*old(parser)), byte),
{
    let mut recorder = Recorder { actions: Vec::new() };
    parser.advance(&mut recorder, &[byte]);
    recorder.actions
}

} // verus!

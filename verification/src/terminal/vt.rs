use vstd::prelude::*;
use vstd::slice::slice_to_vec;

verus! {

/// The parameter list of a control sequence, as the parser crate holds it.
#[verifier::external_type_specification]
#[verifier::external_body]
pub struct ExParams(vte::Params);

/// The state machine of the parser crate.
#[verifier::external_type_specification]
#[verifier::external_body]
pub struct ExParser<const OSC_RAW_BUF_SIZE: usize>(vte::Parser<OSC_RAW_BUF_SIZE>);

/// One action that the VT state machine dispatches, as plain values.
///
/// A parameter list holds one entry per parameter, each entry the
/// parameter's value followed by its sub-parameters.
#[derive(Debug)]
pub enum VtAction {
    /// Draw a character at the cursor.
    Print(char),
    /// Execute a C0 or C1 control.
    Execute(u8),
    /// The final character of the first part of a device control string.
    Hook { params: Vec<Vec<u16>>, intermediates: Vec<u8>, ignore: bool, action: char },
    /// One byte of a device control string.
    Put(u8),
    /// The end of a device control string.
    Unhook,
    /// An operating system command.
    OscDispatch { params: Vec<Vec<u8>>, bell_terminated: bool },
    /// The final character of a CSI sequence.
    CsiDispatch { params: Vec<Vec<u16>>, intermediates: Vec<u8>, ignore: bool, action: char },
    /// The final character of an escape sequence.
    EscDispatch { intermediates: Vec<u8>, ignore: bool, byte: u8 },
}

/// Collects the actions that the parser dispatches while it takes a byte.
pub struct ActionLog {
    pub actions: Vec<VtAction>,
}

/// What a `vte::Params` holds: its parameters in order, each as its value
/// followed by its sub-parameters.
pub uninterp spec fn params_contents(params: vte::Params) -> Seq<Seq<u16>>;

/// Whether `copy` holds the parameters `contents`, one vector for each.
pub open spec fn holds_params(copy: Vec<Vec<u16>>, contents: Seq<Seq<u16>>) -> bool {
    &&& copy@.len() == contents.len()
    &&& forall|i: int| 0 <= i < copy@.len() ==> (#[trigger] copy@[i])@ == contents[i]
}

/// Whether `copy` holds the byte strings `params`, one vector for each.
pub open spec fn holds_strings(copy: Vec<Vec<u8>>, params: Seq<&[u8]>) -> bool {
    &&& copy@.len() == params.len()
    &&& forall|i: int| 0 <= i < copy@.len() ==> (#[trigger] copy@[i])@ == params[i]@
}

/// Walks a `vte::Params` with its `iter`, which yields each parameter as the
/// slice of its value and sub-parameters, and copies each slice into a
/// vector: what comes out is what the list holds.
#[verifier::external_body]
fn params_to_vec(params: &vte::Params) -> (out: Vec<Vec<u16>>)
    ensures
        holds_params(out, params_contents(*params)),
{
    params.iter().map(|param| param.to_vec()).collect()
}

fn copy_osc_params(params: &[&[u8]]) -> (out: Vec<Vec<u8>>)
    ensures
        holds_strings(out, params@),
{
    let mut out: Vec<Vec<u8>> = Vec::new();
    let mut i: usize = 0;
    while i < params.len()
        invariant
            i <= params@.len(),
            out@.len() == i,
            forall|k: int| 0 <= k < i ==> (#[trigger] out@[k])@ == params@[k]@,
        decreases params@.len() - i,
    {
        out.push(slice_to_vec(params[i]));
        i += 1;
    }
    out
}

impl vte::Perform for ActionLog {
    fn print(&mut self, c: char)
        ensures
            final(self).actions@ == old(self).actions@.push(VtAction::Print(c)),
    {
        self.actions.push(VtAction::Print(c));
    }

    fn execute(&mut self, byte: u8)
        ensures
            final(self).actions@ == old(self).actions@.push(VtAction::Execute(byte)),
    {
        self.actions.push(VtAction::Execute(byte));
    }

    fn hook(&mut self, params: &vte::Params, intermediates: &[u8], ignore: bool, action: char)
        ensures
            final(self).actions@.len() == old(self).actions@.len() + 1,
            final(self).actions@.drop_last() == old(self).actions@,
            match final(self).actions@.last() {
                VtAction::Hook { params: p, intermediates: i, ignore: g, action: a } => {
                    &&& holds_params(p, params_contents(*params))
                    &&& i@ == intermediates@
                    &&& g == ignore
                    &&& a == action
                },
                _ => false,
            },
    {
        self.actions.push(
            VtAction::Hook {
                params: params_to_vec(params),
                intermediates: slice_to_vec(intermediates),
                ignore,
                action,
            },
        );
    }

    fn put(&mut self, byte: u8)
        ensures
            final(self).actions@ == old(self).actions@.push(VtAction::Put(byte)),
    {
        self.actions.push(VtAction::Put(byte));
    }

    fn unhook(&mut self)
        ensures
            final(self).actions@ == old(self).actions@.push(VtAction::Unhook),
    {
        self.actions.push(VtAction::Unhook);
    }

    fn osc_dispatch(&mut self, params: &[&[u8]], bell_terminated: bool)
        ensures
            final(self).actions@.len() == old(self).actions@.len() + 1,
            final(self).actions@.drop_last() == old(self).actions@,
            match final(self).actions@.last() {
                VtAction::OscDispatch { params: p, bell_terminated: b } => {
                    &&& holds_strings(p, params@)
                    &&& b == bell_terminated
                },
                _ => false,
            },
    {
        self.actions.push(
            VtAction::OscDispatch { params: copy_osc_params(params), bell_terminated },
        );
    }

    fn csi_dispatch(
        &mut self,
        params: &vte::Params,
        intermediates: &[u8],
        ignore: bool,
        action: char,
    )
        ensures
            final(self).actions@.len() == old(self).actions@.len() + 1,
            final(self).actions@.drop_last() == old(self).actions@,
            match final(self).actions@.last() {
                VtAction::CsiDispatch { params: p, intermediates: i, ignore: g, action: a } => {
                    &&& holds_params(p, params_contents(*params))
                    &&& i@ == intermediates@
                    &&& g == ignore
                    &&& a == action
                },
                _ => false,
            },
    {
        self.actions.push(
            VtAction::CsiDispatch {
                params: params_to_vec(params),
                intermediates: slice_to_vec(intermediates),
                ignore,
                action,
            },
        );
    }

    fn esc_dispatch(&mut self, intermediates: &[u8], ignore: bool, byte: u8)
        ensures
            final(self).actions@.len() == old(self).actions@.len() + 1,
            final(self).actions@.drop_last() == old(self).actions@,
            match final(self).actions@.last() {
                VtAction::EscDispatch { intermediates: i, ignore: g, byte: b } => {
                    &&& i@ == intermediates@
                    &&& g == ignore
                    &&& b == byte
                },
                _ => false,
            },
    {
        self.actions.push(
            VtAction::EscDispatch { intermediates: slice_to_vec(intermediates), ignore, byte },
        );
    }
}

/// The actions that the VT500-series state machine of the parser crate
/// dispatches, in order, when it takes `byte` after it took the bytes `fed`
/// since it was made.
pub uninterp spec fn vt_actions(fed: Seq<u8>, byte: u8) -> Seq<VtAction>;

/// The VT state machine, together with the bytes it has taken so far.
pub struct VtParser {
    inner: vte::Parser,
    fed: Ghost<Seq<u8>>,
}

impl VtParser {
    /// The bytes taken since the parser was made.
    pub closed spec fn fed(&self) -> Seq<u8> {
        self.fed@
    }

    /// Calls `vte::Parser::new`: a parser in the ground state, which has
    /// taken no byte.
    #[verifier::external_body]
    pub(crate) fn new() -> (parser: VtParser)
        ensures
            parser.fed() == Seq::<u8>::empty(),
    {
        VtParser { inner: vte::Parser::new(), fed: Ghost(Seq::empty()) }
    }

    /// Calls `vte::Parser::advance` with a performer that records each
    /// dispatched action. The parser is a deterministic state machine, so
    /// what it dispatches depends on the bytes taken before and on `byte`
    /// alone; the contract names that result and claims nothing else of it.
    #[verifier::external_body]
    pub(crate) fn advance(&mut self, byte: u8) -> (actions: Vec<VtAction>)
        ensures
            actions@ == vt_actions(old(self).fed(), byte),
            final(self).fed() == old(self).fed().push(byte),
    {
        let mut log = ActionLog { actions: Vec::new() };
        self.inner.advance(&mut log, byte);
        log.actions
    }
}

} // verus!

//! How a helper is found and started. Nothing is run here: a `Program` only
//! says which process to start for a verb.

use crate::bytes::append;
use crate::bytes::copy_bytes;
use crate::bytes::copy_range;
use vstd::prelude::*;

verus! {

/// The bytes of `git`.
pub const GIT: [u8; 3] = [103, 105, 116];

/// The bytes of `credential`.
pub const CREDENTIAL: [u8; 10] = [99, 114, 101, 100, 101, 110, 116, 105, 97, 108];

/// The bytes of `credential-`.
pub const CREDENTIAL_DASH: [u8; 11] = [99, 114, 101, 100, 101, 110, 116, 105, 97, 108, 45];

/// The bytes of `sh`.
pub const SH: [u8; 2] = [115, 104];

/// The bytes of `-c`.
pub const DASH_C: [u8; 2] = [45, 99];

/// The bytes of `--`.
pub const DASH_DASH: [u8; 2] = [45, 45];

/// The bytes of ` "$@"`, which hands the arguments of the shell on to the
/// command that it ends.
pub const HAND_ON: [u8; 5] = [32, 34, 36, 64, 34];

/// The bytes of `get`.
pub const GET: [u8; 3] = [103, 101, 116];

/// The bytes of `store`.
pub const STORE: [u8; 5] = [115, 116, 111, 114, 101];

/// The bytes of `erase`.
pub const ERASE: [u8; 5] = [101, 114, 97, 115, 101];

/// Marks a definition as a shell snippet.
pub const BANG: u8 = 33;

/// Starts an absolute path.
pub const SLASH: u8 = 47;

/// What a helper is asked to do.
#[derive(Clone, Copy, Debug, PartialEq, Eq, Structural)]
pub enum Verb {
    /// Hand out the credentials for a context.
    Get,
    /// Keep the credentials: they worked.
    Store,
    /// Forget the credentials: they were refused.
    Erase,
}

impl Verb {
    /// The word that a helper receives as its argument.
    pub open spec fn name(self) -> Seq<u8> {
        match self {
            Verb::Get => GET@,
            Verb::Store => STORE@,
            Verb::Erase => ERASE@,
        }
    }

    /// Whether the helper's exit status and output count: they do for `Get`
    /// alone. `Store` and `Erase` only notify the helper.
    pub open spec fn is_strict(self) -> bool {
        self is Get
    }

    /// The word that a helper receives as its argument.
    pub fn as_arg(self) -> (word: Vec<u8>)
        ensures
            word@ == self.name(),
    {
        match self {
            Verb::Get => copy_bytes(GET.as_slice()),
            Verb::Store => copy_bytes(STORE.as_slice()),
            Verb::Erase => copy_bytes(ERASE.as_slice()),
        }
    }

    /// Whether the helper's exit status and output count.
    pub fn strict(self) -> (strict: bool)
        ensures
            strict == self.is_strict(),
    {
        match self {
            Verb::Get => true,
            Verb::Store => false,
            Verb::Erase => false,
        }
    }
}

/// The ways to name a helper.
#[derive(Clone, Debug, PartialEq, Eq)]
pub enum HelperKind {
    /// The toolkit's own helper, `git credential`.
    Builtin,
    /// The path of a script, which is handed to a shell and so need not be
    /// executable.
    ExternalShellScript(Vec<u8>),
    /// A helper as a configuration names it: a shell snippet after `!`, an
    /// absolute path, or the name of a `git credential-<name>` helper.
    CustomDefinition(Vec<u8>),
}

/// A `HelperKind` as a mathematical value.
pub ghost enum HelperKindView {
    Builtin,
    ExternalShellScript(Seq<u8>),
    CustomDefinition(Seq<u8>),
}

impl View for HelperKind {
    type V = HelperKindView;

    open spec fn view(&self) -> HelperKindView {
        match self {
            HelperKind::Builtin => HelperKindView::Builtin,
            HelperKind::ExternalShellScript(path) => HelperKindView::ExternalShellScript(path@),
            HelperKind::CustomDefinition(text) => HelperKindView::CustomDefinition(text@),
        }
    }
}

/// A helper, and whether what it writes to standard error is thrown away.
#[derive(Clone, Debug, PartialEq, Eq)]
pub struct Program {
    /// How the helper is named.
    pub kind: HelperKind,
    /// Whether the helper's standard error is discarded, not inherited.
    pub discard_stderr: bool,
}

/// A process to start: the executable, its arguments, and what becomes of
/// its standard error.
#[derive(Clone, Debug, PartialEq, Eq)]
pub struct ProcessSpec {
    /// The executable, which the operating system looks up if it is no path.
    pub executable: Vec<u8>,
    /// The arguments, the verb last.
    pub args: Vec<Vec<u8>>,
    /// Whether standard error is discarded, not inherited.
    pub discard_stderr: bool,
}

/// A `ProcessSpec` as a mathematical value.
pub ghost struct ProcessSpecView {
    pub executable: Seq<u8>,
    pub args: Seq<Seq<u8>>,
    pub discard_stderr: bool,
}

/// The byte strings that a list of buffers holds.
pub open spec fn views(buffers: Seq<Vec<u8>>) -> Seq<Seq<u8>> {
    Seq::new(buffers.len(), |i: int| buffers[i]@)
}

impl View for ProcessSpec {
    type V = ProcessSpecView;

    open spec fn view(&self) -> ProcessSpecView {
        ProcessSpecView {
            executable: self.executable@,
            args: views(self.args@),
            discard_stderr: self.discard_stderr,
        }
    }
}

/// Whether a definition is a shell snippet: it begins with `!`.
pub open spec fn is_snippet(text: Seq<u8>) -> bool {
    text.len() > 0 && text[0] == BANG
}

/// Whether a definition is an absolute path: it begins with `/`.
pub open spec fn is_path(text: Seq<u8>) -> bool {
    text.len() > 0 && text[0] == SLASH
}

/// The executable and the arguments that run a helper with a verb.
///
/// - The toolkit's own helper is `git credential <verb>`.
/// - A script is `sh <path> <verb>`.
/// - A snippet is `sh -c '<snippet> "$@"' -- <verb>`, so that the snippet
///   finds the verb as its first argument.
/// - An absolute path is run as it is: `<path> <verb>`.
/// - Any other definition is a name: `git credential-<name> <verb>`.
pub open spec fn command(kind: HelperKindView, verb: Verb) -> (Seq<u8>, Seq<Seq<u8>>) {
    match kind {
        HelperKindView::Builtin => (GIT@, seq![CREDENTIAL@, verb.name()]),
        HelperKindView::ExternalShellScript(path) => (SH@, seq![path, verb.name()]),
        HelperKindView::CustomDefinition(text) => if is_snippet(text) {
            (SH@, seq![DASH_C@, text.skip(1) + HAND_ON@, DASH_DASH@, verb.name()])
        } else if is_path(text) {
            (text, seq![verb.name()])
        } else {
            (GIT@, seq![CREDENTIAL_DASH@ + text, verb.name()])
        },
    }
}

impl Program {
    /// The process that runs this helper with `verb`.
    pub open spec fn resolved(self, verb: Verb) -> ProcessSpecView {
        ProcessSpecView {
            executable: command(self.kind@, verb).0,
            args: command(self.kind@, verb).1,
            discard_stderr: self.discard_stderr,
        }
    }

    /// A helper of the given kind, whose standard error is inherited.
    pub fn from_kind(kind: HelperKind) -> (program: Program)
        ensures
            program.kind == kind,
            !program.discard_stderr,
    {
        Program { kind, discard_stderr: false }
    }

    /// A helper as a configuration names it, whose standard error is
    /// inherited.
    pub fn from_custom_definition(text: Vec<u8>) -> (program: Program)
        ensures
            program.kind == HelperKind::CustomDefinition(text),
            !program.discard_stderr,
    {
        Program { kind: HelperKind::CustomDefinition(text), discard_stderr: false }
    }

    /// The same helper, with its standard error thrown away.
    pub fn suppress_stderr(self) -> (program: Program)
        ensures
            program.kind == self.kind,
            program.discard_stderr,
    {
        Program { kind: self.kind, discard_stderr: true }
    }

    /// The process that runs this helper with `verb`. Nothing is started.
    pub fn resolve(&self, verb: Verb) -> (process: ProcessSpec)
        ensures
            process@ == self.resolved(verb),
    {
        let mut args: Vec<Vec<u8>> = Vec::new();
        let executable = match &self.kind {
            HelperKind::Builtin => {
                args.push(copy_bytes(CREDENTIAL.as_slice()));
                copy_bytes(GIT.as_slice())
            },
            HelperKind::ExternalShellScript(path) => {
                args.push(copy_bytes(path.as_slice()));
                copy_bytes(SH.as_slice())
            },
            HelperKind::CustomDefinition(text) => {
                if text.len() > 0 && text[0] == BANG {
                    let mut script = copy_range(text.as_slice(), 1, text.len());
                    append(&mut script, HAND_ON.as_slice());
                    args.push(copy_bytes(DASH_C.as_slice()));
                    args.push(script);
                    args.push(copy_bytes(DASH_DASH.as_slice()));
                    copy_bytes(SH.as_slice())
                } else if text.len() > 0 && text[0] == SLASH {
                    copy_bytes(text.as_slice())
                } else {
                    let mut helper = copy_bytes(CREDENTIAL_DASH.as_slice());
                    append(&mut helper, text.as_slice());
                    args.push(helper);
                    copy_bytes(GIT.as_slice())
                }
            },
        };
        args.push(verb.as_arg());
        assert(views(args@) =~= command(self.kind@, verb).1);
        ProcessSpec { executable, args, discard_stderr: self.discard_stderr }
    }
}

/// Whatever the helper, the verb is the last argument of its process.
pub proof fn lemma_verb_is_last_argument(program: Program, verb: Verb)
    ensures
        program.resolved(verb).args.len() > 0,
        program.resolved(verb).args.last() == verb.name(),
{
}

} // verus!

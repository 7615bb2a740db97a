//! One exchange with a helper: what to start and what to send, and what to
//! make of the way it ended. Starting the process is left to the caller.

use crate::credentials::context::decoded;
use crate::credentials::context::Context;
use crate::credentials::context::ContextView;
use crate::credentials::context::Field;
use crate::credentials::program::ProcessSpec;
use crate::credentials::program::Program;
use crate::credentials::program::Verb;
use vstd::prelude::*;

verus! {

/// Why an exchange with a helper, or the use of its answer, failed.
#[derive(Clone, Copy, Debug, PartialEq, Eq)]
pub enum Error {
    /// The helper could not be started.
    SpawnFailed,
    /// The helper was asked for credentials and exited with a status other
    /// than zero, or was ended by a signal, in which case there is no code.
    CredentialsHelperFailed { code: Option<i32> },
    /// The helper's answer holds a line without `=`.
    ProtocolViolation,
    /// The answer lacks the username or the password.
    IncompleteIdentity,
    /// The value of `field` holds a newline or a NUL byte, so the context
    /// cannot be sent.
    IllegalValue { field: Field },
}

/// A request to a helper.
#[derive(Clone, Debug, PartialEq, Eq)]
pub enum Action {
    /// Ask for the credentials that belong to the context.
    Get(Context),
    /// Tell the helper that the credentials in the context worked.
    Store(Context),
    /// Tell the helper that the credentials in the context were refused.
    Erase(Context),
}

impl Action {
    /// The verb of the request.
    pub open spec fn spec_verb(&self) -> Verb {
        match self {
            Action::Get(_) => Verb::Get,
            Action::Store(_) => Verb::Store,
            Action::Erase(_) => Verb::Erase,
        }
    }

    /// The context that the request is about.
    pub open spec fn spec_context(&self) -> &Context {
        match self {
            Action::Get(context) => context,
            Action::Store(context) => context,
            Action::Erase(context) => context,
        }
    }

    /// A request for the credentials of `url`.
    pub fn get_for_url(url: Vec<u8>) -> (action: Action)
        ensures
            action is Get,
            action.spec_context()@ == (ContextView { url: Some(url@), ..ContextView::empty() }),
    {
        let mut context = Context::default();
        context.url = Some(url);
        Action::Get(context)
    }

    /// The verb of the request.
    #[verifier::when_used_as_spec(spec_verb)]
    pub fn verb(&self) -> (verb: Verb)
        ensures
            verb == self.spec_verb(),
    {
        match self {
            Action::Get(_) => Verb::Get,
            Action::Store(_) => Verb::Store,
            Action::Erase(_) => Verb::Erase,
        }
    }

    /// The context that the request is about.
    #[verifier::when_used_as_spec(spec_context)]
    pub fn context(&self) -> (context: &Context)
        ensures
            context == self.spec_context(),
    {
        match self {
            Action::Get(context) => context,
            Action::Store(context) => context,
            Action::Erase(context) => context,
        }
    }

    /// Whether the helper is expected to answer: only a `Get` is.
    pub fn expects_output(&self) -> (expected: bool)
        ensures
            expected == self.verb().is_strict(),
    {
        self.verb().strict()
    }

    /// What is written to the helper's standard input: the wire format of
    /// the context. Fails exactly if a value of the context cannot be sent.
    pub fn payload(&self) -> (result: Result<Vec<u8>, Error>)
        ensures
            match result {
                Ok(bytes) => self.context()@.encodable() && bytes@ == self.context()@.encoded(),
                Err(error) => self.context()@.first_illegal() matches Some(field) && error
                    == (Error::IllegalValue { field }),
            },
    {
        match self.context().to_bytes() {
            Ok(bytes) => Ok(bytes),
            Err(illegal) => Err(Error::IllegalValue { field: illegal.field }),
        }
    }
}

/// The follow-up to an answer: the requests that report whether the
/// credentials of the answer worked.
#[derive(Clone, Debug, PartialEq, Eq)]
pub struct NextAction {
    answer: Context,
}

impl NextAction {
    /// The answer that the follow-up requests carry.
    pub closed spec fn answer(&self) -> ContextView {
        self.answer@
    }

    /// The follow-up to `answer`.
    pub fn new(answer: Context) -> (next: NextAction)
        ensures
            next.answer() == answer@,
    {
        NextAction { answer }
    }

    /// The request that tells the helper to keep the credentials. It carries
    /// the whole answer, `quit` included.
    pub fn store(&self) -> (action: Action)
        ensures
            action is Store,
            action.context()@ == self.answer(),
    {
        Action::Store(self.answer.duplicate())
    }

    /// The request that tells the helper to forget the credentials. It
    /// carries the whole answer, `quit` included.
    pub fn erase(&self) -> (action: Action)
        ensures
            action is Erase,
            action.context()@ == self.answer(),
    {
        Action::Erase(self.answer.duplicate())
    }
}

/// A username and the password that goes with it.
#[derive(Clone, Debug, PartialEq, Eq)]
pub struct Account {
    pub username: Vec<u8>,
    pub password: Vec<u8>,
}

/// What a helper answered to a `Get`.
#[derive(Clone, Debug, PartialEq, Eq)]
pub struct Outcome {
    /// The answer.
    pub context: Context,
    /// The requests to make once it is known whether the credentials work.
    pub next: NextAction,
}

impl Outcome {
    /// Takes the username and the password out of the answer. If either is
    /// absent, the answer stays as it is and nothing is handed out.
    pub fn consume_identity(&mut self) -> (result: Result<Account, Error>)
        ensures
            final(self).next == old(self).next,
            match result {
                Ok(account) => {
                    &&& old(self).context@.username == Some(account.username@)
                    &&& old(self).context@.password == Some(account.password@)
                    &&& final(self).context@ == (ContextView {
                        username: None,
                        password: None,
                        ..old(self).context@
                    })
                },
                Err(error) => {
                    &&& error == Error::IncompleteIdentity
                    &&& old(self).context.username is None || old(self).context.password is None
                    &&& final(self).context == old(self).context
                },
            },
    {
        if self.context.username.is_none() || self.context.password.is_none() {
            return Err(Error::IncompleteIdentity);
        }
        let username = self.context.username.take().unwrap();
        let password = self.context.password.take().unwrap();
        Ok(Account { username, password })
    }
}

/// What to start and what to write to its standard input.
#[derive(Clone, Debug, PartialEq, Eq)]
pub struct Invocation {
    /// The process to start.
    pub process: ProcessSpec,
    /// What the process is sent before its standard input is closed.
    pub input: Vec<u8>,
}

/// How an attempt to run a helper ended.
#[derive(Clone, Debug, PartialEq, Eq)]
pub enum Exchange {
    /// The process could not be started.
    NotLaunched,
    /// The process ran and ended.
    Exited {
        /// The exit status, or nothing if a signal ended the process.
        code: Option<i32>,
        /// What the process wrote to its standard output.
        output: Vec<u8>,
    },
}

/// What an exchange amounts to, by verb.
///
/// - A helper that could not be started is an error for every verb.
/// - `Store` and `Erase` expect nothing back: once the helper ran, there is
///   no outcome and no error, whatever its exit status.
/// - `Get` fails if the exit status is not zero. With status zero, empty
///   output means that the helper has no credentials, and other output is
///   the answer, which must be well-formed.
pub open spec fn concluded(verb: Verb, exchange: Exchange) -> Result<Option<ContextView>, Error> {
    match exchange {
        Exchange::NotLaunched => Err(Error::SpawnFailed),
        Exchange::Exited { code, output } => if !verb.is_strict() {
            Ok(None)
        } else if code != Some(0i32) {
            Err(Error::CredentialsHelperFailed { code })
        } else if output@.len() == 0 {
            Ok(None)
        } else {
            match decoded(output@) {
                Some(answer) => Ok(Some(answer)),
                None => Err(Error::ProtocolViolation),
            }
        },
    }
}

/// The first step of an exchange: the process that `program` names for the
/// verb of `action`, and the context of `action` in its wire format. Fails
/// exactly if a value of the context cannot be sent.
pub fn prepare(program: &Program, action: &Action) -> (result: Result<Invocation, Error>)
    ensures
        match result {
            Ok(invocation) => {
                &&& action.context()@.encodable()
                &&& invocation.process@ == program.resolved(action.verb())
                &&& invocation.input@ == action.context()@.encoded()
            },
            Err(error) => action.context()@.first_illegal() matches Some(field) && error
                == (Error::IllegalValue { field }),
        },
{
    match action.payload() {
        Ok(input) => Ok(Invocation { process: program.resolve(action.verb()), input }),
        Err(error) => Err(error),
    }
}

/// The last step of an exchange: what the way in which the helper ended
/// means for `action`.
pub fn conclude(action: &Action, exchange: &Exchange) -> (result: Result<Option<Outcome>, Error>)
    ensures
        match result {
            Ok(Some(outcome)) => {
                &&& concluded(action.verb(), *exchange) == Ok::<Option<ContextView>, Error>(
                    Some(outcome.context@),
                )
                &&& outcome.next.answer() == outcome.context@
            },
            Ok(None) => concluded(action.verb(), *exchange) == Ok::<Option<ContextView>, Error>(
                None,
            ),
            Err(error) => concluded(action.verb(), *exchange) == Err::<Option<ContextView>, Error>(
                error,
            ),
        },
{
    match exchange {
        Exchange::NotLaunched => Err(Error::SpawnFailed),
        Exchange::Exited { code, output } => {
            if !action.expects_output() {
                return Ok(None);
            }
            let succeeded = match code {
                Some(status) => *status == 0,
                None => false,
            };
            if !succeeded {
                return Err(Error::CredentialsHelperFailed { code: *code });
            }
            if output.len() == 0 {
                return Ok(None);
            }
            match Context::from_bytes(output.as_slice()) {
                Ok(context) => {
                    let next = NextAction::new(context.duplicate());
                    Ok(Some(Outcome { context, next }))
                },
                Err(_) => Err(Error::ProtocolViolation),
            }
        },
    }
}

/// Once the helper ran, a `Store` or an `Erase` has no outcome and does not
/// fail, whatever the helper's exit status and output.
pub proof fn lemma_notification_cannot_fail(verb: Verb, exchange: Exchange)
    requires
        verb is Store || verb is Erase,
        exchange is Exited,
    ensures
        concluded(verb, exchange) == Ok::<Option<ContextView>, Error>(None),
{
}

/// Nothing is kept between exchanges, so a `Store` that is made again ends
/// as the first did, however the helper ended each time: with no outcome
/// and no error if the helper could be started, with `SpawnFailed` if not.
pub proof fn lemma_store_again(first: Exchange, second: Exchange)
    requires
        first is Exited <==> second is Exited,
    ensures
        concluded(Verb::Store, first) == concluded(Verb::Store, second),
{
}

} // verus!

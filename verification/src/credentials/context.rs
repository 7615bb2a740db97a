//! The record exchanged with a credential helper, and its wire format: one
//! `key=value` line per field that is present.

use crate::bytes::append;
use crate::bytes::contains_byte;
use crate::bytes::copy_bytes;
use crate::bytes::copy_range;
use crate::bytes::find_byte;
use crate::bytes::first_index;
use crate::bytes::free_of;
use crate::bytes::lemma_first_index;
use crate::bytes::same_bytes;
use vstd::prelude::*;
use vstd::slice::slice_subrange;

verus! {

/// Ends a line.
pub const NEWLINE: u8 = 10;

/// Separates a key from its value.
pub const EQUALS: u8 = 61;

/// May not occur in a value that is sent.
pub const NUL: u8 = 0;

/// The bytes of `url`.
pub const URL: [u8; 3] = [117, 114, 108];

/// The bytes of `protocol`.
pub const PROTOCOL: [u8; 8] = [112, 114, 111, 116, 111, 99, 111, 108];

/// The bytes of `host`.
pub const HOST: [u8; 4] = [104, 111, 115, 116];

/// The bytes of `path`.
pub const PATH: [u8; 4] = [112, 97, 116, 104];

/// The bytes of `username`.
pub const USERNAME: [u8; 8] = [117, 115, 101, 114, 110, 97, 109, 101];

/// The bytes of `password`.
pub const PASSWORD: [u8; 8] = [112, 97, 115, 115, 119, 111, 114, 100];

/// The bytes of `quit`.
pub const QUIT: [u8; 4] = [113, 117, 105, 116];

/// The value with which `quit` is sent.
pub const ONE: [u8; 1] = [49];

/// The other value that sets `quit` when it is received.
pub const TRUE: [u8; 4] = [116, 114, 117, 101];

/// The fields of a context that hold a byte string.
#[derive(Clone, Copy, Debug, PartialEq, Eq, Structural)]
pub enum Field {
    Url,
    Protocol,
    Host,
    Path,
    Username,
    Password,
}

/// Why a context could not be written: the value of `field` holds a newline
/// or a NUL byte, so it cannot be sent as a line.
#[derive(Clone, Copy, Debug, PartialEq, Eq, Structural)]
pub struct IllegalValue {
    pub field: Field,
}

/// Why a context could not be read: a line has no `=` in it.
#[derive(Clone, Copy, Debug, PartialEq, Eq, Structural)]
pub struct MissingSeparator;

/// What a helper is asked about, and what it answers.
#[derive(Clone, Debug, PartialEq, Eq)]
pub struct Context {
    /// The URL that the credentials are for.
    pub url: Option<Vec<u8>>,
    /// The scheme of the URL, such as `https`.
    pub protocol: Option<Vec<u8>>,
    /// The host of the URL, with the port if there is one.
    pub host: Option<Vec<u8>>,
    /// The path of the URL.
    pub path: Option<Vec<u8>>,
    /// The name to authenticate with.
    pub username: Option<Vec<u8>>,
    /// The secret to authenticate with.
    pub password: Option<Vec<u8>>,
    /// Set if no further helper is to be asked after this one.
    pub quit: bool,
}

/// A `Context` as a mathematical value.
pub ghost struct ContextView {
    pub url: Option<Seq<u8>>,
    pub protocol: Option<Seq<u8>>,
    pub host: Option<Seq<u8>>,
    pub path: Option<Seq<u8>>,
    pub username: Option<Seq<u8>>,
    pub password: Option<Seq<u8>>,
    pub quit: bool,
}

/// The byte string that an optional buffer holds, if any.
pub open spec fn view_of(value: Option<Vec<u8>>) -> Option<Seq<u8>> {
    match value {
        Some(bytes) => Some(bytes@),
        None => None,
    }
}

impl View for Context {
    type V = ContextView;

    open spec fn view(&self) -> ContextView {
        ContextView {
            url: view_of(self.url),
            protocol: view_of(self.protocol),
            host: view_of(self.host),
            path: view_of(self.path),
            username: view_of(self.username),
            password: view_of(self.password),
            quit: self.quit,
        }
    }
}

/// Whether a value can be sent: it holds neither a newline nor a NUL byte.
pub open spec fn wire_safe(value: Seq<u8>) -> bool {
    free_of(value, NEWLINE) && free_of(value, NUL)
}

/// Whether a value is absent or can be sent.
pub open spec fn absent_or_safe(value: Option<Seq<u8>>) -> bool {
    match value {
        Some(bytes) => wire_safe(bytes),
        None => true,
    }
}

/// The line that carries `value` under `key`.
pub open spec fn line(key: Seq<u8>, value: Seq<u8>) -> Seq<u8> {
    key + seq![EQUALS] + value + seq![NEWLINE]
}

/// The line of a field, or nothing if the field is absent.
pub open spec fn optional_line(key: Seq<u8>, value: Option<Seq<u8>>) -> Seq<u8> {
    match value {
        Some(bytes) => line(key, bytes),
        None => Seq::empty(),
    }
}

/// The line `quit=1` if the flag is set, else nothing.
pub open spec fn quit_line(quit: bool) -> Seq<u8> {
    if quit {
        line(QUIT@, ONE@)
    } else {
        Seq::empty()
    }
}

/// Whether a received value of `quit` sets the flag: `1` and `true` do.
pub open spec fn sets_quit(value: Seq<u8>) -> bool {
    value == ONE@ || value == TRUE@
}

impl ContextView {
    /// The context with no field present and `quit` unset.
    pub open spec fn empty() -> ContextView {
        ContextView {
            url: None,
            protocol: None,
            host: None,
            path: None,
            username: None,
            password: None,
            quit: false,
        }
    }

    /// The first field, in the order of the wire format, whose value cannot
    /// be sent.
    pub open spec fn first_illegal(self) -> Option<Field> {
        if !absent_or_safe(self.url) {
            Some(Field::Url)
        } else if !absent_or_safe(self.protocol) {
            Some(Field::Protocol)
        } else if !absent_or_safe(self.host) {
            Some(Field::Host)
        } else if !absent_or_safe(self.path) {
            Some(Field::Path)
        } else if !absent_or_safe(self.username) {
            Some(Field::Username)
        } else if !absent_or_safe(self.password) {
            Some(Field::Password)
        } else {
            None
        }
    }

    /// Whether every value that is present can be sent.
    pub open spec fn encodable(self) -> bool {
        self.first_illegal() is None
    }

    /// The wire format: the lines of the fields that are present, in the
    /// order url, protocol, host, path, username, password, quit.
    pub open spec fn encoded(self) -> Seq<u8> {
        optional_line(URL@, self.url) + optional_line(PROTOCOL@, self.protocol) + optional_line(
            HOST@,
            self.host,
        ) + optional_line(PATH@, self.path) + optional_line(USERNAME@, self.username)
            + optional_line(PASSWORD@, self.password) + quit_line(self.quit)
    }

    /// The context after a line `key=value` was received. A key that is not
    /// known changes nothing; a key that was seen before is overwritten.
    pub open spec fn with_field(self, key: Seq<u8>, value: Seq<u8>) -> ContextView {
        if key == URL@ {
            ContextView { url: Some(value), ..self }
        } else if key == PROTOCOL@ {
            ContextView { protocol: Some(value), ..self }
        } else if key == HOST@ {
            ContextView { host: Some(value), ..self }
        } else if key == PATH@ {
            ContextView { path: Some(value), ..self }
        } else if key == USERNAME@ {
            ContextView { username: Some(value), ..self }
        } else if key == PASSWORD@ {
            ContextView { password: Some(value), ..self }
        } else if key == QUIT@ {
            ContextView { quit: sets_quit(value), ..self }
        } else {
            self
        }
    }

    /// The context after an optional field was received.
    pub open spec fn with_optional(self, key: Seq<u8>, value: Option<Seq<u8>>) -> ContextView {
        match value {
            Some(bytes) => self.with_field(key, bytes),
            None => self,
        }
    }
}

/// Reads lines from `input` into `context` until the input ends or a line is
/// empty. `None` if one of the lines read has no `=`.
pub open spec fn decode_lines(input: Seq<u8>, context: ContextView) -> Option<ContextView>
    decreases input.len(),
{
    let end = first_index(input, NEWLINE);
    let text = input.take(end);
    let separator = first_index(text, EQUALS);
    if end <= 0 {
        Some(context)
    } else if separator >= end {
        None
    } else {
        let next = context.with_field(text.take(separator), text.skip(separator + 1));
        if end >= input.len() {
            Some(next)
        } else {
            decode_lines(input.skip(end + 1), next)
        }
    }
}

/// The context that `input` describes, if it is well-formed.
pub open spec fn decoded(input: Seq<u8>) -> Option<ContextView> {
    decode_lines(input, ContextView::empty())
}

impl Default for Context {
    /// The context with no field present and `quit` unset.
    fn default() -> (context: Context)
        ensures
            context@ == ContextView::empty(),
    {
        Context {
            url: None,
            protocol: None,
            host: None,
            path: None,
            username: None,
            password: None,
            quit: false,
        }
    }
}

/// A copy of an optional buffer.
pub fn copy_optional(value: &Option<Vec<u8>>) -> (copy: Option<Vec<u8>>)
    ensures
        view_of(copy) == view_of(*value),
{
    match value {
        Some(bytes) => Some(copy_bytes(bytes.as_slice())),
        None => None,
    }
}

/// Whether `value` can be sent.
pub fn is_wire_safe(value: &[u8]) -> (safe: bool)
    ensures
        safe == wire_safe(value@),
{
    !contains_byte(value, NEWLINE) && !contains_byte(value, NUL)
}

fn is_absent_or_safe(value: &Option<Vec<u8>>) -> (safe: bool)
    ensures
        safe == absent_or_safe(view_of(*value)),
{
    match value {
        Some(bytes) => is_wire_safe(bytes.as_slice()),
        None => true,
    }
}

/// Appending to what was appended is appending both at once.
proof fn lemma_appended(before: Seq<u8>, sent: Seq<u8>, more: Seq<u8>)
    ensures
        (before + sent) + more == before + (sent + more),
{
    assert((before + sent) + more =~= before + (sent + more));
}

fn write_line(out: &mut Vec<u8>, key: &[u8], value: &[u8])
    ensures
        final(out)@ == old(out)@ + line(key@, value@),
{
    append(out, key);
    out.push(EQUALS);
    append(out, value);
    out.push(NEWLINE);
    assert(out@ =~= old(out)@ + line(key@, value@));
}

fn write_optional(out: &mut Vec<u8>, key: &[u8], value: &Option<Vec<u8>>)
    ensures
        final(out)@ == old(out)@ + optional_line(key@, view_of(*value)),
{
    match value {
        Some(bytes) => write_line(out, key, bytes.as_slice()),
        None => {
            assert(out@ =~= old(out)@ + Seq::<u8>::empty());
        },
    }
}

impl Context {
    /// A copy of the context.
    pub fn duplicate(&self) -> (copy: Context)
        ensures
            copy@ == self@,
    {
        Context {
            url: copy_optional(&self.url),
            protocol: copy_optional(&self.protocol),
            host: copy_optional(&self.host),
            path: copy_optional(&self.path),
            username: copy_optional(&self.username),
            password: copy_optional(&self.password),
            quit: self.quit,
        }
    }

    /// The first field, in the order of the wire format, whose value holds a
    /// newline or a NUL byte.
    pub fn first_illegal(&self) -> (field: Option<Field>)
        ensures
            field == self@.first_illegal(),
    {
        if !is_absent_or_safe(&self.url) {
            Some(Field::Url)
        } else if !is_absent_or_safe(&self.protocol) {
            Some(Field::Protocol)
        } else if !is_absent_or_safe(&self.host) {
            Some(Field::Host)
        } else if !is_absent_or_safe(&self.path) {
            Some(Field::Path)
        } else if !is_absent_or_safe(&self.username) {
            Some(Field::Username)
        } else if !is_absent_or_safe(&self.password) {
            Some(Field::Password)
        } else {
            None
        }
    }

    /// Appends the line of every field that is present to `out`.
    fn write_fields(&self, out: &mut Vec<u8>)
        ensures
            final(out)@ == old(out)@ + self@.encoded(),
    {
        let ghost before = out@;
        let ghost view = self@;
        write_optional(out, URL.as_slice(), &self.url);
        let ghost sent = optional_line(URL@, view.url);
        write_optional(out, PROTOCOL.as_slice(), &self.protocol);
        proof {
            lemma_appended(before, sent, optional_line(PROTOCOL@, view.protocol));
        }
        let ghost sent = sent + optional_line(PROTOCOL@, view.protocol);
        write_optional(out, HOST.as_slice(), &self.host);
        proof {
            lemma_appended(before, sent, optional_line(HOST@, view.host));
        }
        let ghost sent = sent + optional_line(HOST@, view.host);
        write_optional(out, PATH.as_slice(), &self.path);
        proof {
            lemma_appended(before, sent, optional_line(PATH@, view.path));
        }
        let ghost sent = sent + optional_line(PATH@, view.path);
        write_optional(out, USERNAME.as_slice(), &self.username);
        proof {
            lemma_appended(before, sent, optional_line(USERNAME@, view.username));
        }
        let ghost sent = sent + optional_line(USERNAME@, view.username);
        write_optional(out, PASSWORD.as_slice(), &self.password);
        proof {
            lemma_appended(before, sent, optional_line(PASSWORD@, view.password));
        }
        let ghost sent = sent + optional_line(PASSWORD@, view.password);
        let ghost last = out@;
        if self.quit {
            write_line(out, QUIT.as_slice(), ONE.as_slice());
        } else {
            assert(last + quit_line(false) =~= last);
        }
        proof {
            lemma_appended(before, sent, quit_line(view.quit));
        }
    }

    /// Appends the wire format of the context to `out`. If a value cannot be
    /// sent, nothing is appended and the error names the first such field.
    pub fn write_to(&self, out: &mut Vec<u8>) -> (result: Result<(), IllegalValue>)
        ensures
            match result {
                Ok(_) => self@.encodable() && final(out)@ == old(out)@ + self@.encoded(),
                Err(error) => self@.first_illegal() == Some(error.field) && final(out)@ == old(
                    out,
                )@,
            },
    {
        match self.first_illegal() {
            Some(field) => Err(IllegalValue { field }),
            None => {
                self.write_fields(out);
                Ok(())
            },
        }
    }

    /// The wire format of the context, or the first field whose value cannot
    /// be sent.
    pub fn to_bytes(&self) -> (result: Result<Vec<u8>, IllegalValue>)
        ensures
            match result {
                Ok(bytes) => self@.encodable() && bytes@ == self@.encoded(),
                Err(error) => self@.first_illegal() == Some(error.field),
            },
    {
        let mut out: Vec<u8> = Vec::new();
        match self.write_to(&mut out) {
            Ok(_) => {
                assert(out@ =~= self@.encoded());
                Ok(out)
            },
            Err(error) => Err(error),
        }
    }

    /// Stores `value` in the field that `key` names, if it names one.
    pub fn set_field(&mut self, key: &[u8], value: Vec<u8>)
        ensures
            final(self)@ == old(self)@.with_field(key@, value@),
    {
        if same_bytes(key, URL.as_slice()) {
            self.url = Some(value);
        } else if same_bytes(key, PROTOCOL.as_slice()) {
            self.protocol = Some(value);
        } else if same_bytes(key, HOST.as_slice()) {
            self.host = Some(value);
        } else if same_bytes(key, PATH.as_slice()) {
            self.path = Some(value);
        } else if same_bytes(key, USERNAME.as_slice()) {
            self.username = Some(value);
        } else if same_bytes(key, PASSWORD.as_slice()) {
            self.password = Some(value);
        } else if same_bytes(key, QUIT.as_slice()) {
            self.quit = same_bytes(value.as_slice(), ONE.as_slice()) || same_bytes(
                value.as_slice(),
                TRUE.as_slice(),
            );
        }
    }

    /// Reads a context from what a helper wrote: `key=value` lines up to the
    /// end of the input or the first empty line. Fails exactly if one of
    /// these lines has no `=`.
    pub fn from_bytes(input: &[u8]) -> (result: Result<Context, MissingSeparator>)
        ensures
            match result {
                Ok(context) => decoded(input@) == Some(context@),
                Err(_) => decoded(input@) is None,
            },
    {
        let mut context = Context::default();
        let mut start: usize = 0;
        assert(input@.skip(0) =~= input@);
        loop
            invariant
                start <= input@.len(),
                decode_lines(input@.skip(start as int), context@) == decoded(input@),
            decreases input@.len() - start,
        {
            let end = find_byte(input, start, NEWLINE);
            if end == start {
                return Ok(context);
            }
            let text = slice_subrange(input, start, end);
            let separator = find_byte(text, 0, EQUALS);
            proof {
                assert(text@ =~= input@.skip(start as int).take(end - start));
                assert(text@.skip(0) =~= text@);
            }
            if separator == text.len() {
                return Err(MissingSeparator);
            }
            let key = slice_subrange(text, 0, separator);
            let value = copy_range(text, separator + 1, text.len());
            proof {
                assert(key@ =~= text@.take(separator as int));
                assert(value@ =~= text@.skip(separator + 1));
            }
            context.set_field(key, value);
            if end == input.len() {
                return Ok(context);
            }
            proof {
                assert(input@.skip(start as int).skip(end - start + 1) =~= input@.skip(end + 1));
            }
            start = end + 1;
        }
    }
}

} // verus!

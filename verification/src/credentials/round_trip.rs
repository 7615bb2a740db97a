//! Reading back what was written: the wire format loses nothing.

use crate::bytes::first_index;
use crate::bytes::free_of;
use crate::bytes::lemma_first_index_is;
use crate::credentials::context::decode_lines;
use crate::credentials::context::decoded;
use crate::credentials::context::line;
use crate::credentials::context::optional_line;
use crate::credentials::context::quit_line;
use crate::credentials::context::ContextView;
use crate::credentials::context::EQUALS;
use crate::credentials::context::HOST;
use crate::credentials::context::NEWLINE;
use crate::credentials::context::ONE;
use crate::credentials::context::PASSWORD;
use crate::credentials::context::PATH;
use crate::credentials::context::PROTOCOL;
use crate::credentials::context::QUIT;
use crate::credentials::context::URL;
use crate::credentials::context::USERNAME;
use vstd::prelude::*;

verus! {

/// Whether `key` can stand before the `=` of a line: it is not empty and
/// holds neither `=` nor a newline.
pub open spec fn plain_key(key: Seq<u8>) -> bool {
    key.len() > 0 && free_of(key, EQUALS) && free_of(key, NEWLINE)
}

/// Reading a line, followed by anything, stores its value under its key and
/// goes on with what follows.
pub proof fn lemma_read_line(key: Seq<u8>, value: Seq<u8>, rest: Seq<u8>, context: ContextView)
    requires
        plain_key(key),
        free_of(value, NEWLINE),
    ensures
        decode_lines(line(key, value) + rest, context) == decode_lines(
            rest,
            context.with_field(key, value),
        ),
{
    let input = line(key, value) + rest;
    let end: int = (key.len() + 1 + value.len()) as int;
    assert forall|i: int| 0 <= i < end implies input[i] != NEWLINE by {
        if i < key.len() {
            assert(input[i] == key[i]);
        } else if i > key.len() {
            assert(input[i] == value[i - key.len() - 1]);
        }
    }
    lemma_first_index_is(input, NEWLINE, end);
    let text = input.take(end);
    assert forall|i: int| 0 <= i < key.len() implies text[i] != EQUALS by {
        assert(text[i] == key[i]);
    }
    lemma_first_index_is(text, EQUALS, key.len() as int);
    assert(text.take(key.len() as int) =~= key);
    assert(text.skip(key.len() as int + 1) =~= value);
    assert(input[end] == NEWLINE);
    assert(input.skip(end + 1) =~= rest);
}

/// Reading the line of an optional field, followed by anything, stores the
/// value if there is one and goes on with what follows.
pub proof fn lemma_read_optional(
    key: Seq<u8>,
    value: Option<Seq<u8>>,
    rest: Seq<u8>,
    context: ContextView,
)
    requires
        plain_key(key),
        value matches Some(bytes) ==> free_of(bytes, NEWLINE),
    ensures
        decode_lines(optional_line(key, value) + rest, context) == decode_lines(
            rest,
            context.with_optional(key, value),
        ),
{
    match value {
        Some(bytes) => lemma_read_line(key, bytes, rest, context),
        None => {
            assert(optional_line(key, value) + rest =~= rest);
        },
    }
}

/// The seven keys are plain, and no two of them are the same.
proof fn lemma_keys()
    ensures
        plain_key(URL@),
        plain_key(PROTOCOL@),
        plain_key(HOST@),
        plain_key(PATH@),
        plain_key(USERNAME@),
        plain_key(PASSWORD@),
        plain_key(QUIT@),
        URL@.len() == 3,
        HOST@.len() == 4 && PATH@.len() == 4 && QUIT@.len() == 4,
        PROTOCOL@.len() == 8 && USERNAME@.len() == 8 && PASSWORD@.len() == 8,
        HOST@[0] == 104 && PATH@[0] == 112 && QUIT@[0] == 113,
        PROTOCOL@[1] == 114 && USERNAME@[1] == 115 && PASSWORD@[1] == 97,
{
}

/// A context that can be written is read back from its wire format as it
/// was: every field that was present comes back with its value, every field
/// that was absent stays absent, and `quit` keeps its setting.
pub proof fn lemma_round_trip(context: ContextView)
    requires
        context.encodable(),
    ensures
        decoded(context.encoded()) == Some(context),
{
    lemma_keys();
    let url = optional_line(URL@, context.url);
    let protocol = optional_line(PROTOCOL@, context.protocol);
    let host = optional_line(HOST@, context.host);
    let path = optional_line(PATH@, context.path);
    let username = optional_line(USERNAME@, context.username);
    let password = optional_line(PASSWORD@, context.password);
    let quit = quit_line(context.quit);
    let after_password = quit;
    let after_username = password + after_password;
    let after_path = username + after_username;
    let after_host = path + after_path;
    let after_protocol = host + after_host;
    let after_url = protocol + after_protocol;
    assert(url + protocol + host + path + username + password + quit =~= url + protocol + host
        + path + username + after_username);
    assert(url + protocol + host + path + username + after_username =~= url + protocol + host
        + path + after_path);
    assert(url + protocol + host + path + after_path =~= url + protocol + host + after_host);
    assert(url + protocol + host + after_host =~= url + protocol + after_protocol);
    assert(url + protocol + after_protocol =~= url + after_url);
    assert(context.encoded() == url + after_url);

    let read0 = ContextView::empty();
    let read1 = read0.with_optional(URL@, context.url);
    let read2 = read1.with_optional(PROTOCOL@, context.protocol);
    let read3 = read2.with_optional(HOST@, context.host);
    let read4 = read3.with_optional(PATH@, context.path);
    let read5 = read4.with_optional(USERNAME@, context.username);
    let read6 = read5.with_optional(PASSWORD@, context.password);
    lemma_read_optional(URL@, context.url, after_url, read0);
    lemma_read_optional(PROTOCOL@, context.protocol, after_protocol, read1);
    lemma_read_optional(HOST@, context.host, after_host, read2);
    lemma_read_optional(PATH@, context.path, after_path, read3);
    lemma_read_optional(USERNAME@, context.username, after_username, read4);
    lemma_read_optional(PASSWORD@, context.password, after_password, read5);
    assert(decoded(context.encoded()) == decode_lines(quit, read6));
    assert(read6 == ContextView { quit: false, ..context });
    if context.quit {
        assert(ONE@.len() == 1 && ONE@[0] == 49);
        lemma_read_line(QUIT@, ONE@, Seq::<u8>::empty(), read6);
        assert(line(QUIT@, ONE@) + Seq::<u8>::empty() =~= quit);
        assert(first_index(Seq::<u8>::empty(), NEWLINE) == 0);
    } else {
        assert(first_index(quit, NEWLINE) == 0);
    }
}

} // verus!

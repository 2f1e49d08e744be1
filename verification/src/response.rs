//! The pipeline from request bytes to reply bytes, and the reply that
//! reports a failure.

use crate::buffer::{buffer_bytes, put, with_capacity};
use crate::clock::unix_millis;
use crate::command::{command_outcome, CommandView, Execute, ExecutionContext};
use crate::database::{DataView, Database, ExpireTime};
use crate::error::{Error, ProtocolError};
use crate::interpreter::{interpret_at, interpretation};
use crate::parser::{parse, parsed};
use crate::text::from_utf8;
use crate::tokenizer::{tokenize, tokens_of};
use bytes::BytesMut;
use vstd::prelude::*;
use vstd::string::*;
use vstd::utf8::{decode_utf8, encode_scalar, encode_utf8, encode_utf8_decode_utf8, valid_utf8};

verus! {

/// What one request gives: the reply or the error, and the store it leaves.
pub ghost struct Response {
    pub reply: Result<Seq<u8>, Error>,
    pub store: Map<Seq<char>, DataView>,
}

/// The command that the request text `text` spells at the instant `now`:
/// the text is split into tokens, the tokens are parsed into one value, and
/// the value is interpreted. The first stage that fails gives the error.
pub open spec fn command_read(text: Seq<char>, now: Option<ExpireTime>) -> Result<
    CommandView,
    Error,
> {
    match tokens_of(text) {
        Err(error) => Err(Error::Protocol(error)),
        Ok(tokens) => match parsed(tokens) {
            Err(error) => Err(Error::Protocol(error)),
            Ok(ir) => interpretation(ir, now),
        },
    }
}

/// The response to the request `request` against the store `store` at the
/// instant `now`.
///
/// The request is decoded as UTF-8 and read as a command, which is then
/// executed. Where the request is not UTF-8 or spells no command, the reply
/// is the error, and the store is left as it was.
pub open spec fn response_at(
    request: Seq<u8>,
    store: Map<Seq<char>, DataView>,
    now: Option<ExpireTime>,
) -> Response {
    if !valid_utf8(request) {
        Response { reply: Err(Error::Protocol(ProtocolError::InvalidUtf8)), store }
    } else {
        match command_read(decode_utf8(request), now) {
            Err(error) => Response { reply: Err(error), store },
            Ok(command) => {
                let outcome = command_outcome(command, store, now);
                Response { reply: Ok(outcome.reply), store: outcome.store }
            },
        }
    }
}

/// Whether `r` is the reply part of `response`.
pub open spec fn is_reply_of(r: Result<Vec<u8>, Error>, response: Response) -> bool {
    match r {
        Ok(reply) => response.reply == Ok::<Seq<u8>, Error>(reply@),
        Err(error) => response.reply == Err::<Seq<u8>, Error>(error),
    }
}

/// Answers one request against the store, with `now` as the present
/// instant.
pub fn generate_response_at(request: &[u8], db: &mut Database, now: Option<ExpireTime>) -> (r:
    Result<Vec<u8>, Error>)
    ensures
        is_reply_of(r, response_at(request@, old(db)@, now)),
        final(db)@ == response_at(request@, old(db)@, now).store,
{
    broadcast use encode_utf8_decode_utf8;

    let text = match from_utf8(request) {
        Ok(text) => text,
        Err(_) => {
            return Err(Error::Protocol(ProtocolError::InvalidUtf8));
        },
    };
    assert(text@ == decode_utf8(request@));
    let tokens = match tokenize(text) {
        Ok(tokens) => tokens,
        Err(error) => {
            return Err(Error::Protocol(error));
        },
    };
    let intermediate_representation = match parse(tokens.as_slice()) {
        Ok(ir) => ir,
        Err(error) => {
            return Err(Error::Protocol(error));
        },
    };
    let command = match interpret_at(&intermediate_representation, now) {
        Ok(command) => command,
        Err(error) => {
            return Err(error);
        },
    };
    let context = ExecutionContext { db, now };
    match command.execute(context) {
        Ok(response) => Ok(response),
        Err(error) => Err(Error::Execution(error)),
    }
}

/// Answers one request against the store. The system clock is read once;
/// the whole request is handled as of that reading.
pub fn generate_response(request: &[u8], db: &mut Database) -> (r: Result<Vec<u8>, Error>)
    ensures
        exists|now: Option<ExpireTime>|
            {
                &&& is_reply_of(r, #[trigger] response_at(request@, old(db)@, now))
                &&& final(db)@ == response_at(request@, old(db)@, now).store
            },
{
    let now = unix_millis();
    generate_response_at(request, db, now)
}

/// The bytes of a line of the error reply: the lead, the text, a line end.
pub open spec fn error_line(lead: Seq<char>, text: Seq<char>) -> Seq<u8> {
    encode_utf8(lead) + encode_utf8(text) + encode_utf8("\r\n"@)
}

/// The reply that reports `error` to the client: a line that starts with
/// `-ERR`, one line for each cause (the stage that failed, then what was
/// wrong), and an empty line.
pub open spec fn error_reply_bytes(error: Error) -> Seq<u8> {
    error_line("-ERR "@, "failed to generate response from request"@) + error_line(
        "\t Caused by: "@,
        error.stage_text(),
    ) + error_line("\t Caused by: "@, error.detail_text()) + encode_utf8("\r\n"@)
}

/// A text takes at most four bytes for each of its characters.
pub proof fn lemma_encoded_length(text: Seq<char>)
    ensures
        encode_utf8(text).len() <= 4 * text.len(),
    decreases text.len(),
{
    if text.len() > 0 {
        lemma_encoded_length(text.drop_first());
    }
}

/// Appends one line of the error reply to `buffer`.
fn put_error_line(buffer: &mut BytesMut, lead: &str, text: &str)
    requires
        buffer_bytes(*old(buffer)).len() <= 4000,
        lead@.len() <= 80,
        text@.len() <= 80,
    ensures
        buffer_bytes(*final(buffer)) == buffer_bytes(*old(buffer)) + error_line(lead@, text@),
        buffer_bytes(*final(buffer)).len() <= buffer_bytes(*old(buffer)).len() + 648,
{
    proof {
        reveal_strlit("\r\n");
        lemma_encoded_length(lead@);
        lemma_encoded_length(text@);
        lemma_encoded_length("\r\n"@);
    }
    put(buffer, lead.as_bytes());
    put(buffer, text.as_bytes());
    put(buffer, "\r\n".as_bytes());
    assert(buffer_bytes(*buffer) =~= buffer_bytes(*old(buffer)) + error_line(lead@, text@));
}

/// Builds the reply that reports `err` to the client.
pub fn error_reply(err: &Error) -> (reply: BytesMut)
    ensures
        buffer_bytes(reply) == error_reply_bytes(*err),
{
    proof {
        reveal_strlit("-ERR ");
        reveal_strlit("failed to generate response from request");
        reveal_strlit("\t Caused by: ");
        reveal_strlit("\r\n");
        lemma_encoded_length("\r\n"@);
        err.lemma_texts_short();
    }
    let mut err_buf = with_capacity(4096);
    put_error_line(&mut err_buf, "-ERR ", "failed to generate response from request");
    put_error_line(&mut err_buf, "\t Caused by: ", err.stage());
    put_error_line(&mut err_buf, "\t Caused by: ", err.detail());
    put(&mut err_buf, "\r\n".as_bytes());
    assert(buffer_bytes(err_buf) =~= error_reply_bytes(*err));
    err_buf
}

} // verus!

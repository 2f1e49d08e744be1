//! The encodings of successful replies.

use vstd::prelude::*;
use vstd::string::*;
use vstd::utf8::encode_utf8;

verus! {

/// The marker of the null bulk string, without its line end.
pub const NULL_BULK_STRING: &'static str = "$-1";

/// The bytes of the simple string reply that holds `text`: a `+`, the text,
/// and a line end.
pub open spec fn simple_string(text: Seq<char>) -> Seq<u8> {
    encode_utf8(seq!['+'] + text + seq!['\r', '\n'])
}

/// The bytes of the null reply: `$-1` and a line end.
pub open spec fn null_bulk_string() -> Seq<u8> {
    encode_utf8(seq!['$', '-', '1', '\r', '\n'])
}

/// The reply to a command that only acknowledges: the simple string `OK`.
pub open spec fn ok_reply() -> Seq<u8> {
    simple_string(seq!['O', 'K'])
}

/// The reply to `PING` without a message: the simple string `PONG`.
pub open spec fn pong_reply() -> Seq<u8> {
    simple_string(seq!['P', 'O', 'N', 'G'])
}

/// Encodes `text` as a simple string reply.
pub fn simple_string_reply(text: &str) -> (reply: Vec<u8>)
    ensures
        reply@ == simple_string(text@),
{
    let mut line = "+".to_owned();
    line.append(text);
    line.append("\r\n");
    proof {
        reveal_strlit("+");
        reveal_strlit("\r\n");
        assert("+"@ =~= seq!['+']);
        assert("\r\n"@ =~= seq!['\r', '\n']);
    }
    line.as_str().as_bytes_vec()
}

/// Encodes the null reply.
pub fn null_bulk_string_reply() -> (reply: Vec<u8>)
    ensures
        reply@ == null_bulk_string(),
{
    let mut line = NULL_BULK_STRING.to_owned();
    line.append("\r\n");
    proof {
        reveal_strlit("$-1");
        reveal_strlit("\r\n");
        assert(line@ =~= seq!['$', '-', '1', '\r', '\n']);
    }
    line.as_str().as_bytes_vec()
}

/// Encodes the reply `OK`.
pub fn ok_reply_bytes() -> (reply: Vec<u8>)
    ensures
        reply@ == ok_reply(),
{
    proof {
        reveal_strlit("OK");
        assert("OK"@ =~= seq!['O', 'K']);
    }
    simple_string_reply("OK")
}

/// Encodes the reply `PONG`.
pub fn pong_reply_bytes() -> (reply: Vec<u8>)
    ensures
        reply@ == pong_reply(),
{
    proof {
        reveal_strlit("PONG");
        assert("PONG"@ =~= seq!['P', 'O', 'N', 'G']);
    }
    simple_string_reply("PONG")
}

} // verus!

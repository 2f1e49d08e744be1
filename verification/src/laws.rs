//! What holds of the commands whatever the store, the keys and the values.

use crate::command::{
    command_outcome, expire_time_of, get_outcome, option_applied, set_outcome, CommandView,
    EchoView, GetView, PingView, SetCondition, SetView,
};
use crate::database::{is_live, purged, visible, DataView, ExpireTime};
use crate::error::Error;
use crate::grammar::spellable;
use crate::interpreter::interpretation;
use crate::parser::{RespValueView, MAX_NESTING_DEPTH};
use crate::reply::{null_bulk_string, ok_reply, simple_string};
use crate::response::{command_read, error_reply_bytes, response_at, Response};
use crate::text::{decimal_from, unsigned_decimal, uppercase};
use crate::wire::{lemma_request_text_is_read, no_carriage_return, request_text, wire_safe};
use vstd::prelude::*;
use vstd::string::*;
use vstd::utf8::{
    encode_utf8, encode_utf8_decode_utf8, encode_utf8_valid_utf8, is_ascii_chars,
    is_ascii_chars_encode_utf8,
};

verus! {

/// A `SET` of `value` under `key` without options.
pub open spec fn plain_set(key: Seq<char>, value: Seq<char>) -> SetView {
    SetView { key, value, nx_or_xx: None, get: false, expire_time: None }
}

/// An entry that a reader sees has not expired: no look at the store hands
/// out an entry whose expiry lies before the instant of the look.
pub proof fn lemma_visible_is_live(
    store: Map<Seq<char>, DataView>,
    key: Seq<char>,
    now: Option<ExpireTime>,
)
    ensures
        visible(store, key, now) matches Some(data) ==> store.contains_key(key) && data
            == store[key] && is_live(data, now),
        !store.contains_key(key) ==> visible(store, key, now) is None,
{
}

/// A look at a key leaves every other key as it was, and leaves the key
/// itself either as it was or absent.
pub proof fn lemma_purged_only_removes(
    store: Map<Seq<char>, DataView>,
    key: Seq<char>,
    now: Option<ExpireTime>,
    other: Seq<char>,
)
    ensures
        other != key ==> purged(store, key, now).contains_key(other) == store.contains_key(other),
        purged(store, key, now).contains_key(other) ==> store.contains_key(other) && purged(
            store,
            key,
            now,
        )[other] == store[other],
        purged(store, key, now).contains_key(key) == (visible(store, key, now) is Some),
{
}

/// `GET` on a key that the store does not hold replies with the null reply
/// and leaves the store as it was.
pub proof fn lemma_get_absent(store: Map<Seq<char>, DataView>, key: Seq<char>, now: Option<ExpireTime>)
    requires
        !store.contains_key(key),
    ensures
        get_outcome(GetView { key }, store, now).reply == null_bulk_string(),
        get_outcome(GetView { key }, store, now).store == store,
{
}

/// `SET key value` replies `OK`, and a `GET key` after it, at whatever
/// instant, replies with `value`.
pub proof fn lemma_set_then_get(
    store: Map<Seq<char>, DataView>,
    key: Seq<char>,
    value: Seq<char>,
    set_time: Option<ExpireTime>,
    get_time: Option<ExpireTime>,
)
    ensures
        set_outcome(plain_set(key, value), store, set_time).reply == ok_reply(),
        get_outcome(
            GetView { key },
            set_outcome(plain_set(key, value), store, set_time).store,
            get_time,
        ).reply == simple_string(value),
{
}

/// The option `PX` with the argument `0` sets the expiry to the very
/// instant at which the command is read.
pub proof fn lemma_px_zero_is_now(set: SetView, now: ExpireTime)
    ensures
        option_applied(set, "PX"@, Some(RespValueView::BulkString("0"@)), Some(now)) == Ok::<
            (SetView, bool),
            Error,
        >((SetView { expire_time: Some(now), ..set }, true)),
{
    reveal_strlit("PX");
    reveal_strlit("NX");
    reveal_strlit("XX");
    reveal_strlit("GET");
    reveal_strlit("EX");
    reveal_strlit("0");
    assert("PX"@ != "NX"@) by {
        assert("PX"@[0] != "NX"@[0]);
    }
    assert("PX"@ != "XX"@) by {
        assert("PX"@[0] != "XX"@[0]);
    }
    assert("PX"@ != "GET"@) by {
        assert("PX"@.len() != "GET"@.len());
    }
    assert("PX"@ != "EX"@) by {
        assert("PX"@[0] != "EX"@[0]);
    }
    assert(decimal_from(0, "0"@) == 0) by {
        reveal_with_fuel(decimal_from, 2);
    }
    assert(unsigned_decimal("0"@, u64::MAX as nat) == Some(0nat));
    assert(expire_time_of("PX"@, 0, Some(now)) == Ok::<ExpireTime, Error>(now));
}

/// Passive expiry: after a `SET` whose entry expires at `expire_time`, a
/// `GET` of the key at any later instant replies with the null reply, and
/// the key is absent from the store from then on.
pub proof fn lemma_passive_expiry(
    store: Map<Seq<char>, DataView>,
    key: Seq<char>,
    value: Seq<char>,
    expire_time: ExpireTime,
    set_time: Option<ExpireTime>,
    get_time: ExpireTime,
)
    requires
        get_time > expire_time,
    ensures
        ({
            let set = SetView { expire_time: Some(expire_time), ..plain_set(key, value) };
            let after = get_outcome(
                GetView { key },
                set_outcome(set, store, set_time).store,
                Some(get_time),
            );
            after.reply == null_bulk_string() && !after.store.contains_key(key)
        }),
{
}

/// `NX` blocks the write where the key is visible: the store keeps what it
/// holds under every key.
pub proof fn lemma_nx_keeps_visible_entry(
    store: Map<Seq<char>, DataView>,
    set: SetView,
    now: Option<ExpireTime>,
)
    requires
        set.nx_or_xx == Some(SetCondition::NX),
        visible(store, set.key, now) is Some,
    ensures
        set_outcome(set, store, now).store == store,
{
}

/// `SET key first NX` and then `SET key second NX`, on a store in which the
/// key was not visible: the stored value is `first` after both.
pub proof fn lemma_nx_twice_keeps_first(
    store: Map<Seq<char>, DataView>,
    key: Seq<char>,
    first: Seq<char>,
    second: Seq<char>,
    first_time: Option<ExpireTime>,
    second_time: Option<ExpireTime>,
)
    requires
        visible(store, key, first_time) is None,
    ensures
        ({
            let one = SetView { nx_or_xx: Some(SetCondition::NX), ..plain_set(key, first) };
            let two = SetView { nx_or_xx: Some(SetCondition::NX), ..plain_set(key, second) };
            let after_one = set_outcome(one, store, first_time).store;
            let after_two = set_outcome(two, after_one, second_time).store;
            after_two.contains_key(key) && after_two[key].value == first && after_two == after_one
        }),
{
}

/// `SET key value XX` where the key is not visible creates no entry, and a
/// `GET key` after it replies with the null reply.
pub proof fn lemma_xx_absent_creates_nothing(
    store: Map<Seq<char>, DataView>,
    key: Seq<char>,
    value: Seq<char>,
    set_time: Option<ExpireTime>,
    get_time: Option<ExpireTime>,
)
    requires
        visible(store, key, set_time) is None,
    ensures
        ({
            let set = SetView { nx_or_xx: Some(SetCondition::XX), ..plain_set(key, value) };
            let after = set_outcome(set, store, set_time).store;
            !after.contains_key(key) && get_outcome(GetView { key }, after, get_time).reply
                == null_bulk_string()
        }),
{
}

/// `SET key value GET` where the key is visible with the value `previous`
/// replies with `previous`, and the stored value becomes `value`.
pub proof fn lemma_set_get_returns_previous(
    store: Map<Seq<char>, DataView>,
    key: Seq<char>,
    value: Seq<char>,
    now: Option<ExpireTime>,
)
    requires
        visible(store, key, now) is Some,
    ensures
        ({
            let set = SetView { get: true, ..plain_set(key, value) };
            let outcome = set_outcome(set, store, now);
            outcome.reply == simple_string(store[key].value) && outcome.store.contains_key(key)
                && outcome.store[key].value == value
        }),
{
}

/// Whether `word` can go on the wire as a bulk string: it holds no carriage
/// return, and its length in bytes is within `isize`.
pub open spec fn is_word(word: Seq<char>) -> bool {
    no_carriage_return(word) && encode_utf8(word).len() <= isize::MAX
}

/// The request that `words` make: an array of one bulk string for each.
pub open spec fn request_of(words: Seq<Seq<char>>) -> RespValueView {
    RespValueView::Array(Seq::new(words.len(), |i: int| RespValueView::BulkString(words[i])))
}

/// The four command names differ from one another.
proof fn lemma_command_names_differ()
    ensures
        "ECHO"@ != "PING"@,
        "ECHO"@ != "SET"@,
        "ECHO"@ != "GET"@,
        "PING"@ != "SET"@,
        "PING"@ != "GET"@,
        "SET"@ != "GET"@,
{
    reveal_strlit("ECHO");
    reveal_strlit("PING");
    reveal_strlit("SET");
    reveal_strlit("GET");
    assert("ECHO"@[0] != "PING"@[0]);
    assert("ECHO"@.len() != "SET"@.len());
    assert("PING"@.len() != "SET"@.len());
    assert("SET"@[0] != "GET"@[0]);
}

/// A request of a few words is read back from its text as it is.
proof fn lemma_words_are_read(words: Seq<Seq<char>>)
    requires
        words.len() <= 3,
        forall|i: int| 0 <= i < words.len() ==> is_word(#[trigger] words[i]),
    ensures
        forall|now: Option<ExpireTime>| #[trigger]
            command_read(request_text(request_of(words)), now) == interpretation(
                request_of(words),
                now,
            ),
{
    let request = request_of(words);
    let items = request->Array_0;
    assert forall|i: int| 0 <= i < items.len() implies spellable(
        #[trigger] items[i],
        (MAX_NESTING_DEPTH - 1) as nat,
    ) && wire_safe(items[i]) by {
        assert(is_word(words[i]));
    }
    lemma_request_text_is_read(request);
}

/// Round trip of `ECHO`: the text of a request whose first word reads
/// `ECHO` in upper case, whatever its case, and whose second word is the
/// message, is read as the command to echo that message.
pub proof fn lemma_echo_round_trip(name: Seq<char>, message: Seq<char>, now: Option<ExpireTime>)
    requires
        uppercase(name) == "ECHO"@,
        is_word(name),
        is_word(message),
    ensures
        command_read(request_text(request_of(seq![name, message])), now) == Ok::<
            CommandView,
            Error,
        >(CommandView::Echo(EchoView { message })),
{
    let words = seq![name, message];
    lemma_words_are_read(words);
    let items = request_of(words)->Array_0;
    assert(items[0] == RespValueView::BulkString(name));
    assert(items.skip(1)[0] == RespValueView::BulkString(message));
}

/// Round trip of `PING`: the text of a request whose only word reads `PING`
/// in upper case is read as the command to ping without a message; with a
/// second word, as the command to ping with that message.
pub proof fn lemma_ping_round_trip(name: Seq<char>, message: Seq<char>, now: Option<ExpireTime>)
    requires
        uppercase(name) == "PING"@,
        is_word(name),
        is_word(message),
    ensures
        command_read(request_text(request_of(seq![name])), now) == Ok::<CommandView, Error>(
            CommandView::Ping(PingView { message: None }),
        ),
        command_read(request_text(request_of(seq![name, message])), now) == Ok::<
            CommandView,
            Error,
        >(CommandView::Ping(PingView { message: Some(message) })),
{
    lemma_command_names_differ();
    let bare = seq![name];
    lemma_words_are_read(bare);
    assert(request_of(bare)->Array_0[0] == RespValueView::BulkString(name));
    let words = seq![name, message];
    lemma_words_are_read(words);
    let items = request_of(words)->Array_0;
    assert(items[0] == RespValueView::BulkString(name));
    assert(items.skip(1)[0] == RespValueView::BulkString(message));
}

/// Round trip of `GET`: the text of a request whose first word reads `GET`
/// in upper case and whose second word is the key is read as the command to
/// get that key.
pub proof fn lemma_get_round_trip(name: Seq<char>, key: Seq<char>, now: Option<ExpireTime>)
    requires
        uppercase(name) == "GET"@,
        is_word(name),
        is_word(key),
    ensures
        command_read(request_text(request_of(seq![name, key])), now) == Ok::<CommandView, Error>(
            CommandView::Get(GetView { key }),
        ),
{
    lemma_command_names_differ();
    let words = seq![name, key];
    lemma_words_are_read(words);
    let items = request_of(words)->Array_0;
    assert(items[0] == RespValueView::BulkString(name));
    assert(items.skip(1)[0] == RespValueView::BulkString(key));
}

/// Round trip of `SET`: the text of a request whose first word reads `SET`
/// in upper case, followed by key and value, is read as the command to set
/// the value under the key, without options.
pub proof fn lemma_set_round_trip(
    name: Seq<char>,
    key: Seq<char>,
    value: Seq<char>,
    now: Option<ExpireTime>,
)
    requires
        uppercase(name) == "SET"@,
        is_word(name),
        is_word(key),
        is_word(value),
    ensures
        command_read(request_text(request_of(seq![name, key, value])), now) == Ok::<
            CommandView,
            Error,
        >(CommandView::SetCommand(plain_set(key, value))),
{
    lemma_command_names_differ();
    let words = seq![name, key, value];
    lemma_words_are_read(words);
    let items = request_of(words)->Array_0;
    assert(items[0] == RespValueView::BulkString(name));
    assert(items.skip(1)[0] == RespValueView::BulkString(key));
    assert(items.skip(1)[1] == RespValueView::BulkString(value));
    assert(items.skip(1).skip(2).len() == 0);
}

/// The bytes of a request text.
pub open spec fn request_bytes(text: Seq<char>) -> Seq<u8> {
    encode_utf8(text)
}

/// The response to the bytes of a text is the outcome of the command that
/// the text spells, or the error of reading it with the store untouched.
pub proof fn lemma_response_to_text(
    text: Seq<char>,
    store: Map<Seq<char>, DataView>,
    now: Option<ExpireTime>,
)
    ensures
        response_at(request_bytes(text), store, now) == match command_read(text, now) {
            Ok(command) => Response {
                reply: Ok(command_outcome(command, store, now).reply),
                store: command_outcome(command, store, now).store,
            },
            Err(error) => Response { reply: Err(error), store },
        },
{
    encode_utf8_valid_utf8(text);
    encode_utf8_decode_utf8(text);
}

/// A request that fails leaves the store as it was.
pub proof fn lemma_failed_request_keeps_store(
    request: Seq<u8>,
    store: Map<Seq<char>, DataView>,
    now: Option<ExpireTime>,
)
    requires
        response_at(request, store, now).reply is Err,
    ensures
        response_at(request, store, now).store == store,
{
}

/// The request `SET key value` is answered with `OK`, and the request
/// `GET key` after it, at whatever instant, with `value`: both as bytes on
/// the wire, with the command names in whatever case.
pub proof fn lemma_set_request_then_get_request(
    store: Map<Seq<char>, DataView>,
    set_name: Seq<char>,
    get_name: Seq<char>,
    key: Seq<char>,
    value: Seq<char>,
    set_time: Option<ExpireTime>,
    get_time: Option<ExpireTime>,
)
    requires
        uppercase(set_name) == "SET"@,
        uppercase(get_name) == "GET"@,
        is_word(set_name),
        is_word(get_name),
        is_word(key),
        is_word(value),
    ensures
        ({
            let set = request_bytes(request_text(request_of(seq![set_name, key, value])));
            let get = request_bytes(request_text(request_of(seq![get_name, key])));
            let first = response_at(set, store, set_time);
            let second = response_at(get, first.store, get_time);
            first.reply == Ok::<Seq<u8>, Error>(ok_reply()) && second.reply == Ok::<
                Seq<u8>,
                Error,
            >(simple_string(value))
        }),
{
    let set_text = request_text(request_of(seq![set_name, key, value]));
    let get_text = request_text(request_of(seq![get_name, key]));
    lemma_set_round_trip(set_name, key, value, set_time);
    lemma_get_round_trip(get_name, key, get_time);
    lemma_response_to_text(set_text, store, set_time);
    let first = response_at(request_bytes(set_text), store, set_time);
    lemma_response_to_text(get_text, first.store, get_time);
    lemma_set_then_get(store, key, value, set_time, get_time);
}

/// The request `GET key` on a store that does not hold the key is answered
/// with the null reply.
pub proof fn lemma_get_request_on_absent_key(
    store: Map<Seq<char>, DataView>,
    get_name: Seq<char>,
    key: Seq<char>,
    now: Option<ExpireTime>,
)
    requires
        uppercase(get_name) == "GET"@,
        is_word(get_name),
        is_word(key),
        !store.contains_key(key),
    ensures
        response_at(
            request_bytes(request_text(request_of(seq![get_name, key]))),
            store,
            now,
        ).reply == Ok::<Seq<u8>, Error>(null_bulk_string()),
{
    lemma_get_round_trip(get_name, key, now);
    lemma_response_to_text(request_text(request_of(seq![get_name, key])), store, now);
}

/// The five bytes `-ERR ` with which every error reply starts.
pub open spec fn error_marker() -> Seq<u8> {
    seq![0x2du8, 0x45u8, 0x52u8, 0x52u8, 0x20u8]
}

/// Every error reply starts with `-ERR` and a space.
pub proof fn lemma_error_reply_starts_with_marker(error: Error)
    ensures
        error_reply_bytes(error).len() >= 5,
        error_reply_bytes(error).subrange(0, 5) == error_marker(),
{
    reveal_strlit("-ERR ");
    let lead = "-ERR "@;
    assert(is_ascii_chars(lead));
    is_ascii_chars_encode_utf8(lead);
    assert(encode_utf8(lead) =~= error_marker());
    assert(error_reply_bytes(error).subrange(0, 5) =~= encode_utf8(lead));
}

} // verus!

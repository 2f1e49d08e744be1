//! The wire grammar read the other way: the tokens that spell a value, and
//! the proof that the parser accepts exactly those.

use crate::error::ProtocolError;
use crate::parser::{
    elements_at, elements_then, parsed, value_at, RespValueView, MAX_NESTING_DEPTH,
};
use crate::tokenizer::TokenView;
use vstd::prelude::*;
use vstd::utf8::encode_utf8;

verus! {

/// The tokens that spell `value`: an array is its header, which counts its
/// elements, and then the tokens of each element; a bulk string is its
/// header, which gives its length in bytes, and then its text.
pub open spec fn tokens_for(value: RespValueView) -> Seq<TokenView>
    decreases value, 0nat,
{
    match value {
        RespValueView::Array(items) => seq![TokenView::Array(items.len() as usize)]
            + tokens_for_elements(items, 0),
        RespValueView::BulkString(text) => seq![
            TokenView::BulkString(encode_utf8(text).len() as usize),
            TokenView::StringValue(text),
        ],
        RespValueView::NullBulkString => seq![TokenView::NullBulkString],
    }
}

/// The tokens that spell the elements of `values` from index `from` on, one
/// element after another.
pub open spec fn tokens_for_elements(values: Seq<RespValueView>, from: nat) -> Seq<TokenView>
    decreases values, values.len() - from,
{
    if from >= values.len() {
        Seq::empty()
    } else {
        tokens_for(values[from as int]) + tokens_for_elements(values, from + 1)
    }
}

/// Whether tokens can spell `value` with arrays nested at most `depth`
/// deep: every count and every length fits the machine's word.
pub open spec fn spellable(value: RespValueView, depth: nat) -> bool
    decreases depth,
{
    match value {
        RespValueView::Array(items) => {
            &&& depth > 0
            &&& items.len() <= usize::MAX
            &&& forall|i: int| 0 <= i < items.len() ==> spellable(#[trigger] items[i], (depth - 1) as nat)
        },
        RespValueView::BulkString(text) => encode_utf8(text).len() <= usize::MAX,
        RespValueView::NullBulkString => true,
    }
}

/// The elements behind the first are spelt as they are on their own.
proof fn lemma_elements_behind_first(first: RespValueView, rest: Seq<RespValueView>, from: nat)
    ensures
        tokens_for_elements(seq![first] + rest, from + 1) == tokens_for_elements(rest, from),
    decreases rest.len() - from,
{
    let all = seq![first] + rest;
    if from < rest.len() {
        assert(all[from as int + 1] == rest[from as int]);
        lemma_elements_behind_first(first, rest, from + 1);
    }
}

/// What the parser reads as a value is spelt by the very tokens it has read.
pub proof fn lemma_value_at_spelt(tokens: Seq<TokenView>, pos: int, depth_left: nat)
    requires
        value_at(tokens, pos, depth_left) is Ok,
    ensures
        ({
            let (value, end) = value_at(tokens, pos, depth_left)->Ok_0;
            &&& 0 <= pos < end <= tokens.len()
            &&& tokens.subrange(pos, end) == tokens_for(value)
            &&& spellable(value, depth_left)
        }),
    decreases depth_left, 0nat,
{
    let (value, end) = value_at(tokens, pos, depth_left)->Ok_0;
    match tokens[pos] {
        TokenView::Array(count) => {
            let below = (depth_left - 1) as nat;
            lemma_elements_at_spelt(tokens, pos + 1, count as nat, below);
            let items = value->Array_0;
            assert(tokens.subrange(pos, end) =~= seq![tokens[pos]] + tokens.subrange(pos + 1, end));
        },
        TokenView::BulkString(length) => {
            assert(tokens.subrange(pos, end) =~= tokens_for(value));
        },
        TokenView::NullBulkString => {
            assert(tokens.subrange(pos, end) =~= tokens_for(value));
        },
        TokenView::StringValue(_) => {},
    }
}

/// What the parser reads as a run of elements is spelt by the very tokens
/// it has read.
pub proof fn lemma_elements_at_spelt(
    tokens: Seq<TokenView>,
    pos: int,
    count: nat,
    depth_left: nat,
)
    requires
        0 <= pos <= tokens.len(),
        elements_at(tokens, pos, count, depth_left) is Ok,
    ensures
        ({
            let (values, end) = elements_at(tokens, pos, count, depth_left)->Ok_0;
            &&& pos <= end <= tokens.len()
            &&& values.len() == count
            &&& tokens.subrange(pos, end) == tokens_for_elements(values, 0)
            &&& forall|i: int| 0 <= i < values.len() ==> spellable(#[trigger] values[i], depth_left)
        }),
    decreases depth_left, count,
{
    let (values, end) = elements_at(tokens, pos, count, depth_left)->Ok_0;
    if count == 0 {
        assert(tokens.subrange(pos, end) =~= tokens_for_elements(values, 0));
    } else {
        lemma_value_at_spelt(tokens, pos, depth_left);
        let (first, next) = value_at(tokens, pos, depth_left)->Ok_0;
        lemma_elements_at_spelt(tokens, next, (count - 1) as nat, depth_left);
        let (rest, last) = elements_at(tokens, next, (count - 1) as nat, depth_left)->Ok_0;
        assert(values == seq![first] + rest);
        assert(last == end);
        lemma_elements_behind_first(first, rest, 0);
        assert(tokens.subrange(pos, end) =~= tokens.subrange(pos, next) + tokens.subrange(
            next,
            end,
        ));
        assert forall|i: int| 0 <= i < values.len() implies spellable(
            #[trigger] values[i],
            depth_left,
        ) by {
            if i > 0 {
                assert(values[i] == rest[i - 1]);
            }
        }
    }
}

/// The parser reads the tokens that spell a value as that value.
pub proof fn lemma_spelt_value_is_read(
    tokens: Seq<TokenView>,
    pos: int,
    value: RespValueView,
    depth_left: nat,
)
    requires
        0 <= pos,
        pos + tokens_for(value).len() <= tokens.len(),
        tokens.subrange(pos, pos + tokens_for(value).len()) == tokens_for(value),
        spellable(value, depth_left),
    ensures
        value_at(tokens, pos, depth_left) == Ok::<(RespValueView, int), ProtocolError>(
            (value, pos + tokens_for(value).len()),
        ),
    decreases depth_left, 0nat,
{
    let spelling = tokens_for(value);
    let end = pos + spelling.len();
    assert(tokens[pos] == tokens.subrange(pos, end)[0]);
    match value {
        RespValueView::Array(items) => {
            let below = (depth_left - 1) as nat;
            let inner = tokens_for_elements(items, 0);
            assert(tokens.subrange(pos + 1, pos + 1 + inner.len()) =~= inner) by {
                assert forall|i: int| 0 <= i < inner.len() implies tokens[pos + 1 + i]
                    == inner[i] by {
                    assert(tokens[pos + 1 + i] == tokens.subrange(pos, end)[1 + i]);
                }
            }
            lemma_spelt_elements_are_read(tokens, pos + 1, items, 0, below);
            assert(items.subrange(0, items.len() as int) =~= items);
        },
        RespValueView::BulkString(text) => {
            assert(tokens[pos + 1] == tokens.subrange(pos, end)[1]);
        },
        RespValueView::NullBulkString => {},
    }
}

/// The parser reads the tokens that spell a run of elements as those
/// elements.
pub proof fn lemma_spelt_elements_are_read(
    tokens: Seq<TokenView>,
    pos: int,
    values: Seq<RespValueView>,
    from: nat,
    depth_left: nat,
)
    requires
        0 <= pos,
        from <= values.len(),
        pos + tokens_for_elements(values, from).len() <= tokens.len(),
        tokens.subrange(pos, pos + tokens_for_elements(values, from).len())
            == tokens_for_elements(values, from),
        forall|i: int| from <= i < values.len() ==> spellable(#[trigger] values[i], depth_left),
    ensures
        elements_at(tokens, pos, (values.len() - from) as nat, depth_left) == Ok::<
            (Seq<RespValueView>, int),
            ProtocolError,
        >(
            (
                values.subrange(from as int, values.len() as int),
                pos + tokens_for_elements(values, from).len(),
            ),
        ),
    decreases depth_left, values.len() - from,
{
    let spelling = tokens_for_elements(values, from);
    let end = pos + spelling.len();
    if from == values.len() {
        assert(values.subrange(from as int, values.len() as int) =~= Seq::<RespValueView>::empty());
    } else {
        let first = values[from as int];
        let head = tokens_for(first);
        let tail = tokens_for_elements(values, from + 1);
        let next = pos + head.len();
        assert(spelling == head + tail);
        assert(tokens.subrange(pos, next) =~= head) by {
            assert forall|i: int| 0 <= i < head.len() implies tokens[pos + i] == head[i] by {
                assert(tokens[pos + i] == tokens.subrange(pos, end)[i]);
            }
        }
        assert(tokens.subrange(next, next + tail.len()) =~= tail) by {
            assert forall|i: int| 0 <= i < tail.len() implies tokens[next + i] == tail[i] by {
                assert(tokens[next + i] == tokens.subrange(pos, end)[head.len() + i]);
            }
        }
        lemma_spelt_value_is_read(tokens, pos, first, depth_left);
        lemma_spelt_elements_are_read(tokens, next, values, from + 1, depth_left);
        assert(seq![first] + values.subrange(from as int + 1, values.len() as int) =~= values.subrange(
            from as int,
            values.len() as int,
        ));
    }
}

/// The parser accepts exactly the tokens that spell a value, and reads them
/// as that value: an array node has as many children as its header counts,
/// a bulk string node the length in bytes that its header declares, and no
/// token is left over.
pub proof fn lemma_parse_inverts_spelling(tokens: Seq<TokenView>, value: RespValueView)
    ensures
        parsed(tokens) == Ok::<RespValueView, ProtocolError>(value) <==> tokens == tokens_for(value)
            && spellable(value, MAX_NESTING_DEPTH as nat),
{
    let depth = MAX_NESTING_DEPTH as nat;
    if parsed(tokens) == Ok::<RespValueView, ProtocolError>(value) {
        lemma_value_at_spelt(tokens, 0, depth);
        assert(tokens.subrange(0, tokens.len() as int) =~= tokens);
    }
    if tokens == tokens_for(value) && spellable(value, depth) {
        assert(tokens.subrange(0, tokens.len() as int) =~= tokens);
        lemma_spelt_value_is_read(tokens, 0, value, depth);
    }
}

} // verus!

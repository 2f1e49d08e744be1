//! The second stage of the pipeline: protocol tokens to one value tree.

use crate::error::ProtocolError;
use crate::tokenizer::{token_views, Token, TokenView};
use vstd::prelude::*;
use vstd::utf8::encode_utf8;

verus! {

/// A parsed request: a tree of arrays with bulk strings at its leaves.
#[derive(PartialEq, Eq, Debug)]
pub enum RespValue {
    Array(Vec<RespValue>),
    BulkString(String),
    NullBulkString,
}

/// A value tree over mathematical sequences.
pub ghost enum RespValueView {
    Array(Seq<RespValueView>),
    BulkString(Seq<char>),
    NullBulkString,
}

impl View for RespValue {
    type V = RespValueView;

    open spec fn view(&self) -> RespValueView
        decreases self,
    {
        match self {
            RespValue::Array(items) => RespValueView::Array(
                Seq::new(
                    items@.len(),
                    |i: int|
                        if 0 <= i < items@.len() {
                            items@[i]@
                        } else {
                            RespValueView::NullBulkString
                        },
                ),
            ),
            RespValue::BulkString(text) => RespValueView::BulkString(text@),
            RespValue::NullBulkString => RespValueView::NullBulkString,
        }
    }
}

/// The views of a sequence of values, in order.
pub open spec fn value_views(values: Seq<RespValue>) -> Seq<RespValueView> {
    Seq::new(values.len(), |i: int| values[i]@)
}

/// An array is viewed as the array of its elements' views.
pub proof fn lemma_array_view(items: Vec<RespValue>)
    ensures
        RespValue::Array(items)@ == RespValueView::Array(value_views(items@)),
{
    assert(RespValue::Array(items)@->Array_0 =~= value_views(items@));
}

impl Clone for RespValue {
    fn clone(&self) -> (copy: Self)
        ensures
            copy@ == self@,
        decreases self,
    {
        match self {
            RespValue::Array(items) => {
                let mut copies: Vec<RespValue> = Vec::new();
                let mut i: usize = 0;
                while i < items.len()
                    invariant
                        *self == RespValue::Array(*items),
                        i <= items.len(),
                        copies.len() == i,
                        forall|j: int| 0 <= j < i ==> copies@[j]@ == items@[j]@,
                    decreases items.len() - i,
                {
                    assert(decreases_to!(*self => self->Array_0));
                    assert(decreases_to!(*items => items[i as int]));
                    copies.push(items[i].clone());
                    i += 1;
                }
                proof {
                    lemma_array_view(copies);
                    lemma_array_view(*items);
                    assert(value_views(copies@) =~= value_views(items@));
                }
                RespValue::Array(copies)
            },
            RespValue::BulkString(text) => RespValue::BulkString(text.clone()),
            RespValue::NullBulkString => RespValue::NullBulkString,
        }
    }
}

/// How many arrays may stand inside one another, the outermost included.
pub const MAX_NESTING_DEPTH: usize = 32;

/// `first` in front of the elements that follow, unless those fail.
pub open spec fn elements_then(
    first: Seq<RespValueView>,
    rest: Result<(Seq<RespValueView>, int), ProtocolError>,
) -> Result<(Seq<RespValueView>, int), ProtocolError> {
    match rest {
        Ok((values, end)) => Ok((first + values, end)),
        Err(error) => Err(error),
    }
}

/// The value that starts at token `pos`, with the position behind it, where
/// arrays may still be nested `depth_left` deep.
///
/// An array header of count `n` is followed by `n` values. A bulk string
/// header is followed by a string value whose length in bytes is the one
/// that the header declares.
pub open spec fn value_at(tokens: Seq<TokenView>, pos: int, depth_left: nat) -> Result<
    (RespValueView, int),
    ProtocolError,
>
    decreases depth_left, 0nat,
{
    if !(0 <= pos < tokens.len()) {
        Err(ProtocolError::UnexpectedEnd)
    } else {
        match tokens[pos] {
            TokenView::Array(count) => if depth_left == 0 {
                Err(ProtocolError::NestingTooDeep)
            } else {
                match elements_at(tokens, pos + 1, count as nat, (depth_left - 1) as nat) {
                    Ok((items, end)) => Ok((RespValueView::Array(items), end)),
                    Err(error) => Err(error),
                }
            },
            TokenView::BulkString(length) => if pos + 1 < tokens.len() && tokens[pos
                + 1] is StringValue {
                let text = tokens[pos + 1]->StringValue_0;
                if encode_utf8(text).len() == length {
                    Ok((RespValueView::BulkString(text), pos + 2))
                } else {
                    Err(ProtocolError::LengthMismatch)
                }
            } else {
                Err(ProtocolError::MissingStringValue)
            },
            TokenView::NullBulkString => Ok((RespValueView::NullBulkString, pos + 1)),
            TokenView::StringValue(_) => Err(ProtocolError::UnexpectedStringValue),
        }
    }
}

/// The `count` values that start at token `pos`, one after another, with the
/// position behind the last.
pub open spec fn elements_at(tokens: Seq<TokenView>, pos: int, count: nat, depth_left: nat) -> Result<
    (Seq<RespValueView>, int),
    ProtocolError,
>
    decreases depth_left, count,
{
    if count == 0 {
        Ok((Seq::empty(), pos))
    } else {
        match value_at(tokens, pos, depth_left) {
            Ok((first, next)) => elements_then(
                seq![first],
                elements_at(tokens, next, (count - 1) as nat, depth_left),
            ),
            Err(error) => Err(error),
        }
    }
}

/// The one value that the tokens spell, start to end.
pub open spec fn parsed(tokens: Seq<TokenView>) -> Result<RespValueView, ProtocolError> {
    match value_at(tokens, 0, MAX_NESTING_DEPTH as nat) {
        Ok((value, end)) => if end == tokens.len() {
            Ok(value)
        } else {
            Err(ProtocolError::TrailingTokens)
        },
        Err(error) => Err(error),
    }
}

/// Parses the value that starts at token `pos`.
fn parse_value(tokens: &[Token], pos: usize, depth_left: usize) -> (r: Result<
    (RespValue, usize),
    ProtocolError,
>)
    ensures
        match r {
            Ok((value, end)) => {
                &&& value_at(token_views(tokens@), pos as int, depth_left as nat) == Ok::<
                    (RespValueView, int),
                    ProtocolError,
                >((value@, end as int))
                &&& pos < end <= tokens.len()
            },
            Err(error) => value_at(token_views(tokens@), pos as int, depth_left as nat) == Err::<
                (RespValueView, int),
                ProtocolError,
            >(error),
        },
    decreases depth_left,
{
    let ghost views = token_views(tokens@);
    if pos >= tokens.len() {
        return Err(ProtocolError::UnexpectedEnd);
    }
    assert(views[pos as int] == tokens@[pos as int]@);
    match &tokens[pos] {
        Token::Array(count) => {
            if depth_left == 0 {
                return Err(ProtocolError::NestingTooDeep);
            }
            let mut items: Vec<RespValue> = Vec::new();
            let mut next = pos + 1;
            let mut i: usize = 0;
            assert(value_views(items@) + Seq::<RespValueView>::empty() =~= Seq::<
                RespValueView,
            >::empty());
            while i < *count
                invariant
                    views == token_views(tokens@),
                    views[pos as int] == TokenView::Array(*count),
                    i <= *count,
                    pos < next <= tokens.len(),
                    depth_left > 0,
                    elements_at(views, pos + 1, *count as nat, (depth_left - 1) as nat)
                        == elements_then(
                        value_views(items@),
                        elements_at(views, next as int, (*count - i) as nat, (depth_left - 1) as nat),
                    ),
                decreases *count - i,
            {
                let ghost done = value_views(items@);
                match parse_value(tokens, next, depth_left - 1) {
                    Err(error) => {
                        assert(elements_at(
                            views,
                            next as int,
                            (*count - i) as nat,
                            (depth_left - 1) as nat,
                        ) == Err::<(Seq<RespValueView>, int), ProtocolError>(error));
                        return Err(error);
                    },
                    Ok((value, end)) => {
                        proof {
                            let rest = elements_at(
                                views,
                                end as int,
                                (*count - i - 1) as nat,
                                (depth_left - 1) as nat,
                            );
                            assert(value_views(items@.push(value)) =~= done + seq![value@]);
                            if let Ok((values, last)) = rest {
                                assert(done + (seq![value@] + values) =~= (done + seq![value@])
                                    + values);
                            }
                        }
                        items.push(value);
                        next = end;
                    },
                }
                i += 1;
            }
            proof {
                assert(value_views(items@) + Seq::<RespValueView>::empty() =~= value_views(
                    items@,
                ));
                lemma_array_view(items);
            }
            Ok((RespValue::Array(items), next))
        },
        Token::BulkString(length) => {
            if pos + 1 >= tokens.len() {
                return Err(ProtocolError::MissingStringValue);
            }
            assert(views[pos + 1] == tokens@[pos + 1]@);
            match &tokens[pos + 1] {
                Token::StringValue(text) => {
                    if *length != text.as_str().as_bytes().len() {
                        Err(ProtocolError::LengthMismatch)
                    } else {
                        Ok((RespValue::BulkString(text.clone()), pos + 2))
                    }
                },
                _ => Err(ProtocolError::MissingStringValue),
            }
        },
        Token::NullBulkString => Ok((RespValue::NullBulkString, pos + 1)),
        Token::StringValue(_) => Err(ProtocolError::UnexpectedStringValue),
    }
}

/// Assembles the tokens of one request into its value tree.
///
/// Fails where the tokens end too early, where a bulk string header lacks
/// its value or declares another length, where arrays are nested deeper
/// than `MAX_NESTING_DEPTH`, and where tokens are left behind the value.
pub fn parse(tokens: &[Token]) -> (r: Result<RespValue, ProtocolError>)
    ensures
        match r {
            Ok(value) => parsed(token_views(tokens@)) == Ok::<RespValueView, ProtocolError>(value@),
            Err(error) => parsed(token_views(tokens@)) == Err::<RespValueView, ProtocolError>(
                error,
            ),
        },
{
    match parse_value(tokens, 0, MAX_NESTING_DEPTH) {
        Ok((value, end)) => {
            if end == tokens.len() {
                Ok(value)
            } else {
                Err(ProtocolError::TrailingTokens)
            }
        },
        Err(error) => Err(error),
    }
}

} // verus!

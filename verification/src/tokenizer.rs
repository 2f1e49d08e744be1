//! The first stage of the pipeline: request text to protocol tokens.

use crate::error::ProtocolError;
use crate::text::{parse_isize, parse_usize, signed_decimal, unsigned_decimal};
use std::str::Chars;
use vstd::prelude::*;
use vstd::std_specs::iter::IteratorSpec;
use vstd::string::*;

verus! {

/// One lexical element of a request.
#[derive(PartialEq, Eq, Debug)]
pub enum Token {
    /// `*<count>`: the header of an array of `count` elements.
    Array(usize),
    /// `$<length>`: the header of a bulk string of `length` bytes.
    BulkString(usize),
    /// `$` with a negative length: the null bulk string.
    NullBulkString,
    /// The line that follows a bulk string header.
    StringValue(String),
}

/// A token with its text as a sequence of characters.
pub ghost enum TokenView {
    Array(usize),
    BulkString(usize),
    NullBulkString,
    StringValue(Seq<char>),
}

impl View for Token {
    type V = TokenView;

    open spec fn view(&self) -> TokenView {
        match self {
            Token::Array(count) => TokenView::Array(*count),
            Token::BulkString(length) => TokenView::BulkString(*length),
            Token::NullBulkString => TokenView::NullBulkString,
            Token::StringValue(text) => TokenView::StringValue(text@),
        }
    }
}

impl Clone for Token {
    fn clone(&self) -> (copy: Self)
        ensures
            copy@ == self@,
    {
        match self {
            Token::Array(count) => Token::Array(*count),
            Token::BulkString(length) => Token::BulkString(*length),
            Token::NullBulkString => Token::NullBulkString,
            Token::StringValue(text) => Token::StringValue(text.clone()),
        }
    }
}

/// The views of a sequence of tokens, in order.
pub open spec fn token_views(tokens: Seq<Token>) -> Seq<TokenView> {
    tokens.map_values(|token: Token| token@)
}

/// The text of the line at the start of `text`: the characters up to the
/// first carriage return that a line feed follows. A carriage return that
/// anything else follows is dropped together with the character behind it.
/// A text without line end is one line.
pub open spec fn line_of(text: Seq<char>) -> Seq<char>
    decreases text.len(),
{
    if text.len() == 0 {
        text
    } else if text[0] != '\r' {
        seq![text[0]] + line_of(text.skip(1))
    } else if text.len() == 1 || text[1] == '\n' {
        Seq::empty()
    } else {
        line_of(text.skip(2))
    }
}

/// What is left of `text` behind its first line and that line's end.
pub open spec fn after_line(text: Seq<char>) -> Seq<char>
    decreases text.len(),
{
    if text.len() == 0 {
        text
    } else if text[0] != '\r' {
        after_line(text.skip(1))
    } else if text.len() == 1 {
        Seq::empty()
    } else if text[1] == '\n' {
        text.skip(2)
    } else {
        after_line(text.skip(2))
    }
}

/// The rest behind a line is never longer than the text it was taken from.
pub proof fn lemma_after_line_shorter(text: Seq<char>)
    ensures
        after_line(text).len() <= text.len(),
    decreases text.len(),
{
    if text.len() == 0 {
    } else if text[0] != '\r' {
        lemma_after_line_shorter(text.skip(1));
    } else if text.len() > 1 && text[1] != '\n' {
        lemma_after_line_shorter(text.skip(2));
    }
}

/// `first` in front of the tokens of the rest, unless the rest fails.
pub open spec fn tokens_then(
    first: Seq<TokenView>,
    rest: Result<Seq<TokenView>, ProtocolError>,
) -> Result<Seq<TokenView>, ProtocolError> {
    match rest {
        Ok(tokens) => Ok(first + tokens),
        Err(error) => Err(error),
    }
}

/// The tokens of a request text, or the first error that a pass from left
/// to right meets.
///
/// An element starts with `*` or `$`, followed by a line that holds a
/// number. `*` gives an array header. `$` with a negative number gives the
/// null bulk string; otherwise a bulk string header, and the next line, read
/// as it stands, is its string value.
pub open spec fn tokens_of(text: Seq<char>) -> Result<Seq<TokenView>, ProtocolError>
    decreases text.len(),
    via tokens_of_decreases
{
    if text.len() == 0 {
        Ok(Seq::empty())
    } else if text[0] == '*' {
        match unsigned_decimal(line_of(text.skip(1)), usize::MAX as nat) {
            None => Err(ProtocolError::InvalidArrayLength),
            Some(count) => tokens_then(
                seq![TokenView::Array(count as usize)],
                tokens_of(after_line(text.skip(1))),
            ),
        }
    } else if text[0] == '$' {
        match signed_decimal(line_of(text.skip(1)), isize::MIN as int, isize::MAX as int) {
            None => Err(ProtocolError::InvalidBulkStringLength),
            Some(length) => if length < 0 {
                tokens_then(seq![TokenView::NullBulkString], tokens_of(after_line(text.skip(1))))
            } else {
                let body = after_line(text.skip(1));
                tokens_then(
                    seq![TokenView::BulkString(length as usize), TokenView::StringValue(line_of(body))],
                    tokens_of(after_line(body)),
                )
            },
        }
    } else {
        Err(ProtocolError::UnexpectedToken)
    }
}

#[via_fn]
proof fn tokens_of_decreases(text: Seq<char>) {
    if text.len() > 0 {
        lemma_after_line_shorter(text.skip(1));
        lemma_after_line_shorter(after_line(text.skip(1)));
    }
}

/// Reads one line from `chars`: returns its text, and whether a line end
/// closed it (otherwise the input ended first).
pub fn read_until_crlf(chars: &mut Chars) -> (r: (String, bool))
    requires
        (*old(chars)).decrease() is Some,
    ensures
        r.0@ == line_of((*old(chars)).remaining()),
        (*final(chars)).remaining() == after_line((*old(chars)).remaining()),
        (*final(chars)).decrease() is Some,
        r.1 ==> (*final(chars)).decrease()->0 < (*old(chars)).decrease()->0,
        r.1 ==> (*old(chars)).remaining().len() > 0,
        !r.1 ==> (*final(chars)).remaining().len() == 0,
{
    let mut line = String::new();
    loop
        invariant
            (*chars).decrease() is Some,
            (*chars).decrease()->0 <= (*old(chars)).decrease()->0,
            line_of((*old(chars)).remaining()) == line@ + line_of((*chars).remaining()),
            after_line((*old(chars)).remaining()) == after_line((*chars).remaining()),
            (*chars).remaining().len() > 0 ==> (*old(chars)).remaining().len() > 0,
        decreases (*chars).decrease()->0,
    {
        let ghost before = (*chars).remaining();
        let ghost prefix = line@;
        match chars.next() {
            None => {
                return (line, false);
            },
            Some(c) => {
                if c == '\r' {
                    match chars.next() {
                        None => {
                            return (line, false);
                        },
                        Some(d) => {
                            assert(before.skip(1).drop_first() == before.skip(2));
                            if d == '\n' {
                                return (line, true);
                            }
                        },
                    }
                } else {
                    line.push(c);
                    assert(line@ + line_of(before.skip(1)) == prefix + line_of(before));
                }
            },
        }
    }
}

/// Splits a request text into tokens in one pass from left to right.
///
/// Fails on an element that starts with anything but `*` or `$`, and on a
/// length that is not a number. The length of a bulk string is not held
/// against its value here.
pub fn tokenize(input: &str) -> (r: Result<Vec<Token>, ProtocolError>)
    ensures
        match r {
            Ok(tokens) => tokens_of(input@) == Ok::<Seq<TokenView>, ProtocolError>(
                token_views(tokens@),
            ),
            Err(error) => tokens_of(input@) == Err::<Seq<TokenView>, ProtocolError>(error),
        },
{
    let mut tokens: Vec<Token> = Vec::new();
    let mut chars = input.chars();
    assert(token_views(tokens@) + Seq::<TokenView>::empty() == Seq::<TokenView>::empty());
    loop
        invariant
            chars.decrease() is Some,
            tokens_of(input@) == tokens_then(token_views(tokens@), tokens_of(chars.remaining())),
        decreases chars.decrease()->0,
    {
        let ghost text = chars.remaining();
        let ghost done = token_views(tokens@);
        match chars.next() {
            None => {
                assert(done + Seq::<TokenView>::empty() == done);
                return Ok(tokens);
            },
            Some(c) => {
                assert(text.drop_first() == text.skip(1));
                if c == '*' {
                    let (line, more) = read_until_crlf(&mut chars);
                    match parse_usize(line.as_str()) {
                        None => {
                            return Err(ProtocolError::InvalidArrayLength);
                        },
                        Some(count) => {
                            tokens.push(Token::Array(count));
                            proof {
                                let added = seq![TokenView::Array(count)];
                                assert(token_views(tokens@) == done + added);
                                lemma_tokens_then_twice(
                                    done,
                                    added,
                                    tokens_of(chars.remaining()),
                                );
                            }
                        },
                    }
                    if !more {
                        assert(token_views(tokens@) + Seq::<TokenView>::empty() == token_views(
                            tokens@,
                        ));
                        return Ok(tokens);
                    }
                } else if c == '$' {
                    let (line, more) = read_until_crlf(&mut chars);
                    match parse_isize(line.as_str()) {
                        None => {
                            return Err(ProtocolError::InvalidBulkStringLength);
                        },
                        Some(length) => {
                            if length < 0 {
                                tokens.push(Token::NullBulkString);
                                proof {
                                    let added = seq![TokenView::NullBulkString];
                                    assert(token_views(tokens@) == done + added);
                                    lemma_tokens_then_twice(
                                        done,
                                        added,
                                        tokens_of(chars.remaining()),
                                    );
                                }
                                if !more {
                                    assert(token_views(tokens@) + Seq::<TokenView>::empty()
                                        == token_views(tokens@));
                                    return Ok(tokens);
                                }
                            } else {
                                tokens.push(Token::BulkString(length as usize));
                                let (value, more) = read_until_crlf(&mut chars);
                                let ghost value_text = value@;
                                tokens.push(Token::StringValue(value));
                                proof {
                                    let added = seq![
                                        TokenView::BulkString(length as usize),
                                        TokenView::StringValue(value_text),
                                    ];
                                    assert(token_views(tokens@) == done + added);
                                    lemma_tokens_then_twice(
                                        done,
                                        added,
                                        tokens_of(chars.remaining()),
                                    );
                                }
                                if !more {
                                    assert(token_views(tokens@) + Seq::<TokenView>::empty()
                                        == token_views(tokens@));
                                    return Ok(tokens);
                                }
                            }
                        },
                    }
                } else {
                    return Err(ProtocolError::UnexpectedToken);
                }
            },
        }
    }
}

/// Putting `a` and then `b` in front of a result is putting `a + b` in front.
pub proof fn lemma_tokens_then_twice(
    a: Seq<TokenView>,
    b: Seq<TokenView>,
    rest: Result<Seq<TokenView>, ProtocolError>,
)
    ensures
        tokens_then(a, tokens_then(b, rest)) == tokens_then(a + b, rest),
{
    if let Ok(tokens) = rest {
        assert(a + (b + tokens) == (a + b) + tokens);
    }
}

} // verus!

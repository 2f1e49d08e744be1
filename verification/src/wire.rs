//! The wire form of tokens and values, and the proof that the tokenizer and
//! the parser read it back.

use crate::error::ProtocolError;
use crate::grammar::{lemma_parse_inverts_spelling, spellable, tokens_for, tokens_for_elements};
use crate::parser::{parsed, RespValueView, MAX_NESTING_DEPTH};
use crate::text::{
    all_digits, decimal_from, decimal_value, digit_value, is_digit, signed_decimal,
    unsigned_decimal,
};
use crate::tokenizer::{after_line, lemma_after_line_shorter, line_of, tokens_of, TokenView};
use vstd::prelude::*;
use vstd::utf8::encode_utf8;

verus! {

/// The character of the decimal digit `digit`.
pub open spec fn digit_char(digit: nat) -> char
    recommends
        digit < 10,
{
    if digit == 0 {
        '0'
    } else if digit == 1 {
        '1'
    } else if digit == 2 {
        '2'
    } else if digit == 3 {
        '3'
    } else if digit == 4 {
        '4'
    } else if digit == 5 {
        '5'
    } else if digit == 6 {
        '6'
    } else if digit == 7 {
        '7'
    } else if digit == 8 {
        '8'
    } else {
        '9'
    }
}

/// The decimal digits of `number`, without sign or leading zeros.
pub open spec fn digits_of(number: nat) -> Seq<char>
    decreases number,
{
    if number < 10 {
        seq![digit_char(number)]
    } else {
        digits_of(number / 10).push(digit_char(number % 10))
    }
}

/// The end of a line: carriage return, line feed.
pub open spec fn line_end() -> Seq<char> {
    seq!['\r', '\n']
}

/// Whether `text` holds no carriage return.
pub open spec fn no_carriage_return(text: Seq<char>) -> bool {
    forall|i: int| 0 <= i < text.len() ==> #[trigger] text[i] != '\r'
}

/// The line that spells one token, without its end.
pub open spec fn token_line(token: TokenView) -> Seq<char> {
    match token {
        TokenView::Array(count) => seq!['*'] + digits_of(count as nat),
        TokenView::BulkString(length) => seq!['$'] + digits_of(length as nat),
        TokenView::NullBulkString => seq!['$', '-', '1'],
        TokenView::StringValue(text) => text,
    }
}

/// The request text that spells `tokens`: one line for each token.
pub open spec fn text_for(tokens: Seq<TokenView>) -> Seq<char>
    decreases tokens.len(),
{
    if tokens.len() == 0 {
        Seq::empty()
    } else {
        token_line(tokens[0]) + line_end() + text_for(tokens.drop_first())
    }
}

/// Whether `tokens` stand in grammar order: every bulk string header has a
/// length within `isize` and is followed at once by its string value, which
/// holds no carriage return, and no string value stands elsewhere.
pub open spec fn framed(tokens: Seq<TokenView>) -> bool
    decreases tokens.len(),
{
    if tokens.len() == 0 {
        true
    } else {
        match tokens[0] {
            TokenView::Array(_) => framed(tokens.drop_first()),
            TokenView::NullBulkString => framed(tokens.drop_first()),
            TokenView::BulkString(length) => {
                &&& length <= isize::MAX
                &&& tokens.len() >= 2
                &&& tokens[1] is StringValue
                &&& no_carriage_return(tokens[1]->StringValue_0)
                &&& framed(tokens.skip(2))
            },
            TokenView::StringValue(_) => false,
        }
    }
}

/// Whether every bulk string of `value` can go on the wire as it is: it
/// holds no carriage return, and its length in bytes is within `isize`.
pub open spec fn wire_safe(value: RespValueView) -> bool
    decreases value,
{
    match value {
        RespValueView::Array(items) => forall|i: int|
            0 <= i < items.len() ==> wire_safe(#[trigger] items[i]),
        RespValueView::BulkString(text) => no_carriage_return(text) && encode_utf8(text).len()
            <= isize::MAX,
        RespValueView::NullBulkString => true,
    }
}

/// One more digit at the end multiplies by ten and adds the digit.
pub proof fn lemma_decimal_from_push(acc: nat, digits: Seq<char>, last: char)
    ensures
        decimal_from(acc, digits.push(last)) == decimal_from(acc, digits) * 10 + digit_value(last),
    decreases digits.len(),
{
    let all = digits.push(last);
    if digits.len() == 0 {
        assert(all.drop_first() =~= Seq::<char>::empty());
        assert(decimal_from(acc * 10 + digit_value(last), all.drop_first()) == acc * 10
            + digit_value(last));
    } else {
        assert(all.drop_first() =~= digits.drop_first().push(last));
        lemma_decimal_from_push(acc * 10 + digit_value(digits[0]), digits.drop_first(), last);
    }
}

/// The digits of a number are digits, at least one, and denote the number.
pub proof fn lemma_digits_of_number(number: nat)
    ensures
        digits_of(number).len() > 0,
        all_digits(digits_of(number)),
        decimal_value(digits_of(number)) == number,
    decreases number,
{
    if number < 10 {
        let digits = digits_of(number);
        assert(digits.drop_first() =~= Seq::<char>::empty());
        assert(decimal_from(digit_value(digits[0]), digits.drop_first()) == digit_value(digits[0]));
    } else {
        lemma_digits_of_number(number / 10);
        lemma_decimal_from_push(0, digits_of(number / 10), digit_char(number % 10));
    }
}

/// A line without carriage return, its end, and anything behind: the line
/// is read as it stands, and what is behind is left.
pub proof fn lemma_line_is_read(line: Seq<char>, rest: Seq<char>)
    requires
        no_carriage_return(line),
    ensures
        line_of(line + line_end() + rest) == line,
        after_line(line + line_end() + rest) == rest,
    decreases line.len(),
{
    let text = line + line_end() + rest;
    if line.len() == 0 {
        assert(text[0] == '\r' && text[1] == '\n');
        assert(text.skip(2) =~= rest);
        assert(line =~= Seq::<char>::empty());
    } else {
        assert(text[0] == line[0]);
        assert(text.skip(1) =~= line.skip(1) + line_end() + rest);
        assert forall|i: int| 0 <= i < line.skip(1).len() implies #[trigger] line.skip(1)[i]
            != '\r' by {
            assert(line.skip(1)[i] == line[i + 1]);
        }
        lemma_line_is_read(line.skip(1), rest);
        assert(seq![line[0]] + line.skip(1) =~= line);
    }
}

/// The text of a line never holds a carriage return.
pub proof fn lemma_line_has_no_carriage_return(text: Seq<char>)
    ensures
        no_carriage_return(line_of(text)),
    decreases text.len(),
{
    if text.len() == 0 {
    } else if text[0] != '\r' {
        lemma_line_has_no_carriage_return(text.skip(1));
        let rest = line_of(text.skip(1));
        assert forall|i: int| 0 <= i < line_of(text).len() implies #[trigger] line_of(text)[i]
            != '\r' by {
            if i > 0 {
                assert(line_of(text)[i] == rest[i - 1]);
            }
        }
    } else if text.len() == 1 || text[1] == '\n' {
    } else {
        lemma_line_has_no_carriage_return(text.skip(2));
    }
}

/// A run of digits starts with no sign and holds no carriage return.
pub proof fn lemma_digits_are_plain(digits: Seq<char>)
    requires
        digits.len() > 0,
        all_digits(digits),
    ensures
        digits[0] != '+',
        digits[0] != '-',
        no_carriage_return(digits),
{
    assert(is_digit(digits[0]));
    assert forall|i: int| 0 <= i < digits.len() implies #[trigger] digits[i] != '\r' by {
        assert(is_digit(digits[i]));
    }
}

/// The tokenizer reads the text that spells tokens in grammar order as
/// those tokens.
pub proof fn lemma_spelt_tokens_are_read(tokens: Seq<TokenView>)
    requires
        framed(tokens),
    ensures
        tokens_of(text_for(tokens)) == Ok::<Seq<TokenView>, ProtocolError>(tokens),
    decreases tokens.len(),
{
    if tokens.len() == 0 {
        assert(tokens =~= Seq::<TokenView>::empty());
    } else {
        let text = text_for(tokens);
        let behind = text_for(tokens.drop_first());
        match tokens[0] {
            TokenView::Array(count) => {
                let digits = digits_of(count as nat);
                lemma_digits_of_number(count as nat);
                lemma_digits_are_plain(digits);
                assert(text.skip(1) =~= digits + line_end() + behind);
                assert(text[0] == '*');
                lemma_line_is_read(digits, behind);
                assert(unsigned_decimal(digits, usize::MAX as nat) == Some(count as nat));
                lemma_spelt_tokens_are_read(tokens.drop_first());
                assert(seq![tokens[0]] + tokens.drop_first() =~= tokens);
            },
            TokenView::NullBulkString => {
                let digits = seq!['-', '1'];
                assert(text.skip(1) =~= digits + line_end() + behind);
                assert(text[0] == '$');
                lemma_line_is_read(digits, behind);
                assert(no_carriage_return(digits));
                assert(digits.skip(1) =~= seq!['1']);
                assert(all_digits(seq!['1']));
                assert(decimal_value(seq!['1']) == 1) by {
                    reveal_with_fuel(decimal_from, 2);
                    assert(seq!['1'].drop_first() =~= Seq::<char>::empty());
                }
                assert(signed_decimal(digits, isize::MIN as int, isize::MAX as int) == Some(
                    -1int,
                ));
                lemma_spelt_tokens_are_read(tokens.drop_first());
                assert(seq![tokens[0]] + tokens.drop_first() =~= tokens);
            },
            TokenView::BulkString(length) => {
                let digits = digits_of(length as nat);
                let value = tokens[1]->StringValue_0;
                let further = text_for(tokens.skip(2));
                lemma_digits_of_number(length as nat);
                lemma_digits_are_plain(digits);
                assert(signed_decimal(digits, isize::MIN as int, isize::MAX as int) == Some(
                    length as int,
                ));
                assert(no_carriage_return(value));
                assert(tokens.drop_first()[0] == tokens[1]);
                assert(tokens.drop_first().drop_first() =~= tokens.skip(2));
                assert(behind == value + line_end() + further);
                assert(text.skip(1) =~= digits + line_end() + behind);
                assert(text[0] == '$');
                lemma_line_is_read(digits, behind);
                lemma_line_is_read(value, further);
                lemma_spelt_tokens_are_read(tokens.skip(2));
                assert(seq![tokens[0], tokens[1]] + tokens.skip(2) =~= tokens);
            },
            TokenView::StringValue(_) => {},
        }
    }
}

/// The tokens that the tokenizer gives stand in grammar order: a string
/// value always follows its bulk string header at once, and stands nowhere
/// else.
pub proof fn lemma_tokens_are_framed(text: Seq<char>)
    requires
        tokens_of(text) is Ok,
    ensures
        framed(tokens_of(text)->Ok_0),
    decreases text.len(),
{
    let tokens = tokens_of(text)->Ok_0;
    if text.len() > 0 {
        lemma_after_line_shorter(text.skip(1));
        let behind = after_line(text.skip(1));
        if text[0] == '*' {
            lemma_tokens_are_framed(behind);
            assert(tokens.drop_first() =~= tokens_of(behind)->Ok_0);
        } else if signed_decimal(line_of(text.skip(1)), isize::MIN as int, isize::MAX as int)->0
            < 0 {
            lemma_tokens_are_framed(behind);
            assert(tokens.drop_first() =~= tokens_of(behind)->Ok_0);
        } else {
            lemma_after_line_shorter(behind);
            lemma_tokens_are_framed(after_line(behind));
            lemma_line_has_no_carriage_return(behind);
            assert(tokens.skip(2) =~= tokens_of(after_line(behind))->Ok_0);
        }
    }
}

/// Tokens in grammar order, one run behind another, stand in grammar order.
pub proof fn lemma_framed_concat(first: Seq<TokenView>, second: Seq<TokenView>)
    requires
        framed(first),
        framed(second),
    ensures
        framed(first + second),
    decreases first.len(),
{
    let all = first + second;
    if first.len() == 0 {
        assert(all =~= second);
    } else {
        match first[0] {
            TokenView::BulkString(_) => {
                assert(all[1] == first[1]);
                assert(all.skip(2) =~= first.skip(2) + second);
                lemma_framed_concat(first.skip(2), second);
            },
            _ => {
                assert(all.drop_first() =~= first.drop_first() + second);
                lemma_framed_concat(first.drop_first(), second);
            },
        }
    }
}

/// The tokens that spell a value whose bulk strings can go on the wire
/// stand in grammar order.
pub proof fn lemma_spelling_is_framed(value: RespValueView)
    requires
        wire_safe(value),
    ensures
        framed(tokens_for(value)),
    decreases value, 0nat,
{
    match value {
        RespValueView::Array(items) => {
            lemma_elements_spelling_is_framed(items, 0);
            let header = seq![tokens_for(value)[0]];
            assert(header.drop_first() =~= Seq::<TokenView>::empty());
            assert(framed(header.drop_first()));
            assert(tokens_for(value) =~= header + tokens_for_elements(items, 0));
            lemma_framed_concat(header, tokens_for_elements(items, 0));
        },
        RespValueView::BulkString(text) => {
            assert(tokens_for(value).skip(2) =~= Seq::<TokenView>::empty());
            assert(framed(tokens_for(value).skip(2)));
        },
        RespValueView::NullBulkString => {
            assert(tokens_for(value).drop_first() =~= Seq::<TokenView>::empty());
            assert(framed(tokens_for(value).drop_first()));
        },
    }
}

/// The tokens that spell a run of such values stand in grammar order.
pub proof fn lemma_elements_spelling_is_framed(values: Seq<RespValueView>, from: nat)
    requires
        forall|i: int| from <= i < values.len() ==> wire_safe(#[trigger] values[i]),
    ensures
        framed(tokens_for_elements(values, from)),
    decreases values, values.len() - from,
{
    if from < values.len() {
        lemma_spelling_is_framed(values[from as int]);
        lemma_elements_spelling_is_framed(values, from + 1);
        lemma_framed_concat(
            tokens_for(values[from as int]),
            tokens_for_elements(values, from + 1),
        );
    }
}

/// The request text that spells `value`: `*`, the count and a line end for
/// an array, followed by its elements; `$`, the length in bytes, a line
/// end, the text and a line end for a bulk string; `$-1` and a line end for
/// the null bulk string.
pub open spec fn request_text(value: RespValueView) -> Seq<char> {
    text_for(tokens_for(value))
}

/// Round trip over the wire: the tokenizer and the parser read the request
/// text that spells a value back as that value.
pub proof fn lemma_request_text_is_read(value: RespValueView)
    requires
        spellable(value, MAX_NESTING_DEPTH as nat),
        wire_safe(value),
    ensures
        tokens_of(request_text(value)) == Ok::<Seq<TokenView>, ProtocolError>(tokens_for(value)),
        parsed(tokens_for(value)) == Ok::<RespValueView, ProtocolError>(value),
{
    lemma_spelling_is_framed(value);
    lemma_spelt_tokens_are_read(tokens_for(value));
    lemma_parse_inverts_spelling(tokens_for(value), value);
}

} // verus!

//! Text helpers shared by the protocol stages: string comparison, decimal
//! numbers, case folding and UTF-8 decoding.

use std::str::Chars;
use std::str::Utf8Error;
use vstd::prelude::*;
use vstd::std_specs::iter::IteratorSpec;
use vstd::string::*;
use vstd::utf8::*;

verus! {

/// `String::push` appends one character to the end of the string.
pub assume_specification[ String::push ](s: &mut String, c: char)
    ensures
        final(s)@ == old(s)@.push(c),
;

/// `std::str::Utf8Error`, of which nothing is read.
#[verifier::external_type_specification]
#[verifier::external_body]
pub struct ExUtf8Error(Utf8Error);

/// The upper-case form of a text under the Unicode case mapping that
/// `str::to_uppercase` applies.
pub uninterp spec fn uppercase(text: Seq<char>) -> Seq<char>;

/// `str::to_uppercase`: the result is the upper-case form of `text`, a
/// function of the characters of `text` alone.
#[verifier::external_body]
pub(crate) fn to_uppercase(text: &str) -> (upper: String)
    ensures
        upper@ == uppercase(text@),
{
    text.to_uppercase()
}

/// `std::str::from_utf8`: succeeds exactly on well-formed UTF-8, and the
/// string it returns is encoded by the very bytes that were passed in.
#[verifier::external_body]
pub(crate) fn from_utf8(bytes: &[u8]) -> (r: Result<&str, Utf8Error>)
    ensures
        r is Ok <==> valid_utf8(bytes@),
        r matches Ok(text) ==> text.spec_bytes() == bytes@,
{
    std::str::from_utf8(bytes)
}

/// Whether two strings hold the same characters.
pub fn str_eq(a: &str, b: &str) -> (same: bool)
    ensures
        same == (a@ == b@),
{
    broadcast use encode_utf8_decode_utf8;

    let left = a.as_bytes();
    let right = b.as_bytes();
    if left.len() != right.len() {
        return false;
    }
    let mut i: usize = 0;
    while i < left.len()
        invariant
            left.len() == right.len(),
            i <= left.len(),
            left@ == encode_utf8(a@),
            right@ == encode_utf8(b@),
            forall|j: int| 0 <= j < i ==> left@[j] == right@[j],
        decreases left.len() - i,
    {
        if left[i] != right[i] {
            return false;
        }
        i += 1;
    }
    assert(left@ =~= right@);
    assert(decode_utf8(encode_utf8(a@)) == a@);
    assert(decode_utf8(encode_utf8(b@)) == b@);
    true
}

/// Whether `c` is one of the ten decimal digits.
pub open spec fn is_digit(c: char) -> bool {
    '0' <= c <= '9'
}

/// The value of the decimal digit `c`.
pub open spec fn digit_value(c: char) -> nat
    recommends
        is_digit(c),
{
    (c as u32 - '0' as u32) as nat
}

/// Whether every character of `text` is a decimal digit.
pub open spec fn all_digits(text: Seq<char>) -> bool {
    forall|i: int| 0 <= i < text.len() ==> is_digit(#[trigger] text[i])
}

/// The number obtained by appending the digits of `text` to a number `acc`
/// already read, most significant digit first.
pub open spec fn decimal_from(acc: nat, text: Seq<char>) -> nat
    decreases text.len(),
{
    if text.len() == 0 {
        acc
    } else {
        decimal_from(acc * 10 + digit_value(text[0]), text.drop_first())
    }
}

/// The number that a run of decimal digits denotes.
pub open spec fn decimal_value(digits: Seq<char>) -> nat {
    decimal_from(0, digits)
}

/// The value of `digits` if it is a non-empty run of decimal digits that
/// denotes a number no larger than `limit`.
pub open spec fn digits_within(digits: Seq<char>, limit: nat) -> Option<nat> {
    if digits.len() > 0 && all_digits(digits) && decimal_value(digits) <= limit {
        Some(decimal_value(digits))
    } else {
        None
    }
}

/// Reading of `text` as an unsigned decimal number: an optional `+`, then
/// one or more digits, and a value of at most `limit`.
pub open spec fn unsigned_decimal(text: Seq<char>, limit: nat) -> Option<nat> {
    if text.len() > 0 && text[0] == '+' {
        digits_within(text.skip(1), limit)
    } else {
        digits_within(text, limit)
    }
}

/// Reading of `text` as a signed decimal number between `lowest` and
/// `highest`: an optional `+` or `-`, then one or more digits.
pub open spec fn signed_decimal(text: Seq<char>, lowest: int, highest: int) -> Option<int>
    recommends
        lowest <= 0 <= highest,
{
    if text.len() > 0 && text[0] == '-' {
        match digits_within(text.skip(1), (-lowest) as nat) {
            Some(magnitude) => Some(-(magnitude as int)),
            None => None,
        }
    } else {
        match unsigned_decimal(text, highest as nat) {
            Some(value) => Some(value as int),
            None => None,
        }
    }
}

/// Appending digits never makes the number read so far smaller.
pub proof fn lemma_decimal_from_grows(acc: nat, text: Seq<char>)
    ensures
        acc <= decimal_from(acc, text),
    decreases text.len(),
{
    if text.len() > 0 {
        lemma_decimal_from_grows(acc * 10 + digit_value(text[0]), text.drop_first());
    }
}

/// The outcome of reading the digits `rest` after a number `acc`, of which
/// at least one digit was read already if `seen` holds.
pub open spec fn continue_digits(acc: nat, seen: bool, rest: Seq<char>, limit: nat) -> Option<
    nat,
> {
    if (seen || rest.len() > 0) && all_digits(rest) && decimal_from(acc, rest) <= limit {
        Some(decimal_from(acc, rest))
    } else {
        None
    }
}

/// Reads the rest of `chars` as decimal digits that continue the number
/// `acc`.
fn read_digits(chars: &mut Chars, acc: u128, seen: bool, limit: u128) -> (r: Option<u128>)
    requires
        (*old(chars)).decrease() is Some,
        acc <= limit,
    ensures
        match continue_digits(acc as nat, seen, (*old(chars)).remaining(), limit as nat) {
            Some(value) => r == Some(value as u128),
            None => r is None,
        },
{
    let mut value = acc;
    let mut any = seen;
    loop
        invariant
            (*chars).decrease() is Some,
            value <= limit,
            continue_digits(acc as nat, seen, (*old(chars)).remaining(), limit as nat)
                == continue_digits(value as nat, any, (*chars).remaining(), limit as nat),
        decreases (*chars).decrease()->0,
    {
        let ghost rest = (*chars).remaining();
        match chars.next() {
            None => {
                return if any {
                    Some(value)
                } else {
                    None
                };
            },
            Some(c) => {
                if c < '0' || c > '9' {
                    return None;
                }
                let digit = (c as u32 - '0' as u32) as u128;
                if digit > limit || value > (limit - digit) / 10 {
                    proof {
                        lemma_decimal_from_grows(value as nat * 10 + digit as nat, rest.drop_first());
                    }
                    return None;
                }
                proof {
                    lemma_all_digits_split(rest);
                }
                value = value * 10 + digit;
                any = true;
            },
        }
    }
}

/// Reads the character `first` and the rest of `chars` as an unsigned decimal
/// number of at most `limit`.
fn read_unsigned(chars: &mut Chars, first: char, limit: u128) -> (r: Option<u128>)
    requires
        (*old(chars)).decrease() is Some,
    ensures
        match unsigned_decimal(seq![first] + (*old(chars)).remaining(), limit as nat) {
            Some(value) => r == Some(value as u128),
            None => r is None,
        },
{
    let ghost text = seq![first] + (*chars).remaining();
    assert(text.drop_first() == (*chars).remaining());
    assert(text.skip(1) == (*chars).remaining());
    if first == '+' {
        read_digits(chars, 0, false, limit)
    } else if first < '0' || first > '9' {
        None
    } else {
        let digit = (first as u32 - '0' as u32) as u128;
        proof {
            lemma_all_digits_split(text);
            lemma_decimal_from_grows(digit as nat, text.drop_first());
        }
        if digit > limit {
            None
        } else {
            read_digits(chars, digit, true, limit)
        }
    }
}

/// Reads `text` as an unsigned decimal number of at most `limit`.
pub fn parse_unsigned(text: &str, limit: u128) -> (r: Option<u128>)
    ensures
        match unsigned_decimal(text@, limit as nat) {
            Some(value) => r == Some(value as u128),
            None => r is None,
        },
{
    let mut chars = text.chars();
    match chars.next() {
        None => None,
        Some(first) => {
            assert(text@ == seq![first] + text@.drop_first());
            read_unsigned(&mut chars, first, limit)
        },
    }
}

/// Reads `text` as a `usize`: an optional `+`, then decimal digits.
pub fn parse_usize(text: &str) -> (r: Option<usize>)
    ensures
        match unsigned_decimal(text@, usize::MAX as nat) {
            Some(value) => r == Some(value as usize),
            None => r is None,
        },
{
    match parse_unsigned(text, usize::MAX as u128) {
        Some(value) => Some(value as usize),
        None => None,
    }
}

/// Reads `text` as a `u64`: an optional `+`, then decimal digits.
pub fn parse_u64(text: &str) -> (r: Option<u64>)
    ensures
        match unsigned_decimal(text@, u64::MAX as nat) {
            Some(value) => r == Some(value as u64),
            None => r is None,
        },
{
    match parse_unsigned(text, u64::MAX as u128) {
        Some(value) => Some(value as u64),
        None => None,
    }
}

/// Reads `text` as an `isize`: an optional `+` or `-`, then decimal digits.
pub fn parse_isize(text: &str) -> (r: Option<isize>)
    ensures
        match signed_decimal(text@, isize::MIN as int, isize::MAX as int) {
            Some(value) => r == Some(value as isize),
            None => r is None,
        },
{
    let mut chars = text.chars();
    match chars.next() {
        None => None,
        Some(first) => {
            assert(text@ == seq![first] + text@.drop_first());
            assert(text@.skip(1) == text@.drop_first());
            if first == '-' {
                match read_digits(&mut chars, 0, false, isize::MAX as u128 + 1) {
                    Some(magnitude) => {
                        let value = -(magnitude as i128);
                        Some(value as isize)
                    },
                    None => None,
                }
            } else {
                match read_unsigned(&mut chars, first, isize::MAX as u128) {
                    Some(value) => Some(value as isize),
                    None => None,
                }
            }
        },
    }
}

/// A run of digits is a digit followed by a run of digits.
pub proof fn lemma_all_digits_split(text: Seq<char>)
    requires
        text.len() > 0,
    ensures
        all_digits(text) <==> is_digit(text[0]) && all_digits(text.drop_first()),
{
    if is_digit(text[0]) && all_digits(text.drop_first()) {
        assert forall|i: int| 0 <= i < text.len() implies is_digit(#[trigger] text[i]) by {
            if i > 0 {
                assert(text[i] == text.drop_first()[i - 1]);
            }
        }
    } else if is_digit(text[0]) {
        let j = choose|j: int|
            0 <= j < text.drop_first().len() && !is_digit(#[trigger] text.drop_first()[j]);
        assert(text[j + 1] == text.drop_first()[j]);
    }
}

} // verus!

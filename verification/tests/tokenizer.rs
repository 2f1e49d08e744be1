use resp_kv::tokenizer::read_until_crlf;
use resp_kv::{parse, tokenize, ProtocolError, RespValue, Token};

fn text(s: &str) -> Token {
    Token::StringValue(s.to_owned())
}

#[test]
fn tokenize_empty_input_gives_no_tokens() {
    assert_eq!(tokenize("").unwrap(), vec![]);
}

#[test]
fn tokenize_negative_length_gives_null_bulk_string() {
    assert_eq!(tokenize("$-1\r\n").unwrap(), vec![Token::NullBulkString]);
    assert_eq!(tokenize("$-5\r\n").unwrap(), vec![Token::NullBulkString]);
    assert_eq!(
        tokenize("$-1\r\n$-1\r\n").unwrap(),
        vec![Token::NullBulkString, Token::NullBulkString]
    );
}

#[test]
fn tokenize_null_bulk_string_reads_no_payload_line() {
    assert_eq!(
        tokenize("*2\r\n$-1\r\n$1\r\na\r\n").unwrap(),
        vec![
            Token::Array(2),
            Token::NullBulkString,
            Token::BulkString(1),
            text("a"),
        ]
    );
}

#[test]
fn tokenize_minus_zero_is_a_bulk_string_header() {
    assert_eq!(
        tokenize("$-0\r\n\r\n").unwrap(),
        vec![Token::BulkString(0), text("")]
    );
}

#[test]
fn tokenize_accepts_plus_sign_and_leading_zeros() {
    assert_eq!(tokenize("*+2\r\n").unwrap(), vec![Token::Array(2)]);
    assert_eq!(tokenize("*007\r\n").unwrap(), vec![Token::Array(7)]);
    assert_eq!(
        tokenize("$+3\r\nhey\r\n").unwrap(),
        vec![Token::BulkString(3), text("hey")]
    );
}

#[test]
fn tokenize_rejects_other_leading_characters() {
    assert_eq!(tokenize("+OK\r\n"), Err(ProtocolError::UnexpectedToken));
    assert_eq!(tokenize("PING\r\n"), Err(ProtocolError::UnexpectedToken));
    assert_eq!(
        tokenize("*1\r\n$4\r\nPING\r\n:1\r\n"),
        Err(ProtocolError::UnexpectedToken)
    );
    assert_eq!(tokenize("\r\n"), Err(ProtocolError::UnexpectedToken));
}

#[test]
fn tokenize_rejects_array_length_that_is_no_number() {
    assert_eq!(tokenize("*x\r\n"), Err(ProtocolError::InvalidArrayLength));
    assert_eq!(tokenize("*\r\n"), Err(ProtocolError::InvalidArrayLength));
    assert_eq!(tokenize("*-1\r\n"), Err(ProtocolError::InvalidArrayLength));
    assert_eq!(tokenize("* 1\r\n"), Err(ProtocolError::InvalidArrayLength));
    assert_eq!(tokenize("*1 \r\n"), Err(ProtocolError::InvalidArrayLength));
    assert_eq!(tokenize("*+\r\n"), Err(ProtocolError::InvalidArrayLength));
    assert_eq!(
        tokenize("*340282366920938463463374607431768211456\r\n"),
        Err(ProtocolError::InvalidArrayLength)
    );
}

#[test]
fn tokenize_array_length_at_the_limit_of_usize() {
    let most = format!("*{}\r\n", usize::MAX);
    assert_eq!(tokenize(&most).unwrap(), vec![Token::Array(usize::MAX)]);
    let beyond = format!("*{}0\r\n", usize::MAX);
    assert_eq!(tokenize(&beyond), Err(ProtocolError::InvalidArrayLength));
}

#[test]
fn tokenize_rejects_bulk_length_that_is_no_number() {
    assert_eq!(
        tokenize("$abc\r\n"),
        Err(ProtocolError::InvalidBulkStringLength)
    );
    assert_eq!(tokenize("$\r\n"), Err(ProtocolError::InvalidBulkStringLength));
    assert_eq!(tokenize("$-\r\n"), Err(ProtocolError::InvalidBulkStringLength));
    assert_eq!(
        tokenize("$1.5\r\n"),
        Err(ProtocolError::InvalidBulkStringLength)
    );
}

#[test]
fn tokenize_bulk_length_at_the_limits_of_isize() {
    let most = format!("${}\r\nx\r\n", isize::MAX);
    assert_eq!(
        tokenize(&most).unwrap(),
        vec![Token::BulkString(isize::MAX as usize), text("x")]
    );
    let least = format!("${}\r\n", isize::MIN);
    assert_eq!(tokenize(&least).unwrap(), vec![Token::NullBulkString]);
    let beyond = format!("${}0\r\n", isize::MAX);
    assert_eq!(tokenize(&beyond), Err(ProtocolError::InvalidBulkStringLength));
    let below = format!("${}0\r\n", isize::MIN);
    assert_eq!(tokenize(&below), Err(ProtocolError::InvalidBulkStringLength));
}

#[test]
fn tokenize_does_not_hold_length_against_payload() {
    assert_eq!(
        tokenize("*2\r\n$4\r\nECHO\r\n$5\r\nhey\r\n").unwrap(),
        vec![
            Token::Array(2),
            Token::BulkString(4),
            text("ECHO"),
            Token::BulkString(5),
            text("hey"),
        ]
    );
}

#[test]
fn tokenize_reports_the_first_error_from_the_left() {
    assert_eq!(
        tokenize("*x\r\n$y\r\n"),
        Err(ProtocolError::InvalidArrayLength)
    );
    assert_eq!(
        tokenize("$y\r\n*x\r\n"),
        Err(ProtocolError::InvalidBulkStringLength)
    );
    assert_eq!(
        tokenize("*1\r\n?\r\n*x\r\n"),
        Err(ProtocolError::UnexpectedToken)
    );
}

#[test]
fn tokenize_input_without_final_line_end() {
    assert_eq!(
        tokenize("*1\r\n$4\r\nPING").unwrap(),
        vec![Token::Array(1), Token::BulkString(4), text("PING")]
    );
    assert_eq!(tokenize("*3").unwrap(), vec![Token::Array(3)]);
    assert_eq!(
        tokenize("$5").unwrap(),
        vec![Token::BulkString(5), text("")]
    );
    assert_eq!(
        tokenize("$5\r").unwrap(),
        vec![Token::BulkString(5), text("")]
    );
}

#[test]
fn tokenize_carriage_return_without_line_feed_is_dropped_with_its_follower() {
    assert_eq!(
        tokenize("$2\r\na\rXb\r\n").unwrap(),
        vec![Token::BulkString(2), text("ab")]
    );
    assert_eq!(
        tokenize("$1\r\na\r\r\n").unwrap(),
        vec![Token::BulkString(1), text("a\n")]
    );
    assert_eq!(tokenize("*1\rX2\r\n").unwrap(), vec![Token::Array(12)]);
}

#[test]
fn tokenize_line_feed_alone_is_part_of_the_line() {
    assert_eq!(
        tokenize("$3\r\na\nb\r\n").unwrap(),
        vec![Token::BulkString(3), text("a\nb")]
    );
    assert_eq!(tokenize("*1\n\r\n"), Err(ProtocolError::InvalidArrayLength));
}

#[test]
fn tokenize_keeps_characters_beyond_ascii() {
    let tokens = tokenize("$6\r\n日本\r\n").unwrap();
    assert_eq!(tokens, vec![Token::BulkString(6), text("日本")]);
    assert_eq!(
        parse(&tokens).unwrap(),
        RespValue::BulkString("日本".to_owned())
    );
}

#[test]
fn token_clone_is_equal() {
    let tokens = vec![
        Token::Array(2),
        Token::BulkString(3),
        text("hey"),
        Token::NullBulkString,
    ];
    assert_eq!(tokens.clone(), tokens);
}

#[test]
fn read_until_crlf_takes_one_line_and_leaves_the_rest() {
    let mut chars = "abc\r\ndef".chars();
    assert_eq!(read_until_crlf(&mut chars), ("abc".to_owned(), true));
    assert_eq!(chars.as_str(), "def");
    assert_eq!(read_until_crlf(&mut chars), ("def".to_owned(), false));
    assert_eq!(chars.as_str(), "");
    assert_eq!(read_until_crlf(&mut chars), ("".to_owned(), false));
}

#[test]
fn read_until_crlf_drops_carriage_return_and_its_follower() {
    let mut chars = "a\rbc\r\nrest".chars();
    assert_eq!(read_until_crlf(&mut chars), ("ac".to_owned(), true));
    assert_eq!(chars.as_str(), "rest");
    let mut chars = "ab\r".chars();
    assert_eq!(read_until_crlf(&mut chars), ("ab".to_owned(), false));
    let mut chars = "\r\n".chars();
    assert_eq!(read_until_crlf(&mut chars), ("".to_owned(), true));
}

//! The failures of the request pipeline and the texts that describe them.

use vstd::prelude::*;
use vstd::string::*;

verus! {

/// A malformed byte stream: the request is not text, or does not follow the
/// wire grammar.
#[derive(Clone, Copy, Debug, PartialEq, Eq)]
pub enum ProtocolError {
    /// The request is not valid UTF-8.
    InvalidUtf8,
    /// An element starts with a character other than `*` or `$`.
    UnexpectedToken,
    /// The count after `*` is not an unsigned decimal number.
    InvalidArrayLength,
    /// The length after `$` is not a decimal number.
    InvalidBulkStringLength,
    /// The tokens end where a value is expected.
    UnexpectedEnd,
    /// A bulk string header is not followed by its string value.
    MissingStringValue,
    /// A bulk string header declares a length other than that of its value.
    LengthMismatch,
    /// A string value stands where no bulk string header announces it.
    UnexpectedStringValue,
    /// Tokens are left after the first complete value.
    TrailingTokens,
    /// Arrays are nested deeper than the parser accepts.
    NestingTooDeep,
}

/// A well-formed value that is not a valid command.
#[derive(Clone, Copy, Debug, PartialEq, Eq)]
pub enum CommandError {
    /// The request is not an array.
    NotAnArray,
    /// The array is empty, or its first element is not a bulk string.
    MissingCommandName,
    /// The command name is none of `PING`, `ECHO`, `GET`, `SET`.
    UnknownCommand,
    /// The command has fewer arguments than it needs.
    MissingArgument,
    /// An argument is not a bulk string.
    InvalidArgument,
    /// The command has more arguments than it takes.
    TooManyArguments,
    /// An option of `SET` is none of those it knows.
    UnknownOption,
    /// An expiry option of `SET` is the last argument.
    MissingExpireTime,
    /// The argument of an expiry option is not an unsigned decimal number.
    InvalidExpireTime,
}

/// A failure while a command's effect is computed.
#[derive(Clone, Copy, Debug, PartialEq, Eq)]
pub enum ExecutionError {
    /// The system clock reads a time before the Unix epoch.
    ClockBeforeEpoch,
    /// The expiry instant does not fit in the range of instants.
    ExpireTimeOverflow,
}

/// Any failure of the pipeline from request bytes to reply bytes.
#[derive(Clone, Copy, Debug, PartialEq, Eq)]
pub enum Error {
    Protocol(ProtocolError),
    Command(CommandError),
    Execution(ExecutionError),
}

impl ProtocolError {
    /// What is wrong with the request.
    pub open spec fn detail_text(self) -> Seq<char> {
        match self {
            ProtocolError::InvalidUtf8 => "invalid utf-8 sequence"@,
            ProtocolError::UnexpectedToken => "unexpected token: the given token not exists in grammar"@,
            ProtocolError::InvalidArrayLength => "unexpected token: usize value expected while lexing array"@,
            ProtocolError::InvalidBulkStringLength => "unexpected token: isize value expected while lexing bulk string"@,
            ProtocolError::UnexpectedEnd => "expected valid RESP bytes, but nothing given"@,
            ProtocolError::MissingStringValue => "BulkString indicator exists, but actual string value is not given"@,
            ProtocolError::LengthMismatch => "BulkString length does not match with actual string value"@,
            ProtocolError::UnexpectedStringValue => "string value should always follow a BulkString indicator"@,
            ProtocolError::TrailingTokens => "unexpected tokens after the end of the value"@,
            ProtocolError::NestingTooDeep => "arrays are nested too deeply"@,
        }
    }

    /// The text that says what is wrong with the request.
    pub fn detail(&self) -> (text: &'static str)
        ensures
            text@ == self.detail_text(),
    {
        match self {
            ProtocolError::InvalidUtf8 => "invalid utf-8 sequence",
            ProtocolError::UnexpectedToken => "unexpected token: the given token not exists in grammar",
            ProtocolError::InvalidArrayLength => "unexpected token: usize value expected while lexing array",
            ProtocolError::InvalidBulkStringLength => "unexpected token: isize value expected while lexing bulk string",
            ProtocolError::UnexpectedEnd => "expected valid RESP bytes, but nothing given",
            ProtocolError::MissingStringValue => "BulkString indicator exists, but actual string value is not given",
            ProtocolError::LengthMismatch => "BulkString length does not match with actual string value",
            ProtocolError::UnexpectedStringValue => "string value should always follow a BulkString indicator",
            ProtocolError::TrailingTokens => "unexpected tokens after the end of the value",
            ProtocolError::NestingTooDeep => "arrays are nested too deeply",
        }
    }

    /// No such text is longer than a line.
    pub proof fn lemma_detail_short(self)
        ensures
            self.detail_text().len() <= 80,
    {
        reveal_strlit("invalid utf-8 sequence");
        reveal_strlit("unexpected token: the given token not exists in grammar");
        reveal_strlit("unexpected token: usize value expected while lexing array");
        reveal_strlit("unexpected token: isize value expected while lexing bulk string");
        reveal_strlit("expected valid RESP bytes, but nothing given");
        reveal_strlit("BulkString indicator exists, but actual string value is not given");
        reveal_strlit("BulkString length does not match with actual string value");
        reveal_strlit("string value should always follow a BulkString indicator");
        reveal_strlit("unexpected tokens after the end of the value");
        reveal_strlit("arrays are nested too deeply");
    }
}

impl CommandError {
    /// What is wrong with the command.
    pub open spec fn detail_text(self) -> Seq<char> {
        match self {
            CommandError::NotAnArray => "client command should always generate array"@,
            CommandError::MissingCommandName => "client command array should always contain BulkString"@,
            CommandError::UnknownCommand => "unexpected command, or not yet implemented"@,
            CommandError::MissingArgument => "the command lacks an argument"@,
            CommandError::InvalidArgument => "every argument should be BulkString"@,
            CommandError::TooManyArguments => "the command has too many arguments"@,
            CommandError::UnknownOption => "Unknown option in SET command"@,
            CommandError::MissingExpireTime => "SET expiry option should contain expire time"@,
            CommandError::InvalidExpireTime => "SET expire time should be in valid format"@,
        }
    }

    /// The text that says what is wrong with the command.
    pub fn detail(&self) -> (text: &'static str)
        ensures
            text@ == self.detail_text(),
    {
        match self {
            CommandError::NotAnArray => "client command should always generate array",
            CommandError::MissingCommandName => "client command array should always contain BulkString",
            CommandError::UnknownCommand => "unexpected command, or not yet implemented",
            CommandError::MissingArgument => "the command lacks an argument",
            CommandError::InvalidArgument => "every argument should be BulkString",
            CommandError::TooManyArguments => "the command has too many arguments",
            CommandError::UnknownOption => "Unknown option in SET command",
            CommandError::MissingExpireTime => "SET expiry option should contain expire time",
            CommandError::InvalidExpireTime => "SET expire time should be in valid format",
        }
    }

    /// No such text is longer than a line.
    pub proof fn lemma_detail_short(self)
        ensures
            self.detail_text().len() <= 80,
    {
        reveal_strlit("client command should always generate array");
        reveal_strlit("client command array should always contain BulkString");
        reveal_strlit("unexpected command, or not yet implemented");
        reveal_strlit("the command lacks an argument");
        reveal_strlit("every argument should be BulkString");
        reveal_strlit("the command has too many arguments");
        reveal_strlit("Unknown option in SET command");
        reveal_strlit("SET expiry option should contain expire time");
        reveal_strlit("SET expire time should be in valid format");
    }
}

impl ExecutionError {
    /// What went wrong.
    pub open spec fn detail_text(self) -> Seq<char> {
        match self {
            ExecutionError::ClockBeforeEpoch => "SystemTime before unix epoch"@,
            ExecutionError::ExpireTimeOverflow => "failed to add duration to systemtime"@,
        }
    }

    /// The text that says what went wrong.
    pub fn detail(&self) -> (text: &'static str)
        ensures
            text@ == self.detail_text(),
    {
        match self {
            ExecutionError::ClockBeforeEpoch => "SystemTime before unix epoch",
            ExecutionError::ExpireTimeOverflow => "failed to add duration to systemtime",
        }
    }

    /// No such text is longer than a line.
    pub proof fn lemma_detail_short(self)
        ensures
            self.detail_text().len() <= 80,
    {
        reveal_strlit("SystemTime before unix epoch");
        reveal_strlit("failed to add duration to systemtime");
    }
}

impl Error {
    /// What the pipeline was doing when it failed.
    pub open spec fn stage_text(self) -> Seq<char> {
        match self {
            Error::Protocol(ProtocolError::InvalidUtf8) => "failed to convert raw binary request to utf-8 string slice"@,
            Error::Protocol(ProtocolError::UnexpectedToken)
            | Error::Protocol(ProtocolError::InvalidArrayLength)
            | Error::Protocol(ProtocolError::InvalidBulkStringLength) => "tokenization failed"@,
            Error::Protocol(_) => "parsing failed"@,
            Error::Command(_) => "interpretation failed"@,
            Error::Execution(_) => "failed to calculate expire time"@,
        }
    }

    /// What is wrong.
    pub open spec fn detail_text(self) -> Seq<char> {
        match self {
            Error::Protocol(error) => error.detail_text(),
            Error::Command(error) => error.detail_text(),
            Error::Execution(error) => error.detail_text(),
        }
    }

    /// The text that says what the pipeline was doing when it failed.
    pub fn stage(&self) -> (text: &'static str)
        ensures
            text@ == self.stage_text(),
    {
        match self {
            Error::Protocol(ProtocolError::InvalidUtf8) => "failed to convert raw binary request to utf-8 string slice",
            Error::Protocol(ProtocolError::UnexpectedToken)
            | Error::Protocol(ProtocolError::InvalidArrayLength)
            | Error::Protocol(ProtocolError::InvalidBulkStringLength) => "tokenization failed",
            Error::Protocol(_) => "parsing failed",
            Error::Command(_) => "interpretation failed",
            Error::Execution(_) => "failed to calculate expire time",
        }
    }

    /// The text that says what is wrong.
    pub fn detail(&self) -> (text: &'static str)
        ensures
            text@ == self.detail_text(),
    {
        match self {
            Error::Protocol(error) => error.detail(),
            Error::Command(error) => error.detail(),
            Error::Execution(error) => error.detail(),
        }
    }

    /// The stage and the detail on one line, with a colon between them.
    pub open spec fn message_text(self) -> Seq<char> {
        self.stage_text() + ": "@ + self.detail_text()
    }

    /// The error in words: its stage and its detail.
    pub fn message(&self) -> (text: String)
        ensures
            text@ == self.message_text(),
    {
        let mut text = self.stage().to_owned();
        text.append(": ");
        text.append(self.detail());
        text
    }

    /// Neither text is longer than a line.
    pub proof fn lemma_texts_short(self)
        ensures
            self.stage_text().len() <= 80,
            self.detail_text().len() <= 80,
    {
        reveal_strlit("failed to convert raw binary request to utf-8 string slice");
        reveal_strlit("tokenization failed");
        reveal_strlit("parsing failed");
        reveal_strlit("interpretation failed");
        reveal_strlit("failed to calculate expire time");
        match self {
            Error::Protocol(error) => error.lemma_detail_short(),
            Error::Command(error) => error.lemma_detail_short(),
            Error::Execution(error) => error.lemma_detail_short(),
        }
    }
}

} // verus!

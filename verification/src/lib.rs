//! An in-memory key-value store behind a length-prefixed request protocol.
//!
//! A request passes through four stages: the tokenizer splits its text into
//! tokens, the parser assembles the tokens into a value tree, the
//! interpreter reads the tree as a command, and the command is executed
//! against the store.

pub mod buffer;
pub mod clock;
pub mod command;
pub mod database;
pub mod error;
pub mod grammar;
pub mod interpreter;
pub mod laws;
pub mod parser;
pub mod reply;
pub mod response;
pub mod text;
pub mod tokenizer;
pub mod wire;

pub use command::{
    Command, Echo, Execute, ExecutionContext, Get, Ping, SetCommand, SetCondition,
};
pub use database::{Data, Database, ExpireTime};
pub use error::{CommandError, Error, ExecutionError, ProtocolError};
pub use interpreter::{interpret, interpret_at};
pub use parser::{parse, RespValue};
pub use reply::NULL_BULK_STRING;
pub use response::{error_reply, generate_response, generate_response_at};
pub use tokenizer::{tokenize, Token};

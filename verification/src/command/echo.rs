use crate::command::{Execute, ExecutionContext, Outcome};
use crate::database::{DataView, ExpireTime};
use crate::error::ExecutionError;
use crate::reply::{simple_string, simple_string_reply};
use vstd::prelude::*;

verus! {

/// `ECHO message`: replies with the message.
#[derive(PartialEq, Eq, Debug)]
pub struct Echo {
    pub message: String,
}

pub ghost struct EchoView {
    pub message: Seq<char>,
}

impl View for Echo {
    type V = EchoView;

    open spec fn view(&self) -> EchoView {
        EchoView { message: self.message@ }
    }
}

impl Clone for Echo {
    fn clone(&self) -> (copy: Self)
        ensures
            copy == *self,
    {
        Echo { message: self.message.clone() }
    }
}

/// `ECHO` replies with its message as a simple string and leaves the store
/// alone.
pub open spec fn echo_outcome(echo: EchoView, store: Map<Seq<char>, DataView>) -> Outcome {
    Outcome { reply: simple_string(echo.message), store }
}

impl Execute for Echo {
    open spec fn outcome(&self, store: Map<Seq<char>, DataView>, now: Option<ExpireTime>) -> Outcome {
        echo_outcome(self@, store)
    }

    fn execute(&self, ctx: ExecutionContext) -> (r: Result<Vec<u8>, ExecutionError>) {
        Ok(simple_string_reply(self.message.as_str()))
    }
}

} // verus!

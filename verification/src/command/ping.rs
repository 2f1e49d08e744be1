use crate::command::{Execute, ExecutionContext, Outcome};
use crate::database::{DataView, ExpireTime};
use crate::error::ExecutionError;
use crate::reply::{pong_reply, pong_reply_bytes, simple_string, simple_string_reply};
use vstd::prelude::*;

verus! {

/// `PING [message]`: replies with the message, or with `PONG`.
#[derive(PartialEq, Eq, Debug)]
pub struct Ping {
    pub message: Option<String>,
}

pub ghost struct PingView {
    pub message: Option<Seq<char>>,
}

impl View for Ping {
    type V = PingView;

    open spec fn view(&self) -> PingView {
        PingView {
            message: match self.message {
                Some(text) => Some(text@),
                None => None,
            },
        }
    }
}

impl Clone for Ping {
    fn clone(&self) -> (copy: Self)
        ensures
            copy == *self,
    {
        Ping {
            message: match &self.message {
                Some(text) => Some(text.clone()),
                None => None,
            },
        }
    }
}

/// `PING` replies with its message as a simple string, or with `PONG` where
/// it has none, and leaves the store alone.
pub open spec fn ping_outcome(ping: PingView, store: Map<Seq<char>, DataView>) -> Outcome {
    Outcome {
        reply: match ping.message {
            Some(text) => simple_string(text),
            None => pong_reply(),
        },
        store,
    }
}

impl Execute for Ping {
    open spec fn outcome(&self, store: Map<Seq<char>, DataView>, now: Option<ExpireTime>) -> Outcome {
        ping_outcome(self@, store)
    }

    fn execute(&self, ctx: ExecutionContext) -> (r: Result<Vec<u8>, ExecutionError>) {
        Ok(
            match &self.message {
                Some(message) => simple_string_reply(message.as_str()),
                None => pong_reply_bytes(),
            },
        )
    }
}

} // verus!

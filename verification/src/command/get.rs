use crate::command::{Execute, ExecutionContext, Outcome};
use crate::database::{purged, visible, DataView, ExpireTime};
use crate::error::ExecutionError;
use crate::reply::{null_bulk_string, null_bulk_string_reply, simple_string, simple_string_reply};
use vstd::prelude::*;

verus! {

/// `GET key`: replies with the value stored under the key.
#[derive(PartialEq, Eq, Debug)]
pub struct Get {
    pub key: String,
}

pub ghost struct GetView {
    pub key: Seq<char>,
}

impl View for Get {
    type V = GetView;

    open spec fn view(&self) -> GetView {
        GetView { key: self.key@ }
    }
}

impl Clone for Get {
    fn clone(&self) -> (copy: Self)
        ensures
            copy == *self,
    {
        Get { key: self.key.clone() }
    }
}

/// `GET` replies with the value that is visible under its key as a simple
/// string, or with the null reply where none is; an expired entry under the
/// key leaves the store.
pub open spec fn get_outcome(
    get: GetView,
    store: Map<Seq<char>, DataView>,
    now: Option<ExpireTime>,
) -> Outcome {
    Outcome {
        reply: match visible(store, get.key, now) {
            Some(data) => simple_string(data.value),
            None => null_bulk_string(),
        },
        store: purged(store, get.key, now),
    }
}

impl Execute for Get {
    open spec fn outcome(&self, store: Map<Seq<char>, DataView>, now: Option<ExpireTime>) -> Outcome {
        get_outcome(self@, store, now)
    }

    fn execute(&self, ctx: ExecutionContext) -> (r: Result<Vec<u8>, ExecutionError>) {
        Ok(
            match ctx.db.get_at(self.key.as_str(), ctx.now) {
                Some(data) => simple_string_reply(data.value.as_str()),
                None => null_bulk_string_reply(),
            },
        )
    }
}

} // verus!

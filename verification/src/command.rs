//! The commands and what executing each does to the store.

mod echo;
mod get;
mod ping;
mod set;

pub use echo::{echo_outcome, Echo, EchoView};
pub use get::{get_outcome, Get, GetView};
pub use ping::{ping_outcome, Ping, PingView};
pub use set::{
    argument_view, calculate_expire_time, calculate_expire_time_at, expire_time_of,
    instant_after, is_expiry_option, may_write, option_applied, set_outcome, with_options,
    SetCommand, SetCondition, SetView,
};

use crate::database::{DataView, Database, ExpireTime};
use crate::error::ExecutionError;
use vstd::prelude::*;

verus! {

/// What a command works on: the store, and the instant at which the command
/// executes (`None` where the clock could not be read).
pub struct ExecutionContext<'a> {
    pub db: &'a mut Database,
    pub now: Option<ExpireTime>,
}

/// What executing a command gives: the reply, and the store it leaves.
pub ghost struct Outcome {
    pub reply: Seq<u8>,
    pub store: Map<Seq<char>, DataView>,
}

/// A request that the interpreter has understood.
#[derive(PartialEq, Eq, Debug)]
pub enum Command {
    Ping(Ping),
    Echo(Echo),
    SetCommand(SetCommand),
    Get(Get),
}

pub ghost enum CommandView {
    Ping(PingView),
    Echo(EchoView),
    SetCommand(SetView),
    Get(GetView),
}

impl View for Command {
    type V = CommandView;

    open spec fn view(&self) -> CommandView {
        match self {
            Command::Ping(ping) => CommandView::Ping(ping@),
            Command::Echo(echo) => CommandView::Echo(echo@),
            Command::SetCommand(set) => CommandView::SetCommand(set@),
            Command::Get(get) => CommandView::Get(get@),
        }
    }
}

impl Clone for Command {
    fn clone(&self) -> (copy: Self)
        ensures
            copy == *self,
    {
        match self {
            Command::Ping(ping) => Command::Ping(ping.clone()),
            Command::Echo(echo) => Command::Echo(echo.clone()),
            Command::SetCommand(set) => Command::SetCommand(set.clone()),
            Command::Get(get) => Command::Get(get.clone()),
        }
    }
}

/// The reply to a command and the store it leaves, from the store it finds
/// and the instant at which it executes.
pub open spec fn command_outcome(
    command: CommandView,
    store: Map<Seq<char>, DataView>,
    now: Option<ExpireTime>,
) -> Outcome {
    match command {
        CommandView::Ping(ping) => ping_outcome(ping, store),
        CommandView::Echo(echo) => echo_outcome(echo, store),
        CommandView::SetCommand(set) => set_outcome(set, store, now),
        CommandView::Get(get) => get_outcome(get, store, now),
    }
}

/// A command that can be executed against the store.
pub trait Execute {
    /// The reply to this command and the store it leaves, from the store it
    /// finds and the instant at which it executes.
    spec fn outcome(&self, store: Map<Seq<char>, DataView>, now: Option<ExpireTime>) -> Outcome;

    /// Executes the command: always succeeds, returns the reply and leaves
    /// the store as `outcome` says.
    fn execute(&self, ctx: ExecutionContext) -> (r: Result<Vec<u8>, ExecutionError>)
        ensures
            r matches Ok(reply) && reply@ == self.outcome(old(ctx.db)@, ctx.now).reply,
            final(ctx.db)@ == self.outcome(old(ctx.db)@, ctx.now).store,
    ;
}

impl Execute for Command {
    open spec fn outcome(&self, store: Map<Seq<char>, DataView>, now: Option<ExpireTime>) -> Outcome {
        command_outcome(self@, store, now)
    }

    fn execute(&self, ctx: ExecutionContext) -> (r: Result<Vec<u8>, ExecutionError>) {
        match self {
            Command::Ping(ping) => ping.execute(ctx),
            Command::Echo(echo) => echo.execute(ctx),
            Command::SetCommand(set) => set.execute(ctx),
            Command::Get(get) => get.execute(ctx),
        }
    }
}

} // verus!

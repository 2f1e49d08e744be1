//! The third stage of the pipeline: a value tree to a command.

use crate::clock::unix_millis;
use crate::command::{
    with_options, Command, CommandView, Echo, EchoView, Get, GetView, Ping, PingView, SetCommand,
    SetView,
};
use crate::database::ExpireTime;
use crate::error::{CommandError, Error};
use crate::parser::{lemma_array_view, value_views, RespValue, RespValueView};
use crate::text::{str_eq, to_uppercase, uppercase};
use vstd::prelude::*;
use vstd::slice::slice_subrange;

verus! {

/// The one argument of a command that takes exactly one bulk string.
pub open spec fn single_text(arguments: Seq<RespValueView>) -> Result<Seq<char>, Error> {
    if arguments.len() == 0 {
        Err(Error::Command(CommandError::MissingArgument))
    } else if arguments.len() > 1 {
        Err(Error::Command(CommandError::TooManyArguments))
    } else {
        match arguments[0] {
            RespValueView::BulkString(text) => Ok(text),
            _ => Err(Error::Command(CommandError::InvalidArgument)),
        }
    }
}

/// The command that the name `name`, given in upper case, makes of its
/// arguments.
///
/// `ECHO` and `GET` take exactly one bulk string. `PING` takes none or one.
/// `SET` takes two bulk strings, key and value, and then its options.
pub open spec fn command_of(
    name: Seq<char>,
    arguments: Seq<RespValueView>,
    now: Option<ExpireTime>,
) -> Result<CommandView, Error> {
    if name == "ECHO"@ {
        match single_text(arguments) {
            Ok(message) => Ok(CommandView::Echo(EchoView { message })),
            Err(error) => Err(error),
        }
    } else if name == "PING"@ {
        if arguments.len() == 0 {
            Ok(CommandView::Ping(PingView { message: None }))
        } else {
            match single_text(arguments) {
                Ok(message) => Ok(CommandView::Ping(PingView { message: Some(message) })),
                Err(error) => Err(error),
            }
        }
    } else if name == "SET"@ {
        if arguments.len() < 2 {
            Err(Error::Command(CommandError::MissingArgument))
        } else if !(arguments[0] is BulkString && arguments[1] is BulkString) {
            Err(Error::Command(CommandError::InvalidArgument))
        } else {
            let plain = SetView {
                key: arguments[0]->BulkString_0,
                value: arguments[1]->BulkString_0,
                nx_or_xx: None,
                get: false,
                expire_time: None,
            };
            match with_options(plain, arguments.skip(2), now) {
                (set, Ok(_)) => Ok(CommandView::SetCommand(set)),
                (_, Err(error)) => Err(error),
            }
        }
    } else if name == "GET"@ {
        match single_text(arguments) {
            Ok(key) => Ok(CommandView::Get(GetView { key })),
            Err(error) => Err(error),
        }
    } else {
        Err(Error::Command(CommandError::UnknownCommand))
    }
}

/// The command that a value tree spells at the instant `now`: the tree is an
/// array, its first element a bulk string that names the command whatever
/// its case, the other elements its arguments.
pub open spec fn interpretation(ir: RespValueView, now: Option<ExpireTime>) -> Result<
    CommandView,
    Error,
> {
    match ir {
        RespValueView::Array(items) => if items.len() > 0 && items[0] is BulkString {
            command_of(uppercase(items[0]->BulkString_0), items.skip(1), now)
        } else {
            Err(Error::Command(CommandError::MissingCommandName))
        },
        _ => Err(Error::Command(CommandError::NotAnArray)),
    }
}

/// Reads `arguments` as exactly one bulk string.
fn single_argument(arguments: &[RespValue]) -> (r: Result<&String, Error>)
    ensures
        match r {
            Ok(text) => single_text(value_views(arguments@)) == Ok::<Seq<char>, Error>(text@),
            Err(error) => single_text(value_views(arguments@)) == Err::<Seq<char>, Error>(error),
        },
{
    if arguments.len() == 0 {
        Err(Error::Command(CommandError::MissingArgument))
    } else if arguments.len() > 1 {
        Err(Error::Command(CommandError::TooManyArguments))
    } else {
        match &arguments[0] {
            RespValue::BulkString(text) => Ok(text),
            _ => Err(Error::Command(CommandError::InvalidArgument)),
        }
    }
}

/// Builds the command that `name`, given in upper case, makes of
/// `arguments`, with `now` as the present instant.
pub fn interpret_named(name: &str, arguments: &[RespValue], now: Option<ExpireTime>) -> (r: Result<
    Command,
    Error,
>)
    ensures
        match r {
            Ok(command) => command_of(name@, value_views(arguments@), now) == Ok::<
                CommandView,
                Error,
            >(command@),
            Err(error) => command_of(name@, value_views(arguments@), now) == Err::<
                CommandView,
                Error,
            >(error),
        },
{
    let ghost views = value_views(arguments@);
    if str_eq(name, "ECHO") {
        match single_argument(arguments) {
            Ok(message) => Ok(Command::Echo(Echo { message: message.clone() })),
            Err(error) => Err(error),
        }
    } else if str_eq(name, "PING") {
        if arguments.len() == 0 {
            Ok(Command::Ping(Ping { message: None }))
        } else {
            match single_argument(arguments) {
                Ok(message) => Ok(Command::Ping(Ping { message: Some(message.clone()) })),
                Err(error) => Err(error),
            }
        }
    } else if str_eq(name, "SET") {
        if arguments.len() < 2 {
            return Err(Error::Command(CommandError::MissingArgument));
        }
        let (key, value) = match (&arguments[0], &arguments[1]) {
            (RespValue::BulkString(key), RespValue::BulkString(value)) => (key, value),
            _ => {
                return Err(Error::Command(CommandError::InvalidArgument));
            },
        };
        let mut set_cmd = SetCommand {
            key: key.clone(),
            value: value.clone(),
            nx_or_xx: None,
            get: false,
            expire_time: None,
        };
        let options = slice_subrange(arguments, 2, arguments.len());
        assert(value_views(options@) =~= views.skip(2));
        match set_cmd.set_option_at(options, now) {
            Ok(_) => Ok(Command::SetCommand(set_cmd)),
            Err(error) => Err(error),
        }
    } else if str_eq(name, "GET") {
        match single_argument(arguments) {
            Ok(key) => Ok(Command::Get(Get { key: key.clone() })),
            Err(error) => Err(error),
        }
    } else {
        Err(Error::Command(CommandError::UnknownCommand))
    }
}

/// Maps a value tree to the command it spells, with `now` as the present
/// instant.
pub fn interpret_at(ir: &RespValue, now: Option<ExpireTime>) -> (r: Result<Command, Error>)
    ensures
        match r {
            Ok(command) => interpretation(ir@, now) == Ok::<CommandView, Error>(command@),
            Err(error) => interpretation(ir@, now) == Err::<CommandView, Error>(error),
        },
{
    let cmd = match ir {
        RespValue::Array(cmd) => cmd,
        _ => {
            return Err(Error::Command(CommandError::NotAnArray));
        },
    };
    proof {
        lemma_array_view(*cmd);
    }
    if cmd.len() == 0 {
        return Err(Error::Command(CommandError::MissingCommandName));
    }
    let name = match &cmd[0] {
        RespValue::BulkString(name) => name,
        _ => {
            return Err(Error::Command(CommandError::MissingCommandName));
        },
    };
    let arguments = slice_subrange(cmd.as_slice(), 1, cmd.len());
    assert(value_views(arguments@) =~= value_views(cmd@).skip(1));
    let upper = to_uppercase(name.as_str());
    interpret_named(upper.as_str(), arguments, now)
}

/// Maps a value tree to the command it spells. The system clock is read
/// once; every relative expiry counts from that reading.
pub fn interpret(ir: &RespValue) -> (r: Result<Command, Error>)
    ensures
        exists|now: Option<ExpireTime>|
            match r {
                Ok(command) => #[trigger] interpretation(ir@, now) == Ok::<CommandView, Error>(
                    command@,
                ),
                Err(error) => interpretation(ir@, now) == Err::<CommandView, Error>(error),
            },
{
    let now = unix_millis();
    interpret_at(ir, now)
}

} // verus!

use crate::clock::unix_millis;
use crate::command::{Execute, ExecutionContext, Outcome};
use crate::database::{purged, visible, Data, DataView, ExpireTime};
use crate::error::{CommandError, Error, ExecutionError};
use crate::parser::{value_views, RespValue, RespValueView};
use crate::reply::{
    null_bulk_string, null_bulk_string_reply, ok_reply, ok_reply_bytes, simple_string,
    simple_string_reply,
};
use crate::text::{parse_u64, str_eq, to_uppercase, unsigned_decimal, uppercase};
use vstd::prelude::*;

verus! {

/// The condition under which `SET` writes.
#[derive(PartialEq, Eq, Debug, Clone, Copy)]
pub enum SetCondition {
    /// Write only where no entry is visible under the key.
    NX,
    /// Write only where an entry is visible under the key.
    XX,
}

/// `SET key value [NX | XX] [GET] [EX n | PX n | EXAT n | PXAT n]`: stores
/// the value under the key.
#[derive(PartialEq, Eq, Debug)]
pub struct SetCommand {
    pub key: String,
    pub value: String,
    pub nx_or_xx: Option<SetCondition>,
    /// Whether the reply is the value that was visible before.
    pub get: bool,
    /// The instant at which the new entry expires, if it does.
    pub expire_time: Option<ExpireTime>,
}

pub ghost struct SetView {
    pub key: Seq<char>,
    pub value: Seq<char>,
    pub nx_or_xx: Option<SetCondition>,
    pub get: bool,
    pub expire_time: Option<ExpireTime>,
}

impl View for SetCommand {
    type V = SetView;

    open spec fn view(&self) -> SetView {
        SetView {
            key: self.key@,
            value: self.value@,
            nx_or_xx: self.nx_or_xx,
            get: self.get,
            expire_time: self.expire_time,
        }
    }
}

impl Clone for SetCommand {
    fn clone(&self) -> (copy: Self)
        ensures
            copy == *self,
    {
        SetCommand {
            key: self.key.clone(),
            value: self.value.clone(),
            nx_or_xx: self.nx_or_xx,
            get: self.get,
            expire_time: self.expire_time,
        }
    }
}

impl Default for SetCommand {
    /// A `SET` of the empty value under the empty key, without options.
    fn default() -> (set: Self)
        ensures
            set@ == (SetView {
                key: Seq::empty(),
                value: Seq::empty(),
                nx_or_xx: None,
                get: false,
                expire_time: None,
            }),
    {
        SetCommand { key: String::new(), value: String::new(), nx_or_xx: None, get: false, expire_time: None }
    }
}

/// Whether `SET` with `condition` writes, given the entry that is visible
/// under its key.
pub open spec fn may_write(condition: Option<SetCondition>, seen: Option<DataView>) -> bool {
    match condition {
        Some(SetCondition::NX) => seen is None,
        Some(SetCondition::XX) => seen is Some,
        None => true,
    }
}

/// `SET` first looks at its key, which makes an expired entry leave the
/// store. Where its condition allows, it then puts its value and expiry
/// under the key. It replies `OK`, or, with `get`, the value that was visible
/// before (the null reply where none was), whether it has written or not.
pub open spec fn set_outcome(
    set: SetView,
    store: Map<Seq<char>, DataView>,
    now: Option<ExpireTime>,
) -> Outcome {
    let seen = visible(store, set.key, now);
    Outcome {
        reply: if set.get {
            match seen {
                Some(data) => simple_string(data.value),
                None => null_bulk_string(),
            }
        } else {
            ok_reply()
        },
        store: if may_write(set.nx_or_xx, seen) {
            store.insert(set.key, DataView { value: set.value, expire_time: set.expire_time })
        } else {
            purged(store, set.key, now)
        },
    }
}

impl Execute for SetCommand {
    open spec fn outcome(&self, store: Map<Seq<char>, DataView>, now: Option<ExpireTime>) -> Outcome {
        set_outcome(self@, store, now)
    }

    fn execute(&self, ctx: ExecutionContext) -> (r: Result<Vec<u8>, ExecutionError>) {
        let data = Data { value: self.value.clone(), expire_time: self.expire_time };
        let (exists, reply) = match ctx.db.get_at(self.key.as_str(), ctx.now) {
            Some(old_data) => (
                true,
                if self.get {
                    simple_string_reply(old_data.value.as_str())
                } else {
                    ok_reply_bytes()
                },
            ),
            None => (
                false,
                if self.get {
                    null_bulk_string_reply()
                } else {
                    ok_reply_bytes()
                },
            ),
        };
        let write = match self.nx_or_xx {
            Some(SetCondition::NX) => !exists,
            Some(SetCondition::XX) => exists,
            None => true,
        };
        if write {
            ctx.db.set_at(self.key.as_str(), &data, ctx.now);
            assert(purged(old(ctx.db)@, self.key@, ctx.now).insert(self.key@, data@) =~= old(
                ctx.db,
            )@.insert(self.key@, data@));
        }
        Ok(reply)
    }
}

/// The instant `delay` milliseconds after `now`.
pub open spec fn instant_after(now: Option<ExpireTime>, delay: nat) -> Result<ExpireTime, Error> {
    match now {
        Some(instant) => if instant + delay <= u128::MAX {
            Ok((instant + delay) as u128)
        } else {
            Err(Error::Execution(ExecutionError::ExpireTimeOverflow))
        },
        None => Err(Error::Execution(ExecutionError::ClockBeforeEpoch)),
    }
}

/// The instant in milliseconds since the epoch that an expiry option gives:
/// `EX` is `duration` seconds after `now`, `PX` is `duration` milliseconds
/// after `now`, `EXAT` is the instant `duration` in seconds, `PXAT` is the
/// instant `duration` itself.
pub open spec fn expire_time_of(command_type: Seq<char>, duration: u64, now: Option<ExpireTime>) -> Result<
    ExpireTime,
    Error,
> {
    if command_type == "EX"@ {
        instant_after(now, duration as nat * 1000)
    } else if command_type == "PX"@ {
        instant_after(now, duration as nat)
    } else if command_type == "EXAT"@ {
        Ok((duration * 1000) as u128)
    } else if command_type == "PXAT"@ {
        Ok(duration as u128)
    } else {
        Err(Error::Command(CommandError::UnknownOption))
    }
}

/// Adds `delay` milliseconds to the instant `now`.
fn add_delay(now: Option<ExpireTime>, delay: u128) -> (r: Result<ExpireTime, Error>)
    ensures
        r == instant_after(now, delay as nat),
{
    match now {
        Some(instant) => match instant.checked_add(delay) {
            Some(expire_time) => Ok(expire_time),
            None => Err(Error::Execution(ExecutionError::ExpireTimeOverflow)),
        },
        None => Err(Error::Execution(ExecutionError::ClockBeforeEpoch)),
    }
}

/// Turns the argument of the expiry option `command_type` into an instant,
/// where `now` is the present instant.
pub fn calculate_expire_time_at(command_type: &str, duration: u64, now: Option<ExpireTime>) -> (r:
    Result<ExpireTime, Error>)
    ensures
        r == expire_time_of(command_type@, duration, now),
{
    if str_eq(command_type, "EX") {
        add_delay(now, duration as u128 * 1000)
    } else if str_eq(command_type, "PX") {
        add_delay(now, duration as u128)
    } else if str_eq(command_type, "EXAT") {
        Ok(duration as u128 * 1000)
    } else if str_eq(command_type, "PXAT") {
        Ok(duration as u128)
    } else {
        Err(Error::Command(CommandError::UnknownOption))
    }
}

/// Turns the argument of the expiry option `command_type` into an instant,
/// counted from the system clock where the option is relative.
pub fn calculate_expire_time(command_type: &str, duration: u64) -> (r: Result<ExpireTime, Error>)
    ensures
        exists|now: Option<ExpireTime>| r == #[trigger] expire_time_of(command_type@, duration, now),
{
    let now = unix_millis();
    calculate_expire_time_at(command_type, duration, now)
}

/// The view of an argument that may be missing.
pub open spec fn argument_view(argument: Option<&RespValue>) -> Option<RespValueView> {
    match argument {
        Some(value) => Some(value@),
        None => None,
    }
}

/// Whether `name` is one of the options that set an expiry.
pub open spec fn is_expiry_option(name: Seq<char>) -> bool {
    name == "EX"@ || name == "PX"@ || name == "EXAT"@ || name == "PXAT"@
}

/// What one option does to a `SET`: the command with the option applied, and
/// whether the option took the argument behind it. `name` is the option in
/// upper case, `argument` what follows it, if anything does.
///
/// `NX` and `XX` set the condition, the later one replacing the earlier.
/// `GET` asks for the previous value. `EX`, `PX`, `EXAT` and `PXAT` take one
/// bulk string that holds an unsigned number, and set the expiry.
pub open spec fn option_applied(
    set: SetView,
    name: Seq<char>,
    argument: Option<RespValueView>,
    now: Option<ExpireTime>,
) -> Result<(SetView, bool), Error> {
    if name == "NX"@ {
        Ok((SetView { nx_or_xx: Some(SetCondition::NX), ..set }, false))
    } else if name == "XX"@ {
        Ok((SetView { nx_or_xx: Some(SetCondition::XX), ..set }, false))
    } else if name == "GET"@ {
        Ok((SetView { get: true, ..set }, false))
    } else if is_expiry_option(name) {
        match argument {
            None => Err(Error::Command(CommandError::MissingExpireTime)),
            Some(RespValueView::BulkString(amount)) => match unsigned_decimal(
                amount,
                u64::MAX as nat,
            ) {
                None => Err(Error::Command(CommandError::InvalidExpireTime)),
                Some(duration) => match expire_time_of(name, duration as u64, now) {
                    Ok(expire_time) => Ok((SetView { expire_time: Some(expire_time), ..set }, true)),
                    Err(error) => Err(error),
                },
            },
            Some(_) => Err(Error::Command(CommandError::InvalidArgument)),
        }
    } else {
        Err(Error::Command(CommandError::UnknownOption))
    }
}

/// What a run of options does to a `SET`, read from left to right: the
/// command after the options that were applied, and the error of the first
/// option that fails, if one does. An option is a bulk string, and is
/// understood whatever its case.
pub open spec fn with_options(
    set: SetView,
    options: Seq<RespValueView>,
    now: Option<ExpireTime>,
) -> (SetView, Result<(), Error>)
    decreases options.len(),
{
    if options.len() == 0 {
        (set, Ok(()))
    } else {
        match options[0] {
            RespValueView::BulkString(name) => {
                let argument = if options.len() > 1 {
                    Some(options[1])
                } else {
                    None
                };
                match option_applied(set, uppercase(name), argument, now) {
                    Ok((next, took)) => if took && options.len() > 1 {
                        with_options(next, options.skip(2), now)
                    } else {
                        with_options(next, options.skip(1), now)
                    },
                    Err(error) => (set, Err(error)),
                }
            },
            _ => (set, Err(Error::Command(CommandError::InvalidArgument))),
        }
    }
}

impl SetCommand {
    /// Applies the option `name`, given in upper case, with `argument` as
    /// what follows it. Returns whether the option took the argument. On an
    /// error the command stays as it was.
    pub fn apply_option(
        &mut self,
        name: &str,
        argument: Option<&RespValue>,
        now: Option<ExpireTime>,
    ) -> (r: Result<bool, Error>)
        ensures
            match option_applied(old(self)@, name@, argument_view(argument), now) {
                Ok((next, took)) => r == Ok::<bool, Error>(took) && final(self)@ == next,
                Err(error) => r == Err::<bool, Error>(error) && final(self)@ == old(self)@,
            },
    {
        if str_eq(name, "NX") {
            self.nx_or_xx = Some(SetCondition::NX);
            Ok(false)
        } else if str_eq(name, "XX") {
            self.nx_or_xx = Some(SetCondition::XX);
            Ok(false)
        } else if str_eq(name, "GET") {
            self.get = true;
            Ok(false)
        } else if str_eq(name, "EX") || str_eq(name, "PX") || str_eq(name, "EXAT") || str_eq(
            name,
            "PXAT",
        ) {
            let amount = match argument {
                None => {
                    return Err(Error::Command(CommandError::MissingExpireTime));
                },
                Some(RespValue::BulkString(amount)) => amount,
                Some(_) => {
                    return Err(Error::Command(CommandError::InvalidArgument));
                },
            };
            let duration = match parse_u64(amount.as_str()) {
                None => {
                    return Err(Error::Command(CommandError::InvalidExpireTime));
                },
                Some(duration) => duration,
            };
            match calculate_expire_time_at(name, duration, now) {
                Ok(expire_time) => {
                    self.expire_time = Some(expire_time);
                    Ok(true)
                },
                Err(error) => Err(error),
            }
        } else {
            Err(Error::Command(CommandError::UnknownOption))
        }
    }

    /// Applies `options` from left to right, with `now` as the present
    /// instant, and stops at the first that fails.
    pub fn set_option_at(&mut self, options: &[RespValue], now: Option<ExpireTime>) -> (r: Result<
        (),
        Error,
    >)
        ensures
            (final(self)@, r) == with_options(old(self)@, value_views(options@), now),
    {
        let ghost views = value_views(options@);
        let mut i: usize = 0;
        assert(views.skip(0) =~= views);
        while i < options.len()
            invariant
                i <= options.len(),
                views == value_views(options@),
                with_options(old(self)@, views, now) == with_options(self@, views.skip(i as int), now),
            decreases options.len() - i,
        {
            let ghost rest = views.skip(i as int);
            assert(rest[0] == options@[i as int]@);
            let name = match &options[i] {
                RespValue::BulkString(name) => name,
                _ => {
                    return Err(Error::Command(CommandError::InvalidArgument));
                },
            };
            let argument = if i + 1 < options.len() {
                assert(rest[1] == options@[i + 1]@);
                Some(&options[i + 1])
            } else {
                None
            };
            let upper = to_uppercase(name.as_str());
            match self.apply_option(upper.as_str(), argument, now) {
                Ok(took) => {
                    if took && i + 1 < options.len() {
                        assert(rest.skip(2) =~= views.skip(i + 2));
                        i += 2;
                    } else {
                        assert(rest.skip(1) =~= views.skip(i + 1));
                        i += 1;
                    }
                },
                Err(error) => {
                    return Err(error);
                },
            }
        }
        Ok(())
    }

    /// Applies `options` from left to right and stops at the first that
    /// fails. The system clock is read once; every relative expiry among the
    /// options counts from that reading.
    pub fn set_option(&mut self, options: &[RespValue]) -> (r: Result<(), Error>)
        ensures
            exists|now: Option<ExpireTime>|
                (final(self)@, r) == #[trigger] with_options(
                    old(self)@,
                    value_views(options@),
                    now,
                ),
    {
        let now = unix_millis();
        self.set_option_at(options, now)
    }
}

} // verus!
